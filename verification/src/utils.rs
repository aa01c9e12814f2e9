//! Directories of the data store, names that are safe in a path, and reads
//! that go through the cache.

use crate::cache::{DataStorageCache, Representation};
use crate::errors::AppError;
use crate::keyed::{has_key, key_index};
use crate::path_guard::{
    extension, extension_of, file_name, file_name_of, join, joined_path, lexiclean_of, lies_inside, resolved_path, safe_join, safety_check_only,
    stays_inside, SafeFsError,
};
use crate::recency::{stored, touched, CacheEntryView};
use crate::rows::{row_cells, row_get_index, row_insert, row_len, row_new, table_cells, with_cell};
use crate::tabular::{chosen_separator, csv_records, holds_name, parse_table, table_of};
use crate::text::{
    chars_of, is_blank, lemma_texts_push, str_eq, string_from_chars, texts, trimmed,
};
use indexmap::IndexMap;
use percent_encoding::{percent_encode, NON_ALPHANUMERIC};
use rand::Rng;
use vstd::prelude::*;
use vstd::string::StringSliceAdditionalSpecFns;

verus! {

/// The directory of the files that all users share.
pub const COMMON: &'static str = "common";

/// The directory of the users' own directories.
pub const USERS: &'static str = "users";

/// The directory that keeps what deleted users leave behind.
pub const USERS_DELETED: &'static str = "deleted_users";

/// The directory of a user's catalogue.
pub const CATALOG: &'static str = "catalog";

/// The directory of the attachments.
pub const ATTACHMENTS: &'static str = "attachments";

/// Whether a character is an ASCII letter or digit.
pub open spec fn is_alphanumeric(c: char) -> bool {
    ('a' <= c && c <= 'z') || ('A' <= c && c <= 'Z') || ('0' <= c && c <= '9')
}

/// Whether a character may stand in a sanitised name: ASCII letters and
/// digits, the hyphen, the underscore and, where dots are allowed, the dot.
pub open spec fn is_safe_char(c: char, dots: bool) -> bool {
    is_alphanumeric(c) || c == '-' || c == '_' || (dots && c == '.')
}

/// The characters of `s` that may stand in a sanitised name, in order.
pub open spec fn safe_chars(s: Seq<char>, dots: bool) -> Seq<char>
    decreases s.len(),
{
    if s.len() == 0 {
        Seq::empty()
    } else if is_safe_char(s.last(), dots) {
        safe_chars(s.drop_last(), dots).push(s.last())
    } else {
        safe_chars(s.drop_last(), dots)
    }
}

/// Whether a character may stand in a sanitised name.
fn safe_char(c: char, dots: bool) -> (r: bool)
    ensures
        r == is_safe_char(c, dots),
{
    ('a' <= c && c <= 'z') || ('A' <= c && c <= 'Z') || ('0' <= c && c <= '9') || c == '-' || c
        == '_' || (dots && c == '.')
}

/// The characters of `input` that may stand in a sanitised name.
fn keep_safe(input: &str, dots: bool) -> (name: String)
    ensures
        name@ == safe_chars(input@, dots),
{
    let v = chars_of(input);
    let mut out: Vec<char> = Vec::new();
    let mut i: usize = 0;
    while i < v.len()
        invariant
            i <= v.len(),
            out@ == safe_chars(v@.take(i as int), dots),
        decreases v.len() - i,
    {
        assert(v@.take(i + 1).drop_last() =~= v@.take(i as int));
        if safe_char(v[i], dots) {
            out.push(v[i]);
        }
        i += 1;
    }
    assert(v@.take(v.len() as int) =~= v@);
    string_from_chars(&out)
}

/// `input` without every character that is not an ASCII letter or digit, a
/// hyphen or an underscore.
pub fn sanitize_alphanumeric_and_dashes(input: &str) -> (name: String)
    ensures
        name@ == safe_chars(input@, false),
{
    keep_safe(input, false)
}

/// `input` without every character that is not an ASCII letter or digit, a
/// hyphen, an underscore or a dot.
pub fn sanitize_alphanumeric_and_dashes_and_dots(input: &str) -> (name: String)
    ensures
        name@ == safe_chars(input@, true),
{
    keep_safe(input, true)
}

/// Every safe character of a name is kept, no other one is, and a name made
/// of safe characters only is left as it is.
pub proof fn law_sanitized_names(s: Seq<char>, dots: bool)
    ensures
        forall|i: int|
            0 <= i < safe_chars(s, dots).len() ==> is_safe_char(
                #[trigger] safe_chars(s, dots)[i],
                dots,
            ),
        safe_chars(s, dots).len() <= s.len(),
        (forall|i: int| 0 <= i < s.len() ==> is_safe_char(#[trigger] s[i], dots)) ==> safe_chars(
            s,
            dots,
        ) == s,
        safe_chars(safe_chars(s, dots), dots) == safe_chars(s, dots),
    decreases s.len(),
{
    if s.len() > 0 {
        law_sanitized_names(s.drop_last(), dots);
        let front = safe_chars(s.drop_last(), dots);
        if forall|i: int| 0 <= i < s.len() ==> is_safe_char(#[trigger] s[i], dots) {
            assert forall|i: int| 0 <= i < s.drop_last().len() implies is_safe_char(
                #[trigger] s.drop_last()[i],
                dots,
            ) by {
                assert(s.drop_last()[i] == s[i]);
            }
            assert(front.push(s.last()) =~= s);
        }
        if is_safe_char(s.last(), dots) {
            let kept = front.push(s.last());
            assert(kept.drop_last() =~= front);
        }
    }
}

/// The digit of a number below sixteen, with capital letters.
pub open spec fn hex_digit(n: int) -> char {
    if n < 10 {
        crate::text::digit(n as nat)
    } else if n == 10 {
        'A'
    } else if n == 11 {
        'B'
    } else if n == 12 {
        'C'
    } else if n == 13 {
        'D'
    } else if n == 14 {
        'E'
    } else {
        'F'
    }
}

/// Whether a byte is an ASCII letter or digit.
pub open spec fn is_alphanumeric_byte(b: u8) -> bool {
    (0x30 <= b <= 0x39) || (0x41 <= b <= 0x5A) || (0x61 <= b <= 0x7A)
}

/// A byte as it stands in a percent-encoded text: itself where it is an ASCII
/// letter or digit, else a percent sign and its two hexadecimal digits.
pub open spec fn encoded_byte(b: u8) -> Seq<char> {
    if is_alphanumeric_byte(b) {
        seq![b as char]
    } else {
        seq!['%', hex_digit(b as int / 16), hex_digit(b as int % 16)]
    }
}

/// The percent-encoded form of bytes.
pub open spec fn percent_encoded(bytes: Seq<u8>) -> Seq<char>
    decreases bytes.len(),
{
    if bytes.len() == 0 {
        Seq::empty()
    } else {
        percent_encoded(bytes.drop_last()) + encoded_byte(bytes.last())
    }
}

/// `percent_encoding::percent_encode` with the set `NON_ALPHANUMERIC`: every
/// byte of the text that is no ASCII letter or digit is replaced by a percent
/// sign and its two capital hexadecimal digits.
#[verifier::external_body]
fn percent_encode_text(text: &str) -> (encoded: String)
    ensures
        encoded@ == percent_encoded(text.spec_bytes()),
{
    percent_encode(text.as_bytes(), NON_ALPHANUMERIC).to_string()
}

/// The name of the directory of a user: the e-mail address, percent-encoded
/// but for its ASCII letters and digits.
pub fn sanitize_email_for_path(email: &str) -> (name: String)
    ensures
        name@ == percent_encoded(email.spec_bytes()),
{
    percent_encode_text(email)
}

/// The path of the directory of a user below the data directory.
pub open spec fn personal_directory(data_dir: Seq<char>, email_bytes: Seq<u8>) -> Seq<char> {
    joined_path(joined_path(data_dir, USERS@), percent_encoded(email_bytes))
}

/// The directory of a user below the data directory.
pub fn user_personal_directory_from_email(data_dir: &str, email: &str) -> (path: String)
    ensures
        path@ == personal_directory(data_dir@, email.spec_bytes()),
{
    let users = join(data_dir, USERS);
    let name = sanitize_email_for_path(email);
    join(users.as_str(), name.as_str())
}

/// The directory that keeps what a deleted user left behind.
pub fn user_deleted_directory_from_email(data_dir: &str, email: &str) -> (path: String)
    ensures
        path@ == joined_path(
            joined_path(data_dir@, USERS_DELETED@),
            percent_encoded(email.spec_bytes()),
        ),
{
    let deleted = join(data_dir, USERS_DELETED);
    let name = sanitize_email_for_path(email);
    join(deleted.as_str(), name.as_str())
}

/// The directory of the catalogue of a user.
pub fn user_catalog_directory_from_email(data_dir: &str, email: &str) -> (path: String)
    ensures
        path@ == joined_path(personal_directory(data_dir@, email.spec_bytes()), CATALOG@),
{
    let personal = user_personal_directory_from_email(data_dir, email);
    join(personal.as_str(), CATALOG)
}

/// The directory of the files that all users share.
pub fn common_directory(data_dir: &str) -> (path: String)
    ensures
        path@ == joined_path(data_dir@, COMMON@),
{
    join(data_dir, COMMON)
}

/// Texts that can tell whether they hold anything but white space.
pub trait StringExt {
    /// The characters of the text.
    spec fn characters(&self) -> Seq<char>;

    /// Whether the text is empty or holds white space only.
    fn is_empty_or_whitespace(&self) -> (r: bool)
        ensures
            r == (trimmed(self.characters()).len() == 0),
    ;
}

impl StringExt for str {
    open spec fn characters(&self) -> Seq<char> {
        self@
    }

    fn is_empty_or_whitespace(&self) -> (r: bool) {
        is_blank(self)
    }
}

impl StringExt for String {
    open spec fn characters(&self) -> Seq<char> {
        self@
    }

    fn is_empty_or_whitespace(&self) -> (r: bool) {
        is_blank(self.as_str())
    }
}

/// The characters that an identifier is drawn from.
pub open spec fn id_alphabet() -> Seq<char> {
    "ABCDEFGHIJKLMNOPQRSTUVWXYZ0123456789"@
}

/// `Rng::random_range` on the thread's generator: some number below `bound`.
#[verifier::external_body]
fn random_below(bound: usize) -> (n: usize)
    requires
        bound > 0,
    ensures
        n < bound,
{
    rand::rng().random_range(0..bound)
}

/// A random identifier of `len` characters, each a capital ASCII letter or a
/// digit.
pub fn generate_random_id(len: usize) -> (id: String)
    ensures
        id@.len() == len,
        forall|i: int| 0 <= i < len ==> id_alphabet().contains(#[trigger] id@[i]),
{
    let alphabet = chars_of("ABCDEFGHIJKLMNOPQRSTUVWXYZ0123456789");
    proof {
        reveal_strlit("ABCDEFGHIJKLMNOPQRSTUVWXYZ0123456789");
    }
    let mut out: Vec<char> = Vec::new();
    let mut i: usize = 0;
    while i < len
        invariant
            i <= len,
            out@.len() == i,
            alphabet@ == id_alphabet(),
            alphabet@.len() == 36,
            forall|k: int| 0 <= k < i ==> id_alphabet().contains(#[trigger] out@[k]),
        decreases len - i,
    {
        let pick = random_below(alphabet.len());
        let c = alphabet[pick];
        assert(id_alphabet()[pick as int] == c);
        out.push(c);
        i += 1;
    }
    string_from_chars(&out)
}

/// What a read through the cache finds: the content, or the canonical path
/// of the file that is to be loaded.
#[derive(Debug)]
pub enum Lookup<T> {
    Hit(T),
    Miss(String),
}

/// Whether a lookup gave what the cache held for the path: a hit with the
/// cached bytes, or a miss that names the path.
pub open spec fn bytes_found(
    lookup: Lookup<Vec<u8>>,
    entries: Seq<(Seq<char>, CacheEntryView)>,
    path: Seq<char>,
) -> bool {
    match lookup {
        Lookup::Hit(bytes) => has_key(entries, path) && entries[key_index(entries, path)].1
            == CacheEntryView::Bytes(bytes@),
        Lookup::Miss(load) => !has_key(entries, path) && load@ == path,
    }
}

/// Whether a lookup gave what the cache held for the path: a hit with the
/// cached text, or a miss that names the path.
pub open spec fn text_found(
    lookup: Lookup<String>,
    entries: Seq<(Seq<char>, CacheEntryView)>,
    path: Seq<char>,
) -> bool {
    match lookup {
        Lookup::Hit(text) => has_key(entries, path) && entries[key_index(entries, path)].1
            == CacheEntryView::Text(text@),
        Lookup::Miss(load) => !has_key(entries, path) && load@ == path,
    }
}

/// Whether a lookup gave what the cache held for the path: a hit with the
/// cached rows, or a miss that names the path.
pub open spec fn rows_found(
    lookup: Lookup<Vec<IndexMap<String, String>>>,
    entries: Seq<(Seq<char>, CacheEntryView)>,
    path: Seq<char>,
) -> bool {
    match lookup {
        Lookup::Hit(rows) => has_key(entries, path) && entries[key_index(entries, path)].1
            == CacheEntryView::Rows(table_cells(rows@)),
        Lookup::Miss(load) => !has_key(entries, path) && load@ == path,
    }
}

/// What a read leaves in the cache: a read of a path that passed the check
/// makes a hit the most recently used entry of its representation; nothing
/// else changes.
pub open spec fn cache_after_read(
    before: &DataStorageCache,
    after: &DataStorageCache,
    kind: Representation,
    path: Option<Seq<char>>,
) -> bool {
    &&& forall|any: Representation| after.capacity(any) == before.capacity(any)
    &&& forall|other: Representation|
        other != kind ==> after.entries(other) == before.entries(other)
    &&& after.entries(kind) == (match path {
        Some(p) => touched(before.entries(kind), p),
        None => before.entries(kind),
    })
}

/// Reads the bytes of the file `target` below `base` through the cache. A
/// target that leaves `base` is refused and the cache is not touched.
pub fn safe_read(base: &str, target: &str, cache: &mut DataStorageCache) -> (r: Result<
    Lookup<Vec<u8>>,
    SafeFsError,
>)
    requires
        old(cache).wf(),
    ensures
        final(cache).wf(),
        stays_inside(base@, target@) ==> (r matches Ok(lookup) && bytes_found(
            lookup,
            old(cache).entries(Representation::Bytes),
            resolved_path(base@, target@),
        )) && cache_after_read(
            old(cache),
            final(cache),
            Representation::Bytes,
            Some(resolved_path(base@, target@)),
        ),
        !stays_inside(base@, target@) ==> (r matches Err(SafeFsError::PathTraversalDetected))
            && cache_after_read(old(cache), final(cache), Representation::Bytes, None),
{
    match safe_join(base, target) {
        Err(error) => Err(error),
        Ok(path) => match cache.get_bytes(path.as_str()) {
            Some(bytes) => Ok(Lookup::Hit(bytes)),
            None => Ok(Lookup::Miss(path)),
        },
    }
}

/// Reads the bytes of the file at the full path `path` inside `root` through
/// the cache. A path outside `root` is refused and the cache is not touched.
pub fn get_file_bytes(path: &str, root: &str, cache: &mut DataStorageCache) -> (r: Result<
    Lookup<Vec<u8>>,
    SafeFsError,
>)
    requires
        old(cache).wf(),
    ensures
        final(cache).wf(),
        lies_inside(root@, path@) ==> (r matches Ok(lookup) && bytes_found(
            lookup,
            old(cache).entries(Representation::Bytes),
            lexiclean_of(path@),
        )) && cache_after_read(
            old(cache),
            final(cache),
            Representation::Bytes,
            Some(lexiclean_of(path@)),
        ),
        !lies_inside(root@, path@) ==> (r matches Err(SafeFsError::PathTraversalDetected))
            && cache_after_read(old(cache), final(cache), Representation::Bytes, None),
{
    match safety_check_only(root, path) {
        Err(error) => Err(error),
        Ok(safe_path) => match cache.get_bytes(safe_path.as_str()) {
            Some(bytes) => Ok(Lookup::Hit(bytes)),
            None => Ok(Lookup::Miss(safe_path)),
        },
    }
}

/// Reads the text of the file at the full path `path` inside `root` through
/// the cache. A path outside `root` is refused and the cache is not touched.
pub fn get_file_as_string_by_path(path: &str, root: &str, cache: &mut DataStorageCache) -> (r:
    Result<Lookup<String>, SafeFsError>)
    requires
        old(cache).wf(),
    ensures
        final(cache).wf(),
        lies_inside(root@, path@) ==> (r matches Ok(lookup) && text_found(
            lookup,
            old(cache).entries(Representation::Text),
            lexiclean_of(path@),
        )) && cache_after_read(
            old(cache),
            final(cache),
            Representation::Text,
            Some(lexiclean_of(path@)),
        ),
        !lies_inside(root@, path@) ==> (r matches Err(SafeFsError::PathTraversalDetected))
            && cache_after_read(old(cache), final(cache), Representation::Text, None),
{
    match safety_check_only(root, path) {
        Err(error) => Err(error),
        Ok(safe_path) => match cache.get_text(safe_path.as_str()) {
            Some(text) => Ok(Lookup::Hit(text)),
            None => Ok(Lookup::Miss(safe_path)),
        },
    }
}

/// The canonical path to read the file at the full path `path` from, past the
/// cache; a path outside `root` is refused.
pub fn get_file_bytes_no_cache(path: &str, root: &str) -> (r: Result<String, SafeFsError>)
    ensures
        lies_inside(root@, path@) ==> r is Ok && r->Ok_0@ == lexiclean_of(path@),
        !lies_inside(root@, path@) ==> r is Err && r->Err_0 is PathTraversalDetected,
{
    safety_check_only(root, path)
}

/// Looks the rows of the table at the full path `target` inside `base` up in
/// the cache. A path outside `base` is answered as forbidden and the cache is
/// not touched.
pub fn find_cached_rows(base: &str, target: &str, cache: &mut DataStorageCache) -> (r: Result<
    Lookup<Vec<IndexMap<String, String>>>,
    AppError,
>)
    requires
        old(cache).wf(),
    ensures
        final(cache).wf(),
        lies_inside(base@, target@) ==> (r matches Ok(lookup) && rows_found(
            lookup,
            old(cache).entries(Representation::Rows),
            lexiclean_of(target@),
        )) && cache_after_read(
            old(cache),
            final(cache),
            Representation::Rows,
            Some(lexiclean_of(target@)),
        ),
        !lies_inside(base@, target@) ==> (r matches Err(AppError::Forbidden)) && cache_after_read(
            old(cache),
            final(cache),
            Representation::Rows,
            None,
        ),
{
    match safety_check_only(base, target) {
        Err(error) => Err(AppError::from(error)),
        Ok(safe_path) => match cache.get_rows(safe_path.as_str()) {
            Some(rows) => Ok(Lookup::Hit(rows)),
            None => Ok(Lookup::Miss(safe_path)),
        },
    }
}

/// Parses the content of the table at the canonical path `path` and keeps the
/// rows in the cache as the most recently used rows. A content that does not
/// parse leaves the cache as it was.
pub fn parse_and_cache_rows(path: String, content: &str, cache: &mut DataStorageCache) -> (r:
    Result<Vec<IndexMap<String, String>>, AppError>)
    requires
        old(cache).wf(),
    ensures
        final(cache).wf(),
        forall|any: Representation| final(cache).capacity(any) == old(cache).capacity(any),
        forall|other: Representation|
            other != Representation::Rows ==> final(cache).entries(other)
                == old(cache).entries(other),
        content@.len() == 0 ==> (r matches Err(AppError::InvalidData(detail)) && detail@
            == "Empty file"@),
        content@.len() > 0 && csv_records(content@, chosen_separator(content@)) is None ==> (
        r matches Err(AppError::ParseError(_))),
        content@.len() > 0 && csv_records(content@, chosen_separator(content@)) is Some ==> (
        r matches Ok(rows) && table_cells(rows@) == table_of(
            csv_records(content@, chosen_separator(content@))->0,
        )),
        r is Err ==> final(cache).entries(Representation::Rows) == old(cache).entries(
            Representation::Rows,
        ),
        r matches Ok(rows) ==> final(cache).entries(Representation::Rows) == stored(
            old(cache).entries(Representation::Rows),
            old(cache).capacity(Representation::Rows),
            path@,
            CacheEntryView::Rows(table_cells(rows@)),
        ),
{
    match parse_table(content) {
        Err(error) => Err(error),
        Ok(rows) => {
            let kept = crate::rows::clone_table(&rows);
            cache.put_rows(path, kept);
            Ok(rows)
        },
    }
}


/// The files by name after the first `n` paths were taken in: each path that
/// has a file name is kept under that name, in place of a path that was kept
/// under it before; a new name goes last.
pub open spec fn by_name(files: Seq<(Seq<char>, Seq<char>)>, paths: Seq<Seq<char>>, n: nat) -> Seq<
    (Seq<char>, Seq<char>),
>
    decreases n,
{
    if n == 0 || n > paths.len() {
        files
    } else {
        let before = by_name(files, paths, (n - 1) as nat);
        match file_name_of(paths[n - 1]) {
            Some(name) => with_cell(before, name, paths[n - 1]),
            None => before,
        }
    }
}

/// The paths of the files that two directories offer together: the files of
/// the common directory, each replaced by the user's file of the same name
/// where there is one, then the user's files of other names.
pub open spec fn merged_paths(common: Seq<Seq<char>>, user: Seq<Seq<char>>) -> Seq<Seq<char>> {
    let files = by_name(by_name(Seq::empty(), common, common.len()), user, user.len());
    Seq::new(files.len(), |i: int| files[i].1)
}

/// Takes the paths in by their file names.
fn take_in(files: &mut IndexMap<String, String>, paths: &Vec<String>)
    ensures
        row_cells(*final(files)) == by_name(row_cells(*old(files)), texts(paths@), paths@.len()),
{
    let mut i: usize = 0;
    while i < paths.len()
        invariant
            i <= paths.len(),
            row_cells(*files) == by_name(row_cells(*old(files)), texts(paths@), i as nat),
        decreases paths.len() - i,
    {
        assert(texts(paths@)[i as int] == paths@[i as int]@);
        match file_name(paths[i].as_str()) {
            Some(name) => {
                row_insert(files, name, paths[i].clone());
            },
            None => {},
        }
        i += 1;
    }
}

/// Merges the files of the common directory and of a user's directory: where
/// both have a file of one name, the user's file is the one that counts.
pub fn merge_directories(common_files: &Vec<String>, user_files: &Vec<String>) -> (merged: Vec<
    String,
>)
    ensures
        texts(merged@) == merged_paths(texts(common_files@), texts(user_files@)),
{
    let mut files = row_new();
    take_in(&mut files, common_files);
    take_in(&mut files, user_files);
    let n: usize = row_len(&files);
    let mut merged: Vec<String> = Vec::new();
    let mut i: usize = 0;
    while i < n
        invariant
            i <= n,
            n == row_cells(files).len(),
            merged@.len() == i,
            forall|k: int| 0 <= k < i ==> (#[trigger] merged@[k])@ == row_cells(files)[k].1,
        decreases n - i,
    {
        match row_get_index(&files, i) {
            Some(cell) => {
                merged.push(cell.1.clone());
            },
            None => {
                merged.push(String::new());
            },
        }
        i += 1;
    }
    assert(texts(merged@) =~= merged_paths(texts(common_files@), texts(user_files@)));
    merged
}


/// The first `n` names, each once, in the order in which they first appear.
pub open spec fn unique_names(names: Seq<Seq<char>>, n: nat) -> Seq<Seq<char>>
    decreases n,
{
    if n == 0 || n > names.len() {
        Seq::empty()
    } else {
        let before = unique_names(names, (n - 1) as nat);
        if before.contains(names[n - 1]) {
            before
        } else {
            before.push(names[n - 1])
        }
    }
}

/// The names of the files that several directories hold, each name once.
pub fn list_unique_file_names(names: &Vec<String>) -> (unique: Vec<String>)
    ensures
        texts(unique@) == unique_names(texts(names@), names@.len()),
{
    let mut unique: Vec<String> = Vec::new();
    let mut i: usize = 0;
    assert(texts(unique@) =~= unique_names(texts(names@), 0));
    while i < names.len()
        invariant
            i <= names.len(),
            texts(unique@) == unique_names(texts(names@), i as nat),
        decreases names.len() - i,
    {
        assert(texts(names@)[i as int] == names@[i as int]@);
        if !holds_name(&unique, names[i].as_str()) {
            let name = names[i].clone();
            proof {
                lemma_texts_push(unique@, name);
            }
            unique.push(name);
        }
        i += 1;
    }
    unique
}

/// Those of the first `n` paths whose file name has the extension, in order.
pub open spec fn paths_with_extension(paths: Seq<Seq<char>>, wanted: Seq<char>, n: nat) -> Seq<
    Seq<char>,
>
    decreases n,
{
    if n == 0 || n > paths.len() {
        Seq::empty()
    } else if extension_of(paths[n - 1]) == Some(wanted) {
        paths_with_extension(paths, wanted, (n - 1) as nat).push(paths[n - 1])
    } else {
        paths_with_extension(paths, wanted, (n - 1) as nat)
    }
}

/// The files with the given extension that the common directory and a user's
/// directory offer together; the user's file counts where both have one of a
/// name.
pub fn all_files_with_extension(
    common_files: &Vec<String>,
    user_files: &Vec<String>,
    wanted: &str,
) -> (files: Vec<String>)
    ensures
        ({
            let merged = merged_paths(texts(common_files@), texts(user_files@));
            texts(files@) == paths_with_extension(merged, wanted@, merged.len())
        }),
{
    let merged = merge_directories(common_files, user_files);
    let mut files: Vec<String> = Vec::new();
    let mut i: usize = 0;
    assert(texts(files@) =~= paths_with_extension(texts(merged@), wanted@, 0));
    while i < merged.len()
        invariant
            i <= merged.len(),
            texts(files@) == paths_with_extension(texts(merged@), wanted@, i as nat),
        decreases merged.len() - i,
    {
        assert(texts(merged@)[i as int] == merged@[i as int]@);
        let keep = match extension(merged[i].as_str()) {
            Some(found) => str_eq(found.as_str(), wanted),
            None => false,
        };
        if keep {
            let path = merged[i].clone();
            proof {
                lemma_texts_push(files@, path);
            }
            files.push(path);
        }
        i += 1;
    }
    files
}

/// The file to read where a user may have a file of their own in place of a
/// shared one: the user's file where it exists, else the shared file where
/// that exists, else none.
pub fn get_file_path_user_common(
    user_file_path: String,
    user_file_exists: bool,
    common_file_path: String,
    common_file_exists: bool,
) -> (chosen: Option<String>)
    ensures
        user_file_exists ==> chosen == Some(user_file_path),
        !user_file_exists && common_file_exists ==> chosen == Some(common_file_path),
        !user_file_exists && !common_file_exists ==> chosen is None,
{
    if user_file_exists {
        Some(user_file_path)
    } else if common_file_exists {
        Some(common_file_path)
    } else {
        None
    }
}

} // verus!
