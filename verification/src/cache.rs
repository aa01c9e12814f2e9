//! The read cache: three least-recently-used maps from canonical path to the
//! text, the bytes and the parsed rows of a file.
//!
//! Each representation has its own capacity, counted in entries, and evicts on
//! its own. The cache never reads a file: a caller looks a path up, loads the
//! file on a miss and stores what it loaded.

use crate::errors::AppError;
use crate::keyed::{has_key, key_index, lemma_key_index, lemma_without_key, without_key};
use crate::recency::{
    fits, lemma_kept_members, lemma_stored, lemma_stored_members, lemma_touched, lru_capacity, lru_clear, lru_entries, lru_get,
    lru_len,
    lru_new, lru_pop, lru_put, lru_values, stored, touched, CacheEntry, CacheEntryView,
};
use crate::rows::{row_cells, row_get_index, row_len, table_cells};
use indexmap::IndexMap;
use lru::LruCache;
use vstd::prelude::*;
use vstd::string::StringExecFns;

verus! {

/// The representations that the cache keeps apart.
#[derive(Clone, Copy, PartialEq, Eq, Structural, Debug)]
pub enum Representation {
    /// Decoded text.
    Text,
    /// Raw bytes.
    Bytes,
    /// Parsed table rows.
    Rows,
}

/// Whether a cached content belongs to the representation.
pub open spec fn is_kind(content: CacheEntryView, kind: Representation) -> bool {
    match kind {
        Representation::Text => content is Text,
        Representation::Bytes => content is Bytes,
        Representation::Rows => content is Rows,
    }
}

/// Every content belongs to the representation.
pub open spec fn all_kind(entries: Seq<(Seq<char>, CacheEntryView)>, kind: Representation) -> bool {
    forall|i: int| 0 <= i < entries.len() ==> is_kind((#[trigger] entries[i]).1, kind)
}

/// The capacity that a requested size gives: the size, or one where it is zero.
pub open spec fn effective_capacity(size: usize) -> nat {
    if size == 0 {
        1
    } else {
        size as nat
    }
}

/// The number of bytes that a text takes in UTF-8.
pub open spec fn text_bytes(text: Seq<char>) -> nat {
    vstd::utf8::encode_utf8(text).len()
}

/// The bytes of the names and values of the cells.
pub open spec fn cells_size(cells: Seq<(Seq<char>, Seq<char>)>) -> nat
    decreases cells.len(),
{
    if cells.len() == 0 {
        0
    } else {
        cells_size(cells.drop_last()) + text_bytes(cells.last().0) + text_bytes(cells.last().1)
    }
}

/// The bytes of the cells of all rows.
pub open spec fn table_size(rows: Seq<Seq<(Seq<char>, Seq<char>)>>) -> nat
    decreases rows.len(),
{
    if rows.len() == 0 {
        0
    } else {
        table_size(rows.drop_last()) + cells_size(rows.last())
    }
}

/// The bytes that a cached content holds.
pub open spec fn content_size(content: CacheEntryView) -> nat {
    match content {
        CacheEntryView::Text(text) => text_bytes(text),
        CacheEntryView::Bytes(bytes) => bytes.len(),
        CacheEntryView::Rows(rows) => table_size(rows),
    }
}

/// The bytes that the contents of the entries hold together.
pub open spec fn entries_size(entries: Seq<(Seq<char>, CacheEntryView)>) -> nat
    decreases entries.len(),
{
    if entries.len() == 0 {
        0
    } else {
        entries_size(entries.drop_last()) + content_size(entries.last().1)
    }
}

/// `n`, or the largest `usize` where `n` is larger.
pub open spec fn clamped(n: nat) -> usize {
    if n > usize::MAX {
        usize::MAX
    } else {
        n as usize
    }
}

/// The sum of `a` and `b`, or the largest `usize` where the sum is larger.
pub fn saturating_sum(a: usize, b: usize) -> (r: usize)
    ensures
        r == clamped((a + b) as nat),
{
    if usize::MAX - a < b {
        usize::MAX
    } else {
        a + b
    }
}

/// The bytes of the cells of a row, clamped.
pub fn row_size(row: &IndexMap<String, String>) -> (size: usize)
    ensures
        size == clamped(cells_size(row_cells(*row))),
{
    let n: usize = row_len(row);
    let mut size: usize = 0;
    let mut i: usize = 0;
    while i < n
        invariant
            i <= n,
            n == row_cells(*row).len(),
            size == clamped(cells_size(row_cells(*row).take(i as int))),
        decreases n - i,
    {
        let entry = row_get_index(row, i);
        proof {
            let cells = row_cells(*row);
            assert(cells.take(i + 1).drop_last() =~= cells.take(i as int));
            assert(cells.take(i + 1).last() == cells[i as int]);
        }
        match entry {
            Some(cell) => {
                size = saturating_sum(size, cell.0.as_str().as_bytes().len());
                size = saturating_sum(size, cell.1.as_str().as_bytes().len());
            },
            None => {},
        }
        i += 1;
    }
    assert(row_cells(*row).take(n as int) =~= row_cells(*row));
    size
}

/// The bytes of the cells of all rows of a table, clamped.
pub fn rows_size(rows: &Vec<IndexMap<String, String>>) -> (size: usize)
    ensures
        size == clamped(table_size(table_cells(rows@))),
{
    let mut size: usize = 0;
    let mut i: usize = 0;
    while i < rows.len()
        invariant
            i <= rows.len(),
            size == clamped(table_size(table_cells(rows@).take(i as int))),
        decreases rows.len() - i,
    {
        proof {
            let cells = table_cells(rows@);
            assert(cells.take(i + 1).drop_last() =~= cells.take(i as int));
            assert(cells.take(i + 1).last() == row_cells(rows@[i as int]));
        }
        size = saturating_sum(size, row_size(&rows[i]));
        i += 1;
    }
    assert(table_cells(rows@).take(rows.len() as int) =~= table_cells(rows@));
    size
}

/// The bytes that a cached content holds, clamped.
pub fn entry_size(entry: &CacheEntry) -> (size: usize)
    ensures
        size == clamped(content_size(entry@)),
{
    match entry {
        CacheEntry::Text(text) => text.as_str().as_bytes().len(),
        CacheEntry::Bytes(bytes) => bytes.len(),
        CacheEntry::Rows(rows) => rows_size(rows),
    }
}

/// The number of entries of a map and the bytes of their contents, clamped.
fn map_size(map: &LruCache<String, CacheEntry>) -> (r: (usize, usize))
    ensures
        r.0 == lru_entries(*map).len(),
        r.1 == clamped(entries_size(lru_entries(*map))),
{
    let values = lru_values(map);
    let mut size: usize = 0;
    let mut i: usize = 0;
    while i < values.len()
        invariant
            i <= values.len(),
            values@.len() == lru_entries(*map).len(),
            forall|k: int|
                0 <= k < values@.len() ==> (#[trigger] values@[k])@ == lru_entries(*map)[k].1,
            size == clamped(entries_size(lru_entries(*map).take(i as int))),
        decreases values.len() - i,
    {
        proof {
            let entries = lru_entries(*map);
            assert(entries.take(i + 1).drop_last() =~= entries.take(i as int));
            assert(entries.take(i + 1).last() == entries[i as int]);
        }
        size = saturating_sum(size, entry_size(values[i]));
        i += 1;
    }
    assert(lru_entries(*map).take(values.len() as int) =~= lru_entries(*map));
    (lru_len(map), size)
}

/// A cache of file contents by canonical path, in three representations.
pub struct DataStorageCache {
    as_string: LruCache<String, CacheEntry>,
    as_vec_u8: LruCache<String, CacheEntry>,
    as_csv: LruCache<String, CacheEntry>,
}

impl DataStorageCache {
    /// What every cache keeps: each representation holds at most its capacity
    /// of entries, no path twice, and only contents of its own kind.
    pub closed spec fn wf(&self) -> bool {
        &&& fits(lru_entries(self.as_string), lru_capacity(self.as_string))
        &&& fits(lru_entries(self.as_vec_u8), lru_capacity(self.as_vec_u8))
        &&& fits(lru_entries(self.as_csv), lru_capacity(self.as_csv))
        &&& all_kind(lru_entries(self.as_string), Representation::Text)
        &&& all_kind(lru_entries(self.as_vec_u8), Representation::Bytes)
        &&& all_kind(lru_entries(self.as_csv), Representation::Rows)
    }

    /// The entries of one representation, most recently used first.
    pub closed spec fn entries(&self, kind: Representation) -> Seq<(Seq<char>, CacheEntryView)> {
        match kind {
            Representation::Text => lru_entries(self.as_string),
            Representation::Bytes => lru_entries(self.as_vec_u8),
            Representation::Rows => lru_entries(self.as_csv),
        }
    }

    /// The number of entries that one representation holds at most.
    pub closed spec fn capacity(&self, kind: Representation) -> nat {
        match kind {
            Representation::Text => lru_capacity(self.as_string),
            Representation::Bytes => lru_capacity(self.as_vec_u8),
            Representation::Rows => lru_capacity(self.as_csv),
        }
    }

    /// In every state of the cache each representation holds at most its
    /// capacity of entries, no path twice, and only contents of its own kind.
    pub proof fn law_cache_invariant(&self, kind: Representation)
        requires
            self.wf(),
        ensures
            fits(self.entries(kind), self.capacity(kind)),
            all_kind(self.entries(kind), kind),
    {
    }

    /// An empty cache. A size of zero gives a capacity of one.
    pub fn new(string_cache_size: usize, vec_u8_cache_size: usize, csv_cache_size: usize) -> (cache:
        Self)
        ensures
            cache.wf(),
            forall|kind: Representation| cache.entries(kind).len() == 0,
            cache.capacity(Representation::Text) == effective_capacity(string_cache_size),
            cache.capacity(Representation::Bytes) == effective_capacity(vec_u8_cache_size),
            cache.capacity(Representation::Rows) == effective_capacity(csv_cache_size),
    {
        let text_cap: usize = if string_cache_size == 0 {
            1
        } else {
            string_cache_size
        };
        let bytes_cap: usize = if vec_u8_cache_size == 0 {
            1
        } else {
            vec_u8_cache_size
        };
        let rows_cap: usize = if csv_cache_size == 0 {
            1
        } else {
            csv_cache_size
        };
        let cache = DataStorageCache {
            as_string: lru_new(text_cap),
            as_vec_u8: lru_new(bytes_cap),
            as_csv: lru_new(rows_cap),
        };
        assert forall|kind: Representation| cache.entries(kind).len() == 0 by {
            match kind {
                Representation::Text => {},
                Representation::Bytes => {},
                Representation::Rows => {},
            }
        }
        cache
    }

    /// Forgets `path` in all three representations. No other entry changes,
    /// and the order of the others stays.
    pub fn invalidate(&mut self, path: &str)
        requires
            old(self).wf(),
        ensures
            final(self).wf(),
            forall|kind: Representation|
                final(self).entries(kind) == without_key(old(self).entries(kind), path@),
            forall|kind: Representation| !has_key(final(self).entries(kind), path@),
            forall|kind: Representation| final(self).capacity(kind) == old(self).capacity(kind),
    {
        proof {
            lemma_without_key(lru_entries(self.as_string), path@);
            lemma_without_key(lru_entries(self.as_vec_u8), path@);
            lemma_without_key(lru_entries(self.as_csv), path@);
            lemma_kept_members(lru_entries(self.as_string), path@);
            lemma_kept_members(lru_entries(self.as_vec_u8), path@);
            lemma_kept_members(lru_entries(self.as_csv), path@);
        }
        lru_pop(&mut self.as_string, path);
        lru_pop(&mut self.as_vec_u8, path);
        lru_pop(&mut self.as_csv, path);
        proof {
            assert forall|kind: Representation|
                final(self).entries(kind) == without_key(old(self).entries(kind), path@) && !has_key(
                    final(self).entries(kind),
                    path@,
                ) && final(self).capacity(kind) == old(self).capacity(kind) by {
                match kind {
                    Representation::Text => {},
                    Representation::Bytes => {},
                    Representation::Rows => {},
                }
            }
        }
    }

    /// Forgets every path in all three representations.
    pub fn invalidate_all(&mut self)
        requires
            old(self).wf(),
        ensures
            final(self).wf(),
            forall|kind: Representation| final(self).entries(kind).len() == 0,
            forall|kind: Representation| final(self).capacity(kind) == old(self).capacity(kind),
    {
        lru_clear(&mut self.as_string);
        lru_clear(&mut self.as_vec_u8);
        lru_clear(&mut self.as_csv);
        proof {
            assert forall|kind: Representation|
                final(self).entries(kind).len() == 0 && final(self).capacity(kind)
                    == old(self).capacity(kind) by {
                match kind {
                    Representation::Text => {},
                    Representation::Bytes => {},
                    Representation::Rows => {},
                }
            }
        }
    }

    /// Looks `path` up in one representation. A hit returns a copy of the
    /// content and makes the entry the most recently used one of that
    /// representation; a miss changes nothing.
    pub fn lookup(&mut self, kind: Representation, path: &str) -> (found: Option<CacheEntry>)
        requires
            old(self).wf(),
        ensures
            final(self).wf(),
            final(self).entries(kind) == touched(old(self).entries(kind), path@),
            forall|other: Representation|
                other != kind ==> final(self).entries(other) == old(self).entries(other),
            forall|any: Representation| final(self).capacity(any) == old(self).capacity(any),
            match found {
                Some(entry) => {
                    let before = old(self).entries(kind);
                    has_key(before, path@) && entry@ == before[key_index(before, path@)].1
                        && is_kind(entry@, kind)
                },
                None => !has_key(old(self).entries(kind), path@),
            },
    {
        proof {
            lemma_touched(old(self).entries(kind), old(self).capacity(kind), path@);
            lemma_kept_members(old(self).entries(kind), path@);
            lemma_key_index(old(self).entries(kind), path@);
        }
        let found = match kind {
            Representation::Text => lru_get(&mut self.as_string, path),
            Representation::Bytes => lru_get(&mut self.as_vec_u8, path),
            Representation::Rows => lru_get(&mut self.as_csv, path),
        };
        proof {
            assert forall|any: Representation|
                final(self).capacity(any) == old(self).capacity(any) && (any != kind
                    ==> final(self).entries(any) == old(self).entries(any)) by {
                match any {
                    Representation::Text => {},
                    Representation::Bytes => {},
                    Representation::Rows => {},
                }
            }
        }
        found
    }

    /// Stores `entry` under `path` in the representation it belongs to, as the
    /// most recently used entry. It replaces an entry of the same path; where
    /// there is none and the representation is full, the least recently used
    /// entry leaves.
    pub(crate) fn store(&mut self, kind: Representation, path: String, entry: CacheEntry)
        requires
            old(self).wf(),
            is_kind(entry@, kind),
        ensures
            final(self).wf(),
            final(self).entries(kind) == stored(
                old(self).entries(kind),
                old(self).capacity(kind),
                path@,
                entry@,
            ),
            forall|other: Representation|
                other != kind ==> final(self).entries(other) == old(self).entries(other),
            forall|any: Representation| final(self).capacity(any) == old(self).capacity(any),
    {
        proof {
            lemma_stored(old(self).entries(kind), old(self).capacity(kind), path@, entry@);
            lemma_stored_members(old(self).entries(kind), old(self).capacity(kind), path@, entry@);
        }
        match kind {
            Representation::Text => lru_put(&mut self.as_string, path, entry),
            Representation::Bytes => lru_put(&mut self.as_vec_u8, path, entry),
            Representation::Rows => lru_put(&mut self.as_csv, path, entry),
        }
        proof {
            assert forall|any: Representation|
                final(self).capacity(any) == old(self).capacity(any) && (any != kind
                    ==> final(self).entries(any) == old(self).entries(any)) by {
                match any {
                    Representation::Text => {},
                    Representation::Bytes => {},
                    Representation::Rows => {},
                }
            }
        }
    }

    /// For each representation its label, the number of its entries and the
    /// bytes that their contents hold (the largest `usize` where they hold
    /// more): the texts as `String`, the bytes as `Vec<u8>`, the rows as `CSV`.
    pub fn get_caches_size(&self) -> (sizes: Vec<(String, usize, usize)>)
        ensures
            sizes@.len() == 3,
            sizes@[0].0@ == "String"@,
            sizes@[0].1 == self.entries(Representation::Text).len(),
            sizes@[0].2 == clamped(entries_size(self.entries(Representation::Text))),
            sizes@[1].0@ == "Vec<u8>"@,
            sizes@[1].1 == self.entries(Representation::Bytes).len(),
            sizes@[1].2 == clamped(entries_size(self.entries(Representation::Bytes))),
            sizes@[2].0@ == "CSV"@,
            sizes@[2].1 == self.entries(Representation::Rows).len(),
            sizes@[2].2 == clamped(entries_size(self.entries(Representation::Rows))),
    {
        let mut sizes: Vec<(String, usize, usize)> = Vec::new();
        let texts = map_size(&self.as_string);
        sizes.push((String::from_str("String"), texts.0, texts.1));
        let bytes = map_size(&self.as_vec_u8);
        sizes.push((String::from_str("Vec<u8>"), bytes.0, bytes.1));
        let rows = map_size(&self.as_csv);
        sizes.push((String::from_str("CSV"), rows.0, rows.1));
        sizes
    }

    /// The cached text of `path`, if the cache has it; a hit makes it the most
    /// recently used text.
    pub fn get_text(&mut self, path: &str) -> (found: Option<String>)
        requires
            old(self).wf(),
        ensures
            final(self).wf(),
            final(self).entries(Representation::Text) == touched(
                old(self).entries(Representation::Text),
                path@,
            ),
            forall|other: Representation|
                other != Representation::Text ==> final(self).entries(other)
                    == old(self).entries(other),
            forall|any: Representation| final(self).capacity(any) == old(self).capacity(any),
            match found {
                Some(text) => {
                    let before = old(self).entries(Representation::Text);
                    has_key(before, path@) && before[key_index(before, path@)].1
                        == CacheEntryView::Text(text@)
                },
                None => !has_key(old(self).entries(Representation::Text), path@),
            },
    {
        match self.lookup(Representation::Text, path) {
            Some(CacheEntry::Text(text)) => Some(text),
            _ => None,
        }
    }

    /// The cached bytes of `path`, if the cache has them; a hit makes them the
    /// most recently used bytes.
    pub fn get_bytes(&mut self, path: &str) -> (found: Option<Vec<u8>>)
        requires
            old(self).wf(),
        ensures
            final(self).wf(),
            final(self).entries(Representation::Bytes) == touched(
                old(self).entries(Representation::Bytes),
                path@,
            ),
            forall|other: Representation|
                other != Representation::Bytes ==> final(self).entries(other)
                    == old(self).entries(other),
            forall|any: Representation| final(self).capacity(any) == old(self).capacity(any),
            match found {
                Some(bytes) => {
                    let before = old(self).entries(Representation::Bytes);
                    has_key(before, path@) && before[key_index(before, path@)].1
                        == CacheEntryView::Bytes(bytes@)
                },
                None => !has_key(old(self).entries(Representation::Bytes), path@),
            },
    {
        match self.lookup(Representation::Bytes, path) {
            Some(CacheEntry::Bytes(bytes)) => Some(bytes),
            _ => None,
        }
    }

    /// The cached rows of `path`, if the cache has them; a hit makes them the
    /// most recently used rows.
    pub fn get_rows(&mut self, path: &str) -> (found: Option<Vec<IndexMap<String, String>>>)
        requires
            old(self).wf(),
        ensures
            final(self).wf(),
            final(self).entries(Representation::Rows) == touched(
                old(self).entries(Representation::Rows),
                path@,
            ),
            forall|other: Representation|
                other != Representation::Rows ==> final(self).entries(other)
                    == old(self).entries(other),
            forall|any: Representation| final(self).capacity(any) == old(self).capacity(any),
            match found {
                Some(rows) => {
                    let before = old(self).entries(Representation::Rows);
                    has_key(before, path@) && before[key_index(before, path@)].1
                        == CacheEntryView::Rows(table_cells(rows@))
                },
                None => !has_key(old(self).entries(Representation::Rows), path@),
            },
    {
        match self.lookup(Representation::Rows, path) {
            Some(CacheEntry::Rows(rows)) => Some(rows),
            _ => None,
        }
    }

    /// Stores the text of `path` as the most recently used text entry. It
    /// replaces an entry of the same path; where there is none and the
    /// representation is full, the least recently used entry leaves.
    pub fn put_text(&mut self, path: String, text: String)
        requires
            old(self).wf(),
        ensures
            final(self).wf(),
            final(self).entries(Representation::Text) == stored(
                old(self).entries(Representation::Text),
                old(self).capacity(Representation::Text),
                path@,
                CacheEntryView::Text(text@),
            ),
            forall|other: Representation|
                other != Representation::Text ==> final(self).entries(other)
                    == old(self).entries(other),
            forall|any: Representation| final(self).capacity(any) == old(self).capacity(any),
    {
        self.store(Representation::Text, path, CacheEntry::Text(text));
    }

    /// Stores the bytes of `path` as the most recently used bytes entry. It
    /// replaces an entry of the same path; where there is none and the
    /// representation is full, the least recently used entry leaves.
    pub fn put_bytes(&mut self, path: String, bytes: Vec<u8>)
        requires
            old(self).wf(),
        ensures
            final(self).wf(),
            final(self).entries(Representation::Bytes) == stored(
                old(self).entries(Representation::Bytes),
                old(self).capacity(Representation::Bytes),
                path@,
                CacheEntryView::Bytes(bytes@),
            ),
            forall|other: Representation|
                other != Representation::Bytes ==> final(self).entries(other)
                    == old(self).entries(other),
            forall|any: Representation| final(self).capacity(any) == old(self).capacity(any),
    {
        self.store(Representation::Bytes, path, CacheEntry::Bytes(bytes));
    }

    /// Stores the rows of `path` as the most recently used rows entry. It
    /// replaces an entry of the same path; where there is none and the
    /// representation is full, the least recently used entry leaves.
    pub fn put_rows(&mut self, path: String, rows: Vec<IndexMap<String, String>>)
        requires
            old(self).wf(),
        ensures
            final(self).wf(),
            final(self).entries(Representation::Rows) == stored(
                old(self).entries(Representation::Rows),
                old(self).capacity(Representation::Rows),
                path@,
                CacheEntryView::Rows(table_cells(rows@)),
            ),
            forall|other: Representation|
                other != Representation::Rows ==> final(self).entries(other)
                    == old(self).entries(other),
            forall|any: Representation| final(self).capacity(any) == old(self).capacity(any),
    {
        self.store(Representation::Rows, path, CacheEntry::Rows(rows));
    }

    /// The content of `path` in one representation, through the cache. On a
    /// hit the cached content is returned, the loader is not called, and the
    /// entry becomes the most recently used one. On a miss the loader is
    /// called once: what it loads is stored as the most recently used entry
    /// and returned; where it fails, or loads a content of another
    /// representation, nothing is stored and the call fails.
    pub fn get_or_load<F: FnOnce() -> Result<CacheEntry, AppError>>(
        &mut self,
        kind: Representation,
        path: &str,
        loader: F,
    ) -> (r: Result<CacheEntry, AppError>)
        requires
            old(self).wf(),
            loader.requires(()),
        ensures
            final(self).wf(),
            forall|other: Representation|
                other != kind ==> final(self).entries(other) == old(self).entries(other),
            forall|any: Representation| final(self).capacity(any) == old(self).capacity(any),
            has_key(old(self).entries(kind), path@) ==> (r matches Ok(entry) && entry@
                == old(self).entries(kind)[key_index(old(self).entries(kind), path@)].1)
                && final(self).entries(kind) == touched(old(self).entries(kind), path@),
            !has_key(old(self).entries(kind), path@) ==> exists|loaded: Result<CacheEntry, AppError>|
                {
                    &&& loader.ensures((), loaded)
                    &&& match loaded {
                        Ok(entry) => if is_kind(entry@, kind) {
                            &&& r matches Ok(given) && given@ == entry@
                            &&& final(self).entries(kind) == stored(
                                old(self).entries(kind),
                                old(self).capacity(kind),
                                path@,
                                entry@,
                            )
                        } else {
                            &&& r matches Err(AppError::CacheError(_))
                            &&& final(self).entries(kind) == old(self).entries(kind)
                        },
                        Err(error) => {
                            &&& r == Err::<CacheEntry, AppError>(error)
                            &&& final(self).entries(kind) == old(self).entries(kind)
                        },
                    }
                },
    {
        match self.lookup(kind, path) {
            Some(entry) => Ok(entry),
            None => {
                let loaded = loader();
                match loaded {
                    Ok(entry) => {
                        let fits_kind = match (kind, &entry) {
                            (Representation::Text, CacheEntry::Text(_)) => true,
                            (Representation::Bytes, CacheEntry::Bytes(_)) => true,
                            (Representation::Rows, CacheEntry::Rows(_)) => true,
                            _ => false,
                        };
                        if fits_kind {
                            let given = entry.clone();
                            self.store(kind, String::from_str(path), entry);
                            Ok(given)
                        } else {
                            Err(
                                AppError::CacheError(
                                    String::from_str("loaded content of another representation"),
                                ),
                            )
                        }
                    },
                    Err(error) => Err(error),
                }
            },
        }
    }
}

} // verus!
