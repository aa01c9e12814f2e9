//! Lexical path containment: no path leaves the root it is resolved against.
//!
//! Paths are plain strings here. Normalisation never touches the file system:
//! it only collapses `.` and `..` in the text of a path.

use lexiclean::Lexiclean;
use std::path::Path;
use crate::text::{chars_of, chars_eq, matches_at, occurs_at};
use vstd::prelude::*;
use vstd::string::StringExecFns;

verus! {

/// Why a path was not resolved.
#[derive(Debug)]
pub enum SafeFsError {
    /// The target lies outside the base directory.
    PathTraversalDetected,
    /// The file system refused an operation; the text says how.
    Io(String),
}

/// The content of a `SafeFsError`.
pub enum SafeFsFault {
    PathTraversalDetected,
    Io(Seq<char>),
}

impl View for SafeFsError {
    type V = SafeFsFault;

    open spec fn view(&self) -> SafeFsFault {
        match self {
            SafeFsError::PathTraversalDetected => SafeFsFault::PathTraversalDetected,
            SafeFsError::Io(detail) => SafeFsFault::Io(detail@),
        }
    }
}

impl SafeFsError {
    /// The message of this error.
    pub fn message(&self) -> (s: String)
        ensures
            self is PathTraversalDetected ==> s@
                == "Path traversal attempt detected: target is outside base directory"@,
            self matches SafeFsError::Io(detail) ==> s@ == "IO error: "@ + detail@,
    {
        match self {
            SafeFsError::PathTraversalDetected => String::from_str(
                "Path traversal attempt detected: target is outside base directory",
            ),
            SafeFsError::Io(detail) => crate::text::concat_str("IO error: ", detail.as_str()),
        }
    }
}

/// The path that `lexiclean` makes of `path`: its text with `.` components
/// dropped and each `..` cancelled against the component before it.
pub uninterp spec fn lexiclean_of(path: Seq<char>) -> Seq<char>;

/// The path that `Path::join` makes of `base` and `relative`.
pub uninterp spec fn joined_path(base: Seq<char>, relative: Seq<char>) -> Seq<char>;

/// Whether `Path::starts_with` finds the components of `base` at the start of
/// those of `path`.
pub uninterp spec fn path_has_prefix(path: Seq<char>, base: Seq<char>) -> bool;

/// The last component of `path` as `Path::file_name` gives it; `None` where
/// the path ends in `..` or is the root.
pub uninterp spec fn file_name_of(path: Seq<char>) -> Option<Seq<char>>;

/// `Path::file_name`: the last component of the path, if it is a normal one.
#[verifier::external_body]
pub(crate) fn file_name(path: &str) -> (name: Option<String>)
    ensures
        match name {
            Some(text) => file_name_of(path@) == Some(text@),
            None => file_name_of(path@) is None,
        },
{
    Path::new(path).file_name().map(|name| name.to_string_lossy().into_owned())
}

/// The extension of the file name of `path` as `Path::extension` gives it:
/// what stands behind the last dot of the name; `None` where the name has no
/// dot inside it or the path has no file name.
pub uninterp spec fn extension_of(path: Seq<char>) -> Option<Seq<char>>;

/// `Path::extension`: the extension of the file name of the path, if it has
/// one.
#[verifier::external_body]
pub(crate) fn extension(path: &str) -> (found: Option<String>)
    ensures
        match found {
            Some(text) => extension_of(path@) == Some(text@),
            None => extension_of(path@) is None,
        },
{
    Path::new(path).extension().map(|ext| ext.to_string_lossy().into_owned())
}

/// `Lexiclean::lexiclean`: the lexically cleaned form of `path`. The crate
/// computes it from the text of the path alone.
#[verifier::external_body]
fn lexiclean(path: &str) -> (clean: String)
    ensures
        clean@ == lexiclean_of(path@),
{
    Path::new(path).lexiclean().to_string_lossy().into_owned()
}

/// `Path::join`: `relative` adjoined to `base`.
#[verifier::external_body]
pub(crate) fn join(base: &str, relative: &str) -> (joined: String)
    ensures
        joined@ == joined_path(base@, relative@),
{
    Path::new(base).join(relative).to_string_lossy().into_owned()
}

/// `Path::starts_with`: whether `base` is a prefix of `path`, component by
/// component.
#[verifier::external_body]
fn starts_with(path: &str, base: &str) -> (r: bool)
    ensures
        r == path_has_prefix(path@, base@),
{
    Path::new(path).starts_with(base)
}

/// Whether the text of the path `path` lies within the text of the directory
/// `root`: it is the root itself, or the root, a slash, and more; below the
/// root of the file system lies whatever begins with a slash.
pub open spec fn within(path: Seq<char>, root: Seq<char>) -> bool {
    ||| path == root
    ||| (root.len() > 0 && root.last() == '/' && occurs_at(path, root, 0))
    ||| occurs_at(path, root.push('/'), 0)
}

/// Whether the text of `path` lies within the text of `root`. This is a test
/// on the letters of two paths that are normalised already; it takes no part
/// in resolving a path.
pub fn is_within(path: &str, root: &str) -> (r: bool)
    ensures
        r == within(path@, root@),
{
    let p = chars_of(path);
    let mut r = chars_of(root);
    if chars_eq(&p, &r) {
        return true;
    }
    if r.len() > 0 && r[r.len() - 1] == '/' {
        if r.len() <= p.len() && matches_at(&p, &r, 0) {
            return true;
        }
    }
    let ghost bare = r@;
    r.push('/');
    assert(r@ == bare.push('/'));
    r.len() <= p.len() && matches_at(&p, &r, 0)
}

/// The normalised form of `relative` taken below the normalised `base`.
pub open spec fn resolved_path(base: Seq<char>, relative: Seq<char>) -> Seq<char> {
    lexiclean_of(joined_path(lexiclean_of(base), relative))
}

/// Whether `relative`, taken below `base`, stays inside `base`: the
/// components of the normalised base are the first components of the
/// normalised target.
pub open spec fn stays_inside(base: Seq<char>, relative: Seq<char>) -> bool {
    path_has_prefix(resolved_path(base, relative), lexiclean_of(base))
}

/// Whether the full path `target` lies inside `base`: the components of the
/// normalised base are the first components of the normalised target.
pub open spec fn lies_inside(base: Seq<char>, target: Seq<char>) -> bool {
    path_has_prefix(lexiclean_of(target), lexiclean_of(base))
}

/// A path whose text lies within the text of a root begins with the root,
/// letter for letter, and where it goes on behind a root that does not end in
/// a slash, it goes on with a slash: it is no neighbour of the root whose name
/// merely begins like the root's.
pub proof fn law_within_begins_with_root(path: Seq<char>, root: Seq<char>)
    requires
        within(path, root),
    ensures
        occurs_at(path, root, 0),
        path.len() > root.len() && !(root.len() > 0 && root.last() == '/') ==> path[root.len() as int]
            == '/',
{
    if path == root {
        assert(path.subrange(0, root.len() as int) =~= root);
    } else if root.len() > 0 && root.last() == '/' && occurs_at(path, root, 0) {
    } else {
        let with_slash = root.push('/');
        let head = path.subrange(0, with_slash.len() as int);
        assert(head == with_slash);
        assert(path.subrange(0, root.len() as int) =~= head.subrange(0, root.len() as int));
        assert(with_slash.subrange(0, root.len() as int) =~= root);
        assert(head[root.len() as int] == path[root.len() as int]);
        assert(with_slash[root.len() as int] == '/');
    }
}

/// The security event of a full path that was refused for a base: both paths
/// in their normalised form.
pub open spec fn full_path_event(base: Seq<char>, target: Seq<char>) -> Seq<char> {
    "Path traversal detected: "@ + lexiclean_of(base) + " <- "@ + lexiclean_of(target)
}

/// The security event of a relative path that was refused below a base: the
/// normalised base, and the normalised path that the target would have led to.
pub open spec fn relative_path_event(base: Seq<char>, relative: Seq<char>) -> Seq<char> {
    "Path traversal detected: "@ + lexiclean_of(base) + " <- "@ + resolved_path(base, relative)
}

/// Checks that the full path `target` lies inside `base` and returns its
/// normalised form; any other target is a traversal attempt.
pub fn safety_check_only(base: &str, target: &str) -> (r: Result<String, SafeFsError>)
    ensures
        lies_inside(base@, target@) ==> r is Ok && r->Ok_0@ == lexiclean_of(target@),
        !lies_inside(base@, target@) ==> r is Err && r->Err_0 is PathTraversalDetected,
{
    let base_clean = lexiclean(base);
    let target_clean = lexiclean(target);
    if starts_with(target_clean.as_str(), base_clean.as_str()) {
        Ok(target_clean)
    } else {
        Err(SafeFsError::PathTraversalDetected)
    }
}

/// The security event of a full path `target` that was refused for `base`.
/// It is for the log of the server, not for the caller.
pub fn traversal_report(base: &str, target: &str) -> (report: String)
    ensures
        report@ == full_path_event(base@, target@),
{
    let base_clean = lexiclean(base);
    let target_clean = lexiclean(target);
    let mut report = String::from_str("Path traversal detected: ");
    report.append(base_clean.as_str());
    report.append(" <- ");
    report.append(target_clean.as_str());
    report
}

/// The security event of a relative path `target` that was refused below
/// `base`. It is for the log of the server, not for the caller.
pub fn relative_traversal_report(base: &str, target: &str) -> (report: String)
    ensures
        report@ == relative_path_event(base@, target@),
{
    let base_clean = lexiclean(base);
    let full_target = join(base_clean.as_str(), target);
    let target_clean = lexiclean(full_target.as_str());
    let mut report = String::from_str("Path traversal detected: ");
    report.append(base_clean.as_str());
    report.append(" <- ");
    report.append(target_clean.as_str());
    report
}

/// How a target is meant: as a path relative to the base, or as a full path.
#[derive(Debug, Clone, Copy, PartialEq, Eq, Structural)]
pub enum TargetKind {
    Relative,
    Full,
}

/// The security event that a refusal calls for: a traversal attempt is
/// reported with the base and the target, any other failure with nothing.
pub open spec fn event_of(
    error: SafeFsFault,
    base: Seq<char>,
    target: Seq<char>,
    kind: TargetKind,
) -> Option<Seq<char>> {
    match error {
        SafeFsFault::PathTraversalDetected => Some(
            match kind {
                TargetKind::Relative => relative_path_event(base, target),
                TargetKind::Full => full_path_event(base, target),
            },
        ),
        SafeFsFault::Io(_) => None,
    }
}

/// The security event to log for a refusal of `target` at `base`, if the
/// refusal calls for one.
pub fn security_event(error: &SafeFsError, base: &str, target: &str, kind: TargetKind) -> (event:
    Option<String>)
    ensures
        match event {
            Some(text) => event_of(error@, base@, target@, kind) == Some(text@),
            None => event_of(error@, base@, target@, kind) is None,
        },
{
    match error {
        SafeFsError::PathTraversalDetected => match kind {
            TargetKind::Relative => Some(relative_traversal_report(base, target)),
            TargetKind::Full => Some(traversal_report(base, target)),
        },
        SafeFsError::Io(_) => None,
    }
}

/// Resolves `target` below `base`: the normalised path if it stays inside
/// `base`, a traversal error if it does not.
pub fn safe_join(base: &str, target: &str) -> (r: Result<String, SafeFsError>)
    ensures
        stays_inside(base@, target@) ==> r is Ok && r->Ok_0@ == resolved_path(base@, target@),
        !stays_inside(base@, target@) ==> r is Err && r->Err_0 is PathTraversalDetected,
{
    let base_clean = lexiclean(base);
    let full_target = join(base_clean.as_str(), target);
    let target_clean = lexiclean(full_target.as_str());
    if starts_with(target_clean.as_str(), base_clean.as_str()) {
        Ok(target_clean)
    } else {
        Err(SafeFsError::PathTraversalDetected)
    }
}

} // verus!
