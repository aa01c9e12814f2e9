//! Attachments: the names their files are kept under, who may read them, and
//! when they are cleaned up.

use crate::errors::AppError;
use crate::text::{
    chars_of, find_last_char, last_index_of, str_eq, string_from_chars,
};
use vstd::prelude::*;

verus! {

/// What is to become of an attachment.
#[derive(Debug, Clone, Copy, PartialEq, Eq, Structural)]
pub enum AttachmentLifecycle {
    /// It was uploaded and nothing refers to it yet.
    TempJustUploaded,
    /// A support request that is open refers to it.
    SupportRequestActive,
    /// It is to be deleted once it is older than so many seconds.
    MarkedForDeletionAfter(i64),
}

impl Default for AttachmentLifecycle {
    fn default() -> (lifecycle: Self)
        ensures
            lifecycle == AttachmentLifecycle::TempJustUploaded,
    {
        AttachmentLifecycle::TempJustUploaded
    }
}

/// Whether an attachment of the given age in seconds is to be cleaned up: one
/// that nothing refers to after half an hour, one marked for deletion after
/// its term, one that a support request refers to never.
pub open spec fn is_stale(lifecycle: AttachmentLifecycle, age: int) -> bool {
    match lifecycle {
        AttachmentLifecycle::TempJustUploaded => age > 1800,
        AttachmentLifecycle::SupportRequestActive => false,
        AttachmentLifecycle::MarkedForDeletionAfter(term) => age > term,
    }
}

/// Whether an attachment created at `created` is to be cleaned up at `now`,
/// both in seconds since the epoch.
pub fn should_be_cleaned(lifecycle: AttachmentLifecycle, created: i64, now: i64) -> (r: bool)
    ensures
        r == is_stale(lifecycle, now - created),
{
    let age: i128 = (now as i128) - (created as i128);
    match lifecycle {
        AttachmentLifecycle::TempJustUploaded => age > 1800,
        AttachmentLifecycle::SupportRequestActive => false,
        AttachmentLifecycle::MarkedForDeletionAfter(term) => age > (term as i128),
    }
}

/// Whether a user may have an attachment: anyone may have a public one where
/// public attachments are honoured; a request in nobody's name may have any;
/// a user may have their own.
pub open spec fn may_access(
    owner: Seq<char>,
    public: bool,
    user: Option<Seq<char>>,
    honour_public: bool,
) -> bool {
    (honour_public && public) || match user {
        Some(name) => owner == name,
        None => true,
    }
}

/// Checks that a user may have an attachment of the owner; another user's
/// attachment is forbidden.
pub fn check_access(owner: &str, public: bool, user: Option<&str>, honour_public: bool) -> (r:
    Result<(), AppError>)
    ensures
        match r {
            Ok(_) => may_access(
                owner@,
                public,
                match user {
                    Some(name) => Some(name@),
                    None => None,
                },
                honour_public,
            ),
            Err(error) => error is Forbidden && !may_access(
                owner@,
                public,
                match user {
                    Some(name) => Some(name@),
                    None => None,
                },
                honour_public,
            ),
        },
{
    if honour_public && public {
        return Ok(());
    }
    match user {
        Some(name) => if str_eq(owner, name) {
            Ok(())
        } else {
            Err(AppError::Forbidden)
        },
        None => Ok(()),
    }
}

/// The first `n` characters of `s`, or all of them where they are fewer.
pub open spec fn first_chars(s: Seq<char>, n: int) -> Seq<char> {
    if s.len() <= n {
        s
    } else {
        s.take(n)
    }
}

/// The name under which an uploaded file is kept: the identifier, two
/// underscores, the first twenty characters of the original name before its
/// last dot, and the extension behind that dot where there is one.
pub open spec fn kept_name(original: Seq<char>, id: Seq<char>) -> Seq<char> {
    let dot = last_index_of(original, '.');
    if dot < 0 {
        id + seq!['_', '_'] + first_chars(original, 20)
    } else if dot + 1 >= original.len() {
        id + seq!['_', '_'] + first_chars(original.take(dot), 20)
    } else {
        id + seq!['_', '_'] + first_chars(original.take(dot), 20) + seq!['.'] + original.skip(
            dot + 1,
        )
    }
}

/// The name under which an uploaded file is kept.
pub fn rename_file(original: &str, id: &str) -> (name: String)
    ensures
        name@ == kept_name(original@, id@),
{
    let v = chars_of(original);
    let mut out = chars_of(id);
    out.push('_');
    out.push('_');
    let stem_end: usize = match find_last_char(&v, '.') {
        Some(dot) => dot,
        None => v.len(),
    };
    let keep: usize = if stem_end <= 20 {
        stem_end
    } else {
        20
    };
    let mut i: usize = 0;
    let ghost head = out@;
    while i < keep
        invariant
            i <= keep <= stem_end <= v.len(),
            out@ == head + v@.subrange(0, i as int),
        decreases keep - i,
    {
        out.push(v[i]);
        i += 1;
        assert(out@ =~= head + v@.subrange(0, i as int));
    }
    assert(v@.subrange(0, keep as int) =~= first_chars(v@.take(stem_end as int), 20));
    if stem_end < v.len() && v.len() - stem_end > 1 {
        out.push('.');
        let ghost with_dot = out@;
        let mut j: usize = stem_end + 1;
        while j < v.len()
            invariant
                stem_end + 1 <= j <= v.len(),
                out@ == with_dot + v@.subrange(stem_end + 1, j as int),
            decreases v.len() - j,
        {
            out.push(v[j]);
            j += 1;
            assert(out@ =~= with_dot + v@.subrange(stem_end + 1, j as int));
        }
        assert(v@.subrange(stem_end + 1, v@.len() as int) =~= v@.skip(stem_end + 1));
    }
    proof {
        if stem_end == v.len() {
            assert(v@.take(stem_end as int) =~= v@);
        }
        assert(out@ =~= kept_name(original@, id@));
    }
    string_from_chars(&out)
}

} // verus!
