//! Who is an administrator: the users whose addresses the file of the
//! administrators lists, one on a line.

use crate::exlogging::LogLevel;
use crate::text::{chars_of, concat_str, lines_of, split_lines, str_eq, texts};
use vstd::prelude::*;

verus! {

/// Whether the file of the administrators lists the address: one of its
/// lines is the address, letter for letter.
pub fn is_admin(email: &str, admins_file: &str) -> (r: bool)
    ensures
        r == lines_of(admins_file@).contains(email@),
{
    let lines = split_lines(&chars_of(admins_file));
    let mut i: usize = 0;
    while i < lines.len()
        invariant
            i <= lines.len(),
            texts(lines@) == lines_of(admins_file@),
            forall|k: int| 0 <= k < i ==> (#[trigger] texts(lines@)[k]) != email@,
        decreases lines.len() - i,
    {
        if str_eq(lines[i].as_str(), email) {
            assert(texts(lines@)[i as int] == email@);
            return true;
        }
        i += 1;
    }
    false
}

/// What the log says of the file of the administrators at start-up: that it
/// was found, or, as an error, that it was not.
pub fn check_admin_file(path: &str, exists: bool) -> (notice: (LogLevel, String))
    ensures
        exists ==> notice.0 == LogLevel::Info && notice.1@ == "Admin file found at: "@ + path@,
        !exists ==> notice.0 == LogLevel::Error && notice.1@ == "Admin file NOT found at: "@
            + path@ + ". Admin functionality might be limited."@,
{
    if exists {
        (LogLevel::Info, concat_str("Admin file found at: ", path))
    } else {
        let head = concat_str("Admin file NOT found at: ", path);
        (LogLevel::Error, concat_str(head.as_str(), ". Admin functionality might be limited."))
    }
}

} // verus!
