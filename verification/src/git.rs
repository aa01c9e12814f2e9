//! What the commands of the version control are called with, and what their
//! outcome means. Running a command is left to the caller.

use crate::text::{
    contains, contains_seq, debug_list, debug_of_list, debug_of_text, debug_text, str_eq, texts,
    trim, trimmed,
};
use crate::transactionalfs::{StoreFault, TransactionalFsError};
use vstd::prelude::*;
use vstd::string::StringExecFns;

verus! {

/// What a finished command reported: whether it exited with success, and what
/// it wrote to its two streams, decoded as text.
#[derive(Debug)]
pub struct GitOutput {
    pub success: bool,
    pub stdout: String,
    pub stderr: String,
}

/// The arguments `a b`.
pub fn args2(a: &str, b: &str) -> (args: Vec<String>)
    ensures
        texts(args@) == seq![a@, b@],
{
    let mut args: Vec<String> = Vec::new();
    args.push(String::from_str(a));
    args.push(String::from_str(b));
    assert(texts(args@) =~= seq![a@, b@]);
    args
}

/// The arguments `a b c`.
pub fn args3(a: &str, b: &str, c: &str) -> (args: Vec<String>)
    ensures
        texts(args@) == seq![a@, b@, c@],
{
    let mut args: Vec<String> = Vec::new();
    args.push(String::from_str(a));
    args.push(String::from_str(b));
    args.push(String::from_str(c));
    assert(texts(args@) =~= seq![a@, b@, c@]);
    args
}

/// The arguments that make an empty repository.
pub open spec fn init_args() -> Seq<Seq<char>> {
    seq!["init"@]
}

/// The arguments that set the e-mail address of the committer.
pub open spec fn config_email_args(email: Seq<char>) -> Seq<Seq<char>> {
    seq!["config"@, "user.email"@, email]
}

/// The arguments that set the name of the committer: the e-mail address too.
pub open spec fn config_name_args(email: Seq<char>) -> Seq<Seq<char>> {
    seq!["config"@, "user.name"@, email]
}

/// The arguments that stage every change below the root.
pub open spec fn add_args() -> Seq<Seq<char>> {
    seq!["add"@, "."@]
}

/// The arguments that commit what is staged.
pub open spec fn commit_args(message: Seq<char>) -> Seq<Seq<char>> {
    seq!["commit"@, "-m"@, message]
}

/// The arguments that drop the last commit from the history and the tree.
pub open spec fn reset_args() -> Seq<Seq<char>> {
    seq!["reset"@, "--hard"@, "HEAD~1"@]
}

/// The arguments that ask what kind of object a hash names.
pub open spec fn cat_file_args(hash: Seq<char>) -> Seq<Seq<char>> {
    seq!["cat-file"@, "-t"@, hash]
}

/// The arguments that add a commit which undoes the commit of the hash.
pub open spec fn revert_args(hash: Seq<char>) -> Seq<Seq<char>> {
    seq!["revert"@, "--no-edit"@, hash]
}

/// The arguments that print the history: hash, author and subject of each
/// commit on a line of their own, then the files it changed.
pub open spec fn log_args() -> Seq<Seq<char>> {
    seq!["log"@, "--pretty=format:%H%n%an%n%s"@, "--name-only"@]
}

/// The message for a command that failed, with both of its streams.
pub open spec fn status_failure_text(
    args: Seq<Seq<char>>,
    cwd: Seq<char>,
    stderr: Seq<char>,
    stdout: Seq<char>,
) -> Seq<char> {
    "Failed to execute git command: "@ + debug_list(args) + " in "@ + debug_text(cwd)
        + ". Stderr: "@ + stderr + ", Stdout: "@ + stdout
}

/// The message for a command that failed where its output was wanted.
pub open spec fn output_failure_text(args: Seq<Seq<char>>, cwd: Seq<char>, stderr: Seq<char>) -> Seq<
    char,
> {
    "Failed to execute git command: "@ + debug_list(args) + " in "@ + debug_text(cwd)
        + ". Stderr: "@ + stderr
}

/// Whether a failed command is a history query on a repository without
/// commits.
pub open spec fn reports_empty_history(args: Seq<Seq<char>>, stderr: Seq<char>) -> bool {
    args.contains("log"@) && contains_seq(stderr, "fatal: your current branch"@) && contains_seq(
        stderr,
        "does not have any commits yet"@,
    )
}

/// What the status of a command means: nothing on success, a command failure
/// with the arguments, the directory and both streams otherwise.
pub open spec fn status_result(
    args: Seq<Seq<char>>,
    cwd: Seq<char>,
    success: bool,
    stdout: Seq<char>,
    stderr: Seq<char>,
) -> Result<(), StoreFault> {
    if success {
        Ok(())
    } else {
        Err(StoreFault::GitCommand(status_failure_text(args, cwd, stderr, stdout)))
    }
}

/// What the output of a command means: on success the trimmed standard
/// output; nothing for a history query on a repository without commits; a
/// command failure otherwise.
pub open spec fn output_result(
    args: Seq<Seq<char>>,
    cwd: Seq<char>,
    success: bool,
    stdout: Seq<char>,
    stderr: Seq<char>,
) -> Result<Option<Seq<char>>, StoreFault> {
    if success {
        Ok(Some(trimmed(stdout)))
    } else if reports_empty_history(args, stderr) {
        Ok(None)
    } else {
        Err(StoreFault::GitCommand(output_failure_text(args, cwd, stderr)))
    }
}

/// The content of a result that may hold a text.
pub open spec fn optional_text_result_view(
    r: Result<Option<String>, TransactionalFsError>,
) -> Result<Option<Seq<char>>, StoreFault> {
    match r {
        Ok(Some(text)) => Ok(Some(text@)),
        Ok(None) => Ok(None),
        Err(error) => Err(error@),
    }
}

/// The content of a result without a value.
pub open spec fn unit_result_view(r: Result<(), TransactionalFsError>) -> Result<(), StoreFault> {
    match r {
        Ok(_) => Ok(()),
        Err(error) => Err(error@),
    }
}

/// Whether one of the arguments is `word`.
pub fn has_arg(args: &Vec<String>, word: &str) -> (r: bool)
    ensures
        r == texts(args@).contains(word@),
{
    let mut i: usize = 0;
    while i < args.len()
        invariant
            i <= args.len(),
            forall|k: int| 0 <= k < i ==> (#[trigger] texts(args@)[k]) != word@,
        decreases args.len() - i,
    {
        if str_eq(args[i].as_str(), word) {
            assert(texts(args@)[i as int] == word@);
            return true;
        }
        i += 1;
    }
    false
}

/// The first part of the message for a failed command: the arguments and the
/// directory.
fn failure_head(args: &Vec<String>, cwd: &str, stderr: &str) -> (text: String)
    ensures
        text@ == output_failure_text(texts(args@), cwd@, stderr@),
{
    let shown_args = debug_of_list(args);
    let shown_cwd = debug_of_text(cwd);
    let mut text = String::from_str("Failed to execute git command: ");
    text.append(shown_args.as_str());
    text.append(" in ");
    text.append(shown_cwd.as_str());
    text.append(". Stderr: ");
    text.append(stderr);
    text
}

/// Judges a command by its exit status.
pub fn check_git_status(args: &Vec<String>, cwd: &str, output: &GitOutput) -> (r: Result<
    (),
    TransactionalFsError,
>)
    ensures
        unit_result_view(r) == status_result(
            texts(args@),
            cwd@,
            output.success,
            output.stdout@,
            output.stderr@,
        ),
{
    if output.success {
        Ok(())
    } else {
        let mut text = failure_head(args, cwd, output.stderr.as_str());
        text.append(", Stdout: ");
        text.append(output.stdout.as_str());
        Err(TransactionalFsError::GitCommand(text))
    }
}

/// Reads the output of a command: the trimmed standard output on success,
/// nothing where a history query met a repository without commits, and a
/// command failure otherwise.
pub fn read_git_output(args: &Vec<String>, cwd: &str, output: &GitOutput) -> (r: Result<
    Option<String>,
    TransactionalFsError,
>)
    ensures
        optional_text_result_view(r) == output_result(
            texts(args@),
            cwd@,
            output.success,
            output.stdout@,
            output.stderr@,
        ),
{
    if output.success {
        Ok(Some(trim(output.stdout.as_str())))
    } else if has_arg(args, "log") && contains(
        output.stderr.as_str(),
        "fatal: your current branch",
    ) && contains(output.stderr.as_str(), "does not have any commits yet") {
        Ok(None)
    } else {
        Err(TransactionalFsError::GitCommand(failure_head(args, cwd, output.stderr.as_str())))
    }
}

} // verus!
