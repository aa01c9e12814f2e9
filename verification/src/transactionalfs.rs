//! The versioned file store: files below a root directory whose every change
//! is recorded as a commit of a version-control repository in that root.
//!
//! The store itself runs no process and touches no file. It decides: which
//! path a request may touch, which commands record a change, what their
//! outcome means, and how the history and the tree are read from what the
//! repository and the directory report.

use crate::cache::{DataStorageCache, Representation};
use crate::git::{
    add_args, args2, args3, cat_file_args, check_git_status, commit_args, config_email_args,
    config_name_args, init_args, log_args, read_git_output, reset_args, revert_args,
    output_result, status_result, GitOutput,
};
use crate::keyed::{has_key, without_key};
use crate::path_guard::{
    event_of, resolved_path, safe_join, security_event, stays_inside, SafeFsError, SafeFsFault,
    TargetKind,
};
use crate::tree::{list_files_raw, listing, root_name, FsEntry, RawEntry, TreeView};
use crate::text::{
    chars_of, concat_str, contains, contains_seq, lemma_texts_push, lines_of, split_lines, str_eq,
    texts, trim, trimmed,
};
use vstd::prelude::*;
use vstd::string::StringExecFns;

verus! {

/// Why an operation of the store failed.
#[derive(Debug)]
pub enum TransactionalFsError {
    /// The file system refused an operation; the text says how.
    Io(String),
    /// The path did not pass the containment check.
    SafetyError(SafeFsError),
    /// A command of the version control exited with a failure status.
    GitCommand(String),
    /// The hash names no commit of the repository.
    CommitNotFound(String),
    /// The log of the repository was not in the expected shape.
    GitLogParseError(String),
    /// The file to delete does not exist.
    FileNotFound(String),
}

/// The content of a `TransactionalFsError`.
pub enum StoreFault {
    Io(Seq<char>),
    SafetyError(SafeFsFault),
    GitCommand(Seq<char>),
    CommitNotFound(Seq<char>),
    GitLogParseError(Seq<char>),
    FileNotFound(Seq<char>),
}

impl View for TransactionalFsError {
    type V = StoreFault;

    open spec fn view(&self) -> StoreFault {
        match self {
            TransactionalFsError::Io(detail) => StoreFault::Io(detail@),
            TransactionalFsError::SafetyError(inner) => StoreFault::SafetyError(inner@),
            TransactionalFsError::GitCommand(detail) => StoreFault::GitCommand(detail@),
            TransactionalFsError::CommitNotFound(hash) => StoreFault::CommitNotFound(hash@),
            TransactionalFsError::GitLogParseError(detail) => StoreFault::GitLogParseError(
                detail@,
            ),
            TransactionalFsError::FileNotFound(path) => StoreFault::FileNotFound(path@),
        }
    }
}

impl TransactionalFsError {
    /// The message of this error.
    pub fn message(&self) -> (s: String)
        ensures
            self matches TransactionalFsError::Io(detail) ==> s@ == "IO error: "@ + detail@,
            self matches TransactionalFsError::SafetyError(SafeFsError::PathTraversalDetected)
                ==> s@ == "Safety error: "@
                + "Path traversal attempt detected: target is outside base directory"@,
            self matches TransactionalFsError::SafetyError(SafeFsError::Io(detail)) ==> s@
                == "Safety error: "@ + ("IO error: "@ + detail@),
            self matches TransactionalFsError::GitCommand(detail) ==> s@ == "Git command error: "@
                + detail@,
            self matches TransactionalFsError::CommitNotFound(hash) ==> s@ == "Commit not found: "@
                + hash@,
            self matches TransactionalFsError::GitLogParseError(detail) ==> s@
                == "Failed to parse git log output: "@ + detail@,
            self matches TransactionalFsError::FileNotFound(path) ==> s@ == "File not found: "@
                + path@,
    {
        match self {
            TransactionalFsError::Io(detail) => concat_str("IO error: ", detail.as_str()),
            TransactionalFsError::SafetyError(inner) => {
                let detail = inner.message();
                concat_str("Safety error: ", detail.as_str())
            },
            TransactionalFsError::GitCommand(detail) => concat_str(
                "Git command error: ",
                detail.as_str(),
            ),
            TransactionalFsError::CommitNotFound(hash) => concat_str(
                "Commit not found: ",
                hash.as_str(),
            ),
            TransactionalFsError::GitLogParseError(detail) => concat_str(
                "Failed to parse git log output: ",
                detail.as_str(),
            ),
            TransactionalFsError::FileNotFound(path) => concat_str("File not found: ", path.as_str()),
        }
    }
}

/// One commit of the history of a root.
#[derive(Debug, PartialEq, Eq, Clone)]
pub struct CommitInfo {
    pub hash: String,
    pub author: String,
    pub message: String,
    /// The paths that the commit touched, relative to the root.
    pub files: Vec<String>,
}

/// The content of a `CommitInfo`.
pub struct CommitView {
    pub hash: Seq<char>,
    pub author: Seq<char>,
    pub message: Seq<char>,
    pub files: Seq<Seq<char>>,
}

impl View for CommitInfo {
    type V = CommitView;

    open spec fn view(&self) -> CommitView {
        CommitView {
            hash: self.hash@,
            author: self.author@,
            message: self.message@,
            files: texts(self.files@),
        }
    }
}

/// The contents of the commits.
pub open spec fn commit_views(commits: Seq<CommitInfo>) -> Seq<CommitView> {
    commits.map_values(|commit: CommitInfo| commit@)
}

/// What is missing where a log breaks off inside a commit.
pub enum LogFault {
    MissingAuthor,
    MissingMessage,
}

/// The number of lines before the first empty line, or the number of all
/// lines where none is empty.
pub open spec fn leading_filled(lines: Seq<Seq<char>>) -> int
    decreases lines.len(),
{
    if lines.len() == 0 || lines[0].len() == 0 {
        0
    } else {
        1 + leading_filled(lines.drop_first())
    }
}

/// The lines of a commit after its hash, author and subject: one empty line,
/// if there is one, is passed over.
pub open spec fn after_subject(lines: Seq<Seq<char>>) -> Seq<Seq<char>> {
    let after = lines.skip(3);
    if after.len() > 0 && after[0].len() == 0 {
        after.skip(1)
    } else {
        after
    }
}

/// The lines behind the files of a commit, without the empty line that ends
/// them.
pub open spec fn after_files(body: Seq<Seq<char>>) -> Seq<Seq<char>> {
    let n = leading_filled(body);
    if 0 <= n < body.len() {
        body.skip(n + 1)
    } else {
        body.skip(body.len() as int)
    }
}

/// The commits that a log holds. Each commit is three lines (hash, author,
/// subject), then, after an empty line that may be missing, the changed files
/// line by line up to the next empty line or the end.
pub open spec fn parse_commits(lines: Seq<Seq<char>>) -> Result<Seq<CommitView>, LogFault>
    decreases lines.len(),
{
    if lines.len() == 0 {
        Ok(Seq::empty())
    } else if lines.len() == 1 {
        Err(LogFault::MissingAuthor)
    } else if lines.len() == 2 {
        Err(LogFault::MissingMessage)
    } else {
        let body = after_subject(lines);
        let commit = CommitView {
            hash: lines[0],
            author: lines[1],
            message: lines[2],
            files: body.take(leading_filled(body)),
        };
        match parse_commits(after_files(body)) {
            Ok(more) => Ok(seq![commit] + more),
            Err(fault) => Err(fault),
        }
    }
}

/// A position with only filled lines before it, and an empty line or the end
/// at it, is `leading_filled`.
pub proof fn lemma_leading_filled_is(lines: Seq<Seq<char>>, n: int)
    requires
        0 <= n <= lines.len(),
        forall|k: int| 0 <= k < n ==> (#[trigger] lines[k]).len() > 0,
        n < lines.len() ==> lines[n].len() == 0,
    ensures
        leading_filled(lines) == n,
    decreases lines.len(),
{
    if lines.len() == 0 || lines[0].len() == 0 {
        if n > 0 {
            assert(lines[0].len() > 0);
        }
    } else {
        assert forall|k: int| 0 <= k < n - 1 implies (#[trigger] lines.drop_first()[k]).len()
            > 0 by {
            assert(lines.drop_first()[k] == lines[k + 1]);
        }
        lemma_leading_filled_is(lines.drop_first(), n - 1);
    }
}

/// The commits found so far, followed by what the rest of the log holds.
pub open spec fn commits_then(
    done: Seq<CommitView>,
    rest: Result<Seq<CommitView>, LogFault>,
) -> Result<Seq<CommitView>, LogFault> {
    match rest {
        Ok(more) => Ok(done + more),
        Err(fault) => Err(fault),
    }
}

/// What a log gives: its commits, or the fault of a log that breaks off after
/// a hash or after an author.
pub open spec fn log_result(output: Seq<char>) -> Result<Seq<CommitView>, StoreFault> {
    match parse_commits(lines_of(output)) {
        Ok(commits) => Ok(commits),
        Err(LogFault::MissingAuthor) => Err(StoreFault::GitLogParseError("missing author"@)),
        Err(LogFault::MissingMessage) => Err(StoreFault::GitLogParseError("missing message"@)),
    }
}

/// The content of the outcome of an operation.
pub open spec fn outcome_view(outcome: Result<Vec<CommitInfo>, TransactionalFsError>) -> Result<
    Seq<CommitView>,
    StoreFault,
> {
    match outcome {
        Ok(commits) => Ok(commit_views(commits@)),
        Err(error) => Err(error@),
    }
}

/// The commit that a log starts with.
pub open spec fn first_commit(lines: Seq<Seq<char>>) -> CommitView {
    CommitView {
        hash: lines[0],
        author: lines[1],
        message: lines[2],
        files: after_subject(lines).take(leading_filled(after_subject(lines))),
    }
}

/// Reads the commit that starts at line `pos`, and says where the next one
/// starts.
fn read_commit(lines: &Vec<String>, pos: usize) -> (r: (CommitInfo, usize))
    requires
        pos + 3 <= lines.len(),
    ensures
        r.0@ == first_commit(texts(lines@).skip(pos as int)),
        pos < r.1 <= lines.len(),
        texts(lines@).skip(r.1 as int) == after_files(
            after_subject(texts(lines@).skip(pos as int)),
        ),
{
    let ghost all = texts(lines@);
    let ghost here = all.skip(pos as int);
    let n: usize = lines.len();
    let hash = lines[pos].clone();
    let author = lines[pos + 1].clone();
    let message = lines[pos + 2].clone();
    proof {
        assert(here[0] == lines@[pos as int]@);
        assert(here[1] == lines@[pos + 1]@);
        assert(here[2] == lines@[pos + 2]@);
        assert(here.skip(3) =~= all.skip(pos + 3));
    }
    let mut next: usize = pos + 3;
    if next < n && lines[next].as_str().is_empty() {
        assert(all.skip(pos + 3)[0] == lines@[next as int]@);
        assert(all.skip(pos + 3).skip(1) =~= all.skip(pos + 4));
        next = next + 1;
    } else {
        if next < n {
            assert(all.skip(pos + 3)[0] == lines@[next as int]@);
        }
    }
    let ghost body = after_subject(here);
    assert(body == all.skip(next as int));
    let first_file: usize = next;
    let mut files: Vec<String> = Vec::new();
    assert(texts(files@) =~= all.subrange(first_file as int, next as int));
    while next < n && !lines[next].as_str().is_empty()
        invariant
            first_file <= next <= n,
            n == lines@.len(),
            texts(lines@) == all,
            texts(files@) == all.subrange(first_file as int, next as int),
            forall|k: int| first_file <= k < next ==> (#[trigger] all[k]).len() > 0,
        decreases n - next,
    {
        let file = lines[next].clone();
        proof {
            lemma_texts_push(files@, file);
            assert(all[next as int] == lines@[next as int]@);
            assert(all.subrange(first_file as int, next + 1) =~= all.subrange(
                first_file as int,
                next as int,
            ).push(all[next as int]));
        }
        files.push(file);
        next += 1;
    }
    proof {
        if next < n {
            assert(all[next as int] == lines@[next as int]@);
        }
        assert forall|k: int| 0 <= k < next - first_file implies (#[trigger] body[k]).len()
            > 0 by {
            assert(body[k] == all[first_file + k]);
        }
        lemma_leading_filled_is(body, next - first_file);
        assert(body.take(next - first_file) =~= all.subrange(first_file as int, next as int));
    }
    let after: usize = if next < n {
        next + 1
    } else {
        next
    };
    proof {
        assert(after_files(body) =~= all.skip(after as int));
    }
    (CommitInfo { hash, author, message, files }, after)
}

/// A log of three lines or more holds its first commit, then what the lines
/// behind that commit hold.
pub proof fn lemma_parse_commits_unfold(lines: Seq<Seq<char>>)
    requires
        lines.len() >= 3,
    ensures
        parse_commits(lines) == commits_then(
            seq![first_commit(lines)],
            parse_commits(after_files(after_subject(lines))),
        ),
{
}

/// Commits found one after the other join up.
pub proof fn lemma_commits_then(
    done: Seq<CommitView>,
    commit: CommitView,
    rest: Result<Seq<CommitView>, LogFault>,
)
    ensures
        commits_then(done, commits_then(seq![commit], rest)) == commits_then(
            done.push(commit),
            rest,
        ),
{
    match rest {
        Ok(more) => {
            assert(done + (seq![commit] + more) =~= done.push(commit) + more);
        },
        Err(_) => {},
    }
}

/// Reads the commits out of the log that the version control printed for
/// `log --pretty=format:%H%n%an%n%s --name-only`, most recent first. A log
/// that breaks off after a hash or after an author is refused.
pub fn parse_commit_log(output: &str) -> (r: Result<Vec<CommitInfo>, TransactionalFsError>)
    ensures
        outcome_view(r) == log_result(output@),
{
    let lines = split_lines(&chars_of(output));
    let ghost all = lines_of(output@);
    let n: usize = lines.len();
    let mut commits: Vec<CommitInfo> = Vec::new();
    let mut pos: usize = 0;
    proof {
        assert(all.skip(0) =~= all);
        assert(commit_views(commits@) =~= Seq::<CommitView>::empty());
        match parse_commits(all) {
            Ok(more) => {
                assert(Seq::<CommitView>::empty() + more =~= more);
            },
            Err(_) => {},
        }
    }
    while pos < n
        invariant
            pos <= n,
            n == lines@.len(),
            texts(lines@) == all,
            all == lines_of(output@),
            parse_commits(all) == commits_then(
                commit_views(commits@),
                parse_commits(all.skip(pos as int)),
            ),
        decreases n - pos,
    {
        if n - pos == 1 {
            return Err(
                TransactionalFsError::GitLogParseError(String::from_str("missing author")),
            );
        }
        if n - pos == 2 {
            return Err(
                TransactionalFsError::GitLogParseError(String::from_str("missing message")),
            );
        }
        let (commit, after) = read_commit(&lines, pos);
        proof {
            let here = all.skip(pos as int);
            lemma_parse_commits_unfold(here);
            lemma_commits_then(
                commit_views(commits@),
                commit@,
                parse_commits(all.skip(after as int)),
            );
            assert(commit_views(commits@.push(commit)) =~= commit_views(commits@).push(commit@));
        }
        commits.push(commit);
        pos = after;
    }
    proof {
        assert(all.skip(n as int) =~= Seq::<Seq<char>>::empty());
        assert(commit_views(commits@) + Seq::<CommitView>::empty() =~= commit_views(commits@));
    }
    Ok(commits)
}

/// An operation of the store.
#[derive(Debug)]
pub enum Request {
    /// Opens the store: a root without a repository gets an empty one.
    Open,
    /// Writes a file below the root and commits the change. The caller holds
    /// the content.
    Write { relative: String, message: String },
    /// Deletes a file below the root and commits the change.
    Delete { relative: String, message: String },
    /// Drops the most recent commit from the history and the tree.
    RevertLast,
    /// Adds a commit that undoes the commit of the hash.
    RevertCommit { hash: String },
    /// Lists the history, most recent commit first.
    ListCommits,
}

/// The content of a `Request`.
pub enum RequestView {
    Open,
    Write { relative: Seq<char>, message: Seq<char> },
    Delete { relative: Seq<char>, message: Seq<char> },
    RevertLast,
    RevertCommit { hash: Seq<char> },
    ListCommits,
}

impl View for Request {
    type V = RequestView;

    open spec fn view(&self) -> RequestView {
        match self {
            Request::Open => RequestView::Open,
            Request::Write { relative, message } => RequestView::Write {
                relative: relative@,
                message: message@,
            },
            Request::Delete { relative, message } => RequestView::Delete {
                relative: relative@,
                message: message@,
            },
            Request::RevertLast => RequestView::RevertLast,
            Request::RevertCommit { hash } => RequestView::RevertCommit { hash: hash@ },
            Request::ListCommits => RequestView::ListCommits,
        }
    }
}

/// What the store waits for.
#[derive(Debug, Clone, Copy, PartialEq, Eq, Structural)]
pub enum Stage {
    /// Nothing was asked yet.
    Idle,
    /// Whether the root holds a repository.
    Repository,
    /// Whether the file to delete exists.
    FileProbe,
    /// The file to be written.
    Written,
    /// The file to be removed.
    Removed,
    /// The outcome of `init`.
    Init,
    /// The outcome of `config user.email`.
    ConfigEmail,
    /// The outcome of `config user.name`.
    ConfigName,
    /// The outcome of `add`.
    Add,
    /// The outcome of `commit`.
    Commit,
    /// The outcome of `reset`.
    Reset,
    /// The outcome of `cat-file`.
    CatFile,
    /// The outcome of `revert`.
    Revert,
    /// The outcome of `log`.
    Log,
    /// The operation has ended.
    Finished,
}

/// What the caller is to do next.
#[derive(Debug)]
pub enum Action {
    /// Report whether the root holds the directory `.git`.
    ProbeRepository,
    /// Report whether the file exists.
    ProbeFile { path: String },
    /// Create the missing parent directories and write the content to the file.
    WriteFile { path: String },
    /// Remove the file.
    RemoveFile { path: String },
    /// Run the version control in the root with these arguments.
    RunGit { args: Vec<String> },
    /// The operation has ended with this outcome. Only a listing has commits.
    Finish { outcome: Result<Vec<CommitInfo>, TransactionalFsError> },
}

/// The content of an `Action`.
pub enum ActionView {
    ProbeRepository,
    ProbeFile { path: Seq<char> },
    WriteFile { path: Seq<char> },
    RemoveFile { path: Seq<char> },
    RunGit { args: Seq<Seq<char>> },
    Finish { outcome: Result<Seq<CommitView>, StoreFault> },
}

impl View for Action {
    type V = ActionView;

    open spec fn view(&self) -> ActionView {
        match self {
            Action::ProbeRepository => ActionView::ProbeRepository,
            Action::ProbeFile { path } => ActionView::ProbeFile { path: path@ },
            Action::WriteFile { path } => ActionView::WriteFile { path: path@ },
            Action::RemoveFile { path } => ActionView::RemoveFile { path: path@ },
            Action::RunGit { args } => ActionView::RunGit { args: texts(args@) },
            Action::Finish { outcome } => ActionView::Finish { outcome: outcome_view(*outcome) },
        }
    }
}

/// What the caller reports back.
#[derive(Debug)]
pub enum Event {
    /// The operation begins.
    Begin,
    /// What a probe found.
    Probed { exists: bool },
    /// How writing or removing the file went: the error, if there was one.
    FileOutcome { error: Option<String> },
    /// What the command reported.
    GitOutcome { output: GitOutput },
    /// The command could not be run at all.
    GitUnavailable { reason: String },
}

/// The content of an `Event`.
pub enum EventView {
    Begin,
    Probed { exists: bool },
    FileOutcome { error: Option<Seq<char>> },
    GitOutcome { success: bool, stdout: Seq<char>, stderr: Seq<char> },
    GitUnavailable { reason: Seq<char> },
}

impl View for Event {
    type V = EventView;

    open spec fn view(&self) -> EventView {
        match self {
            Event::Begin => EventView::Begin,
            Event::Probed { exists } => EventView::Probed { exists: *exists },
            Event::FileOutcome { error } => EventView::FileOutcome {
                error: match error {
                    Some(text) => Some(text@),
                    None => None,
                },
            },
            Event::GitOutcome { output } => EventView::GitOutcome {
                success: output.success,
                stdout: output.stdout@,
                stderr: output.stderr@,
            },
            Event::GitUnavailable { reason } => EventView::GitUnavailable { reason: reason@ },
        }
    }
}

/// Where an operation stands: the stage, and the resolved path of the file
/// once a write or a delete has passed the containment check.
#[derive(Debug)]
pub struct Progress {
    pub stage: Stage,
    pub path: String,
}

/// One step of an operation: the stage it leads to, the resolved path, and
/// what the caller is to do.
pub struct Step {
    pub stage: Stage,
    pub path: Seq<char>,
    pub action: ActionView,
}

/// The step that ends an operation.
pub open spec fn finish(path: Seq<char>, outcome: Result<Seq<CommitView>, StoreFault>) -> Step {
    Step { stage: Stage::Finished, path, action: ActionView::Finish { outcome } }
}

/// The step that runs a command.
pub open spec fn run(stage: Stage, path: Seq<char>, args: Seq<Seq<char>>) -> Step {
    Step { stage, path, action: ActionView::RunGit { args } }
}

/// The fault of an event that does not answer what the store waits for.
pub open spec fn unexpected() -> StoreFault {
    StoreFault::Io("unexpected event"@)
}

/// The first step of an operation. A write or a delete of a path that leaves
/// the root ends at once, before anything is touched.
pub open spec fn first_step(root: Seq<char>, request: RequestView) -> Step {
    match request {
        RequestView::Write { relative, message } => if stays_inside(root, relative) {
            Step {
                stage: Stage::Written,
                path: resolved_path(root, relative),
                action: ActionView::WriteFile { path: resolved_path(root, relative) },
            }
        } else {
            finish(
                Seq::empty(),
                Err(StoreFault::SafetyError(SafeFsFault::PathTraversalDetected)),
            )
        },
        RequestView::Delete { relative, message } => if stays_inside(root, relative) {
            Step {
                stage: Stage::FileProbe,
                path: resolved_path(root, relative),
                action: ActionView::ProbeFile { path: resolved_path(root, relative) },
            }
        } else {
            finish(
                Seq::empty(),
                Err(StoreFault::SafetyError(SafeFsFault::PathTraversalDetected)),
            )
        },
        _ => Step {
            stage: Stage::Repository,
            path: Seq::empty(),
            action: ActionView::ProbeRepository,
        },
    }
}

/// The step after the root was probed for a repository. Without one, opening
/// makes one, and reverting and listing have nothing to do.
pub open spec fn repository_step(request: RequestView, exists: bool) -> Step {
    match request {
        RequestView::Open => if exists {
            finish(Seq::empty(), Ok(Seq::empty()))
        } else {
            run(Stage::Init, Seq::empty(), init_args())
        },
        RequestView::RevertLast => if exists {
            run(Stage::Reset, Seq::empty(), reset_args())
        } else {
            finish(Seq::empty(), Ok(Seq::empty()))
        },
        RequestView::RevertCommit { hash } => if exists {
            run(Stage::CatFile, Seq::empty(), cat_file_args(hash))
        } else {
            finish(Seq::empty(), Ok(Seq::empty()))
        },
        RequestView::ListCommits => if exists {
            run(Stage::Log, Seq::empty(), log_args())
        } else {
            finish(Seq::empty(), Ok(Seq::empty()))
        },
        _ => finish(Seq::empty(), Err(unexpected())),
    }
}

/// The arguments of the command whose outcome a stage waits for.
pub open spec fn pending_args(email: Seq<char>, request: RequestView, stage: Stage) -> Seq<
    Seq<char>,
> {
    match stage {
        Stage::Init => init_args(),
        Stage::ConfigEmail => config_email_args(email),
        Stage::ConfigName => config_name_args(email),
        Stage::Add => add_args(),
        Stage::Commit => match request {
            RequestView::Write { relative, message } => commit_args(message),
            RequestView::Delete { relative, message } => commit_args(message),
            _ => commit_args(Seq::empty()),
        },
        Stage::Reset => reset_args(),
        Stage::CatFile => match request {
            RequestView::RevertCommit { hash } => cat_file_args(hash),
            _ => cat_file_args(Seq::empty()),
        },
        Stage::Revert => match request {
            RequestView::RevertCommit { hash } => revert_args(hash),
            _ => revert_args(Seq::empty()),
        },
        Stage::Log => log_args(),
        _ => Seq::empty(),
    }
}

/// Whether a stage waits for the outcome of a command.
pub open spec fn awaits_git(stage: Stage) -> bool {
    stage is Init || stage is ConfigEmail || stage is ConfigName || stage is Add || stage is Commit
        || stage is Reset || stage is CatFile || stage is Revert || stage is Log
}

/// The step after a command that is judged by its status has succeeded: the
/// next command of a commit, or the end.
pub open spec fn after_success(
    email: Seq<char>,
    request: RequestView,
    stage: Stage,
    path: Seq<char>,
) -> Step {
    match stage {
        Stage::ConfigEmail => run(Stage::ConfigName, path, config_name_args(email)),
        Stage::ConfigName => run(Stage::Add, path, add_args()),
        Stage::Add => run(Stage::Commit, path, pending_args(email, request, Stage::Commit)),
        _ => finish(path, Ok(Seq::empty())),
    }
}

/// Whether the answer to the question what a hash names says that it names a
/// commit: the query succeeded and printed the word `commit`. A query that
/// fails, as it does for a hash that names no object, says that it names none.
pub open spec fn names_commit(success: bool, stdout: Seq<char>) -> bool {
    success && trimmed(stdout) == "commit"@
}

/// The step after a command has reported.
pub open spec fn git_step(
    root: Seq<char>,
    email: Seq<char>,
    request: RequestView,
    stage: Stage,
    path: Seq<char>,
    success: bool,
    stdout: Seq<char>,
    stderr: Seq<char>,
) -> Step {
    let args = pending_args(email, request, stage);
    match stage {
        Stage::CatFile => match request {
            RequestView::RevertCommit { hash } => if names_commit(success, stdout) {
                run(Stage::Revert, path, revert_args(hash))
            } else {
                finish(path, Err(StoreFault::CommitNotFound(hash)))
            },
            _ => finish(path, Err(unexpected())),
        },
        Stage::Log => match output_result(args, root, success, stdout, stderr) {
            Err(fault) => finish(path, Err(fault)),
            Ok(None) => finish(path, Ok(Seq::empty())),
            Ok(Some(text)) => finish(path, log_result(text)),
        },
        _ => match status_result(args, root, success, stdout, stderr) {
            Err(fault) => finish(path, Err(fault)),
            Ok(_) => after_success(email, request, stage, path),
        },
    }
}

/// The step that an event leads to. An event that does not answer what the
/// store waits for ends the operation with a fault.
pub open spec fn next_step(
    root: Seq<char>,
    email: Seq<char>,
    request: RequestView,
    stage: Stage,
    path: Seq<char>,
    event: EventView,
) -> Step {
    match (stage, event) {
        (Stage::Idle, EventView::Begin) => first_step(root, request),
        (Stage::Repository, EventView::Probed { exists }) => repository_step(request, exists),
        (Stage::FileProbe, EventView::Probed { exists }) => if exists {
            Step {
                stage: Stage::Removed,
                path,
                action: ActionView::RemoveFile { path },
            }
        } else {
            finish(path, Err(StoreFault::FileNotFound(path)))
        },
        (Stage::Written, EventView::FileOutcome { error }) => match error {
            Some(text) => finish(path, Err(StoreFault::SafetyError(SafeFsFault::Io(text)))),
            None => run(Stage::ConfigEmail, path, config_email_args(email)),
        },
        (Stage::Removed, EventView::FileOutcome { error }) => match error {
            Some(text) => finish(path, Err(StoreFault::Io(text))),
            None => run(Stage::ConfigEmail, path, config_email_args(email)),
        },
        (_, EventView::GitOutcome { success, stdout, stderr }) => if awaits_git(stage) {
            git_step(root, email, request, stage, path, success, stdout, stderr)
        } else {
            finish(path, Err(unexpected()))
        },
        (_, EventView::GitUnavailable { reason }) => if awaits_git(stage) {
            finish(path, Err(StoreFault::Io(reason)))
        } else {
            finish(path, Err(unexpected()))
        },
        _ => finish(path, Err(unexpected())),
    }
}

/// Whether a step forgets the file in the cache: the one after the file was
/// written, and the one that has it removed.
pub open spec fn invalidates(stage: Stage, event: EventView) -> bool {
    ||| stage is Written && event matches EventView::FileOutcome { error: None }
    ||| stage is FileProbe && event matches EventView::Probed { exists: true }
}


/// The security event that the outcome of an operation calls for: a write or
/// a delete that was refused as a traversal attempt is reported with the root
/// and the path that the request would have led to; nothing else is.
pub open spec fn refusal_event(
    root: Seq<char>,
    request: RequestView,
    outcome: Result<Seq<CommitView>, StoreFault>,
) -> Option<Seq<char>> {
    match outcome {
        Err(StoreFault::SafetyError(fault)) => match request {
            RequestView::Write { relative, message } => event_of(
                fault,
                root,
                relative,
                TargetKind::Relative,
            ),
            RequestView::Delete { relative, message } => event_of(
                fault,
                root,
                relative,
                TargetKind::Relative,
            ),
            _ => None,
        },
        _ => None,
    }
}

/// A store of files below a root, versioned by a repository in that root.
/// Commits are made in the name of the acting user's e-mail address.
#[derive(Debug)]
pub struct GitTransactionalFs {
    root_path: String,
    author_email: String,
}

/// The step that an exec step amounts to.
pub open spec fn step_view(step: (Progress, Action)) -> Step {
    Step { stage: step.0.stage, path: step.0.path@, action: step.1@ }
}

/// Ends an operation.
fn finished(path: String, outcome: Result<Vec<CommitInfo>, TransactionalFsError>) -> (r: (
    Progress,
    Action,
))
    ensures
        step_view(r) == finish(path@, outcome_view(outcome)),
{
    (Progress { stage: Stage::Finished, path }, Action::Finish { outcome })
}

/// Ends an operation with success and no commits to report.
fn finished_ok(path: String) -> (r: (Progress, Action))
    ensures
        step_view(r) == finish(path@, Ok(Seq::empty())),
{
    let commits: Vec<CommitInfo> = Vec::new();
    assert(commit_views(commits@) =~= Seq::<CommitView>::empty());
    finished(path, Ok(commits))
}

/// Ends an operation on an event that does not answer what the store waits
/// for.
fn finished_unexpected(path: String) -> (r: (Progress, Action))
    ensures
        step_view(r) == finish(path@, Err(unexpected())),
{
    finished(path, Err(TransactionalFsError::Io(String::from_str("unexpected event"))))
}

/// Goes on with a command.
fn running(stage: Stage, path: String, args: Vec<String>) -> (r: (Progress, Action))
    ensures
        step_view(r) == run(stage, path@, texts(args@)),
{
    (Progress { stage, path }, Action::RunGit { args })
}

impl GitTransactionalFs {
    /// The root directory of the store.
    pub closed spec fn root(&self) -> Seq<char> {
        self.root_path@
    }

    /// The e-mail address of the acting user.
    pub closed spec fn email(&self) -> Seq<char> {
        self.author_email@
    }

    /// A store for the root, acting for the user with this e-mail address.
    pub fn new(root_path: String, author_email: String) -> (store: Self)
        ensures
            store.root() == root_path@,
            store.email() == author_email@,
    {
        GitTransactionalFs { root_path, author_email }
    }

    /// The root directory of the store.
    pub fn root_path(&self) -> (path: &String)
        ensures
            path@ == self.root(),
    {
        &self.root_path
    }

    /// The e-mail address of the acting user.
    pub fn author_email(&self) -> (email: &String)
        ensures
            email@ == self.email(),
    {
        &self.author_email
    }

    /// The security event to log for the outcome of an operation, if the
    /// outcome calls for one. The caller gets the error without the paths.
    pub fn security_event(
        &self,
        request: &Request,
        outcome: &Result<Vec<CommitInfo>, TransactionalFsError>,
    ) -> (event: Option<String>)
        ensures
            match event {
                Some(text) => refusal_event(self.root(), request@, outcome_view(*outcome)) == Some(
                    text@,
                ),
                None => refusal_event(self.root(), request@, outcome_view(*outcome)) is None,
            },
    {
        match outcome {
            Err(TransactionalFsError::SafetyError(error)) => match request {
                Request::Write { relative, message } => security_event(
                    error,
                    self.root_path.as_str(),
                    relative.as_str(),
                    TargetKind::Relative,
                ),
                Request::Delete { relative, message } => security_event(
                    error,
                    self.root_path.as_str(),
                    relative.as_str(),
                    TargetKind::Relative,
                ),
                _ => None,
            },
            _ => None,
        }
    }

    /// Where every operation starts.
    pub fn begin() -> (progress: Progress)
        ensures
            progress.stage == Stage::Idle,
            progress.path@ == Seq::<char>::empty(),
    {
        Progress { stage: Stage::Idle, path: String::new() }
    }

    /// The arguments of the command whose outcome the stage waits for.
    fn args_for(&self, request: &Request, stage: Stage) -> (args: Vec<String>)
        ensures
            texts(args@) == pending_args(self.email(), request@, stage),
    {
        let email = self.author_email.as_str();
        proof {
            reveal_strlit("");
            assert(""@ =~= Seq::<char>::empty());
        }
        match stage {
            Stage::Init => {
                let mut args: Vec<String> = Vec::new();
                args.push(String::from_str("init"));
                assert(texts(args@) =~= init_args());
                args
            },
            Stage::ConfigEmail => {
                let args = args3("config", "user.email", email);
                assert(texts(args@) == config_email_args(self.email()));
                args
            },
            Stage::ConfigName => {
                let args = args3("config", "user.name", email);
                assert(texts(args@) == config_name_args(self.email()));
                args
            },
            Stage::Add => {
                let args = args2("add", ".");
                assert(texts(args@) == add_args());
                args
            },
            Stage::Commit => {
                let args = match request {
                    Request::Write { relative, message } => args3("commit", "-m", message.as_str()),
                    Request::Delete { relative, message } => args3(
                        "commit",
                        "-m",
                        message.as_str(),
                    ),
                    _ => args3("commit", "-m", ""),
                };
                assert(texts(args@) == pending_args(self.email(), request@, Stage::Commit));
                args
            },
            Stage::Reset => {
                let args = args3("reset", "--hard", "HEAD~1");
                assert(texts(args@) == reset_args());
                args
            },
            Stage::CatFile => {
                let args = match request {
                    Request::RevertCommit { hash } => args3("cat-file", "-t", hash.as_str()),
                    _ => args3("cat-file", "-t", ""),
                };
                assert(texts(args@) == pending_args(self.email(), request@, Stage::CatFile));
                args
            },
            Stage::Revert => {
                let args = match request {
                    Request::RevertCommit { hash } => args3("revert", "--no-edit", hash.as_str()),
                    _ => args3("revert", "--no-edit", ""),
                };
                assert(texts(args@) == pending_args(self.email(), request@, Stage::Revert));
                args
            },
            Stage::Log => {
                let args = args3("log", "--pretty=format:%H%n%an%n%s", "--name-only");
                assert(texts(args@) == log_args());
                args
            },
            _ => {
                let args: Vec<String> = Vec::new();
                assert(texts(args@) =~= Seq::<Seq<char>>::empty());
                args
            },
        }
    }

    /// The first step of an operation.
    fn start(&self, request: &Request) -> (r: (Progress, Action))
        ensures
            step_view(r) == first_step(self.root(), request@),
    {
        match request {
            Request::Write { relative, message } => {
                match safe_join(self.root_path.as_str(), relative.as_str()) {
                    Ok(path) => {
                        let target = path.clone();
                        (Progress { stage: Stage::Written, path }, Action::WriteFile { path: target })
                    },
                    Err(error) => finished(
                        String::new(),
                        Err(TransactionalFsError::SafetyError(error)),
                    ),
                }
            },
            Request::Delete { relative, message } => {
                match safe_join(self.root_path.as_str(), relative.as_str()) {
                    Ok(path) => {
                        let target = path.clone();
                        (
                            Progress { stage: Stage::FileProbe, path },
                            Action::ProbeFile { path: target },
                        )
                    },
                    Err(error) => finished(
                        String::new(),
                        Err(TransactionalFsError::SafetyError(error)),
                    ),
                }
            },
            _ => (
                Progress { stage: Stage::Repository, path: String::new() },
                Action::ProbeRepository,
            ),
        }
    }

    /// The step after the root was probed for a repository.
    fn after_repository_probe(&self, request: &Request, exists: bool) -> (r: (Progress, Action))
        ensures
            step_view(r) == repository_step(request@, exists),
    {
        match request {
            Request::Open => if exists {
                finished_ok(String::new())
            } else {
                running(Stage::Init, String::new(), self.args_for(request, Stage::Init))
            },
            Request::RevertLast => if exists {
                running(Stage::Reset, String::new(), self.args_for(request, Stage::Reset))
            } else {
                finished_ok(String::new())
            },
            Request::RevertCommit { hash } => if exists {
                running(Stage::CatFile, String::new(), self.args_for(request, Stage::CatFile))
            } else {
                finished_ok(String::new())
            },
            Request::ListCommits => if exists {
                running(Stage::Log, String::new(), self.args_for(request, Stage::Log))
            } else {
                finished_ok(String::new())
            },
            _ => finished_unexpected(String::new()),
        }
    }

    /// The step after a command has reported.
    fn after_git(&self, request: &Request, stage: Stage, path: String, output: &GitOutput) -> (r: (
        Progress,
        Action,
    ))
        requires
            awaits_git(stage),
        ensures
            step_view(r) == git_step(
                self.root(),
                self.email(),
                request@,
                stage,
                path@,
                output.success,
                output.stdout@,
                output.stderr@,
            ),
    {
        let args = self.args_for(request, stage);
        let cwd = self.root_path.as_str();
        match stage {
            Stage::CatFile => match request {
                Request::RevertCommit { hash } => {
                    let kind = trim(output.stdout.as_str());
                    if output.success && str_eq(kind.as_str(), "commit") {
                        running(Stage::Revert, path, self.args_for(request, Stage::Revert))
                    } else {
                        finished(path, Err(TransactionalFsError::CommitNotFound(hash.clone())))
                    }
                },
                _ => finished_unexpected(path),
            },
            Stage::Log => match read_git_output(&args, cwd, output) {
                Err(error) => finished(path, Err(error)),
                Ok(None) => finished_ok(path),
                Ok(Some(text)) => finished(path, parse_commit_log(text.as_str())),
            },
            _ => match check_git_status(&args, cwd, output) {
                Err(error) => finished(path, Err(error)),
                Ok(_) => match stage {
                    Stage::ConfigEmail => running(
                        Stage::ConfigName,
                        path,
                        self.args_for(request, Stage::ConfigName),
                    ),
                    Stage::ConfigName => running(
                        Stage::Add,
                        path,
                        self.args_for(request, Stage::Add),
                    ),
                    Stage::Add => running(
                        Stage::Commit,
                        path,
                        self.args_for(request, Stage::Commit),
                    ),
                    _ => finished_ok(path),
                },
            },
        }
    }

    /// Takes an operation one step on: from where it stands and what the
    /// caller reports to where it stands next and what the caller is to do.
    /// The file of a write or a delete is forgotten by the cache on the step
    /// that follows the writing and on the step that orders the removal.
    pub fn step(
        &self,
        request: &Request,
        progress: Progress,
        event: Event,
        cache: &mut DataStorageCache,
    ) -> (r: (Progress, Action))
        requires
            old(cache).wf(),
        ensures
            final(cache).wf(),
            step_view(r) == next_step(
                self.root(),
                self.email(),
                request@,
                progress.stage,
                progress.path@,
                event@,
            ),
            forall|kind: Representation|
                final(cache).capacity(kind) == old(cache).capacity(kind),
            forall|kind: Representation|
                final(cache).entries(kind) == (if invalidates(progress.stage, event@) {
                    without_key(old(cache).entries(kind), progress.path@)
                } else {
                    old(cache).entries(kind)
                }),
            invalidates(progress.stage, event@) ==> forall|kind: Representation|
                !has_key(final(cache).entries(kind), progress.path@),
    {
        let stage = progress.stage;
        let path = progress.path;
        match event {
            Event::Begin => match stage {
                Stage::Idle => self.start(request),
                _ => finished_unexpected(path),
            },
            Event::Probed { exists } => match stage {
                Stage::Repository => self.after_repository_probe(request, exists),
                Stage::FileProbe => if exists {
                    cache.invalidate(path.as_str());
                    let target = path.clone();
                    (Progress { stage: Stage::Removed, path }, Action::RemoveFile { path: target })
                } else {
                    let missing = path.clone();
                    finished(path, Err(TransactionalFsError::FileNotFound(missing)))
                },
                _ => finished_unexpected(path),
            },
            Event::FileOutcome { error } => match stage {
                Stage::Written => match error {
                    Some(text) => finished(
                        path,
                        Err(TransactionalFsError::SafetyError(SafeFsError::Io(text))),
                    ),
                    None => {
                        cache.invalidate(path.as_str());
                        running(
                            Stage::ConfigEmail,
                            path,
                            self.args_for(request, Stage::ConfigEmail),
                        )
                    },
                },
                Stage::Removed => match error {
                    Some(text) => finished(path, Err(TransactionalFsError::Io(text))),
                    None => running(
                        Stage::ConfigEmail,
                        path,
                        self.args_for(request, Stage::ConfigEmail),
                    ),
                },
                _ => finished_unexpected(path),
            },
            Event::GitOutcome { output } => match stage {
                Stage::Init | Stage::ConfigEmail | Stage::ConfigName | Stage::Add | Stage::Commit
                | Stage::Reset | Stage::CatFile | Stage::Revert | Stage::Log => self.after_git(
                    request,
                    stage,
                    path,
                    &output,
                ),
                _ => finished_unexpected(path),
            },
            Event::GitUnavailable { reason } => match stage {
                Stage::Init | Stage::ConfigEmail | Stage::ConfigName | Stage::Add | Stage::Commit
                | Stage::Reset | Stage::CatFile | Stage::Revert | Stage::Log => finished(
                    path,
                    Err(TransactionalFsError::Io(reason)),
                ),
                _ => finished_unexpected(path),
            },
        }
    }
}


/// Deleting a file that does not exist ends with `FileNotFound` for the
/// resolved path. Up to there the store has asked for one probe: no command
/// was run, so no commit was made, and nothing was removed or forgotten.
pub proof fn law_delete_of_missing_file(
    root: Seq<char>,
    email: Seq<char>,
    relative: Seq<char>,
    message: Seq<char>,
)
    requires
        stays_inside(root, relative),
    ensures
        ({
            let request = RequestView::Delete { relative, message };
            let path = resolved_path(root, relative);
            let probe = next_step(root, email, request, Stage::Idle, Seq::empty(), EventView::Begin);
            let end = next_step(
                root,
                email,
                request,
                probe.stage,
                probe.path,
                EventView::Probed { exists: false },
            );
            &&& probe.action == ActionView::ProbeFile { path }
            &&& !invalidates(Stage::Idle, EventView::Begin)
            &&& !invalidates(probe.stage, EventView::Probed { exists: false })
            &&& end.stage == Stage::Finished
            &&& end.action == ActionView::Finish {
                outcome: Err(StoreFault::FileNotFound(path)),
            }
        }),
{
}

/// Once an operation has ended, whatever is reported, the store asks for
/// nothing more: it runs no command and touches no file.
pub proof fn law_finished_stays_finished(
    root: Seq<char>,
    email: Seq<char>,
    request: RequestView,
    path: Seq<char>,
    event: EventView,
)
    ensures
        next_step(root, email, request, Stage::Finished, path, event).stage == Stage::Finished,
        next_step(root, email, request, Stage::Finished, path, event).action is Finish,
        !invalidates(Stage::Finished, event),
{
}

/// Listing the history of a root without a repository gives the empty list,
/// and so does listing the history of a repository without commits.
pub proof fn law_empty_history(root: Seq<char>, email: Seq<char>, stdout: Seq<char>, stderr: Seq<char>)
    ensures
        ({
            let request = RequestView::ListCommits;
            let probe = next_step(root, email, request, Stage::Idle, Seq::empty(), EventView::Begin);
            let none = next_step(
                root,
                email,
                request,
                probe.stage,
                probe.path,
                EventView::Probed { exists: false },
            );
            let query = next_step(
                root,
                email,
                request,
                probe.stage,
                probe.path,
                EventView::Probed { exists: true },
            );
            let empty = next_step(
                root,
                email,
                request,
                query.stage,
                query.path,
                EventView::GitOutcome { success: false, stdout, stderr },
            );
            &&& probe.action == ActionView::ProbeRepository
            &&& none.action == ActionView::Finish { outcome: Ok(Seq::empty()) }
            &&& query.action == ActionView::RunGit { args: log_args() }
            &&& (contains_seq(stderr, "fatal: your current branch"@) && contains_seq(
                stderr,
                "does not have any commits yet"@,
            ) ==> empty.action == ActionView::Finish { outcome: Ok(Seq::empty()) })
        }),
{
    assert(log_args()[0] == "log"@);
    assert(log_args().contains("log"@));
}

/// The steps of a write whose every part succeeds: the file is written, the
/// cache forgets it, the committer is set to the acting user, everything is
/// staged, and exactly one commit is made with the message of the request.
pub proof fn law_write_makes_one_commit(
    root: Seq<char>,
    email: Seq<char>,
    relative: Seq<char>,
    message: Seq<char>,
    stdout: Seq<char>,
    stderr: Seq<char>,
)
    requires
        stays_inside(root, relative),
    ensures
        ({
            let request = RequestView::Write { relative, message };
            let path = resolved_path(root, relative);
            let done = EventView::GitOutcome { success: true, stdout, stderr };
            let written = EventView::FileOutcome { error: None };
            let s1 = next_step(root, email, request, Stage::Idle, Seq::empty(), EventView::Begin);
            let s2 = next_step(root, email, request, s1.stage, s1.path, written);
            let s3 = next_step(root, email, request, s2.stage, s2.path, done);
            let s4 = next_step(root, email, request, s3.stage, s3.path, done);
            let s5 = next_step(root, email, request, s4.stage, s4.path, done);
            let s6 = next_step(root, email, request, s5.stage, s5.path, done);
            &&& s1.action == ActionView::WriteFile { path }
            &&& invalidates(s1.stage, written) && s1.path == path
            &&& s2.action == ActionView::RunGit { args: config_email_args(email) }
            &&& s3.action == ActionView::RunGit { args: config_name_args(email) }
            &&& s4.action == ActionView::RunGit { args: add_args() }
            &&& s5.action == ActionView::RunGit { args: commit_args(message) }
            &&& s6.action == ActionView::Finish { outcome: Ok(Seq::empty()) }
        }),
{
}

/// The steps of a delete of an existing file whose every part succeeds: the
/// cache forgets the file as its removal is ordered, and exactly one commit is
/// made with the message of the request.
pub proof fn law_delete_makes_one_commit(
    root: Seq<char>,
    email: Seq<char>,
    relative: Seq<char>,
    message: Seq<char>,
    stdout: Seq<char>,
    stderr: Seq<char>,
)
    requires
        stays_inside(root, relative),
    ensures
        ({
            let request = RequestView::Delete { relative, message };
            let path = resolved_path(root, relative);
            let done = EventView::GitOutcome { success: true, stdout, stderr };
            let found = EventView::Probed { exists: true };
            let removed = EventView::FileOutcome { error: None };
            let s1 = next_step(root, email, request, Stage::Idle, Seq::empty(), EventView::Begin);
            let s2 = next_step(root, email, request, s1.stage, s1.path, found);
            let s3 = next_step(root, email, request, s2.stage, s2.path, removed);
            let s4 = next_step(root, email, request, s3.stage, s3.path, done);
            let s5 = next_step(root, email, request, s4.stage, s4.path, done);
            let s6 = next_step(root, email, request, s5.stage, s5.path, done);
            let s7 = next_step(root, email, request, s6.stage, s6.path, done);
            &&& s1.action == ActionView::ProbeFile { path }
            &&& invalidates(s1.stage, found) && s1.path == path
            &&& s2.action == ActionView::RemoveFile { path }
            &&& s3.action == ActionView::RunGit { args: config_email_args(email) }
            &&& s4.action == ActionView::RunGit { args: config_name_args(email) }
            &&& s5.action == ActionView::RunGit { args: add_args() }
            &&& s6.action == ActionView::RunGit { args: commit_args(message) }
            &&& s7.action == ActionView::Finish { outcome: Ok(Seq::empty()) }
        }),
{
}

/// The stages that an operation passes through.
pub open spec fn belongs(request: RequestView, stage: Stage) -> bool {
    match request {
        RequestView::Open => stage is Idle || stage is Repository || stage is Init
            || stage is Finished,
        RequestView::Write { relative, message } => stage is Idle || stage is Written
            || stage is ConfigEmail || stage is ConfigName || stage is Add || stage is Commit
            || stage is Finished,
        RequestView::Delete { relative, message } => stage is Idle || stage is FileProbe
            || stage is Removed || stage is ConfigEmail || stage is ConfigName || stage is Add
            || stage is Commit || stage is Finished,
        RequestView::RevertLast => stage is Idle || stage is Repository || stage is Reset
            || stage is Finished,
        RequestView::RevertCommit { hash } => stage is Idle || stage is Repository
            || stage is CatFile || stage is Revert || stage is Finished,
        RequestView::ListCommits => stage is Idle || stage is Repository || stage is Log
            || stage is Finished,
    }
}

/// An operation starts in a stage of its own and never leaves its stages.
pub proof fn law_stages_of_operation(
    root: Seq<char>,
    email: Seq<char>,
    request: RequestView,
    stage: Stage,
    path: Seq<char>,
    event: EventView,
)
    requires
        belongs(request, stage),
    ensures
        belongs(request, Stage::Idle),
        belongs(request, next_step(root, email, request, stage, path, event).stage),
{
}

/// A write or a delete ends with success only on the outcome of its commit,
/// and each command of the commit is reached only from the one before it; the
/// first of them follows the writing or the removal of the file, by which
/// step the cache has forgotten the file. So no write or delete reports
/// success while the cache still holds the file as it was.
pub proof fn law_success_follows_invalidation(
    root: Seq<char>,
    email: Seq<char>,
    request: RequestView,
    stage: Stage,
    path: Seq<char>,
    event: EventView,
)
    requires
        request is Write || request is Delete,
        belongs(request, stage),
    ensures
        ({
            let next = next_step(root, email, request, stage, path, event);
            &&& (next.action matches ActionView::Finish { outcome: Ok(_) } ==> stage is Commit)
            &&& (next.stage is Commit ==> stage is Add)
            &&& (next.stage is Add ==> stage is ConfigName)
            &&& (next.stage is ConfigName ==> stage is ConfigEmail)
            &&& (next.stage is ConfigEmail ==> (stage is Written && invalidates(stage, event))
                || stage is Removed)
            &&& (next.stage is Removed ==> stage is FileProbe && invalidates(stage, event))
            &&& (awaits_git(next.stage) || next.stage is Removed ==> stage is Idle || next.path
                == path)
        }),
{
}

/// The two ways of reverting differ: the last commit is dropped by a reset of
/// the history, a commit named by its hash is undone by a new commit, and
/// only after the hash was found to name a commit. A hash that names another
/// kind of object, or no object at all, ends the revert with `CommitNotFound`
/// before anything is changed.
pub proof fn law_revert_commands(
    root: Seq<char>,
    email: Seq<char>,
    hash: Seq<char>,
    stdout: Seq<char>,
    stderr: Seq<char>,
)
    ensures
        ({
            let there = EventView::Probed { exists: true };
            let last = RequestView::RevertLast;
            let l1 = next_step(root, email, last, Stage::Idle, Seq::empty(), EventView::Begin);
            let l2 = next_step(root, email, last, l1.stage, l1.path, there);
            let named = RequestView::RevertCommit { hash };
            let n1 = next_step(root, email, named, Stage::Idle, Seq::empty(), EventView::Begin);
            let n2 = next_step(root, email, named, n1.stage, n1.path, there);
            let n3 = next_step(
                root,
                email,
                named,
                n2.stage,
                n2.path,
                EventView::GitOutcome { success: true, stdout, stderr },
            );
            let failed = next_step(
                root,
                email,
                named,
                n2.stage,
                n2.path,
                EventView::GitOutcome { success: false, stdout, stderr },
            );
            &&& l2.action == ActionView::RunGit { args: reset_args() }
            &&& n2.action == ActionView::RunGit { args: cat_file_args(hash) }
            &&& trimmed(stdout) == "commit"@ ==> n3.action == ActionView::RunGit {
                args: revert_args(hash),
            }
            &&& trimmed(stdout) != "commit"@ ==> n3.action == ActionView::Finish {
                outcome: Err(StoreFault::CommitNotFound(hash)),
            }
            &&& failed.stage == Stage::Finished
            &&& failed.action == ActionView::Finish {
                outcome: Err(StoreFault::CommitNotFound(hash)),
            }
        }),
{
}

/// Reverting in a root without a repository succeeds and does nothing.
pub proof fn law_revert_without_repository(root: Seq<char>, email: Seq<char>, hash: Seq<char>)
    ensures
        ({
            let gone = EventView::Probed { exists: false };
            let last = RequestView::RevertLast;
            let l1 = next_step(root, email, last, Stage::Idle, Seq::empty(), EventView::Begin);
            let named = RequestView::RevertCommit { hash };
            let n1 = next_step(root, email, named, Stage::Idle, Seq::empty(), EventView::Begin);
            &&& next_step(root, email, last, l1.stage, l1.path, gone).action
                == ActionView::Finish { outcome: Ok(Seq::empty()) }
            &&& next_step(root, email, named, n1.stage, n1.path, gone).action
                == ActionView::Finish { outcome: Ok(Seq::empty()) }
        }),
{
}



/// A store of files whose changes are recorded. Each operation is described
/// as a request, which `step` then carries out with the caller; the tree of
/// the files is read from what the directories report.
pub trait TransactionalFs {
    /// The root directory of the store.
    spec fn root_dir(&self) -> Seq<char>;

    /// Writes a new file or updates one, and commits the change.
    fn write_file(&self, new_file_path_relative_to_root: &str, git_message: &str) -> (request:
        Request)
        ensures
            request@ == (RequestView::Write {
                relative: new_file_path_relative_to_root@,
                message: git_message@,
            }),
    ;

    /// Deletes a file and commits the deletion.
    fn delete_file(&self, file_path_relative_to_root: &str, git_message: &str) -> (request: Request)
        ensures
            request@ == (RequestView::Delete {
                relative: file_path_relative_to_root@,
                message: git_message@,
            }),
    ;

    /// Drops the most recent commit.
    fn revert_last_commit(&self) -> (request: Request)
        ensures
            request@ == RequestView::RevertLast,
    ;

    /// Undoes the commit of the hash by a new commit.
    fn revert_commit(&self, commit_hash: &str) -> (request: Request)
        ensures
            request@ == (RequestView::RevertCommit { hash: commit_hash@ }),
    ;

    /// Lists the commits, most recent first.
    fn list_commits(&self) -> (request: Request)
        ensures
            request@ == RequestView::ListCommits,
    ;

    /// The tree of the files below the root, from what the root and the
    /// directories below it report.
    fn list_files(&self, entries: &Vec<RawEntry>) -> (tree: FsEntry)
        ensures
            tree@ == (TreeView::Directory {
                name: root_name(self.root_dir()),
                children: listing(entries@, entries@.len()),
            }),
    ;
}

impl TransactionalFs for GitTransactionalFs {
    open spec fn root_dir(&self) -> Seq<char> {
        self.root()
    }

    fn write_file(&self, new_file_path_relative_to_root: &str, git_message: &str) -> (request:
        Request) {
        Request::Write {
            relative: String::from_str(new_file_path_relative_to_root),
            message: String::from_str(git_message),
        }
    }

    fn delete_file(&self, file_path_relative_to_root: &str, git_message: &str) -> (request: Request) {
        Request::Delete {
            relative: String::from_str(file_path_relative_to_root),
            message: String::from_str(git_message),
        }
    }

    fn revert_last_commit(&self) -> (request: Request) {
        Request::RevertLast
    }

    fn revert_commit(&self, commit_hash: &str) -> (request: Request) {
        Request::RevertCommit { hash: String::from_str(commit_hash) }
    }

    fn list_commits(&self) -> (request: Request) {
        Request::ListCommits
    }

    fn list_files(&self, entries: &Vec<RawEntry>) -> (tree: FsEntry) {
        list_files_raw(self.root_path.as_str(), entries)
    }
}

} // verus!
