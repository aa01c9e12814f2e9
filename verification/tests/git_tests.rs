use backend_service::git::{
    args2, args3, check_git_status, has_arg, read_git_output, GitOutput,
};
use backend_service::transactionalfs::TransactionalFsError;

fn output(success: bool, stdout: &str, stderr: &str) -> GitOutput {
    GitOutput { success, stdout: stdout.to_string(), stderr: stderr.to_string() }
}

#[test]
fn arguments_are_built_in_order() {
    assert_eq!(args2("add", "."), vec!["add".to_string(), ".".to_string()]);
    assert_eq!(
        args3("commit", "-m", "msg"),
        vec!["commit".to_string(), "-m".to_string(), "msg".to_string()]
    );
    assert!(has_arg(&args3("a", "log", "c"), "log"));
    assert!(!has_arg(&args3("a", "logs", "c"), "log"));
}

#[test]
fn a_successful_status_is_fine() {
    assert!(check_git_status(&args2("add", "."), "/r", &output(true, "x", "y")).is_ok());
}

#[test]
fn a_failed_status_carries_arguments_directory_and_both_streams() {
    let failure = check_git_status(&args2("add", "."), "/r \"q\"", &output(false, "out", "err"));
    assert!(matches!(
        failure,
        Err(TransactionalFsError::GitCommand(text))
            if text == "Failed to execute git command: [\"add\", \".\"] in \"/r \\\"q\\\"\". Stderr: err, Stdout: out"
    ));
}

#[test]
fn output_is_trimmed() {
    let read = read_git_output(&args2("rev-parse", "HEAD"), "/r", &output(true, "  abc\n\n", ""));
    assert!(matches!(read, Ok(Some(text)) if text == "abc"));
}

#[test]
fn a_log_on_an_empty_history_reads_as_nothing() {
    let stderr = "fatal: your current branch 'main' does not have any commits yet\n";
    let read = read_git_output(&args2("log", "--name-only"), "/r", &output(false, "", stderr));
    assert!(matches!(read, Ok(None)));
}

#[test]
fn the_empty_history_is_recognised_for_log_only() {
    let stderr = "fatal: your current branch 'main' does not have any commits yet\n";
    let read = read_git_output(&args2("status", "-s"), "/r", &output(false, "", stderr));
    assert!(matches!(
        read,
        Err(TransactionalFsError::GitCommand(text))
            if text == format!("Failed to execute git command: [\"status\", \"-s\"] in \"/r\". Stderr: {}", stderr)
    ));
    let other = read_git_output(&args2("log", "-1"), "/r", &output(false, "", "fatal: bad revision"));
    assert!(matches!(other, Err(TransactionalFsError::GitCommand(_))));
}
