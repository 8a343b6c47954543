use cursor_shims::classify::ancestry_step;
use cursor_shims::classify::comm_indicates_agent;
use cursor_shims::classify::is_agent_env;
use cursor_shims::classify::AncestryStep;
use cursor_shims::classify::ANCESTRY_MAX_DEPTH;

#[test]
fn test_is_in_cursor_with_term_program() {
    assert!(is_agent_env(Some("vscode"), None, None), "应该检测到 vscode");
    assert!(is_agent_env(Some("Cursor"), None, None), "应该检测到 Cursor");
}

#[test]
fn test_is_in_cursor_with_vscode_path() {
    assert!(
        is_agent_env(None, Some("/Applications/Cursor.app/Contents/MacOS/Cursor"), None),
        "应该通过 VSCODE_GIT_ASKPASS_MAIN 检测到 Cursor"
    );
}

#[test]
fn test_is_in_cursor_with_ipc_hook() {
    assert!(
        is_agent_env(None, None, Some("/tmp/vscode-ipc-cursor-12345.sock")),
        "应该通过 VSCODE_IPC_HOOK_CLI 检测到 Cursor"
    );
}

#[test]
fn plain_terminal_is_not_agent() {
    assert!(!is_agent_env(None, None, None));
    assert!(!is_agent_env(Some("xterm-256color"), None, None));
    assert!(!is_agent_env(Some("Apple_Terminal"), None, None));
    assert!(!is_agent_env(Some("xterm"), Some("/usr/lib/git/askpass.sh"), Some("/tmp/other.sock")));
}

#[test]
fn askpass_detection_is_case_insensitive() {
    assert!(is_agent_env(None, Some("/opt/CURSOR/bin/helper"), None));
    assert!(is_agent_env(None, None, Some("/tmp/CuRsOr.sock")));
}

#[test]
fn term_program_detection_is_case_sensitive() {
    assert!(!is_agent_env(Some("VSCODE"), None, None));
    assert!(!is_agent_env(Some("cursor"), None, None));
}

#[test]
fn comm_matches_after_trim_and_fold() {
    assert!(comm_indicates_agent("  CURSOR\n"));
    assert!(comm_indicates_agent("Cursor Helper"));
    assert!(comm_indicates_agent("vscode-server"));
    assert!(!comm_indicates_agent("bash\n"));
    assert!(!comm_indicates_agent(""));
}

#[test]
fn ancestry_step_finds_agent_by_command_name() {
    assert_eq!(ancestry_step(Some("cursor"), Some("123")), AncestryStep::AgentFound);
    assert_eq!(ancestry_step(Some(" Vscode \n"), None), AncestryStep::AgentFound);
}

#[test]
fn ancestry_step_ascends_on_parent_pid() {
    assert_eq!(ancestry_step(Some("bash"), Some(" 123\n")), AncestryStep::Ascend(123));
    assert_eq!(ancestry_step(None, Some("42")), AncestryStep::Ascend(42));
}

#[test]
fn ancestry_step_halts_at_process_tree_root() {
    assert_eq!(ancestry_step(Some("bash"), Some("1")), AncestryStep::Halt);
    assert_eq!(ancestry_step(Some("bash"), Some("0")), AncestryStep::Halt);
}

#[test]
fn ancestry_step_halts_on_unreadable_parent() {
    assert_eq!(ancestry_step(Some("bash"), Some("abc")), AncestryStep::Halt);
    assert_eq!(ancestry_step(Some("bash"), None), AncestryStep::Halt);
    assert_eq!(ancestry_step(None, None), AncestryStep::Halt);
}

#[test]
fn ancestry_walk_is_bounded() {
    assert_eq!(ANCESTRY_MAX_DEPTH, 10);
}
