use cli_assistant::shell::{
    combine_user_prompt, history_file_order, history_read_start, last_command_from_history,
    CaptureError, CommandContext, HistoryShell, ShellInfo,
};

#[test]
fn test_command_context_with_provided_command() {
    let context = CommandContext::capture(
        Some("ls -la".to_string()),
        Some(0),
        None,
        Some("test".to_string()),
    )
    .unwrap();

    assert_eq!(context.command, "ls -la");
    assert_eq!(context.exit_code, Some(0));
    assert_eq!(context.user_prompt, Some("test".to_string()));
}

#[test]
fn capture_without_command_fails() {
    let r = CommandContext::capture(None, Some(1), None, None);
    assert_eq!(r.unwrap_err(), CaptureError::NoCommand);
    assert_eq!(
        CaptureError::NoCommand.message(),
        "No command provided and could not read from history"
    );
}

#[test]
fn shell_info_names_the_os() {
    let linux = ShellInfo::from_parts(None, "linux", "/".to_string());
    assert_eq!(linux.shell, "unknown");
    assert_eq!(linux.os, "Linux");
    assert_eq!(linux.cwd, "/");
    assert_eq!(ShellInfo::from_parts(Some("/bin/zsh".into()), "macos", "/".into()).os, "macOS");
    assert_eq!(ShellInfo::from_parts(Some("/bin/zsh".into()), "windows", "/".into()).os, "unknown");
}

#[test]
fn user_prompt_words_are_joined() {
    assert_eq!(combine_user_prompt(&vec![]), None);
    assert_eq!(
        combine_user_prompt(&vec!["list".to_string(), "files".to_string()]),
        Some("list files".to_string())
    );
}

#[test]
fn history_files_in_order() {
    assert_eq!(
        history_file_order("/usr/bin/zsh"),
        vec![HistoryShell::Zsh, HistoryShell::Zsh, HistoryShell::Bash]
    );
    assert_eq!(
        history_file_order("/bin/bash"),
        vec![HistoryShell::Bash, HistoryShell::Zsh, HistoryShell::Bash]
    );
    assert_eq!(history_file_order(""), vec![HistoryShell::Zsh, HistoryShell::Bash]);
    assert_eq!(HistoryShell::Zsh.file_name(), ".zsh_history");
    assert_eq!(HistoryShell::Bash.file_name(), ".bash_history");
}

#[test]
fn history_tail_start() {
    assert_eq!(history_read_start(100), 0);
    assert_eq!(history_read_start(10240), 0);
    assert_eq!(history_read_start(10241), 1);
    assert_eq!(history_read_start(50000), 39760);
}

#[test]
fn history_last_command_skips_the_assistant() {
    let content = "ls\ncd /tmp\n: 1700000000:0;git status\nfix\n  \ncli-assistant --no-confirm\n";
    assert_eq!(last_command_from_history(content), Some("git status".to_string()));
    assert_eq!(last_command_from_history("  make test  \n\n"), Some("make test".to_string()));
    assert_eq!(last_command_from_history(": 1:0;fix it\n"), None);
    assert_eq!(last_command_from_history(":no semicolon"), Some(":no semicolon".to_string()));
    assert_eq!(last_command_from_history(""), None);
}
