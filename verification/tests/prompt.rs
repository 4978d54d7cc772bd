use cli_assistant::prompt::{create_prompt, detect_mode, mode_for_prompt, AssistantMode};
use cli_assistant::shell::{CommandContext, ShellInfo};

#[test]
fn test_create_prompt_basic() {
    let context = CommandContext {
        command: "ls /nonexistent".to_string(),
        exit_code: Some(2),
        stderr: Some("No such file or directory".to_string()),
        user_prompt: None,
    };

    let shell_info = ShellInfo {
        shell: "/bin/bash".to_string(),
        os: "Linux".to_string(),
        cwd: "/home/user".to_string(),
    };

    let prompt = create_prompt(&context, &shell_info, None);

    assert!(prompt.contains("ls /nonexistent"));
    assert!(prompt.contains("Exit code: 2"));
    assert!(prompt.contains("No such file or directory"));
    assert!(prompt.contains("EXPLANATION:"));
    assert!(prompt.contains("COMMAND:"));
}

#[test]
fn test_create_prompt_with_user_request() {
    let context = CommandContext {
        command: "ls /tmp".to_string(),
        exit_code: None,
        stderr: None,
        user_prompt: Some("make it recursive".to_string()),
    };

    let shell_info = ShellInfo {
        shell: "/bin/zsh".to_string(),
        os: "macOS".to_string(),
        cwd: "/Users/user".to_string(),
    };

    let prompt = create_prompt(&context, &shell_info, None);

    assert!(prompt.contains("ls /tmp"));
    assert!(prompt.contains("make it recursive"));
    assert!(prompt.contains("## User Request"));
}

#[test]
fn test_create_prompt_minimal() {
    let context = CommandContext {
        command: "pwd".to_string(),
        exit_code: None,
        stderr: None,
        user_prompt: None,
    };

    let shell_info = ShellInfo {
        shell: "/bin/bash".to_string(),
        os: "Linux".to_string(),
        cwd: "/home/user".to_string(),
    };

    let prompt = create_prompt(&context, &shell_info, None);

    assert!(prompt.contains("pwd"));
    assert!(!prompt.contains("Exit code"));
    assert!(!prompt.contains("## Error Output"));
    assert!(!prompt.contains("## User Request"));
}

#[test]
fn test_mode_detection_fix() {
    let context = CommandContext {
        command: "ls".to_string(),
        exit_code: Some(2),
        stderr: Some("error".to_string()),
        user_prompt: None,
    };
    assert_eq!(detect_mode(&context), AssistantMode::Fix);
}

#[test]
fn test_mode_detection_explain() {
    let context = CommandContext {
        command: "ls".to_string(),
        exit_code: None,
        stderr: None,
        user_prompt: Some("what does this do?".to_string()),
    };
    assert_eq!(detect_mode(&context), AssistantMode::Explain);
}

#[test]
fn test_mode_detection_improve() {
    let context = CommandContext {
        command: "ls".to_string(),
        exit_code: None,
        stderr: None,
        user_prompt: Some("make it better".to_string()),
    };
    assert_eq!(detect_mode(&context), AssistantMode::Improve);
}

fn context(exit_code: Option<i32>, stderr: Option<&str>, prompt: Option<&str>) -> CommandContext {
    CommandContext {
        command: "git push".to_string(),
        exit_code,
        stderr: stderr.map(|s| s.to_string()),
        user_prompt: prompt.map(|s| s.to_string()),
    }
}

fn shell() -> ShellInfo {
    ShellInfo { shell: "/bin/bash".to_string(), os: "Linux".to_string(), cwd: "/src".to_string() }
}

#[test]
fn mode_failure_wins_over_the_request() {
    assert_eq!(detect_mode(&context(Some(1), None, Some("make it faster"))), AssistantMode::Fix);
    assert_eq!(detect_mode(&context(Some(0), Some("fatal"), Some("explain"))), AssistantMode::Fix);
    assert_eq!(detect_mode(&context(Some(-1), None, None)), AssistantMode::Fix);
}

#[test]
fn mode_ignores_blank_error_output_and_zero_exit() {
    assert_eq!(detect_mode(&context(Some(0), Some(" \n\t"), None)), AssistantMode::Explain);
    assert_eq!(detect_mode(&context(Some(0), None, Some("add a flag"))), AssistantMode::Improve);
}

#[test]
fn mode_request_is_read_in_lower_case() {
    // Without the lower-case mapping neither word list would match.
    assert_eq!(detect_mode(&context(None, None, Some("MAKE IT FASTER"))), AssistantMode::Improve);
    assert_eq!(detect_mode(&context(None, None, Some("WHY"))), AssistantMode::Explain);
    assert_eq!(detect_mode(&context(None, None, Some("ok"))), AssistantMode::Explain);
}

#[test]
fn mode_for_prompt_prefers_questions() {
    assert_eq!(mode_for_prompt("how can i make it faster"), AssistantMode::Explain);
    assert_eq!(mode_for_prompt("use rsync instead"), AssistantMode::Improve);
    assert_eq!(mode_for_prompt("MAKE"), AssistantMode::Explain);
    assert_eq!(mode_for_prompt(""), AssistantMode::Explain);
}

#[test]
fn prompt_exact_text_for_a_failed_command() {
    let prompt = create_prompt(&context(Some(-13), Some("denied"), Some("  ")), &shell(), None);
    let expected = [
        "You are a helpful command-line assistant. Your task is to analyze a failed command and provide a fixed version with explanation.",
        "",
        "## Context",
        "Shell: /bin/bash",
        "OS: Linux",
        "Working directory: /src",
        "",
        "## Command",
        "```bash\ngit push\n```",
        "",
        "Exit code: -13",
        "",
        "## Error Output",
        "```\ndenied\n```",
        "",
        "## Your Response Format",
        "Please provide your response in the following format:",
        "",
        "EXPLANATION:",
        "[Brief explanation of what went wrong and how to fix it]",
        "",
        "COMMAND:",
        "[The corrected command to execute]",
        "",
        "Important:",
        "- Only output the EXPLANATION and COMMAND sections",
        "- The COMMAND section should contain ONLY the command to execute, nothing else",
        "- Keep the explanation concise and focused",
        "- Make sure the command is safe to execute",
    ]
    .join("\n");
    assert_eq!(prompt, expected);
}

#[test]
fn prompt_override_and_request() {
    let prompt = create_prompt(&context(None, None, Some("why?")), &shell(), Some(AssistantMode::Improve));
    assert!(prompt.starts_with(
        "You are a helpful command-line assistant. Your task is to improve or modify a command based on the user's request.\n"
    ));
    assert!(prompt.contains("\n## User Request\nwhy?\n"));
    assert!(prompt.ends_with("- Make sure the command is safe to execute"));
    let explain = create_prompt(&context(None, None, None), &shell(), None);
    assert!(explain.ends_with("- If the command is the same, you can put 'N/A' in COMMAND section"));
}

#[test]
fn prompt_without_mode_is_prompt_for_detected_mode() {
    let c = context(None, None, Some("describe it"));
    let mode = detect_mode(&c);
    assert_eq!(create_prompt(&c, &shell(), None), create_prompt(&c, &shell(), Some(mode)));
}
