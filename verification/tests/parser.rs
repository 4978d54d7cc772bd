use cli_assistant::parser::{
    clean_markdown_code_blocks, extract_command_from_code_blocks, parse_response, ResponseScanner,
};

#[test]
fn test_parse_response_basic() {
    let response = r#"
EXPLANATION:
The path does not exist.

COMMAND:
ls /tmp
"#;

    let parsed = parse_response(response).unwrap();
    assert_eq!(parsed.explanation.trim(), "The path does not exist.");
    assert_eq!(parsed.command.trim(), "ls /tmp");
}

#[test]
fn test_parse_response_with_code_blocks() {
    let response = r#"
EXPLANATION:
Need to add recursive flag

COMMAND:
```bash
ls -R /tmp
```
"#;

    let parsed = parse_response(response).unwrap();
    assert!(parsed.explanation.contains("recursive"));
    assert_eq!(parsed.command.trim(), "ls -R /tmp");
}

#[test]
fn test_parse_response_multiline_command() {
    let response = r#"
EXPLANATION:
Use a pipeline

COMMAND:
find . -name "*.txt" | \
    xargs grep "pattern"
"#;

    let parsed = parse_response(response).unwrap();
    assert!(parsed.command.contains("find"));
    assert!(parsed.command.contains("xargs"));
}

#[test]
fn test_clean_markdown_code_blocks() {
    let text = "```bash\nls -la\n```";
    let cleaned = clean_markdown_code_blocks(text);
    assert_eq!(cleaned, "ls -la");
}

#[test]
fn test_extract_from_code_blocks() {
    let response = "Some text\n```\nls -la\n```\nMore text";
    let command = extract_command_from_code_blocks(response);
    assert_eq!(command, "ls -la");
}

#[test]
fn parse_reads_back_a_formatted_reply() {
    let parsed = parse_response("EXPLANATION:\nIt lists files.\n\nCOMMAND:\nls -la\n").unwrap();
    assert_eq!(parsed.explanation, "It lists files.");
    assert_eq!(parsed.command, "ls -la");
    assert!(!parsed.is_explanation_only);
}

#[test]
fn parse_reads_headers_in_any_case() {
    // The header test goes through the upper-case mapping of each line.
    let parsed = parse_response("explanation:\nfoo\ncommand:\nls\n").unwrap();
    assert_eq!(parsed.explanation, "foo");
    assert_eq!(parsed.command, "ls");
    assert!(!parsed.is_explanation_only);
}

#[test]
fn parse_keeps_text_after_a_header() {
    let parsed = parse_response("EXPLANATION: short one\nCOMMAND: echo hi").unwrap();
    assert_eq!(parsed.explanation, "short one");
    assert_eq!(parsed.command, "echo hi");
}

#[test]
fn parse_without_sections_only_explains() {
    let parsed = parse_response("nothing to see here").unwrap();
    assert_eq!(parsed.explanation, "Command suggestion");
    assert_eq!(parsed.command, "");
    assert!(parsed.is_explanation_only);
}

#[test]
fn parse_placeholder_commands_only_explain() {
    for placeholder in ["N/A", "none", "SAME", "n/A"] {
        let text = format!("EXPLANATION:\nIt prints.\nCOMMAND:\n{}\n", placeholder);
        let parsed = parse_response(&text).unwrap();
        assert!(parsed.is_explanation_only, "{}", placeholder);
        assert_eq!(parsed.command, placeholder);
        assert_eq!(parsed.explanation, "It prints.");
    }
}

#[test]
fn parse_skips_leading_blank_explanation_lines() {
    let parsed = parse_response("EXPLANATION:\n\n  \nFirst\n\nSecond\nCOMMAND:\nx").unwrap();
    assert_eq!(parsed.explanation, "First\n\nSecond");
    assert_eq!(parsed.command, "x");
}

#[test]
fn parse_handles_crlf_lines() {
    let parsed = parse_response("EXPLANATION:\r\nWhy\r\nCOMMAND:\r\npwd\r\n").unwrap();
    assert_eq!(parsed.explanation, "Why");
    assert_eq!(parsed.command, "pwd");
}

#[test]
fn scanner_uses_the_given_upper_case_line() {
    let mut scanner = ResponseScanner::new();
    scanner.feed("Erklaerung:", "EXPLANATION:");
    scanner.feed("text", "TEXT");
    scanner.feed("Befehl:", "COMMAND:");
    scanner.feed("date", "DATE");
    let parsed = scanner.finish("").unwrap();
    assert_eq!(parsed.explanation, "Erklaerung:\ntext");
    assert_eq!(parsed.command, "Befehl:\ndate");
}

#[test]
fn clean_markdown_keeps_unfenced_text() {
    assert_eq!(clean_markdown_code_blocks("  echo hi  "), "echo hi");
    assert_eq!(clean_markdown_code_blocks(""), "");
    assert_eq!(clean_markdown_code_blocks("```"), "");
    assert_eq!(clean_markdown_code_blocks("```sh\na\nb\n```"), "a\nb");
}

#[test]
fn extract_skips_shell_name_lines_and_empty_blocks() {
    assert_eq!(extract_command_from_code_blocks("a ``````  b ```bash\nls /\n``` c"), "ls /");
    assert_eq!(extract_command_from_code_blocks("no fences"), "");
    assert_eq!(extract_command_from_code_blocks("x ```sh\n``` y"), "");
}
