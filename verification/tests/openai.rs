use cli_assistant::openai::{
    authorization_value, reply_content, status_failure, user_message, ApiFailure, ChatReply, MAX_TOKENS,
};

#[test]
fn request_parts() {
    let m = user_message("Hello");
    assert_eq!(m.role, "user");
    assert_eq!(m.content, "Hello");
    assert_eq!(MAX_TOKENS, 1024);
    assert_eq!(authorization_value("test-key"), "Bearer test-key");
}

#[test]
fn reply_reading() {
    let ok = ChatReply { choices: vec!["first".into(), "second".into()], error: None };
    assert_eq!(reply_content(ok).unwrap(), "first");
    let err = ChatReply { choices: vec!["first".into()], error: Some("quota".into()) };
    let e = reply_content(err).unwrap_err();
    assert_eq!(e.message(), "OpenAI API error: quota");
    let none = ChatReply { choices: vec![], error: None };
    assert!(matches!(reply_content(none), Err(ApiFailure::NoContent)));
    assert_eq!(ApiFailure::NoContent.message(), "No response content in OpenAI API response");
    let s = status_failure("401 Unauthorized".into(), None);
    assert_eq!(s.message(), "OpenAI API request failed with status 401 Unauthorized: Unknown error");
}
