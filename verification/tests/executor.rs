use cli_assistant::executor::{
    choice_for_reply, confirmation_reply, edit_choice, failure_message, first_step,
    interpret_confirmation, is_cd_command, shell_program, step_after_choice, ConfirmationReply,
    ExecutionChoice, ExecutionStep,
};

#[test]
fn confirmation_answers() {
    for (input, reply) in [
        ("\n", ConfirmationReply::Execute),
        ("y\n", ConfirmationReply::Execute),
        ("  YES ", ConfirmationReply::Execute),
        ("n", ConfirmationReply::Cancel),
        ("No\n", ConfirmationReply::Cancel),
        ("e", ConfirmationReply::Edit),
        ("EDIT\n", ConfirmationReply::Edit),
        ("maybe", ConfirmationReply::Invalid),
        ("y e s", ConfirmationReply::Invalid),
    ] {
        assert_eq!(interpret_confirmation(input), reply, "{:?}", input);
    }
    assert_eq!(confirmation_reply("YES"), ConfirmationReply::Invalid);
    assert_eq!(confirmation_reply("yes"), ConfirmationReply::Execute);
}

#[test]
fn choices_and_steps() {
    assert_eq!(choice_for_reply(ConfirmationReply::Invalid), Some(ExecutionChoice::Cancel));
    assert_eq!(choice_for_reply(ConfirmationReply::Edit), None);
    assert_eq!(edit_choice("  \n"), ExecutionChoice::Execute);
    assert_eq!(edit_choice(" ls -l \n"), ExecutionChoice::Edit("ls -l".to_string()));
    assert_eq!(first_step("ls", false), ExecutionStep::Confirm("ls".to_string()));
    assert_eq!(first_step("ls", true), ExecutionStep::Run("ls".to_string()));
    assert_eq!(step_after_choice("ls", ExecutionChoice::Execute), ExecutionStep::Run("ls".to_string()));
    assert_eq!(step_after_choice("ls", ExecutionChoice::Cancel), ExecutionStep::Cancelled);
    assert_eq!(
        step_after_choice("ls", ExecutionChoice::Edit("ls -a".to_string())),
        ExecutionStep::Confirm("ls -a".to_string())
    );
}

#[test]
fn cd_commands_and_shell() {
    assert!(is_cd_command("  cd /tmp"));
    assert!(!is_cd_command("cd"));
    assert!(!is_cd_command("echo cd /tmp"));
    assert_eq!(shell_program(None), "/bin/bash");
    assert_eq!(shell_program(Some("/bin/zsh".to_string())), "/bin/zsh");
    assert_eq!(failure_message(Some(2)), "Command failed with exit code: 2");
    assert_eq!(failure_message(None), "Command failed with exit code: -1");
    assert_eq!(failure_message(Some(i32::MIN)), "Command failed with exit code: -2147483648");
}
