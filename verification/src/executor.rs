//! Deciding whether and what to run: the user's confirmation and its outcome.
use vstd::prelude::*;
use crate::number::{decimal, decimal_of_i32};
use crate::text::{
    chars_of, lowercase, lowercase_chars, same_chars, starts_with, starts_with_chars, string_of, trim,
    trim_chars,
};

verus! {

/// User's choice for command execution
#[derive(Debug, Clone, PartialEq)]
pub enum ExecutionChoice {
    Execute,
    Cancel,
    Edit(String),
}

/// The answer to "Execute this command? [Y/n/edit]".
#[derive(Debug, Clone, Copy, PartialEq, Eq, Structural)]
pub enum ConfirmationReply {
    /// Run the command (also the answer of an empty line).
    Execute,
    /// Do not run it.
    Cancel,
    /// Edit it first.
    Edit,
    /// Not an answer; taken as "no".
    Invalid,
}

/// The answer that a response gives, the response trimmed and in lower case.
pub open spec fn reply_for(response: Seq<char>) -> ConfirmationReply {
    if response == ""@ || response == "y"@ || response == "yes"@ {
        ConfirmationReply::Execute
    } else if response == "n"@ || response == "no"@ {
        ConfirmationReply::Cancel
    } else if response == "e"@ || response == "edit"@ {
        ConfirmationReply::Edit
    } else {
        ConfirmationReply::Invalid
    }
}

/// Whether `v` is the literal `lit`.
fn is_literal(v: &[char], lit: &str) -> (r: bool)
    ensures
        r == (v@ == lit@),
{
    let l = chars_of(lit);
    same_chars(v, l.as_slice())
}

/// The answer that a response gives, given the trimmed response in lower
/// case (what `str::to_lowercase` gives for it).
pub fn confirmation_reply(response_lower: &str) -> (r: ConfirmationReply)
    ensures
        r == reply_for(response_lower@),
{
    let v = chars_of(response_lower);
    let s = v.as_slice();
    if is_literal(s, "") || is_literal(s, "y") || is_literal(s, "yes") {
        ConfirmationReply::Execute
    } else if is_literal(s, "n") || is_literal(s, "no") {
        ConfirmationReply::Cancel
    } else if is_literal(s, "e") || is_literal(s, "edit") {
        ConfirmationReply::Edit
    } else {
        ConfirmationReply::Invalid
    }
}

/// The answer that a line typed by the user gives.
pub fn interpret_confirmation(input: &str) -> (r: ConfirmationReply)
    ensures
        r == reply_for(lowercase(trim(input@))),
{
    let v = chars_of(input);
    let t = trim_chars(v.as_slice());
    let lower = lowercase_chars(t.as_slice());
    let text = string_of(lower.as_slice());
    confirmation_reply(text.as_str())
}

/// The choice that the line typed at "Edit command" makes: the trimmed line
/// replaces the command; an empty line keeps the command as it was.
pub fn edit_choice(edited_input: &str) -> (r: ExecutionChoice)
    ensures
        trim(edited_input@).len() == 0 ==> r == ExecutionChoice::Execute,
        trim(edited_input@).len() > 0 ==> (r matches ExecutionChoice::Edit(c) && c@ == trim(
            edited_input@,
        )),
{
    let v = chars_of(edited_input);
    let t = trim_chars(v.as_slice());
    if t.len() == 0 {
        ExecutionChoice::Execute
    } else {
        ExecutionChoice::Edit(string_of(t.as_slice()))
    }
}

/// What happens next with a command.
#[derive(Debug, Clone, PartialEq)]
pub enum ExecutionStep {
    /// Run this command.
    Run(String),
    /// Run nothing.
    Cancelled,
    /// Ask the user to confirm this command.
    Confirm(String),
}

/// The first step for a suggested command: it is confirmed first, unless
/// confirmation is skipped.
pub fn first_step(command: &str, skip_confirm: bool) -> (r: ExecutionStep)
    ensures
        skip_confirm ==> (r matches ExecutionStep::Run(c) && c@ == command@),
        !skip_confirm ==> (r matches ExecutionStep::Confirm(c) && c@ == command@),
{
    let c = string_of(chars_of(command).as_slice());
    if skip_confirm {
        ExecutionStep::Run(c)
    } else {
        ExecutionStep::Confirm(c)
    }
}

/// The step after the user chose for the command being confirmed: it runs,
/// nothing runs, or the edited command is confirmed in its turn.
pub fn step_after_choice(command: &str, choice: ExecutionChoice) -> (r: ExecutionStep)
    ensures
        choice == ExecutionChoice::Execute ==> (r matches ExecutionStep::Run(c) && c@ == command@),
        choice == ExecutionChoice::Cancel ==> r == ExecutionStep::Cancelled,
        choice matches ExecutionChoice::Edit(e) ==> r == ExecutionStep::Confirm(e),
{
    match choice {
        ExecutionChoice::Execute => ExecutionStep::Run(string_of(chars_of(command).as_slice())),
        ExecutionChoice::Cancel => ExecutionStep::Cancelled,
        ExecutionChoice::Edit(edited) => ExecutionStep::Confirm(edited),
    }
}

/// The choice that an answer makes, where it is not "edit": an invalid
/// answer is taken as "no".
pub fn choice_for_reply(reply: ConfirmationReply) -> (r: Option<ExecutionChoice>)
    ensures
        reply == ConfirmationReply::Execute ==> r == Some(ExecutionChoice::Execute),
        reply == ConfirmationReply::Cancel ==> r == Some(ExecutionChoice::Cancel),
        reply == ConfirmationReply::Invalid ==> r == Some(ExecutionChoice::Cancel),
        reply == ConfirmationReply::Edit ==> r is None,
{
    match reply {
        ConfirmationReply::Execute => Some(ExecutionChoice::Execute),
        ConfirmationReply::Cancel => Some(ExecutionChoice::Cancel),
        ConfirmationReply::Edit => None,
        ConfirmationReply::Invalid => Some(ExecutionChoice::Cancel),
    }
}

/// Whether a command changes directory, which cannot affect the user's shell.
pub fn is_cd_command(command: &str) -> (r: bool)
    ensures
        r == starts_with(trim(command@), "cd "@),
{
    let v = chars_of(command);
    let t = trim_chars(v.as_slice());
    let cd = chars_of("cd ");
    starts_with_chars(t.as_slice(), cd.as_slice())
}

/// The program that runs commands: the user's shell, else bash.
pub fn shell_program(shell_var: Option<String>) -> (r: String)
    ensures
        r@ == (match shell_var {
            Some(s) => s@,
            None => "/bin/bash"@,
        }),
{
    match shell_var {
        Some(s) => s,
        None => String::from_str("/bin/bash"),
    }
}

/// The message for a command that failed, with its exit code (-1 where the
/// process had none, as when a signal ended it).
pub fn failure_message(code: Option<i32>) -> (r: String)
    ensures
        r@ == "Command failed with exit code: "@ + decimal(
            match code {
                Some(c) => c as int,
                None => -1,
            },
        ),
{
    let c: i32 = match code {
        Some(c) => c,
        None => -1,
    };
    let mut v = chars_of("Command failed with exit code: ");
    let d = decimal_of_i32(c);
    v.extend_from_slice(d.as_slice());
    string_of(v.as_slice())
}

/// An empty answer, "y" or "yes" runs the command; "n" or "no" does not;
/// "e" or "edit" edits it; every other answer is invalid (and taken as no).
pub proof fn law_confirmation_answers(response: Seq<char>)
    ensures
        (reply_for(response) == ConfirmationReply::Execute) == (response == ""@ || response == "y"@
            || response == "yes"@),
        (reply_for(response) == ConfirmationReply::Cancel) == (response != ""@ && response != "y"@
            && response != "yes"@ && (response == "n"@ || response == "no"@)),
        (reply_for(response) == ConfirmationReply::Edit) == (response != ""@ && response != "y"@
            && response != "yes"@ && response != "n"@ && response != "no"@ && (response == "e"@
            || response == "edit"@)),
{
}

} // verus!
