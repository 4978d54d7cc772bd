//! Choosing what the assistant is asked to do, and writing the prompt for it.
use vstd::prelude::*;
use crate::number::{decimal, decimal_of_i32};
use crate::shell::{CommandContext, ShellInfo};
use crate::text::{
    chars_of, contains, contains_chars, is_blank, is_blank_chars, join, join_chars,
    lemma_contains_concat, lemma_contains_self, lemma_contains_trans, lemma_join_contains,
    lemma_join_contains_pair, lemma_join_starts_with, starts_with,
    lowercase, lowercase_chars, newline, string_of, views,
};

verus! {

/// Mode of operation for the assistant
#[derive(Debug, Clone, Copy, PartialEq, Eq, Structural)]
pub enum AssistantMode {
    /// Fix a failed command (has error)
    Fix,
    /// Explain what a command does
    Explain,
    /// Improve or modify a working command
    Improve,
}

/// Words that make a request a question.
pub open spec fn question_words() -> Seq<Seq<char>> {
    seq![
        "what"@,
        "how"@,
        "why"@,
        "explain"@,
        "meaning"@,
        "mean"@,
        "does"@,
        "understand"@,
        "tell me"@,
        "show me"@,
        "describe"@,
        "purpose"@,
    ]
}

/// Words that make a request one for a change.
pub open spec fn improvement_words() -> Seq<Seq<char>> {
    seq![
        "make"@,
        "change"@,
        "modify"@,
        "improve"@,
        "better"@,
        "add"@,
        "instead"@,
        "alternative"@,
        "faster"@,
        "safer"@,
        "simpler"@,
    ]
}

/// Whether `text` contains one of `words`.
pub open spec fn mentions_any(text: Seq<char>, words: Seq<Seq<char>>) -> bool {
    exists|i: int| 0 <= i < words.len() && contains(text, #[trigger] words[i])
}

/// The mode that a request asks for, given the request in lower case: a
/// question word asks for an explanation, else an improvement word for an
/// improvement, else it is an explanation.
pub open spec fn prompt_mode(prompt_lower: Seq<char>) -> AssistantMode {
    if mentions_any(prompt_lower, question_words()) {
        AssistantMode::Explain
    } else if mentions_any(prompt_lower, improvement_words()) {
        AssistantMode::Improve
    } else {
        AssistantMode::Explain
    }
}

/// Whether the command failed: a non-zero exit code, or error output that
/// is not blank.
pub open spec fn command_failed(context: CommandContext) -> bool {
    ||| (context.exit_code matches Some(code) && code != 0)
    ||| (context.stderr matches Some(e) && !is_blank(e@))
}

/// The mode for a context: a failed command is to be fixed; otherwise the
/// user's request decides (see `prompt_mode`); without one, the command is
/// explained.
pub open spec fn detected_mode(context: CommandContext) -> AssistantMode {
    if command_failed(context) {
        AssistantMode::Fix
    } else {
        match context.user_prompt {
            Some(p) => prompt_mode(lowercase(p@)),
            None => AssistantMode::Explain,
        }
    }
}

/// The words of `question_words`, executable.
fn question_words_chars() -> (v: Vec<Vec<char>>)
    ensures
        views(v@) == question_words(),
{
    let mut v: Vec<Vec<char>> = Vec::new();
    v.push(chars_of("what"));
    v.push(chars_of("how"));
    v.push(chars_of("why"));
    v.push(chars_of("explain"));
    v.push(chars_of("meaning"));
    v.push(chars_of("mean"));
    v.push(chars_of("does"));
    v.push(chars_of("understand"));
    v.push(chars_of("tell me"));
    v.push(chars_of("show me"));
    v.push(chars_of("describe"));
    v.push(chars_of("purpose"));
    assert(views(v@) =~= question_words());
    v
}

/// The words of `improvement_words`, executable.
fn improvement_words_chars() -> (v: Vec<Vec<char>>)
    ensures
        views(v@) == improvement_words(),
{
    let mut v: Vec<Vec<char>> = Vec::new();
    v.push(chars_of("make"));
    v.push(chars_of("change"));
    v.push(chars_of("modify"));
    v.push(chars_of("improve"));
    v.push(chars_of("better"));
    v.push(chars_of("add"));
    v.push(chars_of("instead"));
    v.push(chars_of("alternative"));
    v.push(chars_of("faster"));
    v.push(chars_of("safer"));
    v.push(chars_of("simpler"));
    assert(views(v@) =~= improvement_words());
    v
}

/// `mentions_any`, executable.
fn mentions_any_chars(text: &[char], words: &Vec<Vec<char>>) -> (r: bool)
    ensures
        r == mentions_any(text@, views(words@)),
{
    let n = words.len();
    for i in 0..n
        invariant
            n == words@.len(),
            forall|j: int| 0 <= j < i ==> !contains(text@, #[trigger] views(words@)[j]),
    {
        if contains_chars(text, words[i].as_slice()) {
            assert(views(words@)[i as int] == words@[i as int]@);
            return true;
        }
        assert(views(words@)[i as int] == words@[i as int]@);
    }
    false
}

/// The mode that a request asks for, given the request in lower case (what
/// `str::to_lowercase` gives for it).
pub fn mode_for_prompt(prompt_lower: &str) -> (m: AssistantMode)
    ensures
        m == prompt_mode(prompt_lower@),
{
    let text = chars_of(prompt_lower);
    let questions = question_words_chars();
    if mentions_any_chars(text.as_slice(), &questions) {
        return AssistantMode::Explain;
    }
    let improvements = improvement_words_chars();
    if mentions_any_chars(text.as_slice(), &improvements) {
        return AssistantMode::Improve;
    }
    AssistantMode::Explain
}

/// Detect the mode based on context
pub fn detect_mode(context: &CommandContext) -> (m: AssistantMode)
    ensures
        m == detected_mode(*context),
{
    if let Some(code) = context.exit_code {
        if code != 0 {
            return AssistantMode::Fix;
        }
    }
    if let Some(stderr) = &context.stderr {
        let e = chars_of(stderr.as_str());
        if !is_blank_chars(e.as_slice()) {
            return AssistantMode::Fix;
        }
    }
    if let Some(prompt) = &context.user_prompt {
        let p = chars_of(prompt.as_str());
        let lower = lowercase_chars(p.as_slice());
        let lower_text = string_of(lower.as_slice());
        return mode_for_prompt(lower_text.as_str());
    }
    AssistantMode::Explain
}

/// The opening line of the prompt for a mode.
pub open spec fn system_prompt(mode: AssistantMode) -> Seq<char> {
    match mode {
        AssistantMode::Fix => "You are a helpful command-line assistant. Your task is to analyze a failed command and provide a fixed version with explanation."@,
        AssistantMode::Explain => "You are a helpful command-line assistant. Your task is to explain what a command does, breaking down its components and purpose."@,
        AssistantMode::Improve => "You are a helpful command-line assistant. Your task is to improve or modify a command based on the user's request."@,
    }
}

/// The lines that ask for the reply's format, for a mode.
pub open spec fn format_lines(mode: AssistantMode) -> Seq<Seq<char>> {
    match mode {
        AssistantMode::Fix => seq![
            empty_line(),
            "## Your Response Format"@,
            "Please provide your response in the following format:"@,
            empty_line(),
            "EXPLANATION:"@,
            "[Brief explanation of what went wrong and how to fix it]"@,
            empty_line(),
            "COMMAND:"@,
            "[The corrected command to execute]"@,
            empty_line(),
            "Important:"@,
            "- Only output the EXPLANATION and COMMAND sections"@,
            "- The COMMAND section should contain ONLY the command to execute, nothing else"@,
            "- Keep the explanation concise and focused"@,
            "- Make sure the command is safe to execute"@,
        ],
        AssistantMode::Explain => seq![
            empty_line(),
            "## Your Response Format"@,
            "Please provide your response in the following format:"@,
            empty_line(),
            "EXPLANATION:"@,
            "[Detailed explanation of what the command does, breaking down each part]"@,
            empty_line(),
            "COMMAND:"@,
            "[The same command, or 'N/A' if just explaining]"@,
            empty_line(),
            "Important:"@,
            "- Focus on explaining clearly and comprehensively"@,
            "- Break down complex commands into understandable parts"@,
            "- If the command is the same, you can put 'N/A' in COMMAND section"@,
        ],
        AssistantMode::Improve => seq![
            empty_line(),
            "## Your Response Format"@,
            "Please provide your response in the following format:"@,
            empty_line(),
            "EXPLANATION:"@,
            "[Explanation of the improvements made]"@,
            empty_line(),
            "COMMAND:"@,
            "[The improved command]"@,
            empty_line(),
            "Important:"@,
            "- Only output the EXPLANATION and COMMAND sections"@,
            "- The COMMAND section should contain the improved command"@,
            "- Explain what changes were made and why"@,
            "- Make sure the command is safe to execute"@,
        ],
    }
}

/// An empty line of the prompt.
pub open spec fn empty_line() -> Seq<char> {
    Seq::<char>::empty()
}

/// The lines that describe the environment and the command.
pub open spec fn context_lines(context: CommandContext, shell_info: ShellInfo, mode: AssistantMode) -> Seq<Seq<char>> {
    seq![
        system_prompt(mode),
        empty_line(),
        "## Context"@,
        "Shell: "@ + shell_info.shell@,
        "OS: "@ + shell_info.os@,
        "Working directory: "@ + shell_info.cwd@,
        empty_line(),
        "## Command"@,
        "```bash\n"@ + context.command@ + "\n```"@,
    ]
}

/// The lines that give the exit code, where there is one.
pub open spec fn exit_code_lines(context: CommandContext) -> Seq<Seq<char>> {
    match context.exit_code {
        Some(code) => seq![empty_line(), "Exit code: "@ + decimal(code as int)],
        None => Seq::empty(),
    }
}

/// The lines that give the error output, where it is not blank.
pub open spec fn error_lines(context: CommandContext) -> Seq<Seq<char>> {
    match context.stderr {
        Some(e) => if !is_blank(e@) {
            seq![empty_line(), "## Error Output"@, "```\n"@ + e@ + "\n```"@]
        } else {
            Seq::empty()
        },
        None => Seq::empty(),
    }
}

/// The lines that give the user's request, where it is not blank.
pub open spec fn request_lines(context: CommandContext) -> Seq<Seq<char>> {
    match context.user_prompt {
        Some(p) => if !is_blank(p@) {
            seq![empty_line(), "## User Request"@, p@]
        } else {
            Seq::empty()
        },
        None => Seq::empty(),
    }
}

/// The lines of the prompt.
pub open spec fn prompt_lines(context: CommandContext, shell_info: ShellInfo, mode: AssistantMode) -> Seq<Seq<char>> {
    context_lines(context, shell_info, mode) + exit_code_lines(context) + error_lines(context)
        + request_lines(context) + format_lines(mode)
}

/// The mode a prompt is written for: the one given, else the detected one.
pub open spec fn chosen_mode(context: CommandContext, mode_override: Option<AssistantMode>) -> AssistantMode {
    match mode_override {
        Some(m) => m,
        None => detected_mode(context),
    }
}

/// The prompt text: its lines joined by line endings.
pub open spec fn prompt_text(
    context: CommandContext,
    shell_info: ShellInfo,
    mode_override: Option<AssistantMode>,
) -> Seq<char> {
    join(prompt_lines(context, shell_info, chosen_mode(context, mode_override)), newline())
}

/// Appends the characters of a literal as a line.
fn push_line(out: &mut Vec<Vec<char>>, line: &str)
    ensures
        views(final(out)@) == views(old(out)@).push(line@),
{
    let ghost before = views(out@);
    out.push(chars_of(line));
    assert(views(out@) =~= before.push(line@));
}

/// Appends a line.
fn push_chars(out: &mut Vec<Vec<char>>, line: Vec<char>)
    ensures
        views(final(out)@) == views(old(out)@).push(line@),
{
    let ghost before = views(out@);
    out.push(line);
    assert(views(out@) =~= before.push(line@));
}

/// `a` followed by `b`.
fn concat_chars(a: Vec<char>, b: &[char]) -> (r: Vec<char>)
    ensures
        r@ == a@ + b@,
{
    let mut r = a;
    r.extend_from_slice(b);
    r
}

/// The lines of `format_lines(mode)`, appended.
fn push_format_lines(out: &mut Vec<Vec<char>>, mode: AssistantMode)
    ensures
        views(final(out)@) == views(old(out)@) + format_lines(mode),
{
    let ghost before = views(out@);
    push_line(out, "");
    push_line(out, "## Your Response Format");
    push_line(out, "Please provide your response in the following format:");
    push_line(out, "");
    push_line(out, "EXPLANATION:");
    match mode {
        AssistantMode::Fix => {
            push_line(out, "[Brief explanation of what went wrong and how to fix it]");
            push_line(out, "");
            push_line(out, "COMMAND:");
            push_line(out, "[The corrected command to execute]");
            push_line(out, "");
            push_line(out, "Important:");
            push_line(out, "- Only output the EXPLANATION and COMMAND sections");
            push_line(out, "- The COMMAND section should contain ONLY the command to execute, nothing else");
            push_line(out, "- Keep the explanation concise and focused");
            push_line(out, "- Make sure the command is safe to execute");
        },
        AssistantMode::Explain => {
            push_line(out, "[Detailed explanation of what the command does, breaking down each part]");
            push_line(out, "");
            push_line(out, "COMMAND:");
            push_line(out, "[The same command, or 'N/A' if just explaining]");
            push_line(out, "");
            push_line(out, "Important:");
            push_line(out, "- Focus on explaining clearly and comprehensively");
            push_line(out, "- Break down complex commands into understandable parts");
            push_line(out, "- If the command is the same, you can put 'N/A' in COMMAND section");
        },
        AssistantMode::Improve => {
            push_line(out, "[Explanation of the improvements made]");
            push_line(out, "");
            push_line(out, "COMMAND:");
            push_line(out, "[The improved command]");
            push_line(out, "");
            push_line(out, "Important:");
            push_line(out, "- Only output the EXPLANATION and COMMAND sections");
            push_line(out, "- The COMMAND section should contain the improved command");
            push_line(out, "- Explain what changes were made and why");
            push_line(out, "- Make sure the command is safe to execute");
        },
    }
    proof {
        reveal_strlit("");
        assert(""@ =~= empty_line());
    }
    assert(views(out@) =~= before + format_lines(mode));
}

/// Create a structured prompt for the LLM
pub fn create_prompt(
    context: &CommandContext,
    shell_info: &ShellInfo,
    mode_override: Option<AssistantMode>,
) -> (r: String)
    ensures
        r@ == prompt_text(*context, *shell_info, mode_override),
{
    let mode = match mode_override {
        Some(m) => m,
        None => detect_mode(context),
    };
    let mut parts: Vec<Vec<char>> = Vec::new();
    let ghost p0 = views(parts@);
    match mode {
        AssistantMode::Fix => push_line(&mut parts, "You are a helpful command-line assistant. Your task is to analyze a failed command and provide a fixed version with explanation."),
        AssistantMode::Explain => push_line(&mut parts, "You are a helpful command-line assistant. Your task is to explain what a command does, breaking down its components and purpose."),
        AssistantMode::Improve => push_line(&mut parts, "You are a helpful command-line assistant. Your task is to improve or modify a command based on the user's request."),
    }
    push_line(&mut parts, "");
    push_line(&mut parts, "## Context");
    push_chars(&mut parts, concat_chars(chars_of("Shell: "), chars_of(shell_info.shell.as_str()).as_slice()));
    push_chars(&mut parts, concat_chars(chars_of("OS: "), chars_of(shell_info.os.as_str()).as_slice()));
    push_chars(&mut parts, concat_chars(chars_of("Working directory: "), chars_of(shell_info.cwd.as_str()).as_slice()));
    push_line(&mut parts, "");
    push_line(&mut parts, "## Command");
    let fenced = concat_chars(concat_chars(chars_of("```bash\n"), chars_of(context.command.as_str()).as_slice()), chars_of("\n```").as_slice());
    push_chars(&mut parts, fenced);
    proof {
        reveal_strlit("");
        assert(""@ =~= empty_line());
    }
    let ghost p1 = views(parts@);
    assert(p1 =~= p0 + context_lines(*context, *shell_info, mode));
    if let Some(code) = context.exit_code {
        push_line(&mut parts, "");
        push_chars(&mut parts, concat_chars(chars_of("Exit code: "), decimal_of_i32(code).as_slice()));
    }
    let ghost p2 = views(parts@);
    assert(p2 =~= p1 + exit_code_lines(*context));
    if let Some(stderr) = &context.stderr {
        let e = chars_of(stderr.as_str());
        if !is_blank_chars(e.as_slice()) {
            push_line(&mut parts, "");
            push_line(&mut parts, "## Error Output");
            push_chars(&mut parts, concat_chars(concat_chars(chars_of("```\n"), e.as_slice()), chars_of("\n```").as_slice()));
        }
    }
    let ghost p3 = views(parts@);
    assert(p3 =~= p2 + error_lines(*context));
    if let Some(user_prompt) = &context.user_prompt {
        let p = chars_of(user_prompt.as_str());
        if !is_blank_chars(p.as_slice()) {
            push_line(&mut parts, "");
            push_line(&mut parts, "## User Request");
            push_chars(&mut parts, p);
        }
    }
    let ghost p4 = views(parts@);
    assert(p4 =~= p3 + request_lines(*context));
    push_format_lines(&mut parts, mode);
    assert(views(parts@) =~= prompt_lines(*context, *shell_info, mode));
    let nl: Vec<char> = vec!['\n'];
    assert(nl@ =~= newline());
    let text = join_chars(&parts, nl.as_slice());
    string_of(text.as_slice())
}


/// Writing the prompt without a mode is writing it for the detected mode.
pub proof fn law_prompt_uses_detected_mode(context: CommandContext, shell_info: ShellInfo)
    ensures
        prompt_text(context, shell_info, None) == prompt_text(
            context,
            shell_info,
            Some(detected_mode(context)),
        ),
{
}

/// Every prompt holds the command, and asks for a reply with the
/// `EXPLANATION:` and `COMMAND:` sections that replies are read by.
pub proof fn law_prompt_asks_for_sections(
    context: CommandContext,
    shell_info: ShellInfo,
    mode_override: Option<AssistantMode>,
)
    ensures
        contains(prompt_text(context, shell_info, mode_override), context.command@),
        contains(prompt_text(context, shell_info, mode_override), "EXPLANATION:"@),
        contains(prompt_text(context, shell_info, mode_override), "COMMAND:"@),
{
    let mode = chosen_mode(context, mode_override);
    let ls = prompt_lines(context, shell_info, mode);
    let head = context_lines(context, shell_info, mode) + exit_code_lines(context) + error_lines(context)
        + request_lines(context);
    let f = format_lines(mode);
    assert(ls == head + f);
    let k: int = head.len() as int;
    assert(ls[k + 4] == f[4]);
    assert(ls[k + 7] == f[7]);
    assert(ls[8] == context_lines(context, shell_info, mode)[8]);
    let text = prompt_text(context, shell_info, mode_override);
    lemma_join_contains(ls, newline(), k + 4);
    lemma_join_contains(ls, newline(), k + 7);
    lemma_join_contains(ls, newline(), 8);
    let fenced = "```bash\n"@ + context.command@ + "\n```"@;
    lemma_contains_self(context.command@);
    lemma_contains_concat("```bash\n"@, context.command@, context.command@);
    lemma_contains_concat("```bash\n"@ + context.command@, "\n```"@, context.command@);
    lemma_contains_trans(text, fenced, context.command@);
}

/// A request the user gave, where it is not blank, reaches the model: the
/// prompt holds the request heading followed by the request, whatever the
/// exit code, the error output or the mode.
pub proof fn law_prompt_keeps_user_request(
    context: CommandContext,
    shell_info: ShellInfo,
    mode_override: Option<AssistantMode>,
)
    requires
        context.user_prompt matches Some(p) && !is_blank(p@),
    ensures
        contains(
            prompt_text(context, shell_info, mode_override),
            "## User Request"@ + newline() + context.user_prompt->0@,
        ),
{
    let p = context.user_prompt->0;
    let mode = chosen_mode(context, mode_override);
    let ls = prompt_lines(context, shell_info, mode);
    let head = context_lines(context, shell_info, mode) + exit_code_lines(context) + error_lines(context);
    let req = request_lines(context);
    assert(req == seq![empty_line(), "## User Request"@, p@]);
    assert(ls == head + req + format_lines(mode));
    let k: int = head.len() as int;
    assert(ls[k + 1] == "## User Request"@);
    assert(ls[k + 2] == p@);
    lemma_join_contains_pair(ls, newline(), k + 1);
}

/// A command with error output that is not blank is to be fixed, whatever
/// its exit code and the user's request; so is one with a non-zero exit code.
pub proof fn law_failure_means_fix(context: CommandContext)
    ensures
        (context.stderr matches Some(e) && !is_blank(e@)) ==> detected_mode(context) == AssistantMode::Fix,
        (context.exit_code matches Some(code) && code != 0) ==> detected_mode(context) == AssistantMode::Fix,
{
}

/// The prompt opens with the task of its mode, describes the shell, the
/// system and the working directory, gives the exit code where there is one
/// and the error output where it is not blank.
pub proof fn law_prompt_describes_context(
    context: CommandContext,
    shell_info: ShellInfo,
    mode_override: Option<AssistantMode>,
)
    ensures
        ({
            let text = prompt_text(context, shell_info, mode_override);
            &&& starts_with(text, system_prompt(chosen_mode(context, mode_override)))
            &&& contains(text, "Shell: "@ + shell_info.shell@)
            &&& contains(text, "OS: "@ + shell_info.os@)
            &&& contains(text, "Working directory: "@ + shell_info.cwd@)
            &&& (context.exit_code matches Some(code) ==> contains(
                text,
                "Exit code: "@ + decimal(code as int),
            ))
            &&& (context.stderr matches Some(e) ==> (!is_blank(e@) ==> contains(
                text,
                "## Error Output"@ + newline() + ("```\n"@ + e@ + "\n```"@),
            )))
        }),
{
    let mode = chosen_mode(context, mode_override);
    let ls = prompt_lines(context, shell_info, mode);
    let cl = context_lines(context, shell_info, mode);
    let xl = exit_code_lines(context);
    let el = error_lines(context);
    assert(ls == cl + xl + el + request_lines(context) + format_lines(mode));
    assert(ls[0] == system_prompt(mode));
    lemma_join_starts_with(ls, newline());
    assert(ls[3] == "Shell: "@ + shell_info.shell@);
    assert(ls[4] == "OS: "@ + shell_info.os@);
    assert(ls[5] == "Working directory: "@ + shell_info.cwd@);
    lemma_join_contains(ls, newline(), 3);
    lemma_join_contains(ls, newline(), 4);
    lemma_join_contains(ls, newline(), 5);
    if context.exit_code is Some {
        assert(ls[10] == xl[1]);
        lemma_join_contains(ls, newline(), 10);
    }
    let k: int = (cl.len() + xl.len()) as int;
    if context.stderr matches Some(e) && !is_blank(e@) {
        assert(ls[k + 1] == el[1]);
        assert(ls[k + 2] == el[2]);
        lemma_join_contains_pair(ls, newline(), k + 1);
    }
}

/// Without a failure, a request that (in lower case) holds a question word
/// asks for an explanation; one without a question word but with an
/// improvement word asks for an improvement; anything else, and no request,
/// asks for an explanation.
pub proof fn law_request_words_choose_mode(context: CommandContext)
    requires
        !(context.exit_code matches Some(code) && code != 0),
        !(context.stderr matches Some(e) && !is_blank(e@)),
    ensures
        ({
            let questions = seq![
                "what"@, "how"@, "why"@, "explain"@, "meaning"@, "mean"@, "does"@,
                "understand"@, "tell me"@, "show me"@, "describe"@, "purpose"@,
            ];
            let improvements = seq![
                "make"@, "change"@, "modify"@, "improve"@, "better"@, "add"@, "instead"@,
                "alternative"@, "faster"@, "safer"@, "simpler"@,
            ];
            match context.user_prompt {
                Some(p) => {
                    let l = lowercase(p@);
                    &&& (exists|i: int| 0 <= i < questions.len() && contains(l, #[trigger] questions[i]))
                        ==> detected_mode(context) == AssistantMode::Explain
                    &&& (!(exists|i: int| 0 <= i < questions.len() && contains(l, #[trigger] questions[i]))
                        && (exists|i: int| 0 <= i < improvements.len() && contains(l, #[trigger] improvements[i])))
                        ==> detected_mode(context) == AssistantMode::Improve
                    &&& (!(exists|i: int| 0 <= i < questions.len() && contains(l, #[trigger] questions[i]))
                        && !(exists|i: int| 0 <= i < improvements.len() && contains(l, #[trigger] improvements[i])))
                        ==> detected_mode(context) == AssistantMode::Explain
                },
                None => detected_mode(context) == AssistantMode::Explain,
            }
        }),
{
    let questions = seq![
        "what"@, "how"@, "why"@, "explain"@, "meaning"@, "mean"@, "does"@,
        "understand"@, "tell me"@, "show me"@, "describe"@, "purpose"@,
    ];
    let improvements = seq![
        "make"@, "change"@, "modify"@, "improve"@, "better"@, "add"@, "instead"@,
        "alternative"@, "faster"@, "safer"@, "simpler"@,
    ];
    assert(questions =~= question_words());
    assert(improvements =~= improvement_words());
}

} // verus!
