//! The shell environment and the command under consideration.
use vstd::prelude::*;
use crate::text::{
    is_blank, is_trimmed, is_whitespace, lemma_trim_is_trimmed, lemma_trimmed_is_fixed, chars_of, contains, contains_chars, has_char, join, join_chars, lines, lines_of, same_chars,
    starts_with, starts_with_chars, string_of, trim, trim_chars, views,
};

verus! {

/// Information about the shell environment
#[derive(Debug, Clone)]
pub struct ShellInfo {
    pub shell: String,
    pub os: String,
    pub cwd: String,
}

/// Context captured from the command
#[derive(Debug, Clone)]
pub struct CommandContext {
    pub command: String,
    pub exit_code: Option<i32>,
    pub stderr: Option<String>,
    pub user_prompt: Option<String>,
}

/// The name shown for the operating system that a build targets
/// (`std::env::consts::OS`): Linux and macOS by name, any other as unknown.
pub open spec fn os_display_name(target_os: Seq<char>) -> Seq<char> {
    if target_os == "linux"@ {
        "Linux"@
    } else if target_os == "macos"@ {
        "macOS"@
    } else {
        "unknown"@
    }
}

impl ShellInfo {
    /// The shell information made of what was read from the environment: the
    /// `SHELL` variable (its absence shows as "unknown"), the operating system
    /// that the program was built for, and the working directory.
    pub fn from_parts(shell_var: Option<String>, target_os: &str, cwd: String) -> (r: ShellInfo)
        ensures
            r.shell@ == (match shell_var {
                Some(s) => s@,
                None => "unknown"@,
            }),
            r.os@ == os_display_name(target_os@),
            r.cwd == cwd,
    {
        let shell = match shell_var {
            Some(s) => s,
            None => String::from_str("unknown"),
        };
        let t = chars_of(target_os);
        let linux = chars_of("linux");
        let macos = chars_of("macos");
        let os = if same_chars(t.as_slice(), linux.as_slice()) {
            String::from_str("Linux")
        } else if same_chars(t.as_slice(), macos.as_slice()) {
            String::from_str("macOS")
        } else {
            String::from_str("unknown")
        };
        ShellInfo { shell, os, cwd }
    }
}

/// Why no command context could be made.
#[derive(Debug, Clone, PartialEq, Eq)]
pub enum CaptureError {
    /// No command was given (and none was found in the shell history).
    NoCommand,
}

impl CaptureError {
    /// The explanation shown to the user.
    pub fn message(&self) -> (m: String)
        ensures
            m@ == "No command provided and could not read from history"@,
    {
        String::from_str("No command provided and could not read from history")
    }
}

impl CommandContext {
    /// The context of the given command.  Where no command is given (and the
    /// shell history offered none either) there is no context.
    pub fn capture(
        last_cmd: Option<String>,
        last_exit: Option<i32>,
        stderr: Option<String>,
        user_prompt: Option<String>,
    ) -> (r: Result<Self, CaptureError>)
        ensures
            last_cmd is None ==> r == Err::<CommandContext, CaptureError>(CaptureError::NoCommand),
            last_cmd matches Some(c) ==> (r matches Ok(ctx) && ctx.command == c && ctx.exit_code
                == last_exit && ctx.stderr == stderr && ctx.user_prompt == user_prompt),
    {
        let command = match last_cmd {
            Some(cmd) => cmd,
            None => {
                return Err(CaptureError::NoCommand);
            },
        };
        Ok(CommandContext { command, exit_code: last_exit, stderr, user_prompt })
    }
}

/// The words given on the command line, as one request: joined by single
/// spaces; no request where there are no words.
pub open spec fn user_request(words: Seq<Seq<char>>) -> Option<Seq<char>> {
    if words.len() == 0 {
        None
    } else {
        Some(join(words, " "@))
    }
}

/// Combine the words of the user's request into a single text.
pub fn combine_user_prompt(words: &Vec<String>) -> (r: Option<String>)
    ensures
        match r {
            Some(p) => user_request(words@.map_values(|w: String| w@)) == Some(p@),
            None => user_request(words@.map_values(|w: String| w@)) is None,
        },
{
    let ghost wv = words@.map_values(|w: String| w@);
    if words.len() == 0 {
        return None;
    }
    let mut parts: Vec<Vec<char>> = Vec::new();
    let n = words.len();
    for i in 0..n
        invariant
            n == words@.len(),
            wv == words@.map_values(|w: String| w@),
            views(parts@) == wv.take(i as int),
    {
        let ghost before = views(parts@);
        parts.push(chars_of(words[i].as_str()));
        assert(views(parts@) =~= before.push(wv[i as int]));
        assert(wv.take(i + 1) =~= wv.take(i as int).push(wv[i as int]));
    }
    assert(wv.take(n as int) =~= wv);
    let space = chars_of(" ");
    let joined = join_chars(&parts, space.as_slice());
    Some(string_of(joined.as_slice()))
}

/// A shell whose history file may hold the last command.
#[derive(Debug, Clone, Copy, PartialEq, Eq, Structural)]
pub enum HistoryShell {
    Zsh,
    Bash,
}

impl HistoryShell {
    /// The name of the history file in the home directory.
    pub fn file_name(&self) -> (r: String)
        ensures
            r@ == (match self {
                HistoryShell::Zsh => ".zsh_history"@,
                HistoryShell::Bash => ".bash_history"@,
            }),
    {
        match self {
            HistoryShell::Zsh => String::from_str(".zsh_history"),
            HistoryShell::Bash => String::from_str(".bash_history"),
        }
    }
}

/// The history files to try, in order, for the shell named by the `SHELL`
/// variable: that of zsh where the name mentions zsh, that of bash where it
/// mentions bash, then both.
pub open spec fn history_candidates(shell: Seq<char>) -> Seq<HistoryShell> {
    (if contains(shell, "zsh"@) {
        seq![HistoryShell::Zsh]
    } else {
        Seq::empty()
    }) + (if contains(shell, "bash"@) {
        seq![HistoryShell::Bash]
    } else {
        Seq::empty()
    }) + seq![HistoryShell::Zsh, HistoryShell::Bash]
}

/// The history files to try, in order; the first one that exists is read.
pub fn history_file_order(shell: &str) -> (r: Vec<HistoryShell>)
    ensures
        r@ == history_candidates(shell@),
{
    let s = chars_of(shell);
    let zsh = chars_of("zsh");
    let bash = chars_of("bash");
    let mut r: Vec<HistoryShell> = Vec::new();
    let has_zsh = contains_chars(s.as_slice(), zsh.as_slice());
    if has_zsh {
        r.push(HistoryShell::Zsh);
    }
    let has_bash = contains_chars(s.as_slice(), bash.as_slice());
    if has_bash {
        r.push(HistoryShell::Bash);
    }
    r.push(HistoryShell::Zsh);
    r.push(HistoryShell::Bash);
    assert(r@ =~= history_candidates(shell@));
    r
}

/// How much of the end of a history file is read, in bytes.
pub const HISTORY_TAIL_BYTES: u64 = 10240;

/// Where reading a history file of the given size starts: its last
/// `HISTORY_TAIL_BYTES` bytes, or all of it where it is smaller.
pub fn history_read_start(file_size: u64) -> (r: u64)
    ensures
        r == (if file_size > 10240 {
            file_size - 10240
        } else {
            0
        }),
{
    if file_size > HISTORY_TAIL_BYTES {
        file_size - HISTORY_TAIL_BYTES
    } else {
        0
    }
}

/// The text after the first `c` in `t` (all of `t` where there is none).
pub open spec fn after_first(t: Seq<char>, c: char) -> Seq<char>
    decreases t.len(),
{
    if t.len() == 0 {
        t
    } else if t[0] == c {
        t.drop_first()
    } else {
        after_first(t.drop_first(), c)
    }
}

/// The command that a history line records: the trimmed line, or in zsh's
/// extended format (": <time>:<duration>;<command>") the part after the
/// first `';'`.
pub open spec fn history_entry(line: Seq<char>) -> Seq<char> {
    let t = trim(line);
    if t.len() > 0 && t[0] == ':' && has_char(t, ';') {
        after_first(t, ';')
    } else {
        t
    }
}

/// Whether a history line records a command worth fixing: it is not blank,
/// and its command is not a call of this assistant ("fix" or
/// "cli-assistant").
pub open spec fn is_history_candidate(line: Seq<char>) -> bool {
    let t = trim(line);
    &&& t.len() > 0
    &&& t[0] != ' '
    &&& !starts_with(history_entry(line), "fix"@)
    &&& !starts_with(history_entry(line), "cli-assistant"@)
}

/// The command of the last candidate line.
pub open spec fn last_history_command(ls: Seq<Seq<char>>) -> Option<Seq<char>>
    decreases ls.len(),
{
    if ls.len() == 0 {
        None
    } else if is_history_candidate(ls.last()) {
        Some(history_entry(ls.last()))
    } else {
        last_history_command(ls.drop_last())
    }
}

/// `after_first`, executable.
fn after_first_chars(t: &[char], c: char) -> (r: Vec<char>)
    ensures
        r@ == after_first(t@, c),
{
    let n = t.len();
    let mut i: usize = 0;
    assert(t@.subrange(0, n as int) =~= t@);
    while i < n && t[i] != c
        invariant
            i <= n == t@.len(),
            after_first(t@, c) == after_first(t@.subrange(i as int, n as int), c),
        decreases n - i,
    {
        assert(t@.subrange(i as int, n as int).drop_first() =~= t@.subrange(i + 1, n as int));
        i = i + 1;
    }
    if i == n {
        Vec::new()
    } else {
        assert(t@.subrange(i as int, n as int).drop_first() =~= t@.subrange(i + 1, n as int));
        copy_range_after(t, i + 1)
    }
}

/// `t[lo..]` as a new vector.
fn copy_range_after(t: &[char], lo: usize) -> (r: Vec<char>)
    requires
        lo <= t@.len(),
    ensures
        r@ == t@.subrange(lo as int, t@.len() as int),
{
    crate::text::copy_range(t, lo, t.len())
}

/// `history_entry`, executable.
fn history_entry_chars(line: &[char]) -> (r: Vec<char>)
    ensures
        r@ == history_entry(line@),
{
    let t = trim_chars(line);
    if t.len() > 0 && t[0] == ':' {
        let n = t.len();
        let mut found = false;
        for i in 0..n
            invariant
                n == t@.len(),
                found ==> has_char(t@, ';'),
                !found ==> forall|j: int| 0 <= j < i ==> t@[j] != ';',
        {
            if !found && t[i] == ';' {
                found = true;
            }
        }
        if found {
            return after_first_chars(t.as_slice(), ';');
        }
    }
    t
}

/// The last command recorded in the text of a shell history that is worth
/// fixing, reading the lines from the end.
pub fn last_command_from_history(content: &str) -> (r: Option<String>)
    ensures
        match r {
            Some(c) => last_history_command(lines(content@)) == Some(c@),
            None => last_history_command(lines(content@)) is None,
        },
{
    let text = chars_of(content);
    let ls = lines_of(text.as_slice());
    let ghost lv = views(ls@);
    let fix = chars_of("fix");
    let me = chars_of("cli-assistant");
    let mut k = ls.len();
    assert(lv.take(k as int) =~= lv);
    while k > 0
        invariant
            k <= ls@.len(),
            lv == views(ls@),
            lines(content@) == lv,
            fix@ == "fix"@,
            me@ == "cli-assistant"@,
            last_history_command(lv) == last_history_command(lv.take(k as int)),
        decreases k,
    {
        let line = &ls[k - 1];
        let t = trim_chars(line.as_slice());
        let ghost prefix = lv.take(k as int);
        assert(prefix.last() == line@);
        assert(prefix.drop_last() =~= lv.take(k - 1));
        if t.len() > 0 && t[0] != ' ' {
            let entry = history_entry_chars(line.as_slice());
            if !starts_with_chars(entry.as_slice(), fix.as_slice())
                && !starts_with_chars(entry.as_slice(), me.as_slice()) {
                return Some(string_of(entry.as_slice()));
            }
        }
        k = k - 1;
    }
    None
}


/// The command taken from a history never calls this assistant.
pub proof fn law_history_command_is_not_the_assistant(ls: Seq<Seq<char>>)
    ensures
        last_history_command(ls) matches Some(c) ==> !starts_with(c, "fix"@) && !starts_with(
            c,
            "cli-assistant"@,
        ),
    decreases ls.len(),
{
    if ls.len() > 0 && !is_history_candidate(ls.last()) {
        law_history_command_is_not_the_assistant(ls.drop_last());
    }
}

/// Everything after the first `c` is what follows a prefix without `c`.
proof fn lemma_after_first_prefix(meta: Seq<char>, c: char, rest: Seq<char>)
    requires
        !has_char(meta, c),
    ensures
        after_first(meta + seq![c] + rest, c) == rest,
    decreases meta.len(),
{
    let t = meta + seq![c] + rest;
    if meta.len() == 0 {
        assert(t[0] == c);
        assert(t.drop_first() =~= rest);
    } else {
        assert(t[0] == meta[0]);
        assert(meta[0] != c);
        assert(!has_char(meta.drop_first(), c)) by {
            if has_char(meta.drop_first(), c) {
                let k = choose|k: int| 0 <= k < meta.drop_first().len() && meta.drop_first()[k] == c;
                assert(meta[k + 1] == c);
            }
        }
        assert(t.drop_first() =~= meta.drop_first() + seq![c] + rest);
        lemma_after_first_prefix(meta.drop_first(), c, rest);
    }
}

/// A line of zsh's extended history, ": " + time + ":" + duration + ";" +
/// command, with its prefix as `meta`.
pub open spec fn zsh_history_line(meta: Seq<char>, command: Seq<char>) -> Seq<char> {
    seq![':'] + meta + seq![';'] + command
}

/// A zsh extended-history line records exactly the command after the first
/// `';'`, semicolons within the command included.
pub proof fn law_zsh_history_entry(meta: Seq<char>, command: Seq<char>)
    requires
        !has_char(meta, ';'),
        is_trimmed(command),
    ensures
        history_entry(zsh_history_line(meta, command)) == command,
{
    let line = zsh_history_line(meta, command);
    let rest = meta + seq![';'] + command;
    assert(line =~= seq![':'] + rest);
    assert(line[0] == ':');
    assert(!is_whitespace(':'));
    if command.len() > 0 {
        assert(line.last() == command.last());
    } else {
        assert(line.last() == ';');
    }
    assert(is_trimmed(line));
    lemma_trimmed_is_fixed(line);
    assert(line[1 + meta.len() as int] == ';');
    assert(has_char(line, ';'));
    assert(line.drop_first() =~= rest);
    lemma_after_first_prefix(meta, ';', command);
}

/// The last line of a history, where it is a zsh extended-history line with
/// a command that does not call this assistant, gives exactly that command.
pub proof fn law_history_last_zsh_command(ls: Seq<Seq<char>>, meta: Seq<char>, command: Seq<char>)
    requires
        !has_char(meta, ';'),
        is_trimmed(command),
        !starts_with(command, "fix"@),
        !starts_with(command, "cli-assistant"@),
    ensures
        last_history_command(ls.push(zsh_history_line(meta, command))) == Some(command),
{
    let line = zsh_history_line(meta, command);
    law_zsh_history_entry(meta, command);
    let t = trim(line);
    assert(line[0] == ':');
    if command.len() > 0 {
        assert(line.last() == command.last());
    }
    lemma_trimmed_is_fixed(line);
    assert(t[0] == ':');
    assert(ls.push(line).last() == line);
}

/// A last history line that holds a plain command (not in zsh's extended
/// format) gives that command, trimmed, unless it calls this assistant.
pub proof fn law_history_last_plain_command(ls: Seq<Seq<char>>, line: Seq<char>)
    requires
        trim(line).len() > 0,
        trim(line)[0] != ':',
        !starts_with(trim(line), "fix"@),
        !starts_with(trim(line), "cli-assistant"@),
    ensures
        last_history_command(ls.push(line)) == Some(trim(line)),
{
    lemma_trim_is_trimmed(line);
    assert(!is_whitespace(trim(line)[0]));
    assert(history_entry(line) == trim(line));
    assert(ls.push(line).last() == line);
}

/// Blank lines at the end of a history are passed over.
pub proof fn law_history_skips_blank_lines(ls: Seq<Seq<char>>, line: Seq<char>)
    requires
        is_blank(line),
    ensures
        last_history_command(ls.push(line)) == last_history_command(ls),
{
    assert(ls.push(line).last() == line);
    assert(ls.push(line).drop_last() =~= ls);
}

/// The words of a request are joined with single spaces: the request of a
/// first word and further words is the first word, a space, and the
/// request of the further words.
pub proof fn law_user_request_spaces(first: Seq<char>, rest: Seq<Seq<char>>)
    requires
        rest.len() >= 1,
    ensures
        user_request(seq![first] + rest) == Some(first + seq![' '] + user_request(rest)->0),
{
    reveal_strlit(" ");
    let w = seq![first] + rest;
    crate::text::lemma_join_front(w, " "@);
    assert(w.drop_first() =~= rest);
    assert(" "@ =~= seq![' ']);
}

} // verus!
