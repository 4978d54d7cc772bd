//! Reading the model's reply: its `EXPLANATION:` and `COMMAND:` sections.
use vstd::prelude::*;
use crate::text::{
    chars_of, copy_range, empty_text, eq_ignore_ascii_case, eq_ignore_ascii_case_chars, has_char,
    is_blank, is_blank_chars, is_trimmed, is_whitespace, join, join_chars, lemma_lines_of_joined,
    lemma_join_ends_with, lemma_join_starts_with, lemma_lines_of_joined_unended,
    lemma_split_no_newline, lemma_trim_is_trimmed,
    lemma_trimmed_is_fixed, lines, lines_of, newline, same_chars, split_chars, split_on,
    starts_with, starts_with_chars, string_of, strip_cr, strip_prefix_all, strip_prefix_all_chars,
    trim, trim_chars, trim_end, trim_start, uppercase, uppercase_chars, views,
};

verus! {

/// The section of a reply that the lines being read belong to.
#[derive(Debug, Clone, Copy, PartialEq, Eq, Structural)]
pub enum ReplySection {
    Explanation,
    Command,
}

/// What has been read of a reply so far: the section of the last header,
/// and the lines collected for each section.
pub struct ScanModel {
    pub section: Option<ReplySection>,
    pub explanation: Seq<Seq<char>>,
    pub command: Seq<Seq<char>>,
}

/// Nothing read yet.
pub open spec fn scan_start() -> ScanModel {
    ScanModel { section: None, explanation: Seq::empty(), command: Seq::empty() }
}

/// The header that opens the explanation, as the upper-cased line starts.
pub open spec fn explanation_header() -> Seq<char> {
    "EXPLANATION:"@
}

/// The header that opens the command, as the upper-cased line starts.
pub open spec fn command_header() -> Seq<char> {
    "COMMAND:"@
}

/// The text after a header on its line: the line without leading copies of
/// the header in upper case, then in lower case, trimmed.
pub open spec fn header_remainder(line: Seq<char>, upper_name: Seq<char>, lower_name: Seq<char>) -> Seq<char> {
    trim(strip_prefix_all(strip_prefix_all(line, upper_name), lower_name))
}

/// `lines` with `l` added where `l` is not empty.
pub open spec fn push_nonempty(lines: Seq<Seq<char>>, l: Seq<char>) -> Seq<Seq<char>> {
    if l.len() > 0 {
        lines.push(l)
    } else {
        lines
    }
}

/// Reading one line, given the upper-case form of the trimmed line: a header
/// opens its section (keeping any text after it on its line); other lines
/// go to the open section, where blank lines that would start the
/// explanation are left out; lines before any header are ignored.
pub open spec fn scan_line_with(st: ScanModel, line: Seq<char>, upper: Seq<char>) -> ScanModel {
    if starts_with(upper, explanation_header()) {
        ScanModel {
            section: Some(ReplySection::Explanation),
            explanation: push_nonempty(
                st.explanation,
                header_remainder(line, explanation_header(), "explanation:"@),
            ),
            command: st.command,
        }
    } else if starts_with(upper, command_header()) {
        ScanModel {
            section: Some(ReplySection::Command),
            explanation: st.explanation,
            command: push_nonempty(st.command, header_remainder(line, command_header(), "command:"@)),
        }
    } else {
        match st.section {
            Some(ReplySection::Explanation) => if !is_blank(line) || st.explanation.len() > 0 {
                ScanModel { section: st.section, explanation: st.explanation.push(line), command: st.command }
            } else {
                st
            },
            Some(ReplySection::Command) => ScanModel {
                section: st.section,
                explanation: st.explanation,
                command: st.command.push(line),
            },
            None => st,
        }
    }
}

/// Reading one line of a reply.
pub open spec fn scan_line(st: ScanModel, line: Seq<char>) -> ScanModel {
    scan_line_with(st, line, uppercase(trim(line)))
}

/// Reading the given lines, from the first.
pub open spec fn scan(lines: Seq<Seq<char>>) -> ScanModel
    decreases lines.len(),
{
    if lines.len() == 0 {
        scan_start()
    } else {
        scan_line(scan(lines.drop_last()), lines.last())
    }
}

/// The code fence of Markdown.
pub open spec fn fence() -> Seq<char> {
    "```"@
}

/// `lines` without its first line, where it has one.
pub open spec fn drop_first_line(lines: Seq<Seq<char>>) -> Seq<Seq<char>> {
    if lines.len() > 0 {
        lines.drop_first()
    } else {
        lines
    }
}

/// `text` without an opening fence line (a line that starts with three
/// backticks, such as "```bash") and without a closing fence line, trimmed.
pub open spec fn clean_markdown(text: Seq<char>) -> Seq<char> {
    let ls = lines(text);
    if ls.len() == 0 {
        empty_text()
    } else {
        let a = if starts_with(trim(ls[0]), fence()) {
            ls.drop_first()
        } else {
            ls
        };
        let b = if a.len() > 0 && trim(a.last()) == fence() {
            a.drop_last()
        } else {
            a
        };
        trim(join(b, newline()))
    }
}

/// What a fenced block holds: its trimmed text, without its first line where
/// that names a shell (starts with "bash" or "sh").
pub open spec fn fenced_content(part: Seq<char>) -> Seq<char> {
    let t = trim(part);
    if starts_with(t, "bash"@) || starts_with(t, "sh"@) {
        join(drop_first_line(lines(t)), newline())
    } else {
        t
    }
}

/// The trimmed content of the first fenced block, from the `i`th piece on,
/// that is not empty (the pieces at odd positions are inside fences).
pub open spec fn first_fenced_command(parts: Seq<Seq<char>>, i: nat) -> Seq<char>
    decreases parts.len() - i,
{
    if i >= parts.len() {
        empty_text()
    } else if i % 2 == 1 && fenced_content(parts[i as int]).len() > 0 {
        trim(fenced_content(parts[i as int]))
    } else {
        first_fenced_command(parts, i + 1)
    }
}

/// The command in the first non-empty fenced code block of a reply, or the
/// empty text where there is none.
pub open spec fn code_block_command(response: Seq<char>) -> Seq<char> {
    first_fenced_command(split_on(response, fence()), 0)
}

/// Whether a command stands for "no command": `n/a`, `none` or `same` in
/// any ASCII case, or nothing at all.
pub open spec fn is_placeholder_command(c: Seq<char>) -> bool {
    ||| eq_ignore_ascii_case(c, "n/a"@)
    ||| eq_ignore_ascii_case(c, "none"@)
    ||| eq_ignore_ascii_case(c, "same"@)
    ||| c.len() == 0
}

/// The explanation given when a reply has none.
pub open spec fn default_explanation() -> Seq<char> {
    "Command suggestion"@
}

/// A reply as read: explanation, command and whether it only explains.
pub struct Reply {
    pub explanation: Seq<char>,
    pub command: Seq<char>,
    pub explanation_only: bool,
}

/// The reply that the collected lines make: the explanation lines joined
/// and trimmed (or the default explanation where that is empty); the command
/// lines joined, trimmed and freed of code fences.
pub open spec fn reply_of(st: ScanModel) -> Reply {
    let e = trim(join(st.explanation, newline()));
    let c = clean_markdown(trim(join(st.command, newline())));
    Reply {
        explanation: if e.len() == 0 {
            default_explanation()
        } else {
            e
        },
        command: c,
        explanation_only: is_placeholder_command(c),
    }
}

/// The reply that `parse_response` reads from a response text.
pub open spec fn parsed_reply(response: Seq<char>) -> Reply {
    reply_of(scan(lines(response)))
}

/// Parsed response from the LLM
#[derive(Debug, Clone)]
pub struct ParsedResponse {
    pub explanation: String,
    pub command: String,
    pub is_explanation_only: bool,
}

impl View for ParsedResponse {
    type V = Reply;

    open spec fn view(&self) -> Reply {
        Reply {
            explanation: self.explanation@,
            command: self.command@,
            explanation_only: self.is_explanation_only,
        }
    }
}

/// Why a reply could not be read.
#[derive(Debug, Clone)]
pub enum ParseError {
    /// No command could be found in the response.
    NoCommand { response: String },
}

impl ParseError {
    /// The explanation shown to the user.
    pub fn message(&self) -> (m: String)
        ensures
            match self {
                ParseError::NoCommand { response } => m@
                    == "Could not extract command from response. Response:\n"@ + response@,
            },
    {
        match self {
            ParseError::NoCommand { response } => {
                let mut m = String::from_str("Could not extract command from response. Response:\n");
                m.append(response.as_str());
                m
            },
        }
    }
}

/// Reads a reply line by line.
pub struct ResponseScanner {
    section: Option<ReplySection>,
    explanation_lines: Vec<Vec<char>>,
    command_lines: Vec<Vec<char>>,
}

impl View for ResponseScanner {
    type V = ScanModel;

    closed spec fn view(&self) -> ScanModel {
        ScanModel {
            section: self.section,
            explanation: views(self.explanation_lines@),
            command: views(self.command_lines@),
        }
    }
}

/// The text after a header on its line, executable.
fn header_remainder_chars(line: &[char], upper_name: &[char], lower_name: &[char]) -> (r: Vec<char>)
    ensures
        r@ == header_remainder(line@, upper_name@, lower_name@),
{
    let a = strip_prefix_all_chars(line, upper_name);
    let b = strip_prefix_all_chars(a.as_slice(), lower_name);
    trim_chars(b.as_slice())
}

impl ResponseScanner {
    /// A scanner that has read nothing.
    pub fn new() -> (s: Self)
        ensures
            s@ == scan_start(),
    {
        let s = ResponseScanner { section: None, explanation_lines: Vec::new(), command_lines: Vec::new() };
        assert(s@.explanation =~= Seq::<Seq<char>>::empty());
        assert(s@.command =~= Seq::<Seq<char>>::empty());
        s
    }

    fn push_explanation(&mut self, line: Vec<char>)
        ensures
            final(self)@ == (ScanModel {
                section: old(self)@.section,
                explanation: old(self)@.explanation.push(line@),
                command: old(self)@.command,
            }),
    {
        let ghost before = self.explanation_lines@;
        self.explanation_lines.push(line);
        assert(views(self.explanation_lines@) =~= views(before).push(line@));
    }

    fn push_command(&mut self, line: Vec<char>)
        ensures
            final(self)@ == (ScanModel {
                section: old(self)@.section,
                explanation: old(self)@.explanation,
                command: old(self)@.command.push(line@),
            }),
    {
        let ghost before = self.command_lines@;
        self.command_lines.push(line);
        assert(views(self.command_lines@) =~= views(before).push(line@));
    }

    fn feed_chars(&mut self, line: &[char], upper: &[char])
        ensures
            final(self)@ == scan_line_with(old(self)@, line@, upper@),
    {
        let expl_upper = chars_of("EXPLANATION:");
        let cmd_upper = chars_of("COMMAND:");
        if starts_with_chars(upper, expl_upper.as_slice()) {
            self.section = Some(ReplySection::Explanation);
            let expl_lower = chars_of("explanation:");
            let rest = header_remainder_chars(line, expl_upper.as_slice(), expl_lower.as_slice());
            if rest.len() > 0 {
                self.push_explanation(rest);
            }
        } else if starts_with_chars(upper, cmd_upper.as_slice()) {
            self.section = Some(ReplySection::Command);
            let cmd_lower = chars_of("command:");
            let rest = header_remainder_chars(line, cmd_upper.as_slice(), cmd_lower.as_slice());
            if rest.len() > 0 {
                self.push_command(rest);
            }
        } else {
            match self.section {
                Some(ReplySection::Explanation) => {
                    if !is_blank_chars(line) || self.explanation_lines.len() > 0 {
                        self.push_explanation(copy_range(line, 0, line.len()));
                        assert(line@.subrange(0, line@.len() as int) =~= line@);
                    }
                },
                Some(ReplySection::Command) => {
                    self.push_command(copy_range(line, 0, line.len()));
                    assert(line@.subrange(0, line@.len() as int) =~= line@);
                },
                None => {},
            }
        }
    }

    /// Reads one line of a reply, given the upper-case form of the trimmed
    /// line (what `str::to_uppercase` gives for it).
    pub fn feed(&mut self, line: &str, line_upper: &str)
        ensures
            final(self)@ == scan_line_with(old(self)@, line@, line_upper@),
    {
        let l = chars_of(line);
        let u = chars_of(line_upper);
        self.feed_chars(l.as_slice(), u.as_slice());
    }

    /// Reads one line of a reply.
    pub fn read_line(&mut self, line: &str)
        ensures
            final(self)@ == scan_line(old(self)@, line@),
    {
        let l = chars_of(line);
        let t = trim_chars(l.as_slice());
        let u = uppercase_chars(t.as_slice());
        self.feed_chars(l.as_slice(), u.as_slice());
    }

    /// The reply that the lines read make.  The whole response is given for
    /// the message of an error; no error occurs.
    pub fn finish(self, response: &str) -> (r: Result<ParsedResponse, ParseError>)
        ensures
            r matches Ok(p) && p@ == reply_of(self@),
    {
        let nl: Vec<char> = vec!['\n'];
        assert(nl@ =~= newline());
        let e_joined = join_chars(&self.explanation_lines, nl.as_slice());
        let mut explanation = trim_chars(e_joined.as_slice());
        let c_joined = join_chars(&self.command_lines, nl.as_slice());
        let c_trimmed = trim_chars(c_joined.as_slice());
        let mut command = clean_markdown_chars(c_trimmed.as_slice());
        let is_explanation_only = is_placeholder_command_chars(command.as_slice());
        if command.len() == 0 && !is_explanation_only {
            let whole = chars_of(response);
            command = code_block_command_chars(whole.as_slice());
        }
        if command.len() == 0 && !is_explanation_only {
            return Err(ParseError::NoCommand { response: string_of(chars_of(response).as_slice()) });
        }
        if explanation.len() == 0 {
            explanation = chars_of("Command suggestion");
        }
        Ok(ParsedResponse {
            explanation: string_of(explanation.as_slice()),
            command: string_of(command.as_slice()),
            is_explanation_only,
        })
    }
}

/// Executable `is_placeholder_command`.
fn is_placeholder_command_chars(c: &[char]) -> (r: bool)
    ensures
        r == is_placeholder_command(c@),
{
    let na = chars_of("n/a");
    let none = chars_of("none");
    let same = chars_of("same");
    eq_ignore_ascii_case_chars(c, na.as_slice()) || eq_ignore_ascii_case_chars(c, none.as_slice())
        || eq_ignore_ascii_case_chars(c, same.as_slice()) || c.len() == 0
}

/// `clean_markdown`, executable.
fn clean_markdown_chars(text: &[char]) -> (r: Vec<char>)
    ensures
        r@ == clean_markdown(text@),
{
    let ls = lines_of(text);
    let ghost lv = views(ls@);
    if ls.len() == 0 {
        return Vec::new();
    }
    let fence_chars = chars_of("```");
    let mut start: usize = 0;
    let mut end: usize = ls.len();
    let first = trim_chars(ls[0].as_slice());
    if starts_with_chars(first.as_slice(), fence_chars.as_slice()) {
        start = 1;
    }
    let ghost a = if start == 1 { lv.drop_first() } else { lv };
    assert(a =~= lv.subrange(start as int, end as int));
    if end > start {
        let last = trim_chars(ls[end - 1].as_slice());
        if same_chars(last.as_slice(), fence_chars.as_slice()) {
            end = end - 1;
        }
    }
    let ghost b = lv.subrange(start as int, end as int);
    assert(b == (if a.len() > 0 && trim(a.last()) == fence() { a.drop_last() } else { a }));
    let mut kept: Vec<Vec<char>> = Vec::new();
    let mut i = start;
    while i < end
        invariant
            start <= i <= end <= ls@.len(),
            lv == views(ls@),
            views(kept@) == lv.subrange(start as int, i as int),
        decreases end - i,
    {
        let l = copy_range(ls[i].as_slice(), 0, ls[i].len());
        assert(ls[i as int]@.subrange(0, ls[i as int]@.len() as int) =~= ls[i as int]@);
        let ghost before = views(kept@);
        kept.push(l);
        assert(views(kept@) =~= before.push(lv[i as int]));
        assert(lv.subrange(start as int, i + 1) =~= lv.subrange(start as int, i as int).push(lv[i as int]));
        i = i + 1;
    }
    let nl: Vec<char> = vec!['\n'];
    assert(nl@ =~= newline());
    let joined = join_chars(&kept, nl.as_slice());
    trim_chars(joined.as_slice())
}

/// `fenced_content`, executable.
fn fenced_content_chars(part: &[char]) -> (r: Vec<char>)
    ensures
        r@ == fenced_content(part@),
{
    let t = trim_chars(part);
    let bash = chars_of("bash");
    let sh = chars_of("sh");
    if starts_with_chars(t.as_slice(), bash.as_slice()) || starts_with_chars(t.as_slice(), sh.as_slice()) {
        let ls = lines_of(t.as_slice());
        let ghost lv = views(ls@);
        let mut rest: Vec<Vec<char>> = Vec::new();
        let n = ls.len();
        let mut i: usize = if n > 0 { 1 } else { 0 };
        let ghost first = i;
        while i < n
            invariant
                first <= i <= n == ls@.len(),
                first == (if n > 0 { 1usize } else { 0usize }),
                lv == views(ls@),
                views(rest@) == lv.subrange(first as int, i as int),
            decreases n - i,
        {
            let l = copy_range(ls[i].as_slice(), 0, ls[i].len());
            assert(ls[i as int]@.subrange(0, ls[i as int]@.len() as int) =~= ls[i as int]@);
            let ghost before = views(rest@);
            rest.push(l);
            assert(views(rest@) =~= before.push(lv[i as int]));
            assert(lv.subrange(first as int, i + 1) =~= lv.subrange(first as int, i as int).push(lv[i as int]));
            i = i + 1;
        }
        assert(drop_first_line(lv) =~= lv.subrange(first as int, n as int));
        let nl: Vec<char> = vec!['\n'];
        assert(nl@ =~= newline());
        join_chars(&rest, nl.as_slice())
    } else {
        t
    }
}

/// `code_block_command`, executable.
fn code_block_command_chars(response: &[char]) -> (r: Vec<char>)
    ensures
        r@ == code_block_command(response@),
{
    let fence_chars = chars_of("```");
    proof {
        reveal_strlit("```");
    }
    let parts = split_chars(response, fence_chars.as_slice());
    let ghost pv = views(parts@);
    let n = parts.len();
    let mut i: usize = 0;
    while i < n
        invariant
            i <= n == parts@.len(),
            pv == views(parts@),
            code_block_command(response@) == first_fenced_command(pv, i as nat),
        decreases n - i,
    {
        if i % 2 == 1 {
            let content = fenced_content_chars(parts[i].as_slice());
            if content.len() > 0 {
                return trim_chars(content.as_slice());
            }
        }
        i = i + 1;
    }
    Vec::new()
}

/// Parse the LLM response to extract EXPLANATION and COMMAND sections
pub fn parse_response(response: &str) -> (r: Result<ParsedResponse, ParseError>)
    ensures
        r matches Ok(p) && p@ == parsed_reply(response@),
{
    let text = chars_of(response);
    let ls = lines_of(text.as_slice());
    let ghost lv = views(ls@);
    let mut scanner = ResponseScanner::new();
    let n = ls.len();
    for k in 0..n
        invariant
            n == ls@.len(),
            lv == views(ls@),
            scanner@ == scan(lv.take(k as int)),
    {
        let line = &ls[k];
        let t = trim_chars(line.as_slice());
        let upper = uppercase_chars(t.as_slice());
        scanner.feed_chars(line.as_slice(), upper.as_slice());
        assert(lv.take(k + 1).drop_last() =~= lv.take(k as int));
    }
    assert(lv.take(n as int) =~= lv);
    scanner.finish(response)
}

/// Remove markdown code blocks from command string
pub fn clean_markdown_code_blocks(text: &str) -> (r: String)
    ensures
        r@ == clean_markdown(text@),
{
    let t = chars_of(text);
    let c = clean_markdown_chars(t.as_slice());
    string_of(c.as_slice())
}

/// Extract command from code blocks in the response
pub fn extract_command_from_code_blocks(response: &str) -> (r: String)
    ensures
        r@ == code_block_command(response@),
{
    let t = chars_of(response);
    let c = code_block_command_chars(t.as_slice());
    string_of(c.as_slice())
}


/// A reply laid out as the prompt asks for it: the explanation header line,
/// the explanation, an empty line, the command header line, the command, and
/// a final line ending.
pub open spec fn formatted_reply(explanation: Seq<char>, command: Seq<char>) -> Seq<char> {
    join(
        seq![explanation_header(), explanation, empty_text(), command_header(), command],
        newline(),
    ) + newline()
}

/// The same reply with the command in a fenced bash code block, as models
/// often write it.
pub open spec fn formatted_fenced_reply(explanation: Seq<char>, command: Seq<char>) -> Seq<char> {
    join(
        seq![
            explanation_header(),
            explanation,
            empty_text(),
            command_header(),
            "```bash"@,
            command,
            fence(),
        ],
        newline(),
    ) + newline()
}

/// Whether the upper-case mapping of a line makes it no header.
pub open spec fn no_header(line: Seq<char>) -> bool {
    !starts_with(uppercase(line), explanation_header()) && !starts_with(
        uppercase(line),
        command_header(),
    )
}

/// Whether the upper-case mapping recognizes the two headers as headers.
pub open spec fn headers_recognized() -> bool {
    &&& starts_with(uppercase(explanation_header()), explanation_header())
    &&& starts_with(uppercase(command_header()), command_header())
}

/// Whether `t` is one line of text without surrounding whitespace.
pub open spec fn is_single_trimmed_line(t: Seq<char>) -> bool {
    is_trimmed(t) && !has_char(t, '\n')
}

/// Removing all leading copies of a text from itself leaves nothing.
proof fn lemma_strip_self(h: Seq<char>, other: Seq<char>)
    requires
        h.len() > 0,
        other.len() > 0,
    ensures
        trim(strip_prefix_all(strip_prefix_all(h, h), other)) == empty_text(),
{
    assert(h.subrange(0, h.len() as int) =~= h);
    assert(h.skip(h.len() as int) =~= empty_text());
    assert(strip_prefix_all(empty_text(), h) == empty_text());
    assert(strip_prefix_all(empty_text(), other) == empty_text());
    assert(trim_start(empty_text()) == empty_text());
    assert(trim_end(empty_text()) == empty_text());
}

/// A trimmed, non-empty text with a line ending after it trims back to itself.
proof fn lemma_trim_line_ended(e: Seq<char>)
    requires
        e.len() > 0,
        is_trimmed(e),
    ensures
        trim(e + newline()) == e,
{
    let x = e + newline();
    assert(x[0] == e[0]);
    assert(trim_start(x) == x);
    assert(x.last() == '\n');
    assert(x.drop_last() =~= e);
    assert(trim_end(e) == e);
    assert(trim_end(x) == e);
}

/// A line holds no line ending where the line is a literal without one.
proof fn lemma_literal_lines()
    ensures
        is_single_trimmed_line(explanation_header()),
        is_single_trimmed_line(command_header()),
        is_single_trimmed_line("```bash"@),
        is_single_trimmed_line(fence()),
        explanation_header().last() != '\r',
        command_header().last() != '\r',
        "```bash"@.last() != '\r',
        starts_with("```bash"@, fence()),
{
    reveal_strlit("EXPLANATION:");
    reveal_strlit("COMMAND:");
    reveal_strlit("```bash");
    reveal_strlit("```");
    let lits = seq![explanation_header(), command_header(), "```bash"@, fence()];
    assert forall|i: int| 0 <= i < lits.len() implies !has_char(#[trigger] lits[i], '\n') by {
        if has_char(lits[i], '\n') {
            let k = choose|k: int| 0 <= k < lits[i].len() && lits[i][k] == '\n';
        }
    }
    assert(!has_char(lits[0], '\n'));
    assert(!has_char(lits[1], '\n'));
    assert(!has_char(lits[2], '\n'));
    assert(!has_char(lits[3], '\n'));
    assert("```bash"@.subrange(0, 3) =~= fence());
}

/// A trimmed line does not end with a carriage return.
proof fn lemma_trimmed_no_cr(t: Seq<char>)
    requires
        is_trimmed(t),
    ensures
        strip_cr(t) == t,
{
    if t.len() > 0 {
        assert(!is_whitespace(t.last()));
    }
}

/// Reading the header block: the explanation header, the explanation, an
/// empty line and the command header leave the explanation and an empty
/// line collected, and the command section open.
proof fn lemma_scan_header_block(e: Seq<char>)
    requires
        e.len() > 0,
        is_trimmed(e),
        headers_recognized(),
        no_header(e),
        no_header(empty_text()),
    ensures
        scan(seq![explanation_header(), e, empty_text(), command_header()]) == (ScanModel {
            section: Some(ReplySection::Command),
            explanation: seq![e, empty_text()],
            command: Seq::empty(),
        }),
{
    reveal_strlit("EXPLANATION:");
    reveal_strlit("COMMAND:");
    reveal_strlit("explanation:");
    reveal_strlit("command:");
    let he = explanation_header();
    let hc = command_header();
    let parts = seq![he, e, empty_text(), hc];
    lemma_literal_lines();
    lemma_trimmed_is_fixed(he);
    lemma_trimmed_is_fixed(hc);
    lemma_trimmed_is_fixed(e);
    lemma_trimmed_is_fixed(empty_text());
    lemma_strip_self(he, "explanation:"@);
    lemma_strip_self(hc, "command:"@);
    assert(parts.take(0) =~= Seq::<Seq<char>>::empty());
    assert(parts.take(1).drop_last() =~= parts.take(0));
    assert(parts.take(2).drop_last() =~= parts.take(1));
    assert(parts.take(3).drop_last() =~= parts.take(2));
    assert(parts.take(4).drop_last() =~= parts.take(3));
    assert(parts.take(4) =~= parts);
    let s1 = scan(parts.take(1));
    assert(scan(parts.take(0)) == scan_start());
    assert(parts.take(1).last() == he);
    assert(s1 == scan_line(scan_start(), he));
    assert(!starts_with(uppercase(he), hc)) by {
        assert(uppercase(he).subrange(0, he.len() as int)[0] == he[0]);
    }
    assert(s1 == ScanModel { section: Some(ReplySection::Explanation), explanation: Seq::empty(), command: Seq::empty() });
    let s2 = scan(parts.take(2));
    assert(s2 == scan_line(s1, e));
    assert(Seq::<Seq<char>>::empty().push(e) =~= seq![e]);
    assert(!is_blank(e));
    assert(s2 == ScanModel { section: Some(ReplySection::Explanation), explanation: seq![e], command: Seq::empty() });
    let s3 = scan(parts.take(3));
    assert(s3 == scan_line(s2, empty_text()));
    assert(seq![e].push(empty_text()) =~= seq![e, empty_text()]);
    assert(s3 == ScanModel { section: Some(ReplySection::Explanation), explanation: seq![e, empty_text()], command: Seq::empty() });
    let s4 = scan(parts.take(4));
    assert(s4 == scan_line(s3, hc));
    assert(!starts_with(uppercase(hc), he)) by {
        assert(uppercase(hc).subrange(0, hc.len() as int)[0] == hc[0]);
    }
}

/// Lines in the command section go to the command.
proof fn lemma_scan_command_lines(prefix: Seq<Seq<char>>, more: Seq<Seq<char>>, e: Seq<Seq<char>>)
    requires
        scan(prefix) == (ScanModel { section: Some(ReplySection::Command), explanation: e, command: Seq::empty() }),
        forall|i: int| 0 <= i < more.len() ==> #[trigger] no_header(trim(more[i])),
    ensures
        scan(prefix + more) == (ScanModel { section: Some(ReplySection::Command), explanation: e, command: more }),
    decreases more.len(),
{
    if more.len() == 0 {
        assert(prefix + more =~= prefix);
        assert(more =~= Seq::<Seq<char>>::empty());
    } else {
        let m = more.drop_last();
        assert forall|i: int| 0 <= i < m.len() implies #[trigger] no_header(trim(m[i])) by {
            assert(m[i] == more[i]);
            assert(no_header(trim(more[i])));
        }
        lemma_scan_command_lines(prefix, m, e);
        assert((prefix + more).drop_last() =~= prefix + m);
        assert((prefix + more).last() == more.last());
        assert(no_header(trim(more[more.len() - 1])));
        assert(m.push(more.last()) =~= more);
    }
}

/// The explanation collected from the header block reads as itself.
proof fn lemma_header_block_explanation(e: Seq<char>)
    requires
        e.len() > 0,
        is_trimmed(e),
    ensures
        trim(join(seq![e, empty_text()], newline())) == e,
{
    let ej = join(seq![e, empty_text()], newline());
    assert(seq![e, empty_text()].drop_last() =~= seq![e]);
    assert(join(seq![e], newline()) == e);
    assert(ej == join(seq![e], newline()) + newline() + empty_text());
    assert(ej =~= e + newline());
    lemma_trim_line_ended(e);
}

/// A reply laid out as the prompt asks for it reads back as the explanation
/// and the command it was made of, for any explanation and command that are
/// single non-empty lines without surrounding whitespace (the command not
/// opening a code fence), wherever the upper-case mapping makes the header
/// lines headers and the other lines none.
pub proof fn law_formatted_reply_round_trip(explanation: Seq<char>, command: Seq<char>)
    requires
        explanation.len() > 0,
        is_single_trimmed_line(explanation),
        command.len() > 0,
        is_single_trimmed_line(command),
        !starts_with(command, fence()),
        headers_recognized(),
        no_header(explanation),
        no_header(command),
        no_header(empty_text()),
    ensures
        parsed_reply(formatted_reply(explanation, command)) == (Reply {
            explanation,
            command,
            explanation_only: is_placeholder_command(command),
        }),
{
    let e = explanation;
    let c = command;
    let head = seq![explanation_header(), e, empty_text(), command_header()];
    let parts = head + seq![c];
    assert(parts =~= seq![explanation_header(), e, empty_text(), command_header(), c]);
    lemma_literal_lines();
    assert forall|i: int| 0 <= i < parts.len() implies !has_char(#[trigger] parts[i], '\n') by {}
    lemma_lines_of_joined(parts);
    assert(parts.map_values(|l: Seq<char>| strip_cr(l)) =~= parts) by {
        lemma_trimmed_no_cr(e);
        lemma_trimmed_no_cr(c);
        lemma_trimmed_no_cr(explanation_header());
        lemma_trimmed_no_cr(command_header());
        lemma_trimmed_no_cr(empty_text());
    }
    assert(lines(formatted_reply(e, c)) == parts);
    lemma_scan_header_block(e);
    lemma_trimmed_is_fixed(c);
    lemma_scan_command_lines(head, seq![c], seq![e, empty_text()]);
    lemma_header_block_explanation(e);
    assert(join(seq![c], newline()) == c);
    lemma_split_no_newline(c);
    assert(split_on(c, newline()).take(0) =~= Seq::<Seq<char>>::empty());
    assert(lines(c) =~= seq![c]);
    assert(seq![c].drop_first() =~= Seq::<Seq<char>>::empty());
    assert(c != fence()) by {
        if c == fence() {
            assert(c.subrange(0, fence().len() as int) =~= c);
        }
    }
    assert(clean_markdown(c) == c);
}

/// The same holds where the command stands in a fenced bash code block:
/// the fences are taken off.
pub proof fn law_fenced_reply_round_trip(explanation: Seq<char>, command: Seq<char>)
    requires
        explanation.len() > 0,
        is_single_trimmed_line(explanation),
        is_single_trimmed_line(command),
        headers_recognized(),
        no_header(explanation),
        no_header(command),
        no_header(empty_text()),
        no_header("```bash"@),
        no_header(fence()),
    ensures
        parsed_reply(formatted_fenced_reply(explanation, command)) == (Reply {
            explanation,
            command,
            explanation_only: is_placeholder_command(command),
        }),
{
    let e = explanation;
    let c = command;
    let fb = "```bash"@;
    let head = seq![explanation_header(), e, empty_text(), command_header()];
    let block = seq![fb, c, fence()];
    let parts = head + block;
    assert(parts =~= seq![explanation_header(), e, empty_text(), command_header(), fb, c, fence()]);
    lemma_literal_lines();
    assert forall|i: int| 0 <= i < parts.len() implies !has_char(#[trigger] parts[i], '\n') by {}
    lemma_lines_of_joined(parts);
    assert(parts.map_values(|l: Seq<char>| strip_cr(l)) =~= parts) by {
        lemma_trimmed_no_cr(e);
        lemma_trimmed_no_cr(c);
        lemma_trimmed_no_cr(explanation_header());
        lemma_trimmed_no_cr(command_header());
        lemma_trimmed_no_cr(empty_text());
        lemma_trimmed_no_cr(fb);
        lemma_trimmed_no_cr(fence());
    }
    assert(lines(formatted_fenced_reply(e, c)) == parts);
    lemma_scan_header_block(e);
    lemma_trimmed_is_fixed(c);
    lemma_trimmed_is_fixed(fb);
    lemma_trimmed_is_fixed(fence());
    assert forall|i: int| 0 <= i < block.len() implies #[trigger] no_header(trim(block[i])) by {}
    lemma_scan_command_lines(head, block, seq![e, empty_text()]);
    lemma_header_block_explanation(e);
    // The command lines, joined, are the fenced block.
    let j = join(block, newline());
    reveal_strlit("```");
    reveal_strlit("```bash");
    assert forall|i: int| 0 <= i < block.len() implies !has_char(#[trigger] block[i], '\n') by {}
    crate::text::lemma_join_front(block, newline());
    crate::text::lemma_join_front(block.drop_first(), newline());
    assert(block.drop_first().drop_first() =~= seq![fence()]);
    assert(j =~= fb + newline() + (c + newline() + fence()));
    assert(j[0] == '`');
    assert(j.last() == '`');
    lemma_trimmed_is_fixed(j);
    lemma_lines_of_joined_unended(block);
    assert(block.drop_last() =~= seq![fb, c]);
    assert(seq![fb, c].map_values(|l: Seq<char>| strip_cr(l)) =~= seq![fb, c]) by {
        lemma_trimmed_no_cr(fb);
        lemma_trimmed_no_cr(c);
    }
    assert(lines(j) =~= block);
    let a = block.drop_first();
    assert(a =~= seq![c, fence()]);
    assert(a.drop_last() =~= seq![c]);
    assert(join(seq![c], newline()) == c);
    assert(clean_markdown(j) == c);
}

/// The opening line of a code block: three backticks and what follows them
/// (a language name such as "bash", or nothing).
pub open spec fn fence_line(tag: Seq<char>) -> Seq<char> {
    fence() + tag
}

/// An opening fence line is one trimmed line that starts with the fence.
proof fn lemma_fence_line(tag: Seq<char>)
    requires
        is_single_trimmed_line(tag),
    ensures
        is_single_trimmed_line(fence_line(tag)),
        starts_with(fence_line(tag), fence()),
        fence_line(tag)[0] == '`',
{
    reveal_strlit("```");
    let fb = fence_line(tag);
    assert(fb.subrange(0, 3) =~= fence());
    assert(!has_char(fb, '\n')) by {
        if has_char(fb, '\n') {
            let k = choose|k: int| 0 <= k < fb.len() && fb[k] == '\n';
            if k >= 3 {
                assert(tag[k - 3] == '\n');
            }
        }
    }
    if tag.len() > 0 {
        assert(fb.last() == tag.last());
    }
}

/// The lines of a fenced block, joined, are the block's text, which has no
/// whitespace at its ends.
proof fn lemma_fenced_block_joined(tag: Seq<char>, c: Seq<char>)
    requires
        is_single_trimmed_line(tag),
        is_single_trimmed_line(c),
    ensures
        join(seq![fence_line(tag), c, fence()], newline()) == fence_line(tag) + newline() + c + newline()
            + fence(),
        trim(join(seq![fence_line(tag), c, fence()], newline())) == join(
            seq![fence_line(tag), c, fence()],
            newline(),
        ),
{
    reveal_strlit("```");
    lemma_fence_line(tag);
    let fb = fence_line(tag);
    let block = seq![fb, c, fence()];
    let j = join(block, newline());
    crate::text::lemma_join_front(block, newline());
    crate::text::lemma_join_front(block.drop_first(), newline());
    assert(block.drop_first().drop_first() =~= seq![fence()]);
    assert(j =~= fb + newline() + c + newline() + fence());
    assert(j[0] == '`');
    assert(j.last() == '`');
    lemma_trimmed_is_fixed(j);
}

/// A command in a fenced code block comes out of `clean_markdown` without
/// the fences, whatever follows the opening backticks.
pub proof fn law_clean_markdown_unfences(tag: Seq<char>, command: Seq<char>)
    requires
        is_single_trimmed_line(tag),
        is_single_trimmed_line(command),
    ensures
        clean_markdown(fence_line(tag) + newline() + command + newline() + fence()) == command,
{
    let c = command;
    let fb = fence_line(tag);
    lemma_fence_line(tag);
    lemma_literal_lines();
    reveal_strlit("```");
    let block = seq![fb, c, fence()];
    let j = join(block, newline());
    assert forall|i: int| 0 <= i < block.len() implies !has_char(#[trigger] block[i], '\n') by {}
    crate::text::lemma_join_front(block, newline());
    crate::text::lemma_join_front(block.drop_first(), newline());
    assert(block.drop_first().drop_first() =~= seq![fence()]);
    assert(j =~= fb + newline() + (c + newline() + fence()));
    assert(fb + newline() + c + newline() + fence() =~= j);
    lemma_lines_of_joined_unended(block);
    assert(block.drop_last() =~= seq![fb, c]);
    assert(seq![fb, c].map_values(|l: Seq<char>| strip_cr(l)) =~= seq![fb, c]) by {
        lemma_trimmed_no_cr(fb);
        lemma_trimmed_no_cr(c);
    }
    assert(lines(j) =~= block);
    lemma_trimmed_is_fixed(fb);
    lemma_trimmed_is_fixed(fence());
    let a = block.drop_first();
    assert(a =~= seq![c, fence()]);
    assert(a.drop_last() =~= seq![c]);
    assert(join(seq![c], newline()) == c);
    lemma_trimmed_is_fixed(c);
}

/// A reply in the requested format whose command stands in a fenced code
/// block (with any opening line "```" + tag) reads back as its explanation
/// and the bare command.
pub proof fn law_tagged_fenced_reply_round_trip(tag: Seq<char>, explanation: Seq<char>, command: Seq<char>)
    requires
        is_single_trimmed_line(tag),
        explanation.len() > 0,
        is_single_trimmed_line(explanation),
        is_single_trimmed_line(command),
        headers_recognized(),
        no_header(explanation),
        no_header(command),
        no_header(empty_text()),
        no_header(fence_line(tag)),
        no_header(fence()),
    ensures
        parsed_reply(
            join(
                seq![
                    explanation_header(),
                    explanation,
                    empty_text(),
                    command_header(),
                    fence_line(tag),
                    command,
                    fence(),
                ],
                newline(),
            ) + newline(),
        ) == (Reply { explanation, command, explanation_only: is_placeholder_command(command) }),
{
    let e = explanation;
    let c = command;
    let fb = fence_line(tag);
    lemma_fence_line(tag);
    let head = seq![explanation_header(), e, empty_text(), command_header()];
    let block = seq![fb, c, fence()];
    let parts = head + block;
    assert(parts =~= seq![explanation_header(), e, empty_text(), command_header(), fb, c, fence()]);
    lemma_literal_lines();
    assert forall|i: int| 0 <= i < parts.len() implies !has_char(#[trigger] parts[i], '\n') by {}
    lemma_lines_of_joined(parts);
    assert(parts.map_values(|l: Seq<char>| strip_cr(l)) =~= parts) by {
        lemma_trimmed_no_cr(e);
        lemma_trimmed_no_cr(c);
        lemma_trimmed_no_cr(explanation_header());
        lemma_trimmed_no_cr(command_header());
        lemma_trimmed_no_cr(empty_text());
        lemma_trimmed_no_cr(fb);
        lemma_trimmed_no_cr(fence());
    }
    lemma_scan_header_block(e);
    lemma_trimmed_is_fixed(c);
    lemma_trimmed_is_fixed(fb);
    lemma_trimmed_is_fixed(fence());
    assert forall|i: int| 0 <= i < block.len() implies #[trigger] no_header(trim(block[i])) by {}
    lemma_scan_command_lines(head, block, seq![e, empty_text()]);
    lemma_header_block_explanation(e);
    lemma_fenced_block_joined(tag, c);
    law_clean_markdown_unfences(tag, c);
}

/// Every reply read has an explanation, and neither its explanation nor its
/// command has whitespace at its ends.
pub proof fn law_reply_is_trimmed(response: Seq<char>)
    ensures
        parsed_reply(response).explanation.len() > 0,
        is_trimmed(parsed_reply(response).explanation),
        is_trimmed(parsed_reply(response).command),
{
    let st = scan(lines(response));
    lemma_trim_is_trimmed(join(st.explanation, newline()));
    reveal_strlit("Command suggestion");
    let t = trim(join(st.command, newline()));
    let ls = lines(t);
    if ls.len() > 0 {
        let a = if starts_with(trim(ls[0]), fence()) {
            ls.drop_first()
        } else {
            ls
        };
        let b = if a.len() > 0 && trim(a.last()) == fence() {
            a.drop_last()
        } else {
            a
        };
        lemma_trim_is_trimmed(join(b, newline()));
    }
}

/// A reply only explains exactly when its command is empty, or is "n/a",
/// "none" or "same" in any ASCII case.
pub proof fn law_explanation_only_iff_placeholder(response: Seq<char>)
    ensures
        parsed_reply(response).explanation_only == ({
            let c = parsed_reply(response).command;
            ||| c.len() == 0
            ||| eq_ignore_ascii_case(c, "n/a"@)
            ||| eq_ignore_ascii_case(c, "none"@)
            ||| eq_ignore_ascii_case(c, "same"@)
        }),
{
}

/// A space before a trimmed, non-empty text is trimmed away.
proof fn lemma_trim_space_before(e: Seq<char>)
    requires
        e.len() > 0,
        is_trimmed(e),
    ensures
        trim(seq![' '] + e) == e,
{
    let x = seq![' '] + e;
    assert(x.drop_first() =~= e);
    assert(trim_start(e) == e);
    assert(trim_start(x) == e);
    assert(trim_end(e) == e);
}

/// A header line with text after it: the header, a space and the text.
pub open spec fn header_with_text(header: Seq<char>, text: Seq<char>) -> Seq<char> {
    header + seq![' '] + text
}

/// The text after a header on its line is kept, whatever the case of the
/// header.
proof fn lemma_header_with_text_remainder(header: Seq<char>, lower_name: Seq<char>, text: Seq<char>)
    requires
        header.len() > 0,
        header[0] != ' ',
        lower_name.len() > 0,
        lower_name[0] != ' ',
        text.len() > 0,
        is_trimmed(text),
    ensures
        header_remainder(header_with_text(header, text), header, lower_name) == text,
{
    let line = header_with_text(header, text);
    let rest = seq![' '] + text;
    assert(line.subrange(0, header.len() as int) =~= header);
    assert(line.skip(header.len() as int) =~= rest);
    assert(!starts_with(rest, header)) by {
        if header.len() <= rest.len() {
            assert(rest.subrange(0, header.len() as int)[0] == ' ');
        }
    }
    assert(strip_prefix_all(line, header) == strip_prefix_all(rest, header));
    assert(strip_prefix_all(rest, header) == rest);
    assert(!starts_with(rest, lower_name)) by {
        if lower_name.len() <= rest.len() {
            assert(rest.subrange(0, lower_name.len() as int)[0] == ' ');
        }
    }
    assert(strip_prefix_all(rest, lower_name) == rest);
    lemma_trim_space_before(text);
}

/// A reply that writes its explanation and its command on the header lines
/// themselves ("EXPLANATION: <text>", "COMMAND: <command>") reads back as
/// that explanation and command, wherever the upper-case mapping keeps the
/// headers at the start of those lines.
pub proof fn law_inline_reply_round_trip(explanation: Seq<char>, command: Seq<char>)
    requires
        explanation.len() > 0,
        is_single_trimmed_line(explanation),
        command.len() > 0,
        is_single_trimmed_line(command),
        !starts_with(command, fence()),
        starts_with(uppercase(header_with_text(explanation_header(), explanation)), explanation_header()),
        starts_with(uppercase(header_with_text(command_header(), command)), command_header()),
    ensures
        parsed_reply(
            join(
                seq![
                    header_with_text(explanation_header(), explanation),
                    header_with_text(command_header(), command),
                ],
                newline(),
            ),
        ) == (Reply { explanation, command, explanation_only: is_placeholder_command(command) }),
{
    reveal_strlit("EXPLANATION:");
    reveal_strlit("COMMAND:");
    reveal_strlit("explanation:");
    reveal_strlit("command:");
    let e = explanation;
    let c = command;
    let he = explanation_header();
    let hc = command_header();
    let l1 = header_with_text(he, e);
    let l2 = header_with_text(hc, c);
    let parts = seq![l1, l2];
    lemma_literal_lines();
    assert(!has_char(l1, '\n')) by {
        if has_char(l1, '\n') {
            let k = choose|k: int| 0 <= k < l1.len() && l1[k] == '\n';
            if k < he.len() {
                assert(he[k] == '\n');
            } else if k > he.len() {
                assert(e[k - he.len() - 1] == '\n');
            }
        }
    }
    assert(!has_char(l2, '\n')) by {
        if has_char(l2, '\n') {
            let k = choose|k: int| 0 <= k < l2.len() && l2[k] == '\n';
            if k < hc.len() {
                assert(hc[k] == '\n');
            } else if k > hc.len() {
                assert(c[k - hc.len() - 1] == '\n');
            }
        }
    }
    assert(l1.last() == e.last());
    assert(l2.last() == c.last());
    assert(is_trimmed(l1));
    assert(is_trimmed(l2));
    assert forall|i: int| 0 <= i < parts.len() implies !has_char(#[trigger] parts[i], '\n') by {}
    lemma_lines_of_joined_unended(parts);
    assert(parts.drop_last() =~= seq![l1]);
    lemma_trimmed_no_cr(l1);
    assert(seq![l1].map_values(|l: Seq<char>| strip_cr(l)) =~= seq![l1]);
    assert(lines(join(parts, newline())) =~= parts);
    lemma_trimmed_is_fixed(l1);
    lemma_trimmed_is_fixed(l2);
    lemma_header_with_text_remainder(he, "explanation:"@, e);
    lemma_header_with_text_remainder(hc, "command:"@, c);
    assert(!starts_with(uppercase(l1), hc)) by {
        assert(uppercase(l1).subrange(0, he.len() as int)[0] == he[0]);
    }
    assert(!starts_with(uppercase(l2), he)) by {
        assert(uppercase(l2).subrange(0, hc.len() as int)[0] == hc[0]);
    }
    assert(parts.take(0) =~= Seq::<Seq<char>>::empty());
    assert(parts.take(1).drop_last() =~= parts.take(0));
    assert(parts.take(2).drop_last() =~= parts.take(1));
    assert(parts.take(2) =~= parts);
    assert(scan(parts.take(0)) == scan_start());
    assert(parts.take(1).last() == l1);
    let s1 = scan(parts.take(1));
    assert(Seq::<Seq<char>>::empty().push(e) =~= seq![e]);
    assert(s1 == ScanModel { section: Some(ReplySection::Explanation), explanation: seq![e], command: Seq::empty() });
    let s2 = scan(parts.take(2));
    assert(Seq::<Seq<char>>::empty().push(c) =~= seq![c]);
    assert(s2 == ScanModel { section: Some(ReplySection::Command), explanation: seq![e], command: seq![c] });
    assert(join(seq![e], newline()) == e);
    assert(join(seq![c], newline()) == c);
    lemma_trimmed_is_fixed(e);
    lemma_trimmed_is_fixed(c);
    lemma_split_no_newline(c);
    assert(split_on(c, newline()).take(0) =~= Seq::<Seq<char>>::empty());
    assert(lines(c) =~= seq![c]);
    assert(seq![c].drop_first() =~= Seq::<Seq<char>>::empty());
    assert(c != fence()) by {
        if c == fence() {
            assert(c.subrange(0, fence().len() as int) =~= c);
        }
    }
    assert(clean_markdown(c) == c);
}

/// Non-blank lines that are no headers go to the open explanation.
proof fn lemma_scan_explanation_lines(prefix: Seq<Seq<char>>, more: Seq<Seq<char>>, e: Seq<Seq<char>>)
    requires
        scan(prefix) == (ScanModel { section: Some(ReplySection::Explanation), explanation: e, command: Seq::empty() }),
        forall|i: int| 0 <= i < more.len() ==> no_header(trim(#[trigger] more[i])),
        forall|i: int| 0 <= i < more.len() ==> !is_blank(#[trigger] more[i]),
    ensures
        scan(prefix + more) == (ScanModel {
            section: Some(ReplySection::Explanation),
            explanation: e + more,
            command: Seq::empty(),
        }),
    decreases more.len(),
{
    if more.len() == 0 {
        assert(prefix + more =~= prefix);
        assert(e + more =~= e);
    } else {
        let m = more.drop_last();
        let last = more[more.len() - 1];
        assert forall|i: int| 0 <= i < m.len() implies no_header(trim(#[trigger] m[i])) by {
            assert(m[i] == more[i]);
        }
        assert forall|i: int| 0 <= i < m.len() implies !is_blank(#[trigger] m[i]) by {
            assert(m[i] == more[i]);
        }
        lemma_scan_explanation_lines(prefix, m, e);
        assert((prefix + more).drop_last() =~= prefix + m);
        assert((prefix + more).last() == last);
        assert(no_header(trim(last)));
        assert(!is_blank(last));
        assert(scan(prefix + more) == scan_line(scan(prefix + m), last));
        assert((e + m).push(last) =~= e + more);
    }
}

/// A single plain command line is the command read.
proof fn lemma_plain_command_clean(c: Seq<char>)
    requires
        c.len() > 0,
        is_single_trimmed_line(c),
        !starts_with(c, fence()),
    ensures
        clean_markdown(trim(join(seq![c], newline()))) == c,
{
    reveal_strlit("```");
    assert(join(seq![c], newline()) == c);
    lemma_trimmed_is_fixed(c);
    lemma_split_no_newline(c);
    assert(split_on(c, newline()).take(0) =~= Seq::<Seq<char>>::empty());
    assert(lines(c) =~= seq![c]);
    assert(seq![c].drop_first() =~= Seq::<Seq<char>>::empty());
    assert(c != fence()) by {
        if c == fence() {
            assert(c.subrange(0, fence().len() as int) =~= c);
        }
    }
}

/// An explanation of several lines (each a non-blank line without
/// surrounding whitespace that the upper-case mapping makes no header) is
/// read back as those lines joined by line endings.
pub proof fn law_multiline_explanation_round_trip(explanation_lines: Seq<Seq<char>>, command: Seq<char>)
    requires
        explanation_lines.len() >= 1,
        forall|i: int| 0 <= i < explanation_lines.len() ==> {
            &&& (#[trigger] explanation_lines[i]).len() > 0
            &&& is_single_trimmed_line(explanation_lines[i])
            &&& no_header(explanation_lines[i])
        },
        command.len() > 0,
        is_single_trimmed_line(command),
        !starts_with(command, fence()),
        headers_recognized(),
        no_header(command),
    ensures
        parsed_reply(
            join(seq![explanation_header()] + explanation_lines + seq![command_header(), command], newline())
                + newline(),
        ) == (Reply {
            explanation: join(explanation_lines, newline()),
            command,
            explanation_only: is_placeholder_command(command),
        }),
{
    reveal_strlit("EXPLANATION:");
    reveal_strlit("COMMAND:");
    reveal_strlit("explanation:");
    reveal_strlit("command:");
    let el = explanation_lines;
    let c = command;
    let he = explanation_header();
    let hc = command_header();
    let parts = seq![he] + el + seq![hc, c];
    lemma_literal_lines();
    assert forall|i: int| 0 <= i < parts.len() implies !has_char(#[trigger] parts[i], '\n') by {
        if 1 <= i < 1 + el.len() {
            assert(parts[i] == el[i - 1]);
        }
    }
    lemma_lines_of_joined(parts);
    assert(parts.map_values(|l: Seq<char>| strip_cr(l)) =~= parts) by {
        assert forall|i: int| 0 <= i < parts.len() implies strip_cr(#[trigger] parts[i]) == parts[i] by {
            if 1 <= i < 1 + el.len() {
                assert(parts[i] == el[i - 1]);
                lemma_trimmed_no_cr(el[i - 1]);
            } else if i == 0 {
                lemma_trimmed_no_cr(he);
            } else if i == 1 + el.len() {
                lemma_trimmed_no_cr(hc);
            } else {
                lemma_trimmed_no_cr(c);
            }
        }
    }
    // The explanation header opens the section.
    lemma_trimmed_is_fixed(he);
    lemma_trimmed_is_fixed(hc);
    lemma_strip_self(he, "explanation:"@);
    lemma_strip_self(hc, "command:"@);
    let p1 = seq![he];
    assert(p1.drop_last() =~= Seq::<Seq<char>>::empty());
    assert(scan(p1.drop_last()) == scan_start());
    assert(!starts_with(uppercase(he), hc)) by {
        assert(uppercase(he).subrange(0, he.len() as int)[0] == he[0]);
    }
    assert(scan(p1) == ScanModel { section: Some(ReplySection::Explanation), explanation: Seq::empty(), command: Seq::empty() });
    // The explanation lines.
    assert forall|i: int| 0 <= i < el.len() implies no_header(trim(#[trigger] el[i])) by {
        lemma_trimmed_is_fixed(el[i]);
    }
    assert forall|i: int| 0 <= i < el.len() implies !is_blank(#[trigger] el[i]) by {
        lemma_trimmed_is_fixed(el[i]);
    }
    lemma_scan_explanation_lines(p1, el, Seq::empty());
    assert(Seq::<Seq<char>>::empty() + el =~= el);
    // The command header.
    let p2 = p1 + el;
    let p3 = p2.push(hc);
    assert(p3.drop_last() =~= p2);
    assert(!starts_with(uppercase(hc), he)) by {
        assert(uppercase(hc).subrange(0, hc.len() as int)[0] == hc[0]);
    }
    assert(scan(p3) == ScanModel { section: Some(ReplySection::Command), explanation: el, command: Seq::empty() });
    // The command.
    lemma_trimmed_is_fixed(c);
    assert forall|i: int| 0 <= i < seq![c].len() implies #[trigger] no_header(trim(seq![c][i])) by {}
    lemma_scan_command_lines(p3, seq![c], el);
    assert(p3 + seq![c] =~= parts);
    // The collected sections.
    let j = join(el, newline());
    lemma_join_starts_with(el, newline());
    lemma_join_ends_with(el, newline());
    assert(j[0] == el[0][0]) by {
        assert(j.subrange(0, el[0].len() as int)[0] == j[0]);
    }
    assert(j.last() == el.last().last()) by {
        assert(j.subrange(j.len() - el.last().len(), j.len() as int)[el.last().len() - 1] == j.last());
    }
    assert(is_trimmed(el[0]) && el[0].len() > 0);
    assert(is_trimmed(el.last()) && el.last().len() > 0);
    assert(is_trimmed(j));
    lemma_trimmed_is_fixed(j);
    lemma_plain_command_clean(c);
}

/// The explanation of a reply is its collected explanation lines joined by
/// line endings and trimmed, or "Command suggestion" where that is empty.
pub proof fn law_default_explanation(st: ScanModel)
    ensures
        is_blank(join(st.explanation, newline())) ==> reply_of(st).explanation == "Command suggestion"@,
        !is_blank(join(st.explanation, newline())) ==> reply_of(st).explanation == trim(
            join(st.explanation, newline()),
        ),
{
}

} // verus!
