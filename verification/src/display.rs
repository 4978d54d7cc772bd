//! What the terminal shows: titled sections of text.
use vstd::prelude::*;
use crate::text::chars_of;

verus! {

/// The color of a section.
#[derive(Debug, Clone, Copy, PartialEq, Eq, Structural)]
pub enum SectionColor {
    Red,
    Blue,
    Green,
    Cyan,
}

/// A titled section of text, shown between separator lines.
#[derive(Debug, Clone)]
pub struct Section {
    pub title: String,
    pub content: String,
    pub color: SectionColor,
}

/// A section as text.
pub struct SectionView {
    pub title: Seq<char>,
    pub content: Seq<char>,
    pub color: SectionColor,
}

impl View for Section {
    type V = SectionView;

    open spec fn view(&self) -> SectionView {
        SectionView { title: self.title@, content: self.content@, color: self.color }
    }
}

/// How many characters a separator line has.
pub const SEPARATOR_WIDTH: usize = 60;

/// The separator line: a row of box-drawing horizontals.
pub open spec fn separator_line() -> Seq<char> {
    Seq::new(SEPARATOR_WIDTH as nat, |i: int| '\u{2500}')
}

/// The separator line shown above and below a section's title.
pub fn separator() -> (r: String)
    ensures
        r@ == separator_line(),
{
    let mut v: Vec<char> = Vec::new();
    for i in 0..SEPARATOR_WIDTH
        invariant
            v@ == Seq::new(i as nat, |j: int| '\u{2500}'),
    {
        v.push('\u{2500}');
        assert(v@ =~= Seq::new((i + 1) as nat, |j: int| '\u{2500}'));
    }
    crate::text::string_of(v.as_slice())
}

/// The section of the command that failed.
pub open spec fn original_command_section(command: Seq<char>) -> SectionView {
    SectionView { title: "\u{274C} Original Command"@, content: command, color: SectionColor::Red }
}

/// The section of a command that is explained.
pub open spec fn command_section(command: Seq<char>) -> SectionView {
    SectionView { title: "\u{1F4DD} Command"@, content: command, color: SectionColor::Cyan }
}

/// The section of the explanation.
pub open spec fn explanation_section(explanation: Seq<char>) -> SectionView {
    SectionView { title: "\u{2139}\u{FE0F}  Analysis"@, content: explanation, color: SectionColor::Blue }
}

/// The section of the suggested command.
pub open spec fn suggestion_section(command: Seq<char>) -> SectionView {
    SectionView { title: "\u{2713} Suggested Fix"@, content: command, color: SectionColor::Green }
}

/// A section with the given title literal.
fn section(title: &str, content: &str, color: SectionColor) -> (r: Section)
    ensures
        r@ == (SectionView { title: title@, content: content@, color }),
{
    let t = crate::text::string_of(chars_of(title).as_slice());
    let c = crate::text::string_of(chars_of(content).as_slice());
    Section { title: t, content: c, color }
}

impl Section {
    /// The section of the command that failed.
    pub fn original_command(command: &str) -> (r: Section)
        ensures
            r@ == original_command_section(command@),
    {
        section("\u{274C} Original Command", command, SectionColor::Red)
    }

    /// The section of a command that is explained.
    pub fn command(command: &str) -> (r: Section)
        ensures
            r@ == command_section(command@),
    {
        section("\u{1F4DD} Command", command, SectionColor::Cyan)
    }

    /// The section of the explanation.
    pub fn explanation(explanation: &str) -> (r: Section)
        ensures
            r@ == explanation_section(explanation@),
    {
        section("\u{2139}\u{FE0F}  Analysis", explanation, SectionColor::Blue)
    }

    /// The section of the suggested command.
    pub fn suggestion(command: &str) -> (r: Section)
        ensures
            r@ == suggestion_section(command@),
    {
        section("\u{2713} Suggested Fix", command, SectionColor::Green)
    }
}

/// The sections of a suggestion, in order: the command (as the failed
/// original where a fix is suggested, else as the command explained), the
/// explanation, then the suggested command.
pub open spec fn suggestion_sections(
    original: Option<Seq<char>>,
    explanation: Seq<char>,
    suggested: Option<Seq<char>>,
) -> Seq<SectionView> {
    (match original {
        Some(o) => seq![
            if suggested is Some {
                original_command_section(o)
            } else {
                command_section(o)
            },
        ],
        None => Seq::empty(),
    }) + seq![explanation_section(explanation)] + (match suggested {
        Some(c) => seq![suggestion_section(c)],
        None => Seq::empty(),
    })
}

/// The views of a sequence of sections.
pub open spec fn section_views(s: Seq<Section>) -> Seq<SectionView> {
    s.map_values(|x: Section| x@)
}

/// The sections of a complete suggestion.
pub fn complete_suggestion_sections(
    original_command: Option<&str>,
    explanation: &str,
    suggested_command: Option<&str>,
) -> (r: Vec<Section>)
    ensures
        section_views(r@) == suggestion_sections(
            match original_command {
                Some(o) => Some(o@),
                None => None,
            },
            explanation@,
            match suggested_command {
                Some(c) => Some(c@),
                None => None,
            },
        ),
{
    let mut r: Vec<Section> = Vec::new();
    if let Some(cmd) = original_command {
        if suggested_command.is_some() {
            r.push(Section::original_command(cmd));
        } else {
            r.push(Section::command(cmd));
        }
    }
    r.push(Section::explanation(explanation));
    if let Some(cmd) = suggested_command {
        r.push(Section::suggestion(cmd));
    }
    let ghost o = match original_command {
        Some(o) => Some(o@),
        None => None::<Seq<char>>,
    };
    let ghost s = match suggested_command {
        Some(c) => Some(c@),
        None => None::<Seq<char>>,
    };
    assert(section_views(r@) =~= suggestion_sections(o, explanation@, s));
    r
}

/// The sections of a suggestion show the given texts where they belong: the
/// command first (as the failed original when a fix is suggested, else as
/// the command explained), then the explanation, then the suggested
/// command, each with its own title.
pub proof fn law_suggestion_sections_show_their_texts(
    original: Option<Seq<char>>,
    explanation: Seq<char>,
    suggested: Option<Seq<char>>,
)
    ensures
        ({
            let s = suggestion_sections(original, explanation, suggested);
            let k: int = if original is Some { 1 } else { 0 };
            &&& s.len() == k + 1 + (if suggested is Some { 1int } else { 0int })
            &&& (original matches Some(o) ==> s[0].content == o && (if suggested is Some {
                s[0].title == "\u{274C} Original Command"@ && s[0].color == SectionColor::Red
            } else {
                s[0].title == "\u{1F4DD} Command"@ && s[0].color == SectionColor::Cyan
            }))
            &&& s[k].content == explanation
            &&& s[k].title == "\u{2139}\u{FE0F}  Analysis"@
            &&& (suggested matches Some(c) ==> s[k + 1].content == c && s[k + 1].title
                == "\u{2713} Suggested Fix"@ && s[k + 1].color == SectionColor::Green)
        }),
{
}

/// The separator is sixty box-drawing horizontals.
pub proof fn law_separator_shape()
    ensures
        separator_line().len() == 60,
        forall|i: int| 0 <= i < 60 ==> #[trigger] separator_line()[i] == '\u{2500}',
{
}

} // verus!
