use cli_assistant::display::{complete_suggestion_sections, separator, Section, SectionColor};

#[test]
fn separator_is_sixty_wide() {
    let s = separator();
    assert_eq!(s, "\u{2500}".repeat(60));
}

#[test]
fn sections_for_a_fix() {
    let sections = complete_suggestion_sections(Some("ls /bad"), "The path is invalid", Some("ls /tmp"));
    let titles: Vec<&str> = sections.iter().map(|s| s.title.as_str()).collect();
    assert_eq!(titles, vec!["\u{274C} Original Command", "\u{2139}\u{FE0F}  Analysis", "\u{2713} Suggested Fix"]);
    assert_eq!(sections[0].color, SectionColor::Red);
    assert_eq!(sections[2].content, "ls /tmp");
}

#[test]
fn sections_for_an_explanation() {
    let sections = complete_suggestion_sections(Some("ls"), "Lists files", None);
    assert_eq!(sections.len(), 2);
    assert_eq!(sections[0].title, "\u{1F4DD} Command");
    assert_eq!(sections[0].color, SectionColor::Cyan);
    assert_eq!(sections[1].content, "Lists files");
    let only = complete_suggestion_sections(None, "Explanation only", None);
    assert_eq!(only.len(), 1);
    assert_eq!(only[0].color, SectionColor::Blue);
    assert_eq!(Section::suggestion("x").color, SectionColor::Green);
}
