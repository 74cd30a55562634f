use papers_editor::buffer::Span;
use papers_editor::command::{parse_command, Command};
use papers_editor::text::chars_of;

fn parse(text: &str) -> Option<Command> {
    parse_command(&chars_of(text))
}

fn command(name: &str, argument: Option<&str>, end: usize) -> Command {
    Command {
        name: name.to_string(),
        argument_text: argument.map(|a| a.to_string()),
        span: Span { start: 0, end },
    }
}

#[test]
fn parses_command_with_argument() {
    assert_eq!(parse("\\cite{a,b}"), Some(command("cite", Some("a,b"), 10)));
}

#[test]
fn parses_command_without_argument() {
    assert_eq!(parse("\\cite"), Some(command("cite", None, 5)));
}

#[test]
fn parses_empty_argument() {
    assert_eq!(parse("\\textit{}"), Some(command("textit", Some(""), 9)));
}

#[test]
fn parses_single_letter_name() {
    assert_eq!(parse("\\a"), Some(command("a", None, 2)));
}

#[test]
fn parses_upper_case_name() {
    assert_eq!(parse("\\LaTeX"), Some(command("LaTeX", None, 6)));
}

#[test]
fn stops_behind_closing_brace() {
    assert_eq!(parse("\\cite{a}xyz"), Some(command("cite", Some("a"), 8)));
    assert_eq!(parse("\\cite{a}{b}"), Some(command("cite", Some("a"), 8)));
    assert_eq!(parse("\\cite{a}}"), Some(command("cite", Some("a"), 8)));
}

#[test]
fn stops_behind_name() {
    assert_eq!(parse("\\cite xyz"), Some(command("cite", None, 5)));
    assert_eq!(parse("\\cite2"), Some(command("cite", None, 5)));
    assert_eq!(parse("\\section*{x}"), Some(command("section", None, 8)));
    assert_eq!(parse("\\cite}"), Some(command("cite", None, 5)));
    assert_eq!(parse("\\a\\b"), Some(command("a", None, 2)));
}

#[test]
fn argument_may_hold_blanks_backslashes_and_opening_braces() {
    assert_eq!(parse("\\textbf{a b\tc}"), Some(command("textbf", Some("a b\tc"), 14)));
    assert_eq!(
        parse("\\textbf{\\textit{x}}"),
        Some(command("textbf", Some("\\textit{x"), 18))
    );
}

#[test]
fn argument_may_hold_other_scripts() {
    assert_eq!(parse("\\cite{\u{e9}t\u{e9}}"), Some(command("cite", Some("\u{e9}t\u{e9}"), 10)));
}

#[test]
fn rejects_empty_text() {
    assert_eq!(parse(""), None);
}

#[test]
fn rejects_text_without_leading_backslash() {
    assert_eq!(parse("cite{a}"), None);
    assert_eq!(parse(" \\cite{a}"), None);
    assert_eq!(parse("{a}"), None);
}

#[test]
fn rejects_missing_name() {
    assert_eq!(parse("\\"), None);
    assert_eq!(parse("\\{a}"), None);
    assert_eq!(parse("\\\\"), None);
    assert_eq!(parse("\\ cite"), None);
    assert_eq!(parse("\\1"), None);
}

#[test]
fn rejects_name_in_another_script() {
    assert_eq!(parse("\\\u{e9}t\u{e9}{a}"), None);
}

#[test]
fn rejects_unclosed_argument() {
    assert_eq!(parse("\\cite{a"), None);
    assert_eq!(parse("\\cite{"), None);
}

#[test]
fn rejects_argument_broken_over_lines() {
    assert_eq!(parse("\\cite{a\n}"), None);
    assert_eq!(parse("\\cite{\nb}"), None);
}

#[test]
fn raw_text_restores_the_source() {
    for source in ["\\cite{a,b}", "\\cite", "\\textit{}", "\\textbf{a b}"] {
        let cmd = parse(source).unwrap();
        assert_eq!(cmd.raw_text(), source);
        assert_eq!(cmd.span, Span { start: 0, end: source.chars().count() });
    }
}

#[test]
fn raw_text_of_a_built_command() {
    let cmd = Command {
        name: "section".to_string(),
        argument_text: Some("One".to_string()),
        span: Span { start: 3, end: 16 },
    };
    assert_eq!(cmd.raw_text(), "\\section{One}");
    let bare = Command { name: "hfill".to_string(), argument_text: None, span: Span { start: 0, end: 6 } };
    assert_eq!(bare.raw_text(), "\\hfill");
}
