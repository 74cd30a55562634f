use papers_editor::buffer::Span;
use papers_editor::command::Command;
use papers_editor::merge::{classify_merge, extend_citation, is_citation_name, MergeOutcome};

fn command(name: &str, argument: Option<&str>) -> Command {
    Command {
        name: name.to_string(),
        argument_text: argument.map(|a| a.to_string()),
        span: Span { start: 0, end: 0 },
    }
}

#[test]
fn extend_adds_key_behind_comma() {
    assert_eq!(extend_citation("\\cite{a}", "b"), Some("\\cite{a,b}".to_string()));
    assert_eq!(extend_citation("\\cite{a,b}", "c"), Some("\\cite{a,b,c}".to_string()));
}

#[test]
fn extend_keeps_everything_before_the_brace() {
    assert_eq!(extend_citation("x y}", "k"), Some("x y,k}".to_string()));
    assert_eq!(extend_citation("}", "k"), Some(",k}".to_string()));
    assert_eq!(extend_citation("}}", "k"), Some("},k}".to_string()));
}

#[test]
fn extend_with_empty_key() {
    assert_eq!(extend_citation("\\cite{a}", ""), Some("\\cite{a,}".to_string()));
}

#[test]
fn extend_with_long_key() {
    assert_eq!(
        extend_citation("\\cite{a}", "knuth:1984"),
        Some("\\cite{a,knuth:1984}".to_string())
    );
}

#[test]
fn extend_counts_characters_not_bytes() {
    assert_eq!(extend_citation("\\cite{\u{e9}}", "\u{fc}"), Some("\\cite{\u{e9},\u{fc}}".to_string()));
}

#[test]
fn extend_needs_closing_brace_at_the_end() {
    assert_eq!(extend_citation("\\cite", "b"), None);
    assert_eq!(extend_citation("\\cite{a} ", "b"), None);
    assert_eq!(extend_citation("\\cite{a}x", "b"), None);
    assert_eq!(extend_citation("", "b"), None);
}

#[test]
fn citation_name_is_exactly_cite() {
    assert!(is_citation_name("cite"));
    assert!(!is_citation_name("Cite"));
    assert!(!is_citation_name("cit"));
    assert!(!is_citation_name("cites"));
    assert!(!is_citation_name("citep"));
    assert!(!is_citation_name(""));
    assert!(!is_citation_name("bibliography"));
}

#[test]
fn citation_with_argument_merges() {
    assert_eq!(
        classify_merge(&command("cite", Some("a,b")), "c"),
        MergeOutcome::Merged("\\cite{a,b,c}".to_string())
    );
}

#[test]
fn citation_with_empty_argument_merges() {
    assert_eq!(
        classify_merge(&command("cite", Some("")), "k"),
        MergeOutcome::Merged("\\cite{,k}".to_string())
    );
}

#[test]
fn citation_without_argument_does_not_merge() {
    assert_eq!(classify_merge(&command("cite", None), "c"), MergeOutcome::NoMerge);
}

#[test]
fn other_command_does_not_merge() {
    assert_eq!(classify_merge(&command("textbf", Some("x")), "k"), MergeOutcome::NoMerge);
    assert_eq!(classify_merge(&command("bibliography", Some("refs")), "k"), MergeOutcome::NoMerge);
    assert_eq!(classify_merge(&command("citep", Some("a")), "k"), MergeOutcome::NoMerge);
}

#[test]
fn classification_leaves_the_command_as_it_was() {
    let cmd = command("cite", Some("a"));
    let copy = cmd.clone();
    let _ = classify_merge(&cmd, "b");
    assert_eq!(cmd, copy);
}
