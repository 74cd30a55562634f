use papers_editor::buffer::{Document, Edit};
use papers_editor::editor::{merge_or_insert_citation, Editor};

fn editor_at(text: &str, cursor: usize) -> Editor {
    let mut buffer = Document::new(text);
    buffer.place_cursor(cursor);
    Editor { buffer, has_focus: false, popover_open: true }
}

fn edit(start: usize, end: usize, text: &str) -> Edit {
    Edit { start, end, text: text.to_string() }
}

#[test]
fn merge_behind_closing_brace_adds_key() {
    let mut editor = editor_at("\\cite{a,b}", 10);
    let before = editor.buffer.len();
    let done = merge_or_insert_citation(&mut editor, "c");
    assert_eq!(editor.buffer.contents(), "\\cite{a,b,c}");
    assert_eq!(editor.buffer.len(), before + ",c".len());
    assert_eq!(done, edit(0, 10, "\\cite{a,b,c}"));
    assert_eq!(editor.buffer.cursor_position(), 12);
    assert_eq!(editor.buffer.selection_bounds(), None);
    assert!(editor.has_focus);
    assert!(!editor.popover_open);
}

#[test]
fn merge_inside_argument_joins_both_scans() {
    let mut editor = editor_at("\\cite{a}", 7);
    let done = merge_or_insert_citation(&mut editor, "c");
    assert_eq!(editor.buffer.contents(), "\\cite{a,c}");
    assert_eq!(done, edit(0, 8, "\\cite{a,c}"));
    assert_eq!(editor.buffer.cursor_position(), 10);
    assert!(editor.has_focus);
    assert!(!editor.popover_open);
}

#[test]
fn merge_from_every_place_inside_the_argument() {
    for cursor in 6..=10 {
        let mut editor = editor_at("\\cite{a,b}", cursor);
        merge_or_insert_citation(&mut editor, "c");
        assert_eq!(editor.buffer.contents(), "\\cite{a,b,c}", "cursor at {}", cursor);
    }
}

#[test]
fn merge_keeps_the_text_around_the_command() {
    let mut editor = editor_at("see \\cite{a} and \\cite{b}.", 12);
    let done = merge_or_insert_citation(&mut editor, "knuth84");
    assert_eq!(done, edit(4, 12, "\\cite{a,knuth84}"));
    assert_eq!(editor.buffer.contents(), "see \\cite{a,knuth84} and \\cite{b}.");
    assert_eq!(editor.buffer.len(), 26 + 1 + 7);
}

#[test]
fn merge_on_a_later_line() {
    let mut editor = editor_at("one\n\\cite{a}\nthree", 11);
    merge_or_insert_citation(&mut editor, "b");
    assert_eq!(editor.buffer.contents(), "one\n\\cite{a,b}\nthree");
}

#[test]
fn other_command_is_left_alone() {
    let mut editor = editor_at("\\textbf{x}", 9);
    let done = merge_or_insert_citation(&mut editor, "k");
    assert_eq!(done, edit(9, 9, "\\cite{k}"));
    assert_eq!(editor.buffer.contents(), "\\textbf{x\\cite{k}}");
    assert_eq!(editor.buffer.text(0, 9), "\\textbf{x");
    assert_eq!(editor.buffer.text(17, 18), "}");
    assert!(editor.has_focus);
    assert!(!editor.popover_open);
}

#[test]
fn other_command_behind_its_brace_is_left_alone() {
    let mut editor = editor_at("\\textbf{x}", 10);
    let done = merge_or_insert_citation(&mut editor, "k");
    assert_eq!(done, edit(10, 10, "\\cite{k}"));
    assert_eq!(editor.buffer.contents(), "\\textbf{x}\\cite{k}");
}

#[test]
fn citation_without_argument_gets_a_new_command() {
    let mut editor = editor_at("\\cite", 5);
    merge_or_insert_citation(&mut editor, "k");
    assert_eq!(editor.buffer.contents(), "\\cite\\cite{k}");
}

#[test]
fn cursor_behind_the_name_does_not_look_forward() {
    let mut editor = editor_at("\\cite{a}", 5);
    let done = merge_or_insert_citation(&mut editor, "k");
    assert_eq!(done, edit(5, 5, "\\cite{k}"));
    assert_eq!(editor.buffer.contents(), "\\cite\\cite{k}{a}");
}

#[test]
fn text_between_citation_and_cursor_gets_a_new_command() {
    let mut editor = editor_at("\\cite{a,b}xyz", 13);
    let done = merge_or_insert_citation(&mut editor, "c");
    assert_eq!(done, edit(13, 13, "\\cite{c}"));
    assert_eq!(editor.buffer.contents(), "\\cite{a,b}xyz\\cite{c}");
}

#[test]
fn plain_text_gets_a_new_command_at_the_cursor() {
    let mut editor = editor_at("as shown in ", 12);
    let done = merge_or_insert_citation(&mut editor, "knuth84");
    assert_eq!(done, edit(12, 12, "\\cite{knuth84}"));
    assert_eq!(editor.buffer.contents(), "as shown in \\cite{knuth84}");
    assert_eq!(editor.buffer.cursor_position(), 26);
}

#[test]
fn empty_buffer_gets_a_new_command() {
    let mut editor = editor_at("", 0);
    let done = merge_or_insert_citation(&mut editor, "k");
    assert_eq!(done, edit(0, 0, "\\cite{k}"));
    assert_eq!(editor.buffer.contents(), "\\cite{k}");
}

#[test]
fn blank_between_citation_and_cursor_gets_a_new_command() {
    let mut editor = editor_at("\\cite{a} ", 9);
    merge_or_insert_citation(&mut editor, "b");
    assert_eq!(editor.buffer.contents(), "\\cite{a} \\cite{b}");
}

#[test]
fn fallback_replaces_the_selection() {
    let mut buffer = Document::new("see here for more");
    buffer.select_range(8, 4);
    let mut editor = Editor { buffer, has_focus: true, popover_open: true };
    let done = merge_or_insert_citation(&mut editor, "k");
    assert_eq!(done, edit(4, 8, "\\cite{k}"));
    assert_eq!(editor.buffer.contents(), "see \\cite{k} for more");
    assert_eq!(editor.buffer.cursor_position(), 12);
    assert_eq!(editor.buffer.selection_bounds(), None);
}

#[test]
fn merge_goes_by_the_cursor_when_text_is_selected() {
    let mut buffer = Document::new("\\cite{a} tail");
    buffer.select_range(8, 13);
    let mut editor = Editor { buffer, has_focus: true, popover_open: true };
    let done = merge_or_insert_citation(&mut editor, "b");
    assert_eq!(done, edit(0, 8, "\\cite{a,b}"));
    assert_eq!(editor.buffer.contents(), "\\cite{a,b} tail");
    assert_eq!(editor.buffer.selection_bounds(), Some((10, 15)));
}

#[test]
fn two_merges_in_a_row() {
    let mut editor = editor_at("\\cite{a}", 8);
    merge_or_insert_citation(&mut editor, "b");
    merge_or_insert_citation(&mut editor, "c");
    assert_eq!(editor.buffer.contents(), "\\cite{a,b,c}");
    assert_eq!(editor.buffer.cursor_position(), 12);
}

#[test]
fn merge_after_fallback_extends_the_new_command() {
    let mut editor = editor_at("text ", 5);
    merge_or_insert_citation(&mut editor, "a");
    merge_or_insert_citation(&mut editor, "b");
    assert_eq!(editor.buffer.contents(), "text \\cite{a,b}");
}

#[test]
fn returned_citation_edit_replays_on_a_copy() {
    for (text, cursor) in [("\\cite{a}", 7), ("\\textbf{x}", 4), ("a  b", 2), ("", 0)] {
        let mut editor = editor_at(text, cursor);
        let mut mirror = editor.buffer.clone();
        let done = merge_or_insert_citation(&mut editor, "k");
        mirror.apply(&done);
        assert_eq!(mirror, editor.buffer);
    }
}
