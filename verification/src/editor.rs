//! The insertion operations of the editor.
//!
//! Every operation changes the buffer by one [`Edit`], which it returns, then
//! closes the popover it was started from and hands the focus back to the
//! text.

use vstd::prelude::*;
use crate::buffer::{Document, DocumentView, Edit, EditView};
use crate::merge::{citation_name, classify_merge, merged_text, MergeOutcome};
use crate::resolve::{enclosing_command, resolve_enclosing_command, ScanResult};
use crate::text::{append_range, append_str, string_of};

verus! {

/// `\tag{argument}`.
pub open spec fn parameter_text(tag: Seq<char>, argument: Seq<char>) -> Seq<char> {
    seq!['\\'] + tag + seq!['{'] + argument + seq!['}']
}

/// `\tag`.
pub open spec fn bare_command_text(tag: Seq<char>) -> Seq<char> {
    seq!['\\'] + tag
}

/// The three lines `\begin{tag}`, `body` and `\end{tag}`.
pub open spec fn environment_text(tag: Seq<char>, body: Seq<char>) -> Seq<char> {
    parameter_text(seq!['b', 'e', 'g', 'i', 'n'], tag) + seq!['\n'] + body + seq!['\n']
        + parameter_text(seq!['e', 'n', 'd'], tag)
}

/// `\cite{key}`.
pub open spec fn citation_text(key: Seq<char>) -> Seq<char> {
    parameter_text(citation_name(), key)
}

/// The edit of [`wrap_parameter_or_insert_at_cursor`]: the selection becomes
/// the argument of `\tag{..}`; without a selection, `\tag{}` goes to the cursor.
pub open spec fn wrap_parameter_edit(doc: DocumentView, tag: Seq<char>) -> EditView {
    doc.replacing_selection(parameter_text(tag, doc.selected_text()))
}

/// The document after [`wrap_parameter_or_insert_at_cursor`]. The edit is
/// carried out; where nothing was selected, the cursor is then put between
/// the two braces, ready for the argument to be typed.
pub open spec fn wrap_parameter_result(doc: DocumentView, tag: Seq<char>) -> DocumentView {
    let edit = wrap_parameter_edit(doc, tag);
    match doc.selection() {
        Some(_) => doc.apply(edit),
        None => doc.apply(edit).with_cursor(edit.start + tag.len() + 2),
    }
}

/// The edit of [`environment_or_wrap_at_block`]: the selection becomes the
/// body of an environment; without a selection, `\tag` goes to the cursor.
pub open spec fn environment_edit(doc: DocumentView, tag: Seq<char>) -> EditView {
    match doc.selection() {
        Some(_) => doc.replacing_selection(environment_text(tag, doc.selected_text())),
        None => doc.replacing_selection(bare_command_text(tag)),
    }
}

/// The edit of [`enclose_or_insert_at_cursor`]: the selection is put between
/// the two tags; without a selection, the two tags go to the cursor.
pub open spec fn enclose_edit(
    doc: DocumentView,
    start_tag: Seq<char>,
    end_tag: Seq<char>,
) -> EditView {
    doc.replacing_selection(start_tag + doc.selected_text() + end_tag)
}

/// The edit of [`merge_or_insert_citation`]: the command around the cursor is
/// replaced by itself with `key` merged in, if there is such a command and it
/// takes the key; else `\cite{key}` replaces the selection or goes to the
/// cursor.
pub open spec fn citation_edit(doc: DocumentView, key: Seq<char>) -> EditView {
    match enclosing_command(doc.text, doc.cursor) {
        Some(cmd) => match merged_text(cmd, key) {
            Some(text) => EditView { start: cmd.start, end: cmd.end, text },
            None => doc.replacing_selection(citation_text(key)),
        },
        None => doc.replacing_selection(citation_text(key)),
    }
}

/// The state that one editing operation works on: the buffer, whether the
/// text has the input focus, and whether the popover that offers the
/// operation is open.
#[derive(Clone, Debug, PartialEq, Eq)]
pub struct Editor {
    pub buffer: Document,
    pub has_focus: bool,
    pub popover_open: bool,
}

impl Editor {
    /// An editor on `buffer` that has the focus and shows no popover.
    pub fn new(buffer: Document) -> (editor: Editor)
        ensures
            editor.buffer == buffer,
            editor.has_focus,
            !editor.popover_open,
    {
        Editor { buffer, has_focus: true, popover_open: false }
    }
}

/// Carries out `edit`, closes the popover and takes the focus.
fn commit(editor: &mut Editor, edit: Edit) -> (done: Edit)
    requires
        edit.start <= edit.end <= old(editor).buffer@.text.len(),
    ensures
        done == edit,
        final(editor).buffer@ == old(editor).buffer@.apply(edit@),
        final(editor).buffer@.wf(),
        final(editor).has_focus,
        !final(editor).popover_open,
{
    editor.buffer.apply(&edit);
    editor.popover_open = false;
    editor.has_focus = true;
    edit
}

/// Puts `text` in place of the selection, or at the cursor.
fn replace_selection(editor: &mut Editor, text: String) -> (edit: Edit)
    ensures
        edit@ == old(editor).buffer@.replacing_selection(text@),
        final(editor).buffer@ == old(editor).buffer@.apply(edit@),
        final(editor).buffer@.wf(),
        final(editor).has_focus,
        !final(editor).popover_open,
{
    let span = editor.buffer.selection_or_cursor();
    commit(editor, Edit { start: span.start, end: span.end, text })
}

/// Inserts `txt` at the cursor. A selection is neither read nor replaced.
pub fn insert_at_cursor(editor: &mut Editor, txt: &str) -> (edit: Edit)
    ensures
        edit@ == old(editor).buffer@.inserting_at_cursor(txt@),
        final(editor).buffer@ == old(editor).buffer@.apply(edit@),
        final(editor).buffer@.wf(),
        final(editor).has_focus,
        !final(editor).popover_open,
{
    let cursor = editor.buffer.cursor_position();
    commit(editor, Edit { start: cursor, end: cursor, text: String::from_str(txt) })
}

/// Replaces the selection by `txt`, or inserts `txt` at the cursor when
/// nothing is selected.
pub fn edit_or_insert_at_cursor(editor: &mut Editor, txt: &str) -> (edit: Edit)
    ensures
        edit@ == old(editor).buffer@.replacing_selection(txt@),
        final(editor).buffer@ == old(editor).buffer@.apply(edit@),
        final(editor).buffer@.wf(),
        final(editor).has_focus,
        !final(editor).popover_open,
{
    replace_selection(editor, String::from_str(txt))
}

/// Wraps the selection as the argument of the command `tag`, or inserts the
/// command with an empty argument at the cursor when nothing is selected.
///
/// After a wrap the cursor stands behind the closing brace. After an
/// insertion it stands between the two braces.
pub fn wrap_parameter_or_insert_at_cursor(editor: &mut Editor, tag: &str) -> (edit: Edit)
    ensures
        edit@ == wrap_parameter_edit(old(editor).buffer@, tag@),
        final(editor).buffer@ == wrap_parameter_result(old(editor).buffer@, tag@),
        final(editor).buffer@.wf(),
        final(editor).has_focus,
        !final(editor).popover_open,
{
    let span = editor.buffer.selection_or_cursor();
    let mut text: Vec<char> = Vec::new();
    text.push('\\');
    append_str(&mut text, tag);
    text.push('{');
    append_range(&mut text, editor.buffer.chars(), span.start, span.end);
    text.push('}');
    assert(text@ =~= parameter_text(tag@, editor.buffer@.selected_text()));
    let edit = commit(
        editor,
        Edit { start: span.start, end: span.end, text: string_of(text.as_slice()) },
    );
    if span.start == span.end {
        let behind = editor.buffer.cursor_position();
        editor.buffer.place_cursor(behind - 1);
    }
    edit
}

/// Wraps the selection in the environment `tag`, on three lines, or inserts
/// the bare command `tag` at the cursor when nothing is selected.
pub fn environment_or_wrap_at_block(editor: &mut Editor, tag: &str) -> (edit: Edit)
    ensures
        edit@ == environment_edit(old(editor).buffer@, tag@),
        final(editor).buffer@ == old(editor).buffer@.apply(edit@),
        final(editor).buffer@.wf(),
        final(editor).has_focus,
        !final(editor).popover_open,
{
    let mut text: Vec<char> = Vec::new();
    match editor.buffer.selection_bounds() {
        Some((start, end)) => {
            proof {
                reveal_strlit("\\begin{");
                reveal_strlit("}\n");
                reveal_strlit("\n\\end{");
            }
            append_str(&mut text, "\\begin{");
            append_str(&mut text, tag);
            append_str(&mut text, "}\n");
            append_range(&mut text, editor.buffer.chars(), start, end);
            append_str(&mut text, "\n\\end{");
            append_str(&mut text, tag);
            text.push('}');
            assert(text@ =~= environment_text(tag@, editor.buffer@.selected_text()));
        },
        None => {
            text.push('\\');
            append_str(&mut text, tag);
            assert(text@ =~= bare_command_text(tag@));
        },
    }
    replace_selection(editor, string_of(text.as_slice()))
}

/// Puts the selection between `start_tag` and `end_tag`, or inserts the two
/// tags at the cursor when nothing is selected.
pub fn enclose_or_insert_at_cursor(
    editor: &mut Editor,
    start_tag: &str,
    end_tag: &str,
) -> (edit: Edit)
    ensures
        edit@ == enclose_edit(old(editor).buffer@, start_tag@, end_tag@),
        final(editor).buffer@ == old(editor).buffer@.apply(edit@),
        final(editor).buffer@.wf(),
        final(editor).has_focus,
        !final(editor).popover_open,
{
    let span = editor.buffer.selection_or_cursor();
    let mut text: Vec<char> = Vec::new();
    append_str(&mut text, start_tag);
    append_range(&mut text, editor.buffer.chars(), span.start, span.end);
    append_str(&mut text, end_tag);
    assert(text@ =~= start_tag@ + editor.buffer@.selected_text() + end_tag@);
    commit(editor, Edit { start: span.start, end: span.end, text: string_of(text.as_slice()) })
}

/// Adds the reference `new_key` to the text.
///
/// If the cursor stands in or right behind a citation command, the key joins
/// that command's list. Otherwise a new `\cite{new_key}` replaces the
/// selection, or is inserted at the cursor when nothing is selected.
pub fn merge_or_insert_citation(editor: &mut Editor, new_key: &str) -> (edit: Edit)
    ensures
        edit@ == citation_edit(old(editor).buffer@, new_key@),
        final(editor).buffer@ == old(editor).buffer@.apply(edit@),
        final(editor).buffer@.wf(),
        final(editor).has_focus,
        !final(editor).popover_open,
{
    let cursor = editor.buffer.cursor_position();
    if let ScanResult::Found(cmd) = resolve_enclosing_command(&editor.buffer, cursor) {
        if let MergeOutcome::Merged(text) = classify_merge(&cmd, new_key) {
            return commit(editor, Edit { start: cmd.span.start, end: cmd.span.end, text });
        }
    }
    let mut text: Vec<char> = Vec::new();
    proof {
        reveal_strlit("\\cite{");
    }
    append_str(&mut text, "\\cite{");
    append_str(&mut text, new_key);
    text.push('}');
    assert(text@ =~= citation_text(new_key@));
    replace_selection(editor, string_of(text.as_slice()))
}

} // verus!
