//! What holds of the scans, the resolver and the operations on every input.

use vstd::prelude::*;
use crate::buffer::{DocumentView, EditView};
use crate::chars::{is_argument_char, is_blank, is_letter};
use crate::command::{
    is_leading_command,
    lemma_leading_command_iff,
    lemma_open_argument_is_no_command,
    CommandView,
};
use crate::editor::{
    citation_edit,
    citation_text,
    environment_edit,
    environment_text,
    bare_command_text,
    parameter_text,
    wrap_parameter_result,
};
use crate::merge::{citation_name, is_mergeable, lemma_merged_text};
use crate::resolve::{enclosing_command, lemma_enclosing_command_in_text};
use crate::scan::{
    backward_start,
    forward_end,
    is_command_end,
    is_command_start,
    lemma_backward_start_iff,
    lemma_forward_end_iff,
};

verus! {

/// An edit within the text keeps what stands before and behind its range and
/// puts its text between them; the marks stay within the text.
pub proof fn lemma_apply_keeps_surroundings(doc: DocumentView, start: int, end: int, s: Seq<char>)
    requires
        doc.wf(),
        0 <= start <= end <= doc.text.len(),
    ensures
        ({
            let after = doc.apply(EditView { start, end, text: s });
            &&& after.wf()
            &&& after.text == doc.text.subrange(0, start) + s + doc.text.subrange(
                end,
                doc.text.len() as int,
            )
            &&& after.text.len() == doc.text.len() - (end - start) + s.len()
        }),
{
    let after = doc.apply(EditView { start, end, text: s });
    let cut = doc.delete(start, end);
    assert(cut.text.subrange(0, start) =~= doc.text.subrange(0, start));
    assert(cut.text.subrange(start, cut.text.len() as int) =~= doc.text.subrange(
        end,
        doc.text.len() as int,
    ));
}

/// Text inserted at the cursor stands between what was before the cursor and
/// what was behind it, and the cursor ends up behind the new text. A
/// selection is neither removed nor read.
pub proof fn lemma_inserting_at_cursor(doc: DocumentView, s: Seq<char>)
    requires
        doc.wf(),
    ensures
        ({
            let after = doc.apply(doc.inserting_at_cursor(s));
            &&& after.wf()
            &&& after == doc.insert(doc.cursor, s)
            &&& after.text == doc.text.subrange(0, doc.cursor) + s + doc.text.subrange(
                doc.cursor,
                doc.text.len() as int,
            )
            &&& after.cursor == doc.cursor + s.len()
            &&& after.selection() is Some <==> doc.selection() is Some
        }),
{
    lemma_apply_keeps_surroundings(doc, doc.cursor, doc.cursor, s);
    assert(doc.delete(doc.cursor, doc.cursor).text =~= doc.text);
}

/// Where the selection is replaced, or text is inserted at the cursor with
/// nothing selected, the text before and behind stays as it was, the cursor
/// ends up behind the new text, and nothing is selected any more.
pub proof fn lemma_replacing_selection(doc: DocumentView, s: Seq<char>)
    requires
        doc.wf(),
    ensures
        ({
            let edit = doc.replacing_selection(s);
            let after = doc.apply(edit);
            &&& 0 <= edit.start <= edit.end <= doc.text.len()
            &&& after.wf()
            &&& after.text == doc.text.subrange(0, edit.start) + s + doc.text.subrange(
                edit.end,
                doc.text.len() as int,
            )
            &&& after.cursor == edit.start + s.len()
            &&& after.selection() is None
        }),
{
    let edit = doc.replacing_selection(s);
    lemma_apply_keeps_surroundings(doc, edit.start, edit.end, s);
}

/// Where the cursor stands between two spaces, no command is found, whatever
/// the rest of the text holds.
pub proof fn lemma_no_command_between_spaces(text: Seq<char>, cursor: int)
    requires
        0 < cursor < text.len(),
        text[cursor - 1] == ' ',
        text[cursor] == ' ',
    ensures
        backward_start(text, cursor) is None,
        enclosing_command(text, cursor) is None,
{
    if let Some(start) = backward_start(text, cursor) {
        lemma_backward_start_iff(text, cursor, start);
    }
}

/// Neither scan leaves the text. The backward scan finds nothing at offset 0
/// and the forward scan finds nothing at the end of the text; every other
/// result lies strictly on its side of the cursor, and a found command lies
/// around the cursor.
pub proof fn lemma_scans_stay_in_text(text: Seq<char>, cursor: int)
    requires
        0 <= cursor <= text.len(),
    ensures
        cursor == 0 ==> backward_start(text, cursor) is None,
        cursor == text.len() ==> forward_end(text, cursor) is None,
        backward_start(text, cursor) matches Some(start) ==> 0 <= start < cursor,
        forward_end(text, cursor) matches Some(end) ==> cursor < end <= text.len(),
        enclosing_command(text, cursor) matches Some(cmd) ==> 0 <= cmd.start < cursor <= cmd.end
            <= text.len(),
{
    if let Some(start) = backward_start(text, cursor) {
        lemma_backward_start_iff(text, cursor, start);
    }
    if let Some(end) = forward_end(text, cursor) {
        lemma_forward_end_iff(text, cursor, end);
    }
    lemma_enclosing_command_in_text(text, cursor);
}

/// A command with an argument is found from every cursor inside its argument
/// and from the place right behind its closing brace, if its argument holds
/// no backslash and no blank stands left of the cursor.
pub proof fn lemma_command_around_cursor_is_found(text: Seq<char>, cursor: int, cmd: CommandView)
    requires
        cmd.well_formed(),
        cmd.fills_span(),
        cmd.argument is Some,
        forall|i: int| 0 <= i < cmd.argument->0.len() ==> #[trigger] cmd.argument->0[i] != '\\',
        cmd.end <= text.len(),
        text.subrange(cmd.start, cmd.end) == cmd.raw_text(),
        cmd.start + cmd.name.len() + 2 <= cursor <= cmd.end,
        !is_blank(text[cursor - 1]),
    ensures
        enclosing_command(text, cursor) == Some(cmd),
{
    let raw = cmd.raw_text();
    let n = cmd.name.len() as int;
    let argument = cmd.argument->0;
    let start = cmd.start;
    let end = cmd.end;
    let local = cmd.shifted(-start);
    // The characters of the command, one by one.
    assert forall|i: int| 0 <= i < end - start implies text[start + i] == #[trigger] raw[i] by {
        assert(text.subrange(start, end)[i] == raw[i]);
    }
    assert(text[start] == raw[0]);
    assert forall|k: int| start < k < end - 1 implies text[k] != '\\' && text[k] != '\n' by {
        assert(text[start + (k - start)] == raw[k - start]);
        if k - start <= n {
            assert(is_letter(cmd.name[k - start - 1]));
        } else if k - start > n + 1 {
            assert(is_argument_char(argument[k - start - n - 2]));
        }
    }
    assert(text[start + (end - start - 1)] == raw[end - start - 1]);
    assert(is_command_start(text, cursor, start));
    lemma_backward_start_iff(text, cursor, start);
    // The whole command is the one command of its span.
    let whole = text.subrange(start, end);
    assert(whole.subrange(0, local.end) =~= whole);
    assert(is_leading_command(whole, local));
    lemma_leading_command_iff(whole, local);
    assert(local.shifted(start) == cmd);
    if cursor < end {
        let part = text.subrange(start, cursor);
        assert forall|i: int| 1 <= i <= n implies is_letter(#[trigger] part[i]) by {
            assert(part[i] == raw[i]);
            assert(is_letter(cmd.name[i - 1]));
        }
        assert(part[n + 1] == raw[n + 1]);
        assert forall|i: int| n + 2 <= i < part.len() implies is_argument_char(
            #[trigger] part[i],
        ) by {
            assert(part[i] == raw[i]);
            assert(is_argument_char(argument[i - n - 2]));
        }
        lemma_open_argument_is_no_command(part, n, part.len() as int);
        assert forall|k: int| cursor <= k < end - 1 implies text[k] != '}' && text[k] != '\n' by {
            assert(text[start + (k - start)] == raw[k - start]);
            assert(is_argument_char(argument[k - start - n - 2]));
        }
        assert(is_command_end(text, cursor, end));
        lemma_forward_end_iff(text, cursor, end);
    }
}

/// A merge changes the citation around the cursor and nothing else: the new
/// key follows the old ones behind a comma, and the text grows by the key
/// and the comma.
pub proof fn lemma_merge_adds_key(doc: DocumentView, key: Seq<char>)
    requires
        doc.wf(),
        enclosing_command(doc.text, doc.cursor) matches Some(cmd) && is_mergeable(cmd),
    ensures
        ({
            let cmd = enclosing_command(doc.text, doc.cursor)->0;
            let longer = CommandView { argument: Some(cmd.argument->0 + seq![','] + key), ..cmd };
            let after = doc.apply(citation_edit(doc, key));
            &&& cmd.argument is Some
            &&& after.wf()
            &&& after.text == doc.text.subrange(0, cmd.start) + longer.raw_text()
                + doc.text.subrange(cmd.end, doc.text.len() as int)
            &&& after.text.len() == doc.text.len() + key.len() + 1
        }),
{
    let cmd = enclosing_command(doc.text, doc.cursor)->0;
    lemma_enclosing_command_in_text(doc.text, doc.cursor);
    lemma_merged_text(cmd, key);
    let edit = citation_edit(doc, key);
    lemma_apply_keeps_surroundings(doc, edit.start, edit.end, edit.text);
}

/// From every cursor inside the argument of a citation, and from right behind
/// its closing brace, the key joins that citation: the whole command is
/// replaced, whether the cursor stood behind it or split it in two.
pub proof fn lemma_citation_around_cursor_takes_key(
    doc: DocumentView,
    key: Seq<char>,
    cmd: CommandView,
)
    requires
        doc.wf(),
        cmd.name == citation_name(),
        cmd.well_formed(),
        cmd.fills_span(),
        cmd.argument is Some,
        forall|i: int| 0 <= i < cmd.argument->0.len() ==> #[trigger] cmd.argument->0[i] != '\\',
        cmd.end <= doc.text.len(),
        doc.text.subrange(cmd.start, cmd.end) == cmd.raw_text(),
        cmd.start + cmd.name.len() + 2 <= doc.cursor <= cmd.end,
        !is_blank(doc.text[doc.cursor - 1]),
    ensures
        ({
            let longer = CommandView { argument: Some(cmd.argument->0 + seq![','] + key), ..cmd };
            let after = doc.apply(citation_edit(doc, key));
            &&& citation_edit(doc, key) == (EditView {
                start: cmd.start,
                end: cmd.end,
                text: longer.raw_text(),
            })
            &&& after.text == doc.text.subrange(0, cmd.start) + longer.raw_text()
                + doc.text.subrange(cmd.end, doc.text.len() as int)
            &&& after.text.len() == doc.text.len() + key.len() + 1
        }),
{
    lemma_command_around_cursor_is_found(doc.text, doc.cursor, cmd);
    lemma_merged_text(cmd, key);
    lemma_merge_adds_key(doc, key);
}

/// Where no citation around the cursor takes the key, the text that was
/// there stays untouched outside the selection, and a new `\cite{key}`
/// stands in place of the selection, or at the cursor when nothing was
/// selected.
pub proof fn lemma_fallback_inserts_citation(doc: DocumentView, key: Seq<char>)
    requires
        doc.wf(),
        !(enclosing_command(doc.text, doc.cursor) matches Some(cmd) && is_mergeable(cmd)),
    ensures
        ({
            let edit = citation_edit(doc, key);
            let after = doc.apply(edit);
            &&& edit == doc.replacing_selection(citation_text(key))
            &&& after.text == doc.text.subrange(0, edit.start) + citation_text(key)
                + doc.text.subrange(edit.end, doc.text.len() as int)
            &&& doc.selection() is None ==> edit.start == doc.cursor && edit.end == doc.cursor
        }),
{
    if let Some(cmd) = enclosing_command(doc.text, doc.cursor) {
        lemma_merged_text(cmd, key);
    }
    lemma_replacing_selection(doc, citation_text(key));
}

/// Wrapping puts `\tag{` before the selected text and `}` behind it. With
/// nothing selected, `\tag{}` is inserted and the cursor ends up between the
/// braces.
pub proof fn lemma_wrap_parameter(doc: DocumentView, tag: Seq<char>)
    requires
        doc.wf(),
    ensures
        ({
            let after = wrap_parameter_result(doc, tag);
            let before = doc.text.subrange(0, doc.selection_or_cursor().0);
            let behind = doc.text.subrange(doc.selection_or_cursor().1, doc.text.len() as int);
            &&& after.wf()
            &&& after.selection() is None
            &&& after.text == before + parameter_text(tag, doc.selected_text()) + behind
            &&& doc.selection() is Some ==> after.cursor == before.len() + tag.len()
                + doc.selected_text().len() + 3
            &&& doc.selection() is None ==> after.text == before + parameter_text(
                tag,
                Seq::empty(),
            ) + behind && after.cursor == doc.cursor + tag.len() + 2
        }),
{
    lemma_replacing_selection(doc, parameter_text(tag, doc.selected_text()));
}

/// Wrapping a selection in an environment puts `\begin{tag}` on the line
/// before it and `\end{tag}` on the line behind it. With nothing selected,
/// exactly `\tag` is inserted at the cursor.
pub proof fn lemma_environment(doc: DocumentView, tag: Seq<char>)
    requires
        doc.wf(),
    ensures
        ({
            let edit = environment_edit(doc, tag);
            let after = doc.apply(edit);
            &&& after.wf()
            &&& after.text == doc.text.subrange(0, edit.start) + edit.text + doc.text.subrange(
                edit.end,
                doc.text.len() as int,
            )
            &&& doc.selection() is Some ==> edit.text == environment_text(
                tag,
                doc.selected_text(),
            )
            &&& doc.selection() is None ==> edit.text == bare_command_text(tag) && edit.start
                == doc.cursor && edit.end == doc.cursor
        }),
{
    lemma_replacing_selection(doc, environment_edit(doc, tag).text);
}

} // verus!
