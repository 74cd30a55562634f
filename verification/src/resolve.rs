//! Resolution of the command around the cursor: the two scans and the parser,
//! tried in a fixed order.

use vstd::prelude::*;
use crate::buffer::{Document, Span};
use crate::command::{
    leading_command,
    lemma_leading_command_iff,
    parse_command,
    Command,
    CommandView,
};
use crate::scan::{
    backward_start,
    forward_end,
    lemma_backward_start_iff,
    lemma_forward_end_iff,
    move_backwards_to_command_start,
    move_forward_to_command_end,
};

verus! {

/// The command that the characters of `[start, end)` are, from the first to
/// the last, with its span in `text`.
pub open spec fn command_at(text: Seq<char>, start: int, end: int) -> Option<CommandView> {
    match leading_command(text.subrange(start, end)) {
        Some(cmd) => if cmd.end == end - start {
            Some(cmd.shifted(start))
        } else {
            None
        },
        None => None,
    }
}

/// The command around `cursor`.
///
/// The text from the backward scan's result to the cursor is tried first. If
/// the parser rejects it, the text up to the forward scan's result is tried.
/// A text counts only if it is one command from its first character to its
/// last.
pub open spec fn enclosing_command(text: Seq<char>, cursor: int) -> Option<CommandView> {
    match backward_start(text, cursor) {
        Some(start) => if leading_command(text.subrange(start, cursor)) is Some {
            command_at(text, start, cursor)
        } else {
            match forward_end(text, cursor) {
                Some(end) => command_at(text, start, end),
                None => None,
            }
        },
        None => None,
    }
}

/// What one scan for the command around the cursor found.
#[derive(Clone, Debug, PartialEq, Eq)]
pub enum ScanResult {
    Found(Command),
    NotFound,
}

impl View for ScanResult {
    type V = Option<CommandView>;

    open spec fn view(&self) -> Option<CommandView> {
        match self {
            ScanResult::Found(cmd) => Some(cmd@),
            ScanResult::NotFound => None,
        }
    }
}

/// The span invariant of a found command: it obeys the grammar, its span lies
/// in the text and reaches from before the cursor to the cursor or beyond, and
/// the text at its span is its source text.
pub open spec fn is_command_in(text: Seq<char>, cursor: int, cmd: CommandView) -> bool {
    &&& cmd.well_formed()
    &&& cmd.fills_span()
    &&& 0 <= cmd.start < cursor <= cmd.end <= text.len()
    &&& text.subrange(cmd.start, cmd.end) == cmd.raw_text()
}

/// Every command that `enclosing_command` finds keeps the span invariant.
pub proof fn lemma_enclosing_command_in_text(text: Seq<char>, cursor: int)
    requires
        0 <= cursor <= text.len(),
    ensures
        enclosing_command(text, cursor) matches Some(cmd) ==> is_command_in(text, cursor, cmd),
{
    if let Some(cmd) = enclosing_command(text, cursor) {
        let start = backward_start(text, cursor)->0;
        lemma_backward_start_iff(text, cursor, start);
        let end = if leading_command(text.subrange(start, cursor)) is Some {
            cursor
        } else {
            let end = forward_end(text, cursor)->0;
            lemma_forward_end_iff(text, cursor, end);
            end
        };
        let part = text.subrange(start, end);
        let local = leading_command(part)->0;
        lemma_leading_command_iff(part, local);
        assert(cmd == local.shifted(start));
        assert(part.subrange(0, local.end) =~= part);
    }
}

/// The result for a span whose characters the parser has read as `cmd`: the
/// command, moved to the span, if it covers the span.
fn covering(cmd: Command, span: Span) -> (found: ScanResult)
    requires
        span.start <= span.end,
        cmd@.start == 0,
    ensures
        found@ == if cmd@.end == span.end - span.start {
            Some(cmd@.shifted(span.start as int))
        } else {
            None
        },
{
    if cmd.span.end == span.end - span.start {
        let placed = Command { span, ..cmd };
        assert(placed@ == cmd@.shifted(span.start as int));
        ScanResult::Found(placed)
    } else {
        ScanResult::NotFound
    }
}

/// Finds the command around `cursor`.
///
/// A found command keeps the span invariant: the text at its span is its
/// source text, and the span reaches from before the cursor to the cursor or
/// beyond.
pub fn resolve_enclosing_command(buffer: &Document, cursor: usize) -> (found: ScanResult)
    requires
        cursor <= buffer@.text.len(),
    ensures
        found@ == enclosing_command(buffer@.text, cursor as int),
        found matches ScanResult::Found(cmd) ==> is_command_in(
            buffer@.text,
            cursor as int,
            cmd@,
        ),
{
    proof {
        lemma_enclosing_command_in_text(buffer@.text, cursor as int);
    }
    let text = buffer.chars();
    match move_backwards_to_command_start(text, cursor) {
        Some(back) => match parse_command(&text[back.start..cursor]) {
            Some(cmd) => covering(cmd, back),
            None => match move_forward_to_command_end(text, cursor) {
                Some(forth) => match parse_command(&text[back.start..forth.end]) {
                    Some(cmd) => covering(cmd, Span { start: back.start, end: forth.end }),
                    None => ScanResult::NotFound,
                },
                None => ScanResult::NotFound,
            },
        },
        None => ScanResult::NotFound,
    }
}

} // verus!
