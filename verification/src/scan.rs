//! The boundary scanner: where the command around the cursor may begin and end.
//!
//! Both scans look at one line only and never parse. The backward scan walks
//! left from the cursor to the nearest backslash; the forward scan walks
//! right from the cursor to the nearest closing brace. A line break stops
//! either walk without a result.

use vstd::prelude::*;
use crate::buffer::Span;
use crate::chars::{blank, is_blank};

verus! {

/// `start` is where the backward scan from `cursor` ends with a result: the
/// character left of the cursor is no blank, a backslash stands at `start`,
/// and neither a backslash nor a line break stands between it and the cursor.
pub open spec fn is_command_start(text: Seq<char>, cursor: int, start: int) -> bool {
    &&& 0 <= start < cursor <= text.len()
    &&& !is_blank(text[cursor - 1])
    &&& text[start] == '\\'
    &&& forall|k: int| start < k < cursor ==> text[k] != '\\' && text[k] != '\n'
}

/// `end` is where the forward scan from `cursor` ends with a result: a closing
/// brace stands just before `end`, and neither a closing brace nor a line
/// break stands between the cursor and it.
pub open spec fn is_command_end(text: Seq<char>, cursor: int, end: int) -> bool {
    &&& 0 <= cursor < end <= text.len()
    &&& text[end - 1] == '}'
    &&& forall|k: int| cursor <= k < end - 1 ==> text[k] != '}' && text[k] != '\n'
}

/// The result of the backward scan from `cursor`.
pub open spec fn backward_start(text: Seq<char>, cursor: int) -> Option<int> {
    if exists|start: int| is_command_start(text, cursor, start) {
        Some(choose|start: int| is_command_start(text, cursor, start))
    } else {
        None
    }
}

/// The result of the forward scan from `cursor`.
pub open spec fn forward_end(text: Seq<char>, cursor: int) -> Option<int> {
    if exists|end: int| is_command_end(text, cursor, end) {
        Some(choose|end: int| is_command_end(text, cursor, end))
    } else {
        None
    }
}

/// The backward scan has at most one result.
pub proof fn lemma_command_start_unique(text: Seq<char>, cursor: int, a: int, b: int)
    requires
        is_command_start(text, cursor, a),
        is_command_start(text, cursor, b),
    ensures
        a == b,
{
    if a < b {
        assert(text[b] == '\\');
    } else if b < a {
        assert(text[a] == '\\');
    }
}

/// The forward scan has at most one result.
pub proof fn lemma_command_end_unique(text: Seq<char>, cursor: int, a: int, b: int)
    requires
        is_command_end(text, cursor, a),
        is_command_end(text, cursor, b),
    ensures
        a == b,
{
    if a < b {
        assert(text[a - 1] == '}');
    } else if b < a {
        assert(text[b - 1] == '}');
    }
}

/// `backward_start` is `Some(start)` exactly when `start` is the scan's result.
pub proof fn lemma_backward_start_iff(text: Seq<char>, cursor: int, start: int)
    ensures
        backward_start(text, cursor) == Some(start) <==> is_command_start(text, cursor, start),
{
    if is_command_start(text, cursor, start) {
        let chosen = choose|s: int| is_command_start(text, cursor, s);
        lemma_command_start_unique(text, cursor, chosen, start);
    }
}

/// `forward_end` is `Some(end)` exactly when `end` is the scan's result.
pub proof fn lemma_forward_end_iff(text: Seq<char>, cursor: int, end: int)
    ensures
        forward_end(text, cursor) == Some(end) <==> is_command_end(text, cursor, end),
{
    if is_command_end(text, cursor, end) {
        let chosen = choose|e: int| is_command_end(text, cursor, e);
        lemma_command_end_unique(text, cursor, chosen, end);
    }
}

/// Scans left from `cursor` for the backslash that opens a command.
///
/// Returns the span from that backslash to the cursor. Returns `None` when
/// the cursor stands at offset 0, when a blank stands left of it, or when a
/// line break or the start of the text is reached before a backslash.
pub fn move_backwards_to_command_start(text: &[char], cursor: usize) -> (found: Option<Span>)
    requires
        cursor <= text@.len(),
    ensures
        match found {
            Some(span) => span.end == cursor && is_command_start(
                text@,
                cursor as int,
                span.start as int,
            ),
            None => forall|start: int| !is_command_start(text@, cursor as int, start),
        },
        backward_start(text@, cursor as int) == match found {
            Some(span) => Some(span.start as int),
            None => None,
        },
{
    if cursor == 0 {
        return None;
    }
    if blank(text[cursor - 1]) {
        return None;
    }
    let mut start: usize = cursor - 1;
    loop
        invariant
            start < cursor <= text@.len(),
            !is_blank(text@[cursor - 1]),
            forall|k: int| start < k < cursor ==> text@[k] != '\\' && text@[k] != '\n',
        decreases start,
    {
        let c = text[start];
        if c == '\\' {
            proof {
                lemma_backward_start_iff(text@, cursor as int, start as int);
            }
            return Some(Span { start, end: cursor });
        }
        if c == '\n' || start == 0 {
            assert forall|s: int| !is_command_start(text@, cursor as int, s) by {
                if is_command_start(text@, cursor as int, s) {
                    if s < start {
                        assert(text@[start as int] == '\n');
                    }
                }
            }
            return None;
        }
        start -= 1;
    }
}

/// Scans right from `cursor` for the brace that closes an argument.
///
/// Returns the span from the cursor to just behind that brace. Returns `None`
/// when the cursor stands at the end of the text, or when a line break or the
/// end of the text is reached before a closing brace.
pub fn move_forward_to_command_end(text: &[char], cursor: usize) -> (found: Option<Span>)
    requires
        cursor <= text@.len(),
    ensures
        match found {
            Some(span) => span.start == cursor && is_command_end(
                text@,
                cursor as int,
                span.end as int,
            ),
            None => forall|end: int| !is_command_end(text@, cursor as int, end),
        },
        forward_end(text@, cursor as int) == match found {
            Some(span) => Some(span.end as int),
            None => None,
        },
{
    let mut end: usize = cursor;
    while end < text.len()
        invariant
            cursor <= end <= text@.len(),
            forall|k: int| cursor <= k < end ==> text@[k] != '}' && text@[k] != '\n',
        decreases text@.len() - end,
    {
        let c = text[end];
        end += 1;
        if c == '}' {
            proof {
                lemma_forward_end_iff(text@, cursor as int, end as int);
            }
            return Some(Span { start: cursor, end });
        }
        if c == '\n' {
            assert forall|e: int| !is_command_end(text@, cursor as int, e) by {
                if is_command_end(text@, cursor as int, e) {
                    if e > end {
                        assert(text@[end - 1] == '\n');
                    } else if e < end {
                        assert(text@[e - 1] == '}');
                    }
                }
            }
            return None;
        }
    }
    assert forall|e: int| !is_command_end(text@, cursor as int, e) by {
        if is_command_end(text@, cursor as int, e) {
            assert(text@[e - 1] == '}');
        }
    }
    None
}

} // verus!
