//! The document buffer: a character sequence with a cursor and a selection
//! bound, and the edits that change it.
//!
//! Offsets count characters. Two marks travel with the text: the cursor and
//! the selection bound. Text is selected exactly when the two differ. When
//! text is removed, a mark inside the removed range falls back to its start;
//! when text is inserted, a mark at the insertion point ends up behind it.

use vstd::prelude::*;
use crate::text::{append_range, chars_of, string_of, substring};

verus! {

/// A half-open range of offsets, `[start, end)`.
#[derive(Clone, Copy, Debug, PartialEq, Eq, Structural)]
pub struct Span {
    pub start: usize,
    pub end: usize,
}

/// Where a mark that stood at `mark` stands once `[start, end)` has been removed.
pub open spec fn mark_after_delete(mark: int, start: int, end: int) -> int {
    if mark <= start {
        mark
    } else if mark < end {
        start
    } else {
        mark - (end - start)
    }
}

/// Where a mark that stood at `mark` stands once `len` characters have been
/// inserted at `at`.
pub open spec fn mark_after_insert(mark: int, at: int, len: int) -> int {
    if mark < at {
        mark
    } else {
        mark + len
    }
}

/// The mathematical content of an [`Edit`]: replace `[start, end)` by `text`.
pub struct EditView {
    pub start: int,
    pub end: int,
    pub text: Seq<char>,
}

/// The mathematical content of a [`Document`].
pub struct DocumentView {
    pub text: Seq<char>,
    pub cursor: int,
    pub bound: int,
}

impl DocumentView {
    /// Both marks lie within `[0, len]`.
    pub open spec fn wf(self) -> bool {
        &&& 0 <= self.cursor <= self.text.len()
        &&& 0 <= self.bound <= self.text.len()
    }

    /// The selected range, present exactly when the two marks differ.
    pub open spec fn selection(self) -> Option<(int, int)> {
        if self.cursor == self.bound {
            None
        } else if self.cursor < self.bound {
            Some((self.cursor, self.bound))
        } else {
            Some((self.bound, self.cursor))
        }
    }

    /// The selected text, empty when nothing is selected.
    pub open spec fn selected_text(self) -> Seq<char> {
        match self.selection() {
            Some((start, end)) => self.text.subrange(start, end),
            None => Seq::empty(),
        }
    }

    /// The document without the characters of `[start, end)`.
    pub open spec fn delete(self, start: int, end: int) -> DocumentView {
        DocumentView {
            text: self.text.subrange(0, start) + self.text.subrange(end, self.text.len() as int),
            cursor: mark_after_delete(self.cursor, start, end),
            bound: mark_after_delete(self.bound, start, end),
        }
    }

    /// The document with `s` inserted in front of offset `at`.
    pub open spec fn insert(self, at: int, s: Seq<char>) -> DocumentView {
        DocumentView {
            text: self.text.subrange(0, at) + s + self.text.subrange(at, self.text.len() as int),
            cursor: mark_after_insert(self.cursor, at, s.len() as int),
            bound: mark_after_insert(self.bound, at, s.len() as int),
        }
    }

    /// The document after `edit`: the range is removed, then the text is
    /// inserted where the range began.
    pub open spec fn apply(self, edit: EditView) -> DocumentView {
        self.delete(edit.start, edit.end).insert(edit.start, edit.text)
    }

    /// The document with both marks at `offset`, so that nothing is selected.
    pub open spec fn with_cursor(self, offset: int) -> DocumentView {
        DocumentView { cursor: offset, bound: offset, ..self }
    }

    /// The selected range, or the empty range at the cursor when nothing is
    /// selected.
    pub open spec fn selection_or_cursor(self) -> (int, int) {
        match self.selection() {
            Some(range) => range,
            None => (self.cursor, self.cursor),
        }
    }

    /// The edit that puts `s` in place of the selection, or at the cursor
    /// when nothing is selected.
    pub open spec fn replacing_selection(self, s: Seq<char>) -> EditView {
        EditView { start: self.selection_or_cursor().0, end: self.selection_or_cursor().1, text: s }
    }

    /// The edit that inserts `s` at the cursor and leaves the selection alone.
    pub open spec fn inserting_at_cursor(self, s: Seq<char>) -> EditView {
        EditView { start: self.cursor, end: self.cursor, text: s }
    }
}

/// A replacement of the characters of `[start, end)` by `text`.
#[derive(Clone, Debug, PartialEq, Eq)]
pub struct Edit {
    pub start: usize,
    pub end: usize,
    pub text: String,
}

impl View for Edit {
    type V = EditView;

    open spec fn view(&self) -> EditView {
        EditView { start: self.start as int, end: self.end as int, text: self.text@ }
    }
}

/// An editable sequence of characters with a cursor and a selection bound.
#[derive(Debug, PartialEq, Eq)]
pub struct Document {
    text: Vec<char>,
    cursor: usize,
    bound: usize,
}

impl View for Document {
    type V = DocumentView;

    closed spec fn view(&self) -> DocumentView {
        DocumentView { text: self.text@, cursor: self.cursor as int, bound: self.bound as int }
    }
}

impl Clone for Document {
    /// A copy with the same text and the same marks.
    fn clone(&self) -> (copy: Document)
        ensures
            copy@ == self@,
    {
        proof {
            use_type_invariant(self);
        }
        let mut text: Vec<char> = Vec::new();
        append_range(&mut text, self.text.as_slice(), 0, self.text.len());
        assert(self.text@.subrange(0, self.text@.len() as int) == self.text@);
        Document { text, cursor: self.cursor, bound: self.bound }
    }
}

impl Document {
    #[verifier::type_invariant]
    spec fn marks_in_range(self) -> bool {
        self.cursor <= self.text.len() && self.bound <= self.text.len()
    }

    /// A document holding `text`, with the cursor behind its last character
    /// and nothing selected.
    pub fn new(text: &str) -> (doc: Document)
        ensures
            doc@.text == text@,
            doc@.cursor == text@.len(),
            doc@.bound == text@.len(),
            doc@.wf(),
    {
        let text = chars_of(text);
        let n = text.len();
        Document { text, cursor: n, bound: n }
    }

    /// The number of characters.
    pub fn len(&self) -> (n: usize)
        ensures
            n == self@.text.len(),
            self@.wf(),
    {
        proof {
            use_type_invariant(self);
        }
        self.text.len()
    }

    /// The characters of the document.
    pub fn chars(&self) -> (chars: &[char])
        ensures
            chars@ == self@.text,
            self@.wf(),
    {
        proof {
            use_type_invariant(self);
        }
        self.text.as_slice()
    }

    /// The whole text as a string.
    pub fn contents(&self) -> (s: String)
        ensures
            s@ == self@.text,
    {
        string_of(self.text.as_slice())
    }

    /// The offset of the cursor.
    pub fn cursor_position(&self) -> (offset: usize)
        ensures
            offset == self@.cursor,
            self@.wf(),
    {
        proof {
            use_type_invariant(self);
        }
        self.cursor
    }

    /// The offset of the selection bound, the mark at the other end of the
    /// selection. It equals the cursor's offset when nothing is selected.
    pub fn selection_bound(&self) -> (offset: usize)
        ensures
            offset == self@.bound,
            self@.wf(),
    {
        proof {
            use_type_invariant(self);
        }
        self.bound
    }

    /// The selected range, in ascending order, or `None` when nothing is selected.
    pub fn selection_bounds(&self) -> (bounds: Option<(usize, usize)>)
        ensures
            self@.wf(),
            match bounds {
                Some((start, end)) => self@.selection() == Some((start as int, end as int)),
                None => self@.selection() is None,
            },
    {
        proof {
            use_type_invariant(self);
        }
        if self.cursor == self.bound {
            None
        } else if self.cursor < self.bound {
            Some((self.cursor, self.bound))
        } else {
            Some((self.bound, self.cursor))
        }
    }

    /// The selected range, or the empty range at the cursor when nothing is
    /// selected.
    pub fn selection_or_cursor(&self) -> (span: Span)
        ensures
            self@.wf(),
            span.start <= span.end <= self@.text.len(),
            self@.selection_or_cursor() == (span.start as int, span.end as int),
            self@.selection() is None <==> span.start == span.end,
            self@.selected_text() == self@.text.subrange(span.start as int, span.end as int),
    {
        proof {
            use_type_invariant(self);
        }
        let span = if self.cursor <= self.bound {
            Span { start: self.cursor, end: self.bound }
        } else {
            Span { start: self.bound, end: self.cursor }
        };
        assert(self.text@.subrange(span.start as int, span.start as int) =~= Seq::empty());
        span
    }

    /// The characters of `[start, end)` as a string.
    pub fn text(&self, start: usize, end: usize) -> (s: String)
        requires
            start <= end <= self@.text.len(),
        ensures
            s@ == self@.text.subrange(start as int, end as int),
    {
        substring(self.text.as_slice(), start, end)
    }

    /// Moves the cursor to `offset` and clears the selection.
    pub fn place_cursor(&mut self, offset: usize)
        requires
            offset <= old(self)@.text.len(),
        ensures
            final(self)@ == old(self)@.with_cursor(offset as int),
            final(self)@.wf(),
    {
        proof {
            use_type_invariant(&*self);
        }
        self.cursor = offset;
        self.bound = offset;
    }

    /// Puts the cursor at `cursor` and the selection bound at `bound`, which
    /// selects the text between them.
    pub fn select_range(&mut self, cursor: usize, bound: usize)
        requires
            cursor <= old(self)@.text.len(),
            bound <= old(self)@.text.len(),
        ensures
            final(self)@ == (DocumentView {
                text: old(self)@.text,
                cursor: cursor as int,
                bound: bound as int,
            }),
            final(self)@.wf(),
    {
        proof {
            use_type_invariant(&*self);
        }
        self.cursor = cursor;
        self.bound = bound;
    }

    /// Removes the characters of `[start, end)`.
    pub fn delete(&mut self, start: usize, end: usize)
        requires
            start <= end <= old(self)@.text.len(),
        ensures
            final(self)@ == old(self)@.delete(start as int, end as int),
            final(self)@.wf(),
    {
        proof {
            use_type_invariant(&*self);
        }
        let n = self.text.len();
        let mut kept: Vec<char> = Vec::new();
        append_range(&mut kept, self.text.as_slice(), 0, start);
        append_range(&mut kept, self.text.as_slice(), end, n);
        let cursor = moved_by_delete(self.cursor, start, end);
        let bound = moved_by_delete(self.bound, start, end);
        *self = Document { text: kept, cursor, bound };
    }

    /// Inserts `txt` in front of offset `at`.
    pub fn insert(&mut self, at: usize, txt: &str)
        requires
            at <= old(self)@.text.len(),
        ensures
            final(self)@ == old(self)@.insert(at as int, txt@),
            final(self)@.wf(),
    {
        proof {
            use_type_invariant(&*self);
        }
        let n = self.text.len();
        let added = chars_of(txt);
        let mut grown: Vec<char> = Vec::new();
        append_range(&mut grown, self.text.as_slice(), 0, at);
        append_range(&mut grown, added.as_slice(), 0, added.len());
        append_range(&mut grown, self.text.as_slice(), at, n);
        assert(added@.subrange(0, added@.len() as int) == added@);
        // The new text has a length, so the marks moved below stay within `usize`.
        let total = grown.len();
        assert(total == n + added@.len());
        let cursor = if self.cursor < at {
            self.cursor
        } else {
            self.cursor + added.len()
        };
        let bound = if self.bound < at {
            self.bound
        } else {
            self.bound + added.len()
        };
        *self = Document { text: grown, cursor, bound };
    }

    /// Inserts `txt` at the cursor; a selection, if any, stays selected.
    pub fn insert_at_cursor(&mut self, txt: &str)
        ensures
            final(self)@ == old(self)@.insert(old(self)@.cursor, txt@),
            final(self)@.wf(),
    {
        let at = self.cursor_position();
        self.insert(at, txt);
    }

    /// Carries out `edit`: removes its range, then inserts its text where the
    /// range began.
    pub fn apply(&mut self, edit: &Edit)
        requires
            edit.start <= edit.end <= old(self)@.text.len(),
        ensures
            final(self)@ == old(self)@.apply(edit@),
            final(self)@.wf(),
    {
        self.delete(edit.start, edit.end);
        self.insert(edit.start, edit.text.as_str());
    }
}

/// Executable form of [`mark_after_delete`].
fn moved_by_delete(mark: usize, start: usize, end: usize) -> (moved: usize)
    requires
        start <= end,
    ensures
        moved == mark_after_delete(mark as int, start as int, end as int),
{
    if mark <= start {
        mark
    } else if mark < end {
        start
    } else {
        mark - (end - start)
    }
}

} // verus!
