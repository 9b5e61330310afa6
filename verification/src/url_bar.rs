//! The editable URL bar: text, a cursor, and a selection anchor.
//!
//! Positions count characters. When the anchor differs from the cursor the
//! characters between them are selected; typing or deleting replaces the
//! selection. Key handling follows the usual single-line editor rules
//! (arrows, shift to extend, home/end, backspace/delete).

use vstd::prelude::*;
use crate::text::{append_chars, chars_of, slice_chars, string_of};

verus! {

/// An editor state as plain values: text, cursor, anchor.
pub type BarView = (Seq<char>, int, int);

pub open spec fn bar_wf(b: BarView) -> bool {
    0 <= b.1 <= b.0.len() && 0 <= b.2 <= b.0.len()
}

pub open spec fn sel_lo(b: BarView) -> int {
    if b.1 <= b.2 {
        b.1
    } else {
        b.2
    }
}

pub open spec fn sel_hi(b: BarView) -> int {
    if b.1 <= b.2 {
        b.2
    } else {
        b.1
    }
}

/// The selected characters (empty without a selection).
pub open spec fn selected_spec(b: BarView) -> Seq<char> {
    b.0.subrange(sel_lo(b), sel_hi(b))
}

/// The state after removing the selection, if any.
pub open spec fn delete_selection_spec(b: BarView) -> BarView {
    if b.1 == b.2 {
        b
    } else {
        let lo = sel_lo(b);
        (b.0.take(lo) + b.0.skip(sel_hi(b)), lo, lo)
    }
}

/// The state after typing or pasting `s`: it replaces the selection, and
/// the cursor ends up after it.
pub open spec fn insert_spec(b: BarView, s: Seq<char>) -> BarView {
    let d = delete_selection_spec(b);
    (d.0.take(d.1) + s + d.0.skip(d.1), d.1 + s.len(), d.1 + s.len())
}

/// The state after backspace: the selection goes, or else the character
/// before the cursor.
pub open spec fn backspace_spec(b: BarView) -> BarView {
    if b.1 != b.2 {
        delete_selection_spec(b)
    } else if b.1 > 0 {
        (b.0.take(b.1 - 1) + b.0.skip(b.1), b.1 - 1, b.1 - 1)
    } else {
        b
    }
}

/// The state after delete: the selection goes, or else the character
/// after the cursor.
pub open spec fn delete_forward_spec(b: BarView) -> BarView {
    if b.1 != b.2 {
        delete_selection_spec(b)
    } else if b.1 < b.0.len() {
        (b.0.take(b.1) + b.0.skip(b.1 + 1), b.1, b.2)
    } else {
        b
    }
}

pub open spec fn select_all_spec(b: BarView) -> BarView {
    (b.0, b.0.len() as int, 0)
}

/// Position one character to the left of the cursor.
pub open spec fn prev_pos(b: BarView) -> int {
    if b.1 == 0 {
        0
    } else {
        b.1 - 1
    }
}

/// Position one character to the right of the cursor.
pub open spec fn next_pos(b: BarView) -> int {
    if b.1 >= b.0.len() {
        b.0.len() as int
    } else {
        b.1 + 1
    }
}

/// Cursor and anchor after the left arrow (with or without shift).
pub open spec fn left_spec(b: BarView, shift: bool) -> BarView {
    if shift {
        (b.0, prev_pos(b), b.2)
    } else if b.1 != b.2 {
        (b.0, sel_lo(b), sel_lo(b))
    } else {
        (b.0, prev_pos(b), prev_pos(b))
    }
}

/// Cursor and anchor after the right arrow (with or without shift).
pub open spec fn right_spec(b: BarView, shift: bool) -> BarView {
    if shift {
        (b.0, next_pos(b), b.2)
    } else if b.1 != b.2 {
        (b.0, sel_hi(b), sel_hi(b))
    } else {
        (b.0, next_pos(b), next_pos(b))
    }
}

/// Typing a character and then pressing backspace gives back the state one
/// started from, when nothing was selected.
pub proof fn law_type_then_backspace(b: BarView, c: char)
    requires
        bar_wf(b),
        b.1 == b.2,
    ensures
        backspace_spec(insert_spec(b, seq![c])) == b,
{
    let i = insert_spec(b, seq![c]);
    assert(i.0.take(i.1 - 1) + i.0.skip(i.1) =~= b.0);
}

/// After select-all, typing replaces the whole text.
pub proof fn law_select_all_then_type(b: BarView, s: Seq<char>)
    requires
        bar_wf(b),
    ensures
        insert_spec(select_all_spec(b), s).0 == s,
        insert_spec(select_all_spec(b), s).1 == s.len(),
{
    let a = select_all_spec(b);
    if b.0.len() == 0 {
        assert(a.0.take(0) + s + a.0.skip(0) =~= s);
    } else {
        let d = delete_selection_spec(a);
        assert(d.0 =~= Seq::<char>::empty());
        assert(d.0.take(0) + s + d.0.skip(0) =~= s);
    }
}

/// After select-all the selected text is the whole text.
pub proof fn law_select_all_selects_text(b: BarView)
    requires
        bar_wf(b),
    ensures
        selected_spec(select_all_spec(b)) == b.0,
{
    assert(b.0.subrange(0, b.0.len() as int) =~= b.0);
}

/// Every editing step keeps cursor and anchor inside the text.
pub proof fn law_steps_stay_in_text(b: BarView, s: Seq<char>, shift: bool)
    requires
        bar_wf(b),
    ensures
        bar_wf(delete_selection_spec(b)),
        bar_wf(insert_spec(b, s)),
        bar_wf(backspace_spec(b)),
        bar_wf(delete_forward_spec(b)),
        bar_wf(select_all_spec(b)),
        bar_wf(left_spec(b, shift)),
        bar_wf(right_spec(b, shift)),
{
}

/// The URL bar's editing state.
pub struct UrlBar {
    text: Vec<char>,
    cursor: usize,
    anchor: usize,
}

impl View for UrlBar {
    type V = BarView;

    closed spec fn view(&self) -> BarView {
        (self.text@, self.cursor as int, self.anchor as int)
    }
}

impl UrlBar {
    pub closed spec fn wf(&self) -> bool {
        self.cursor <= self.text@.len() && self.anchor <= self.text@.len()
    }

    /// An empty bar.
    pub fn new() -> (r: Self)
        ensures
            r.wf(),
            r@ == (Seq::<char>::empty(), 0int, 0int),
    {
        UrlBar { text: Vec::new(), cursor: 0, anchor: 0 }
    }

    /// A bar showing `s` with the cursor at its end.
    pub fn with_text(s: &str) -> (r: Self)
        ensures
            r.wf(),
            r@ == (s@, s@.len() as int, s@.len() as int),
    {
        let text = chars_of(s);
        let n = text.len();
        UrlBar { text, cursor: n, anchor: n }
    }

    /// Replaces the text, keeping cursor and anchor where they were as far
    /// as the new text allows.
    pub fn set_text(&mut self, s: &str)
        ensures
            final(self).wf(),
            final(self)@ == (
                s@,
                if old(self)@.1 <= s@.len() {
                    old(self)@.1
                } else {
                    s@.len() as int
                },
                if old(self)@.2 <= s@.len() {
                    old(self)@.2
                } else {
                    s@.len() as int
                },
            ),
    {
        self.text = chars_of(s);
        let n = self.text.len();
        if self.cursor > n {
            self.cursor = n;
        }
        if self.anchor > n {
            self.anchor = n;
        }
    }

    pub fn text(&self) -> (r: String)
        ensures
            r@ == self@.0,
    {
        string_of(self.text.as_slice())
    }

    pub fn cursor(&self) -> (r: usize)
        ensures
            r == self@.1,
    {
        self.cursor
    }

    pub fn anchor(&self) -> (r: usize)
        ensures
            r == self@.2,
    {
        self.anchor
    }

    pub fn len(&self) -> (r: usize)
        ensures
            r == self@.0.len(),
    {
        self.text.len()
    }

    pub fn has_selection(&self) -> (r: bool)
        ensures
            r == (self@.1 != self@.2),
    {
        self.cursor != self.anchor
    }

    /// The selected range, low end first.
    pub fn selection_range(&self) -> (r: (usize, usize))
        ensures
            r.0 == sel_lo(self@),
            r.1 == sel_hi(self@),
    {
        if self.cursor <= self.anchor {
            (self.cursor, self.anchor)
        } else {
            (self.anchor, self.cursor)
        }
    }

    pub fn prev_boundary(&self) -> (r: usize)
        ensures
            r == prev_pos(self@),
    {
        if self.cursor == 0 {
            0
        } else {
            self.cursor - 1
        }
    }

    pub fn next_boundary(&self) -> (r: usize)
        ensures
            r == next_pos(self@),
    {
        if self.cursor >= self.text.len() {
            self.text.len()
        } else {
            self.cursor + 1
        }
    }

    /// Puts the cursor at `offset` (clamped) and drops the selection.
    pub fn move_to(&mut self, offset: usize)
        ensures
            final(self).wf(),
            final(self)@.0 == old(self)@.0,
            final(self)@.1 == (if offset <= old(self)@.0.len() {
                offset as int
            } else {
                old(self)@.0.len() as int
            }),
            final(self)@.2 == final(self)@.1,
    {
        let n = self.text.len();
        let o = if offset <= n {
            offset
        } else {
            n
        };
        self.cursor = o;
        self.anchor = o;
    }

    /// Moves the cursor to `offset` (clamped), extending the selection.
    pub fn select_to(&mut self, offset: usize)
        requires
            old(self).wf(),
        ensures
            final(self).wf(),
            final(self)@.0 == old(self)@.0,
            final(self)@.1 == (if offset <= old(self)@.0.len() {
                offset as int
            } else {
                old(self)@.0.len() as int
            }),
            final(self)@.2 == old(self)@.2,
    {
        let n = self.text.len();
        self.cursor = if offset <= n {
            offset
        } else {
            n
        };
    }

    pub fn select_all(&mut self)
        ensures
            final(self).wf(),
            final(self)@ == select_all_spec(old(self)@),
    {
        self.anchor = 0;
        self.cursor = self.text.len();
    }

    pub fn delete_selection(&mut self)
        requires
            old(self).wf(),
        ensures
            final(self).wf(),
            final(self)@ == delete_selection_spec(old(self)@),
    {
        if self.cursor == self.anchor {
            return ;
        }
        let (lo, hi) = self.selection_range();
        let n = self.text.len();
        let mut t = slice_chars(self.text.as_slice(), 0, lo);
        let tail = slice_chars(self.text.as_slice(), hi, n);
        append_chars(&mut t, tail.as_slice());
        proof {
            assert(t@ =~= self.text@.take(lo as int) + self.text@.skip(hi as int));
        }
        self.text = t;
        self.cursor = lo;
        self.anchor = lo;
    }

    /// Types or pastes `s` at the cursor, replacing the selection.
    pub fn insert_at_cursor(&mut self, s: &str)
        requires
            old(self).wf(),
            old(self)@.0.len() + s@.len() <= usize::MAX,
        ensures
            final(self).wf(),
            final(self)@ == insert_spec(old(self)@, s@),
    {
        self.delete_selection();
        let add = chars_of(s);
        let c = self.cursor;
        let n = self.text.len();
        let mut t = slice_chars(self.text.as_slice(), 0, c);
        append_chars(&mut t, add.as_slice());
        let tail = slice_chars(self.text.as_slice(), c, n);
        append_chars(&mut t, tail.as_slice());
        proof {
            assert(t@ =~= self.text@.take(c as int) + s@ + self.text@.skip(c as int));
        }
        self.text = t;
        self.cursor = c + add.len();
        self.anchor = self.cursor;
    }

    pub fn backspace(&mut self)
        requires
            old(self).wf(),
        ensures
            final(self).wf(),
            final(self)@ == backspace_spec(old(self)@),
    {
        if self.cursor != self.anchor {
            self.delete_selection();
        } else if self.cursor > 0 {
            let prev = self.cursor - 1;
            let n = self.text.len();
            let mut t = slice_chars(self.text.as_slice(), 0, prev);
            let tail = slice_chars(self.text.as_slice(), self.cursor, n);
            append_chars(&mut t, tail.as_slice());
            self.text = t;
            self.cursor = prev;
            self.anchor = prev;
        }
    }

    pub fn delete_forward(&mut self)
        requires
            old(self).wf(),
        ensures
            final(self).wf(),
            final(self)@ == delete_forward_spec(old(self)@),
    {
        if self.cursor != self.anchor {
            self.delete_selection();
        } else if self.cursor < self.text.len() {
            let c = self.cursor;
            let n = self.text.len();
            let mut t = slice_chars(self.text.as_slice(), 0, c);
            let tail = slice_chars(self.text.as_slice(), c + 1, n);
            append_chars(&mut t, tail.as_slice());
            self.text = t;
        }
    }

    /// The selected text, empty without a selection.
    pub fn selected_text(&self) -> (r: String)
        requires
            self.wf(),
        ensures
            r@ == selected_spec(self@),
    {
        let (lo, hi) = self.selection_range();
        let s = slice_chars(self.text.as_slice(), lo, hi);
        string_of(s.as_slice())
    }

    /// The left arrow; with shift it extends the selection, without it
    /// collapses a selection to its start or steps one character left.
    pub fn key_left(&mut self, shift: bool)
        requires
            old(self).wf(),
        ensures
            final(self).wf(),
            final(self)@ == left_spec(old(self)@, shift),
    {
        if shift {
            let p = self.prev_boundary();
            self.select_to(p);
        } else if self.has_selection() {
            let (lo, _) = self.selection_range();
            self.move_to(lo);
        } else {
            let p = self.prev_boundary();
            self.move_to(p);
        }
    }

    /// The right arrow; with shift it extends the selection, without it
    /// collapses a selection to its end or steps one character right.
    pub fn key_right(&mut self, shift: bool)
        requires
            old(self).wf(),
        ensures
            final(self).wf(),
            final(self)@ == right_spec(old(self)@, shift),
    {
        if shift {
            let p = self.next_boundary();
            self.select_to(p);
        } else if self.has_selection() {
            let (_, hi) = self.selection_range();
            self.move_to(hi);
        } else {
            let p = self.next_boundary();
            self.move_to(p);
        }
    }

    /// Home: to the start, extending the selection with shift.
    pub fn key_home(&mut self, shift: bool)
        requires
            old(self).wf(),
        ensures
            final(self).wf(),
            final(self)@ == (if shift {
                (old(self)@.0, 0int, old(self)@.2)
            } else {
                (old(self)@.0, 0int, 0int)
            }),
    {
        if shift {
            self.select_to(0);
        } else {
            self.move_to(0);
        }
    }

    /// End: to the end, extending the selection with shift.
    pub fn key_end(&mut self, shift: bool)
        requires
            old(self).wf(),
        ensures
            final(self).wf(),
            final(self)@ == (if shift {
                (old(self)@.0, old(self)@.0.len() as int, old(self)@.2)
            } else {
                (old(self)@.0, old(self)@.0.len() as int, old(self)@.0.len() as int)
            }),
    {
        let n = self.text.len();
        if shift {
            self.select_to(n);
        } else {
            self.move_to(n);
        }
    }
}

impl Default for UrlBar {
    fn default() -> (r: Self)
        ensures
            r.wf(),
            r@ == (Seq::<char>::empty(), 0int, 0int),
    {
        Self::new()
    }
}

} // verus!
