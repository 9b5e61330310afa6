//! Navigation history stack for the Oxide browser.
//!
//! Manages a linear history of visited URLs with associated state, allowing
//! users (and guest binaries) to move forward and backward between views.
//! Pushing a new entry while in the middle of the stack truncates forward
//! history, matching standard browser semantics.

use vstd::prelude::*;
use crate::clock::now_ms;

verus! {

/// A single entry in the navigation history.
#[derive(Clone, Debug)]
pub struct HistoryEntry {
    /// The fully-resolved URL for this history point.
    pub url: String,
    /// An optional human-readable title.
    pub title: String,
    /// Opaque binary state attached by the guest via `push_state` /
    /// `replace_state`.  The guest can read this back on re-entry.
    pub state: Vec<u8>,
    /// Milliseconds since the UNIX epoch when this entry was created.
    pub timestamp_ms: u64,
}

impl HistoryEntry {
    /// An entry for `url` with an empty title and state, stamped with the
    /// current time.
    pub fn new(url: &str) -> (r: Self)
        ensures
            r.url@ == url@,
            r.title@ == Seq::<char>::empty(),
            r.state@ == Seq::<u8>::empty(),
    {
        HistoryEntry {
            url: url.to_owned(),
            title: String::new(),
            state: Vec::new(),
            timestamp_ms: now_ms(),
        }
    }

    /// The same entry with its title replaced.
    pub fn with_title(self, title: &str) -> (r: Self)
        ensures
            r.url == self.url,
            r.title@ == title@,
            r.state == self.state,
            r.timestamp_ms == self.timestamp_ms,
    {
        HistoryEntry { title: title.to_owned(), ..self }
    }

    /// The same entry with its opaque state replaced.
    pub fn with_state(self, state: Vec<u8>) -> (r: Self)
        ensures
            r.url == self.url,
            r.title == self.title,
            r.state == state,
            r.timestamp_ms == self.timestamp_ms,
    {
        HistoryEntry { state, ..self }
    }
}

/// Cursor position after a step back from `c`.
pub open spec fn cursor_after_back(c: int) -> int {
    if c > 0 {
        c - 1
    } else {
        c
    }
}

/// Cursor position after a step forward from `c` among `len` entries.
pub open spec fn cursor_after_forward(c: int, len: int) -> int {
    if c + 1 < len {
        c + 1
    } else {
        c
    }
}

/// Entries after pushing `e` with the cursor at `c`: forward history is cut.
pub open spec fn items_after_push(items: Seq<HistoryEntry>, c: int, e: HistoryEntry) -> Seq<
    HistoryEntry,
> {
    items.take(c + 1).push(e)
}

/// Going back one step and then forward one step returns to the entry one
/// started from.
pub proof fn law_back_then_forward(c: int, len: int)
    requires
        0 < c < len,
    ensures
        cursor_after_forward(cursor_after_back(c), len) == c,
{
}

/// Going forward one step and then back one step returns to the entry one
/// started from.
pub proof fn law_forward_then_back(c: int, len: int)
    requires
        0 <= c,
        c + 1 < len,
    ensures
        cursor_after_back(cursor_after_forward(c, len)) == c,
{
}

/// After a push the new entry is current, there is no forward history, and
/// everything up to the old cursor is kept in place.
pub proof fn law_push_discards_forward(items: Seq<HistoryEntry>, c: int, e: HistoryEntry)
    requires
        -1 <= c < items.len(),
    ensures
        items_after_push(items, c, e).len() == c + 2,
        items_after_push(items, c, e)[c + 1] == e,
        cursor_after_forward(c + 1, items_after_push(items, c, e).len() as int) == c + 1,
        forall|j: int| 0 <= j <= c ==> items_after_push(items, c, e)[j] == items[j],
{
}

/// Pushing an entry and then going back shows the entry that was current
/// before the push.
pub proof fn law_push_then_back(items: Seq<HistoryEntry>, c: int, e: HistoryEntry)
    requires
        0 <= c < items.len(),
    ensures
        items_after_push(items, c, e)[cursor_after_back(c + 1)] == items[c],
{
}

/// A linear stack of [`HistoryEntry`] items with a movable cursor.
#[derive(Clone, Debug)]
pub struct NavigationStack {
    entries: Vec<HistoryEntry>,
    /// Points to the current entry.  `-1` when the stack is empty.
    index: isize,
}

impl NavigationStack {
    /// The entries, oldest first.
    pub closed spec fn items(&self) -> Seq<HistoryEntry> {
        self.entries@
    }

    /// Position of the current entry (`-1` when empty).
    pub closed spec fn cursor(&self) -> int {
        self.index as int
    }

    /// The cursor points at an entry, or is `-1` exactly when there is none.
    pub open spec fn wf(&self) -> bool {
        &&& -1 <= self.cursor() < self.items().len()
        &&& (self.cursor() == -1 <==> self.items().len() == 0)
        &&& self.items().len() < isize::MAX
    }

    pub fn new() -> (r: Self)
        ensures
            r.wf(),
            r.items() == Seq::<HistoryEntry>::empty(),
            r.cursor() == -1,
    {
        NavigationStack { entries: Vec::new(), index: -1 }
    }

    /// Push a new entry, discarding any forward history beyond the cursor.
    pub fn push(&mut self, entry: HistoryEntry)
        requires
            old(self).wf(),
            old(self).items().len() < isize::MAX - 1,
        ensures
            final(self).wf(),
            final(self).items() == items_after_push(old(self).items(), old(self).cursor(), entry),
            final(self).cursor() == old(self).cursor() + 1,
    {
        let new_index = self.index + 1;
        self.entries.truncate(new_index as usize);
        self.entries.push(entry);
        self.index = new_index;
    }

    /// Replace the current entry in-place (no forward-history truncation);
    /// on an empty stack the entry is pushed.
    pub fn replace_current(&mut self, entry: HistoryEntry)
        requires
            old(self).wf(),
            old(self).items().len() < isize::MAX - 1,
        ensures
            final(self).wf(),
            old(self).cursor() >= 0 ==> final(self).items() == old(self).items().update(
                old(self).cursor(),
                entry,
            ) && final(self).cursor() == old(self).cursor(),
            old(self).cursor() < 0 ==> final(self).items() == seq![entry] && final(self).cursor()
                == 0,
    {
        if self.index >= 0 && (self.index as usize) < self.entries.len() {
            let i = self.index as usize;
            self.entries.set(i, entry);
        } else {
            self.push(entry);
            proof {
                assert(old(self).items().take(0) =~= Seq::<HistoryEntry>::empty());
            }
        }
    }

    /// Mutate selected fields of the current entry (used by guest
    /// `push_state` / `replace_state` when only updating metadata).
    pub fn update_current(&mut self, title: Option<&str>, state: Option<Vec<u8>>, url: Option<&str>)
        requires
            old(self).wf(),
        ensures
            final(self).wf(),
            final(self).cursor() == old(self).cursor(),
            final(self).items().len() == old(self).items().len(),
            forall|j: int|
                0 <= j < old(self).items().len() && j != old(self).cursor() ==> final(self).items()[j]
                    == old(self).items()[j],
            old(self).cursor() >= 0 ==> {
                let before = old(self).items()[old(self).cursor()];
                let after = final(self).items()[old(self).cursor()];
                &&& after.title@ == (match title {
                    Some(t) => t@,
                    None => before.title@,
                })
                &&& after.state@ == (match state {
                    Some(s) => s@,
                    None => before.state@,
                })
                &&& after.url@ == (match url {
                    Some(u) => u@,
                    None => before.url@,
                })
                &&& after.timestamp_ms == before.timestamp_ms
            },
            old(self).cursor() < 0 ==> final(self).items() == old(self).items(),
    {
        if self.index >= 0 && (self.index as usize) < self.entries.len() {
            let i = self.index as usize;
            let cur = &self.entries[i];
            let new_title = match title {
                Some(t) => t.to_owned(),
                None => cur.title.clone(),
            };
            let new_state = match state {
                Some(s) => s,
                None => cur.state.clone(),
            };
            let new_url = match url {
                Some(u) => u.to_owned(),
                None => cur.url.clone(),
            };
            let updated = HistoryEntry {
                url: new_url,
                title: new_title,
                state: new_state,
                timestamp_ms: cur.timestamp_ms,
            };
            self.entries.set(i, updated);
        }
    }

    /// Move the cursor backward.  Returns the new current entry.
    pub fn go_back(&mut self) -> (r: Option<&HistoryEntry>)
        requires
            old(self).wf(),
        ensures
            final(self).wf(),
            final(self).items() == old(self).items(),
            final(self).cursor() == cursor_after_back(old(self).cursor()),
            old(self).cursor() > 0 ==> r == Some(&old(self).items()[final(self).cursor()]),
            old(self).cursor() <= 0 ==> r is None,
    {
        if self.index > 0 {
            self.index = self.index - 1;
            Some(&self.entries[self.index as usize])
        } else {
            None
        }
    }

    /// Move the cursor forward.  Returns the new current entry.
    pub fn go_forward(&mut self) -> (r: Option<&HistoryEntry>)
        requires
            old(self).wf(),
        ensures
            final(self).wf(),
            final(self).items() == old(self).items(),
            final(self).cursor() == cursor_after_forward(
                old(self).cursor(),
                old(self).items().len() as int,
            ),
            old(self).cursor() + 1 < old(self).items().len() ==> r == Some(
                &old(self).items()[final(self).cursor()],
            ),
            old(self).cursor() + 1 >= old(self).items().len() ==> r is None,
    {
        if self.index + 1 < self.entries.len() as isize {
            self.index = self.index + 1;
            Some(&self.entries[self.index as usize])
        } else {
            None
        }
    }

    pub fn can_go_back(&self) -> (r: bool)
        requires
            self.wf(),
        ensures
            r == (self.cursor() > 0),
    {
        self.index > 0
    }

    pub fn can_go_forward(&self) -> (r: bool)
        requires
            self.wf(),
        ensures
            r == (self.cursor() + 1 < self.items().len()),
    {
        self.index + 1 < self.entries.len() as isize
    }

    pub fn current(&self) -> (r: Option<&HistoryEntry>)
        requires
            self.wf(),
        ensures
            self.cursor() >= 0 ==> r == Some(&self.items()[self.cursor()]),
            self.cursor() < 0 ==> r is None,
    {
        if self.index >= 0 && (self.index as usize) < self.entries.len() {
            Some(&self.entries[self.index as usize])
        } else {
            None
        }
    }

    /// The current entry, for changing it in place.
    pub fn current_mut(&mut self) -> (r: Option<&mut HistoryEntry>)
        requires
            old(self).wf(),
        ensures
            old(self).cursor() < 0 ==> r is None && final(self).items() == old(self).items()
                && final(self).cursor() == old(self).cursor(),
            old(self).cursor() >= 0 ==> r is Some && *r.unwrap() == old(self).items()[old(
                self,
            ).cursor()] && final(self).items() == old(self).items().update(
                old(self).cursor(),
                *final(r.unwrap()),
            ) && final(self).cursor() == old(self).cursor(),
    {
        if self.index >= 0 && (self.index as usize) < self.entries.len() {
            let i = self.index as usize;
            Some(&mut self.entries[i])
        } else {
            None
        }
    }

    pub fn len(&self) -> (r: usize)
        ensures
            r == self.items().len(),
    {
        self.entries.len()
    }

    pub fn is_empty(&self) -> (r: bool)
        ensures
            r == (self.items().len() == 0),
    {
        self.entries.len() == 0
    }

    pub fn current_index(&self) -> (r: isize)
        ensures
            r == self.cursor(),
    {
        self.index
    }

    pub fn entries(&self) -> (r: &[HistoryEntry])
        ensures
            r@ == self.items(),
    {
        self.entries.as_slice()
    }
}

impl Default for NavigationStack {
    fn default() -> (r: Self)
        ensures
            r.wf(),
            r.items() == Seq::<HistoryEntry>::empty(),
            r.cursor() == -1,
    {
        Self::new()
    }
}

} // verus!
