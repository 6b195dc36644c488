use vstd::prelude::*;

verus! {

/// Rows that one entry of a pane takes on screen.
pub const ITEM_HEIGHT: usize = 1;

/// Cursor and scroll state of one pane over a list of `content_length` rows.
pub struct ScrollableTableState {
    pub selected: usize,
    pub position: usize,
    pub content_length: usize,
}

/// The last index that a list of `len` rows can select (0 for an empty list).
pub open spec fn last_index(len: nat) -> nat {
    if len == 0 {
        0
    } else {
        (len - 1) as nat
    }
}

/// The row that moving down from `selected` reaches in a list of `len` rows.
pub open spec fn next_index(selected: nat, len: nat) -> nat {
    if selected < last_index(len) {
        selected + 1
    } else {
        selected
    }
}

/// The row that moving up from `selected` reaches.
pub open spec fn prev_index(selected: nat) -> nat {
    if selected > 0 {
        (selected - 1) as nat
    } else {
        0
    }
}

impl ScrollableTableState {
    /// The selected index lies within the list, or is 0 on an empty one.
    pub open spec fn wf(&self) -> bool {
        self.selected <= last_index(self.content_length as nat)
    }

    pub fn new(content_length: usize) -> (r: Self)
        ensures
            r.wf(),
            r.selected == 0,
            r.position == 0,
            r.content_length == content_length,
    {
        ScrollableTableState { selected: 0, position: 0, content_length }
    }

    /// Adopts a new list length and goes back to the first row.
    pub fn resize(&mut self, content_length: usize)
        ensures
            final(self).wf(),
            final(self).selected == 0,
            final(self).position == 0,
            final(self).content_length == content_length,
    {
        self.selected = 0;
        self.position = 0;
        self.content_length = content_length;
    }

    pub fn selected(&self) -> (r: usize)
        ensures
            r == self.selected,
    {
        self.selected
    }

    /// Selects row `i` and scrolls to it.
    pub fn select(&mut self, i: usize)
        requires
            i <= last_index(old(self).content_length as nat),
        ensures
            final(self).wf(),
            final(self).selected == i,
            final(self).position == i * ITEM_HEIGHT,
            final(self).content_length == old(self).content_length,
    {
        self.selected = i;
        self.position = i * ITEM_HEIGHT;
    }

    /// Moves one row down, staying on the last row.
    pub fn move_next(&mut self)
        requires
            old(self).wf(),
        ensures
            final(self).wf(),
            final(self).content_length == old(self).content_length,
            final(self).selected == next_index(
                old(self).selected as nat,
                old(self).content_length as nat,
            ),
    {
        let last = if self.content_length == 0 {
            0
        } else {
            self.content_length - 1
        };
        let i = if self.selected < last {
            self.selected + 1
        } else {
            self.selected
        };
        self.select(i);
    }

    /// Moves one row up, staying on the first row.
    pub fn move_prev(&mut self)
        requires
            old(self).wf(),
        ensures
            final(self).wf(),
            final(self).content_length == old(self).content_length,
            final(self).selected == prev_index(old(self).selected as nat),
    {
        let i = if self.selected > 0 {
            self.selected - 1
        } else {
            0
        };
        self.select(i);
    }
}

/// Moving down from the last row of a list of any length stays there, moving
/// up from the first row stays there, and neither leaves the list.
pub proof fn lemma_selection_clamps(selected: nat, len: nat)
    requires
        selected <= last_index(len),
    ensures
        next_index(last_index(len), len) == last_index(len),
        prev_index(0) == 0,
        next_index(selected, len) <= last_index(len),
        prev_index(selected) <= last_index(len),
{
}

} // verus!
