//! The selection in a list of the interactive shell, which wraps around at
//! either end.
use vstd::prelude::*;

verus! {

/// Which item of a list of `len` items is selected, if any.
#[derive(Debug, Clone, Copy, PartialEq, Eq, Structural)]
pub struct ListCursor {
    pub selected: Option<usize>,
    pub len: usize,
}

/// The selection after moving down: the next item, the first after the last,
/// the first when nothing was selected, nothing in an empty list.
pub open spec fn next_selection(selected: Option<usize>, len: usize) -> Option<usize> {
    if len == 0 {
        None
    } else {
        match selected {
            Some(i) => if i + 1 >= len {
                Some(0usize)
            } else {
                Some((i + 1) as usize)
            },
            None => Some(0usize),
        }
    }
}

/// The selection after moving up: the item before, the last instead of the
/// one before the first, the first when nothing was selected, nothing in an
/// empty list.
pub open spec fn previous_selection(selected: Option<usize>, len: usize) -> Option<usize> {
    if len == 0 {
        None
    } else {
        match selected {
            Some(i) => if i == 0 {
                Some((len - 1) as usize)
            } else {
                Some((i - 1) as usize)
            },
            None => Some(0usize),
        }
    }
}

impl ListCursor {
    /// A cursor over `len` items with nothing selected.
    pub fn new(len: usize) -> (r: ListCursor)
        ensures
            r.selected is None,
            r.len == len,
    {
        ListCursor { selected: None, len }
    }

    /// Moves the selection down.
    pub fn next(&mut self)
        ensures
            final(self).len == old(self).len,
            final(self).selected == next_selection(old(self).selected, old(self).len),
    {
        if self.len == 0 {
            self.selected = None;
            return;
        }
        let i = match self.selected {
            Some(i) => if i >= self.len - 1 {
                0
            } else {
                i + 1
            },
            None => 0,
        };
        self.selected = Some(i);
    }

    /// Moves the selection up.
    pub fn previous(&mut self)
        ensures
            final(self).len == old(self).len,
            final(self).selected == previous_selection(old(self).selected, old(self).len),
    {
        if self.len == 0 {
            self.selected = None;
            return;
        }
        let i = match self.selected {
            Some(i) => if i == 0 {
                self.len - 1
            } else {
                i - 1
            },
            None => 0,
        };
        self.selected = Some(i);
    }

    /// Clears the selection.
    pub fn deselect(&mut self)
        ensures
            final(self).len == old(self).len,
            final(self).selected is None,
    {
        self.selected = None;
    }
}

} // verus!
