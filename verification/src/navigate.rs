//! A list with a movable selection, as a terminal front-end drives it: the
//! selection wraps around at both ends.

use vstd::prelude::*;

verus! {

/// A list of entries and the position the cursor stands on, if any.
pub struct StatefulList<T> {
    state: Option<usize>,
    inner: Vec<T>,
}

impl<T> StatefulList<T> {
    /// The entries, as the contracts see them.
    pub closed spec fn entries(&self) -> Seq<T> {
        self.inner@
    }

    /// The cursor, as the contracts see it.
    pub closed spec fn selected(&self) -> Option<usize> {
        self.state
    }

    /// A list over the given entries with nothing selected.
    pub fn with_items(items: Vec<T>) -> (r: StatefulList<T>)
        ensures
            r.entries() == items@,
            r.selected() is None,
    {
        StatefulList { state: None, inner: items }
    }

    /// The entries, in order.
    pub fn iter(&self) -> (r: &Vec<T>)
        ensures
            r@ == self.entries(),
    {
        &self.inner
    }

    /// The position the cursor stands on.
    pub fn get_state(&self) -> (r: Option<usize>)
        ensures
            r == self.selected(),
    {
        self.state
    }

    /// Moves the cursor one entry down, wrapping to the top past the last
    /// entry; an unset cursor lands on the first entry.
    pub fn next(&mut self)
        requires
            old(self).selected() is Some ==> old(self).entries().len() > 0,
        ensures
            final(self).entries() == old(self).entries(),
            final(self).selected() == (match old(self).selected() {
                Some(i) => if i >= old(self).entries().len() - 1 {
                    Some(0usize)
                } else {
                    Some((i + 1) as usize)
                },
                None => Some(0usize),
            }),
    {
        let i = match self.state {
            Some(i) => {
                if i >= self.inner.len() - 1 {
                    0
                } else {
                    i + 1
                }
            },
            None => 0,
        };
        self.state = Some(i);
    }

    /// Moves the cursor one entry up, wrapping to the bottom past the first
    /// entry; an unset cursor lands on the first entry.
    pub fn previous(&mut self)
        requires
            old(self).selected() is Some ==> old(self).entries().len() > 0,
        ensures
            final(self).entries() == old(self).entries(),
            final(self).selected() == (match old(self).selected() {
                Some(i) => if i == 0 {
                    Some((old(self).entries().len() - 1) as usize)
                } else {
                    Some((i - 1) as usize)
                },
                None => Some(0usize),
            }),
    {
        let i = match self.state {
            Some(i) => {
                if i == 0 {
                    self.inner.len() - 1
                } else {
                    i - 1
                }
            },
            None => 0,
        };
        self.state = Some(i);
    }

    /// Clears the cursor.
    pub fn unselect(&mut self)
        ensures
            final(self).entries() == old(self).entries(),
            final(self).selected() is None,
    {
        self.state = None;
    }
}

} // verus!
