use vstd::prelude::*;

verus! {

/// An ordered list of items with at most one selected position.
pub struct StatefulList<T> {
    pub items: Vec<T>,
    /// The selected position; `None` only while the list is empty.
    pub cursor: Option<usize>,
}

/// Where the cursor stands after moving forward in a list of `len` items.
pub open spec fn cursor_after_next(cursor: Option<usize>, len: nat) -> Option<usize> {
    if len == 0 {
        cursor
    } else {
        match cursor {
            Some(i) => if i + 1 >= len { Some(i) } else { Some((i + 1) as usize) },
            None => Some(0),
        }
    }
}

/// Where the cursor stands after moving backward in a list of `len` items.
pub open spec fn cursor_after_previous(cursor: Option<usize>, len: nat) -> Option<usize> {
    if len == 0 {
        cursor
    } else {
        match cursor {
            Some(i) => if i == 0 { Some(0) } else { Some((i - 1) as usize) },
            None => Some(0),
        }
    }
}

/// Moving forward from the last item, or backward from the first, leaves
/// the cursor where it is; on an empty list neither move changes anything.
pub proof fn lemma_moves_stop_at_ends(last: usize, len: nat, cursor: Option<usize>)
    requires
        last + 1 == len,
    ensures
        cursor_after_next(Some(last), len) == Some(last),
        cursor_after_previous(Some(0usize), len) == Some(0usize),
        cursor_after_next(cursor, 0) == cursor,
        cursor_after_previous(cursor, 0) == cursor,
{
}

impl<T> StatefulList<T> {
    /// The cursor is absent exactly when the list is empty, and otherwise
    /// names one of the items.
    pub open spec fn wf(&self) -> bool {
        match self.cursor {
            None => self.items@.len() == 0,
            Some(i) => i < self.items@.len(),
        }
    }

    /// The selected position, where it names an item.
    pub open spec fn current(&self) -> Option<usize> {
        match self.cursor {
            Some(i) => if i < self.items@.len() { Some(i) } else { None },
            None => None,
        }
    }

    /// Create a StatefulList with the items passed in, the first one selected.
    pub fn with_items(items: Vec<T>) -> (r: Self)
        ensures
            r.items@ == items@,
            r.cursor == (if items@.len() == 0 { None } else { Some(0usize) }),
            r.wf(),
    {
        let mut stateful_list = StatefulList { items, cursor: None };
        // Auto select the first item
        stateful_list.next();
        stateful_list
    }

    /// Move the selected position forward, stopping at the last item.
    pub fn next(&mut self)
        ensures
            final(self).items@ == old(self).items@,
            final(self).cursor == cursor_after_next(old(self).cursor, old(self).items@.len()),
            old(self).wf() ==> final(self).wf(),
    {
        let len = self.items.len();
        if len != 0 {
            let i: usize = match self.cursor {
                Some(i) => if i >= len - 1 { i } else { i + 1 },
                None => 0,
            };
            self.cursor = Some(i);
        }
    }

    /// Move the selected position backward, stopping at the first item.
    pub fn previous(&mut self)
        ensures
            final(self).items@ == old(self).items@,
            final(self).cursor == cursor_after_previous(old(self).cursor, old(self).items@.len()),
            old(self).wf() ==> final(self).wf(),
    {
        if self.items.len() != 0 {
            let i: usize = match self.cursor {
                Some(i) => if i == 0 { i } else { i - 1 },
                None => 0,
            };
            self.cursor = Some(i);
        }
    }

    /// Swap two items; the cursor stays where it is.
    pub fn swap(&mut self, a: usize, b: usize)
        requires
            a < old(self).items@.len(),
            b < old(self).items@.len(),
        ensures
            final(self).items@ == old(self).items@.update(a as int, old(self).items@[b as int]).update(
                b as int,
                old(self).items@[a as int],
            ),
            final(self).cursor == old(self).cursor,
    {
        if a != b {
            let (lo, hi) = if a < b { (a, b) } else { (b, a) };
            let ghost before = self.items@;
            let at_hi = self.items.remove(hi);
            let at_lo = self.items.remove(lo);
            self.items.insert(lo, at_hi);
            self.items.insert(hi, at_lo);
            assert(self.items@ =~= before.update(a as int, before[b as int]).update(
                b as int,
                before[a as int],
            ));
        }
    }

    /// Return the selected position.
    pub fn selected(&self) -> (r: Option<usize>)
        ensures
            r == (if self.items@.len() == 0 { None } else { self.cursor }),
    {
        if self.items.len() == 0 {
            return None;
        }
        self.cursor
    }

    /// Return the selected item, which the caller may change in place.
    pub fn selected_value(&mut self) -> (r: Option<&mut T>)
        ensures
            old(self).current() matches Some(i) ==> {
                &&& r is Some
                &&& *r->0 == old(self).items@[i as int]
                &&& final(self).items@ == old(self).items@.update(i as int, *final(r->0))
                &&& final(self).cursor == old(self).cursor
            },
            old(self).current() is None ==> {
                &&& r is None
                &&& final(self).items@ == old(self).items@
                &&& final(self).cursor == old(self).cursor
            },
    {
        match self.cursor {
            Some(i) => {
                if i < self.items.len() {
                    Some(&mut self.items[i])
                } else {
                    None
                }
            },
            None => None,
        }
    }
}

} // verus!
