use vstd::prelude::*;

verus! {

/// One option of a choice-based card.
#[derive(Debug)]
pub struct Choice {
    pub content: String,
    pub selected: bool,
}

impl Choice {
    /// Flip the current selected status
    pub fn select(&mut self)
        ensures
            final(self).selected == !old(self).selected,
            final(self).content == old(self).content,
    {
        self.selected = !self.selected;
    }

    /// Unselect the current choice
    pub fn unselect(&mut self)
        ensures
            !final(self).selected,
            final(self).content == old(self).content,
    {
        self.selected = false;
    }
}

} // verus!
