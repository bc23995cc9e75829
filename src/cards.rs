use vstd::prelude::*;
use crate::card::Card;

verus! {

/// A deck of cards with the position of the current one.
pub struct Cards {
    pub current_card: usize,
    pub cards: Vec<Card>,
}

impl Cards {
    /// Create a deck with a series of cards, the first one current.
    pub fn with_cards(cards: Vec<Card>) -> (r: Self)
        ensures
            r.current_card == 0,
            r.cards@ == cards@,
    {
        Cards { current_card: 0, cards }
    }

    /// Move to the next card, staying on the last one.
    pub fn next(&mut self)
        ensures
            final(self).cards@ == old(self).cards@,
            final(self).current_card == (if old(self).current_card + 1 < old(self).cards@.len() {
                old(self).current_card + 1
            } else {
                old(self).current_card as int
            }),
    {
        if self.cards.len() > 0 && self.current_card < self.cards.len() - 1 {
            self.current_card += 1;
        }
    }

    /// Move to the previous card, staying on the first one.
    pub fn previous(&mut self)
        ensures
            final(self).cards@ == old(self).cards@,
            final(self).current_card == (if old(self).current_card > 0 {
                old(self).current_card - 1
            } else {
                0
            }),
    {
        if self.current_card > 0 {
            self.current_card -= 1;
        }
    }

    /// The current card, which the caller may change in place.
    pub fn selected(&mut self) -> (r: &mut Card)
        requires
            old(self).current_card < old(self).cards@.len(),
        ensures
            *r == old(self).cards@[old(self).current_card as int],
            final(self).cards@ == old(self).cards@.update(old(self).current_card as int, *final(r)),
            final(self).current_card == old(self).current_card,
    {
        &mut self.cards[self.current_card]
    }
}

} // verus!
