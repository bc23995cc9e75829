use vstd::prelude::*;

verus! {

/// The grade of a card: not yet decided, or decided either way.
#[derive(Clone, Copy, Debug, PartialEq, Eq, Structural)]
pub enum UserAnswer {
    Undecided,
    Correct,
    Incorrect,
}

} // verus!
