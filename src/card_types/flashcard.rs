use vstd::prelude::*;
use vstd::string::StringExecFns;
use crate::document::{split_title, title_of};
use crate::errors::ParsingError;
use crate::text::{chars_of, string_of};
use crate::user_answer::UserAnswer;

verus! {

/// A card with a question on the front and its answer on the back; the
/// user grades it.
pub struct FlashCard {
    pub question: String,
    pub answer: String,
    pub flipped: bool,
    pub show_validation_popup: bool,
    /// Has the card been validated/answered
    pub user_answer: UserAnswer,
}

impl FlashCard {
    /// The card holds `question` and, as its answer, `body`, face up and ungraded.
    pub open spec fn parsed_from(&self, question: Seq<char>, body: Seq<char>) -> bool {
        &&& self.question@ == question
        &&& self.answer@ == body
        &&& !self.flipped
        &&& !self.show_validation_popup
        &&& self.user_answer == UserAnswer::Undecided
    }

    pub fn instructions(&self) -> (r: String)
        ensures
            r@ == "<SPACE>: Show cards back"@,
    {
        String::from_str("<SPACE>: Show cards back")
    }

    /// Opens or closes the question asking the user to grade the card; the
    /// grade itself comes from the user's reply.
    pub fn validate_answer(&mut self) -> (r: UserAnswer)
        ensures
            r == UserAnswer::Undecided,
            final(self).show_validation_popup == !old(self).show_validation_popup,
            final(self).question == old(self).question,
            final(self).answer == old(self).answer,
            final(self).flipped == old(self).flipped,
            final(self).user_answer == old(self).user_answer,
    {
        self.show_validation_popup = !self.show_validation_popup;
        UserAnswer::Undecided
    }

    /// The card written in `content`: a question line, then the answer.
    pub fn parse_raw(content: String) -> (r: Result<Self, ParsingError>)
        ensures
            match title_of(content@) {
                Ok((q, b)) => r matches Ok(c) && c.parsed_from(q, b),
                Err(e) => r matches Err(re) && re == e,
            },
    {
        let chars = chars_of(content.as_str());
        match split_title(&chars) {
            Err(e) => Err(e),
            Ok((question, body)) => {
                let answer = string_of(&body, 0, body.len());
                assert(answer@ =~= body@);
                Ok(FlashCard {
                    question,
                    answer,
                    flipped: false,
                    show_validation_popup: false,
                    user_answer: UserAnswer::Undecided,
                })
            },
        }
    }

    /// Flip card over to show the back.
    pub fn show_back(&mut self)
        ensures
            final(self).flipped,
            final(self).question == old(self).question,
            final(self).answer == old(self).answer,
            final(self).show_validation_popup == old(self).show_validation_popup,
            final(self).user_answer == old(self).user_answer,
    {
        self.flipped = true;
    }

    /// Flip the card
    pub fn flip_card(&mut self)
        ensures
            final(self).flipped == !old(self).flipped,
            final(self).question == old(self).question,
            final(self).answer == old(self).answer,
            final(self).show_validation_popup == old(self).show_validation_popup,
            final(self).user_answer == old(self).user_answer,
    {
        self.flipped = !self.flipped;
    }
}

} // verus!
