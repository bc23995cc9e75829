use vstd::prelude::*;
use vstd::string::StringExecFns;
use crate::card_types::{
    choices_of, contents, grade_selection, marked_items, marked_lines, none_selected,
    same_texts, selected_contents, selected_texts,
};
use crate::choice::Choice;
use crate::document::{split_title, title_of};
use crate::errors::ParsingError;
use crate::stateful_list::StatefulList;
use crate::text::{chars_of, lines, lines_of, texts};
use crate::user_answer::UserAnswer;

verus! {

/// The choices written in a body: lines such as `[*] text` or `[ ] text`,
/// with `*` or a space as their second character; the text follows the
/// first three characters.
pub open spec fn option_lines(body: Seq<char>) -> Seq<Seq<char>> {
    marked_items(lines(body), 1, ' ', '*', 3)
}

/// The right choices written in a body: those marked with `*`, in order.
pub open spec fn right_lines(body: Seq<char>) -> Seq<Seq<char>> {
    marked_items(lines(body), 1, '*', '*', 3)
}

/// A card with any number of right choices, all of which must be selected.
pub struct MultipleAnswer {
    pub question: String,
    pub choices: StatefulList<Choice>,
    pub answers: Vec<String>,
    pub user_answer: UserAnswer,
}

impl MultipleAnswer {
    /// The card holds `question` and the choices written in `body`, none
    /// selected, the first under the cursor, and is ungraded.
    pub open spec fn parsed_from(&self, question: Seq<char>, body: Seq<char>) -> bool {
        &&& self.question@ == question
        &&& contents(self.choices.items@) == option_lines(body)
        &&& none_selected(self.choices.items@)
        &&& self.choices.cursor == (if option_lines(body).len() == 0 {
            None
        } else {
            Some(0usize)
        })
        &&& texts(self.answers@) == right_lines(body)
        &&& self.user_answer == UserAnswer::Undecided
    }

    pub fn instructions(&self) -> (r: String)
        ensures
            r@ == "<SPACE>: Select/unselect choice"@,
    {
        String::from_str("<SPACE>: Select/unselect choice")
    }

    /// Grade the selected choices, in list order, against the right ones.
    pub fn validate_answer(&mut self) -> (r: UserAnswer)
        ensures
            r == grade_selection(selected_contents(old(self).choices.items@), texts(old(self).answers@)),
            final(self).user_answer == r,
            final(self).question == old(self).question,
            final(self).choices == old(self).choices,
            final(self).answers == old(self).answers,
    {
        let chosen = selected_texts(&self.choices.items);
        self.user_answer = if chosen.len() == 0 {
            UserAnswer::Undecided
        } else if same_texts(&chosen, &self.answers) {
            UserAnswer::Correct
        } else {
            UserAnswer::Incorrect
        };
        self.user_answer
    }

    /// The card written in `content`: a question line, then one line per choice.
    pub fn parse_raw(content: String) -> (r: Result<Self, ParsingError>)
        ensures
            match title_of(content@) {
                Ok((q, b)) => r matches Ok(c) && c.parsed_from(q, b),
                Err(e) => r matches Err(re) && re == e,
            },
    {
        let chars = chars_of(content.as_str());
        match split_title(&chars) {
            Err(e) => Err(e),
            Ok((question, body)) => {
                let ls = lines_of(&body);
                let items = marked_lines(&ls, 1, ' ', '*', 3);
                let answers = marked_lines(&ls, 1, '*', '*', 3);
                let choices = choices_of(&items);
                Ok(MultipleAnswer {
                    question,
                    choices: StatefulList::with_items(choices),
                    answers,
                    user_answer: UserAnswer::Undecided,
                })
            },
        }
    }

    /// The card has been graded.
    pub fn check_answered(&self) -> (r: bool)
        ensures
            r == (self.user_answer != UserAnswer::Undecided),
    {
        self.user_answer != UserAnswer::Undecided
    }

    /// Toggle the choice under the cursor, leaving the others as they are,
    /// while the card is ungraded.
    pub fn toggle_current(&mut self)
        ensures
            final(self).choices.cursor == old(self).choices.cursor,
            final(self).question == old(self).question,
            final(self).answers == old(self).answers,
            final(self).user_answer == old(self).user_answer,
            old(self).user_answer == UserAnswer::Undecided && old(self).choices.current() is Some
                ==> ({
                let i = old(self).choices.current()->0 as int;
                let c = old(self).choices.items@[i];
                final(self).choices.items@ == old(self).choices.items@.update(
                    i,
                    Choice { content: c.content, selected: !c.selected },
                )
            }),
            !(old(self).user_answer == UserAnswer::Undecided && old(self).choices.current() is Some)
                ==> final(self).choices.items@ == old(self).choices.items@,
    {
        if self.user_answer == UserAnswer::Undecided {
            match self.choices.selected() {
                Some(index) => {
                    if index < self.choices.items.len() {
                        self.choices.items[index].select();
                    }
                },
                None => {},
            }
        }
    }
}

} // verus!
