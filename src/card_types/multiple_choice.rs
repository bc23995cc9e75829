use vstd::prelude::*;
use vstd::string::StringExecFns;
use crate::card_types::{
    choices_of, contents, grade_selection, marked_items, marked_lines, none_selected,
    same_texts, selected_contents, selected_texts,
};
use crate::choice::Choice;
use crate::document::{split_title, title_of};
use crate::errors::ParsingError;
use crate::stateful_list::StatefulList;
use crate::text::{chars_of, lines, lines_of, texts};
use crate::user_answer::UserAnswer;

verus! {

/// The choices written in a body: lines that start with `-` or `*`.
pub open spec fn choice_lines(body: Seq<char>) -> Seq<Seq<char>> {
    marked_items(lines(body), 0, '-', '*', 1)
}

/// The right choice written in a body: the line that starts with `*`.
pub open spec fn answer_lines(body: Seq<char>) -> Seq<Seq<char>> {
    marked_items(lines(body), 0, '*', '*', 1)
}

/// A card with one right choice among several.
pub struct MultipleChoice {
    pub question: String,
    pub choices: StatefulList<Choice>,
    pub answers: Vec<String>,
    pub user_answer: UserAnswer,
}

impl MultipleChoice {
    /// The card holds `question` and the choices written in `body`, none
    /// selected, the first under the cursor, and is ungraded.
    pub open spec fn parsed_from(&self, question: Seq<char>, body: Seq<char>) -> bool {
        &&& self.question@ == question
        &&& contents(self.choices.items@) == choice_lines(body)
        &&& none_selected(self.choices.items@)
        &&& self.choices.cursor == (if choice_lines(body).len() == 0 {
            None
        } else {
            Some(0usize)
        })
        &&& texts(self.answers@) == answer_lines(body)
        &&& self.user_answer == UserAnswer::Undecided
    }

    /// The card written in `content`: a question line, then one line per choice.
    pub fn parse_raw(content: String) -> (r: Result<Self, ParsingError>)
        ensures
            match title_of(content@) {
                Ok((q, b)) => r matches Ok(c) && c.parsed_from(q, b),
                Err(e) => r matches Err(re) && re == e,
            },
    {
        let chars = chars_of(content.as_str());
        match split_title(&chars) {
            Err(e) => Err(e),
            Ok((question, body)) => {
                let ls = lines_of(&body);
                let items = marked_lines(&ls, 0, '-', '*', 1);
                let answers = marked_lines(&ls, 0, '*', '*', 1);
                let choices = choices_of(&items);
                Ok(MultipleChoice {
                    question,
                    choices: StatefulList::with_items(choices),
                    answers,
                    user_answer: UserAnswer::Undecided,
                })
            },
        }
    }

    /// Unselect all choices.
    pub fn unselect_all(&mut self)
        ensures
            final(self).choices.items@.len() == old(self).choices.items@.len(),
            contents(final(self).choices.items@) == contents(old(self).choices.items@),
            none_selected(final(self).choices.items@),
            final(self).choices.cursor == old(self).choices.cursor,
            final(self).question == old(self).question,
            final(self).answers == old(self).answers,
            final(self).user_answer == old(self).user_answer,
    {
        let mut i: usize = 0;
        while i < self.choices.items.len()
            invariant
                i <= self.choices.items@.len() == old(self).choices.items@.len(),
                forall|j: int|
                    0 <= j < self.choices.items@.len() ==> (#[trigger] self.choices.items@[j]).content
                        == old(self).choices.items@[j].content,
                forall|j: int| 0 <= j < i ==> !(#[trigger] self.choices.items@[j]).selected,
                self.choices.cursor == old(self).choices.cursor,
                self.question == old(self).question,
                self.answers == old(self).answers,
                self.user_answer == old(self).user_answer,
            decreases self.choices.items@.len() - i,
        {
            self.choices.items[i].unselect();
            i = i + 1;
        }
        assert(contents(self.choices.items@) =~= contents(old(self).choices.items@));
    }

    /// Grade the selected choices against the right one.
    pub fn validate_answer(&mut self) -> (r: UserAnswer)
        ensures
            r == grade_selection(selected_contents(old(self).choices.items@), texts(old(self).answers@)),
            final(self).user_answer == r,
            final(self).question == old(self).question,
            final(self).choices == old(self).choices,
            final(self).answers == old(self).answers,
    {
        let chosen = selected_texts(&self.choices.items);
        self.user_answer = if chosen.len() == 0 {
            UserAnswer::Undecided
        } else if same_texts(&chosen, &self.answers) {
            UserAnswer::Correct
        } else {
            UserAnswer::Incorrect
        };
        self.user_answer
    }

    pub fn instructions(&self) -> (r: String)
        ensures
            r@ == "SPACE: Select choice, ENTER: Validate answer"@,
    {
        String::from_str("SPACE: Select choice, ENTER: Validate answer")
    }

    /// The card has been graded.
    pub fn check_answered(&self) -> (r: bool)
        ensures
            r == (self.user_answer != UserAnswer::Undecided),
    {
        self.user_answer != UserAnswer::Undecided
    }

    /// Select the choice under the cursor, and only it, while the card is
    /// ungraded.
    pub fn choose_current(&mut self)
        ensures
            contents(final(self).choices.items@) == contents(old(self).choices.items@),
            final(self).choices.cursor == old(self).choices.cursor,
            final(self).question == old(self).question,
            final(self).answers == old(self).answers,
            final(self).user_answer == old(self).user_answer,
            old(self).user_answer == UserAnswer::Undecided && old(self).choices.current() is Some
                ==> forall|j: int|
                0 <= j < final(self).choices.items@.len()
                    ==> (#[trigger] final(self).choices.items@[j]).selected
                    == (j == old(self).choices.current()->0),
            !(old(self).user_answer == UserAnswer::Undecided && old(self).choices.current() is Some)
                ==> final(self).choices.items@ == old(self).choices.items@,
    {
        if self.user_answer == UserAnswer::Undecided {
            match self.choices.selected() {
                Some(index) => {
                    if index < self.choices.items.len() {
                        self.unselect_all();
                        self.choices.items[index].select();
                    }
                },
                None => {},
            }
        }
    }
}

} // verus!
