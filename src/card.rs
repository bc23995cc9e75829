use vstd::prelude::*;
use crate::card_types::fill_in_the_blanks::{grade_blanks, FillInTheBlanks};
use crate::card_types::flashcard::FlashCard;
use crate::card_types::multiple_answer::MultipleAnswer;
use crate::card_types::multiple_choice::MultipleChoice;
use crate::card_types::order::{is_arrangement, lemma_order_reparse, Order};
use crate::card_types::{contents, grade_selection, selected_contents};
use crate::document::{
    card_sections, divider, section_outcome, split_section, split_title, title_of, CardKind,
};
use crate::errors::ParsingError;
use crate::text::{chars_of, split_chars, string_of, texts, views};
use crate::user_answer::UserAnswer;

verus! {

/// One card of a quiz, of one of the five kinds.
pub enum Card {
    FlashCard(FlashCard),
    MultipleChoice(MultipleChoice),
    MultipleAnswer(MultipleAnswer),
    FillInTheBlanks(FillInTheBlanks),
    Order(Order),
}

/// The card is of kind `k` and holds `question` and what `body` writes.
pub open spec fn card_from(card: Card, k: CardKind, question: Seq<char>, body: Seq<char>) -> bool {
    match card {
        Card::FlashCard(c) => k == CardKind::FlashCard && c.parsed_from(question, body),
        Card::MultipleChoice(c) => k == CardKind::MultipleChoice && c.parsed_from(question, body),
        Card::MultipleAnswer(c) => k == CardKind::MultipleAnswer && c.parsed_from(question, body),
        Card::FillInTheBlanks(c) => k == CardKind::FillInTheBlanks && c.parsed_from(question, body),
        Card::Order(c) => k == CardKind::Order && c.parsed_from(question, body),
    }
}

/// The card is the one that `section` writes.
pub open spec fn card_fits(card: Card, section: Seq<char>) -> bool {
    section_outcome(section) matches Ok((k, q, b)) && card_from(card, k, q, b)
}

/// What parsing `doc` must give: where every section is well formed, one
/// card for each, in order; otherwise the error of the first section that
/// is not.
pub open spec fn parse_fits(doc: Seq<char>, r: Result<Vec<Card>, ParsingError>) -> bool {
    let ss = card_sections(doc);
    &&& r is Ok <==> forall|i: int| 0 <= i < ss.len() ==> (#[trigger] section_outcome(ss[i])) is Ok
    &&& r matches Ok(cards) ==> cards@.len() == ss.len() && forall|i: int|
        0 <= i < ss.len() ==> card_fits(#[trigger] cards@[i], ss[i])
    &&& r matches Err(e) ==> exists|i: int|
        0 <= i < ss.len() && section_outcome(#[trigger] ss[i]) == Err::<
            (CardKind, Seq<char>, Seq<char>),
            ParsingError,
        >(e) && forall|j: int| 0 <= j < i ==> (#[trigger] section_outcome(ss[j])) is Ok
}

/// What validating changes on a card, `a` before and `b` after: a flash
/// card's grading prompt is opened or closed; any other card records its
/// grade and keeps everything else.
pub open spec fn validated(a: Card, b: Card) -> bool {
    match (a, b) {
        (Card::FlashCard(x), Card::FlashCard(y)) => {
            &&& y.show_validation_popup == !x.show_validation_popup
            &&& y.question == x.question
            &&& y.answer == x.answer
            &&& y.flipped == x.flipped
            &&& y.user_answer == x.user_answer
        },
        (Card::MultipleChoice(x), Card::MultipleChoice(y)) => {
            &&& y.question == x.question
            &&& y.choices == x.choices
            &&& y.answers == x.answers
        },
        (Card::MultipleAnswer(x), Card::MultipleAnswer(y)) => {
            &&& y.question == x.question
            &&& y.choices == x.choices
            &&& y.answers == x.answers
        },
        (Card::FillInTheBlanks(x), Card::FillInTheBlanks(y)) => {
            &&& y.question == x.question
            &&& y.content == x.content
            &&& y.output == x.output
            &&& y.user_input == x.user_input
            &&& y.answers == x.answers
            &&& y.blank_index == x.blank_index
        },
        (Card::Order(x), Card::Order(y)) => {
            &&& y.question == x.question
            &&& y.shuffled == x.shuffled
            &&& y.answer == x.answer
        },
        _ => false,
    }
}

/// Two cards hold the same question and the same written content; an
/// order card's current arrangement may differ.
pub open spec fn same_card(a: Card, b: Card) -> bool {
    match (a, b) {
        (Card::FlashCard(x), Card::FlashCard(y)) => x.question@ == y.question@ && x.answer@
            == y.answer@,
        (Card::MultipleChoice(x), Card::MultipleChoice(y)) => x.question@ == y.question@ && contents(
            x.choices.items@,
        ) == contents(y.choices.items@) && texts(x.answers@) == texts(y.answers@),
        (Card::MultipleAnswer(x), Card::MultipleAnswer(y)) => x.question@ == y.question@ && contents(
            x.choices.items@,
        ) == contents(y.choices.items@) && texts(x.answers@) == texts(y.answers@),
        (Card::FillInTheBlanks(x), Card::FillInTheBlanks(y)) => {
            &&& x.question@ == y.question@
            &&& x.content@ == y.content@
            &&& x.output@ == y.output@
            &&& x.answers@.len() == y.answers@.len()
            &&& forall|i: int|
                0 <= i < x.answers@.len() ==> texts((#[trigger] x.answers@[i])@) == texts(
                    y.answers@[i]@,
                )
        },
        (Card::Order(x), Card::Order(y)) => {
            &&& x.question@ == y.question@
            &&& texts(x.answer@) == texts(y.answer@)
            &&& is_arrangement(contents(y.shuffled.items@), contents(x.shuffled.items@))
        },
        _ => false,
    }
}

/// Parsing the same document twice gives the same outcome: the same error,
/// or cards that pair up one for one with the same content.
pub proof fn lemma_parse_repeatable(
    doc: Seq<char>,
    r1: Result<Vec<Card>, ParsingError>,
    r2: Result<Vec<Card>, ParsingError>,
)
    requires
        parse_fits(doc, r1),
        parse_fits(doc, r2),
    ensures
        r1 is Ok <==> r2 is Ok,
        r1 matches Err(e1) ==> r2 matches Err(e2) && e1 == e2,
        r1 matches Ok(c1) ==> r2 matches Ok(c2) && c1@.len() == c2@.len() && forall|i: int|
            0 <= i < c1@.len() ==> same_card(#[trigger] c1@[i], c2@[i]),
{
    let ss = card_sections(doc);
    if r1 is Err {
        let e1 = r1->Err_0;
        let e2 = r2->Err_0;
        let i1 = choose|i: int|
            0 <= i < ss.len() && section_outcome(#[trigger] ss[i]) == Err::<
                (CardKind, Seq<char>, Seq<char>),
                ParsingError,
            >(e1) && forall|j: int| 0 <= j < i ==> (#[trigger] section_outcome(ss[j])) is Ok;
        let i2 = choose|i: int|
            0 <= i < ss.len() && section_outcome(#[trigger] ss[i]) == Err::<
                (CardKind, Seq<char>, Seq<char>),
                ParsingError,
            >(e2) && forall|j: int| 0 <= j < i ==> (#[trigger] section_outcome(ss[j])) is Ok;
        if i1 < i2 {
            assert(section_outcome(ss[i1]) is Ok);
        } else if i2 < i1 {
            assert(section_outcome(ss[i2]) is Ok);
        }
    }
    if r1 is Ok {
        let c1 = r1->Ok_0;
        let c2 = r2->Ok_0;
        assert forall|i: int| 0 <= i < c1@.len() implies same_card(#[trigger] c1@[i], c2@[i]) by {
            assert(card_fits(c1@[i], ss[i]));
            assert(card_fits(c2@[i], ss[i]));
            if let (Card::Order(o1), Card::Order(o2)) = (c1@[i], c2@[i]) {
                let (k, q, b) = section_outcome(ss[i])->Ok_0;
                lemma_order_reparse(o1, o2, q, b);
            }
        }
    }
}

impl Card {
    /// The grade that the card holds.
    pub open spec fn answer_of(&self) -> UserAnswer {
        match self {
            Card::FlashCard(c) => c.user_answer,
            Card::MultipleChoice(c) => c.user_answer,
            Card::MultipleAnswer(c) => c.user_answer,
            Card::FillInTheBlanks(c) => c.user_answer,
            Card::Order(c) => c.user_answer,
        }
    }

    /// The grade that validating the card gives now; a flash card is graded
    /// by the user instead, and stays as it is.
    pub open spec fn grade(&self) -> UserAnswer {
        match self {
            Card::FlashCard(c) => UserAnswer::Undecided,
            Card::MultipleChoice(c) => grade_selection(
                selected_contents(c.choices.items@),
                texts(c.answers@),
            ),
            Card::MultipleAnswer(c) => grade_selection(
                selected_contents(c.choices.items@),
                texts(c.answers@),
            ),
            Card::FillInTheBlanks(c) => grade_blanks(c.user_input@, c.answers@),
            Card::Order(c) => if contents(c.shuffled.items@) == texts(c.answer@) {
                UserAnswer::Correct
            } else {
                UserAnswer::Incorrect
            },
        }
    }

    /// Grade the card; a flash card instead opens or closes the question
    /// asking the user to grade it.
    pub fn validate_answer(&mut self) -> (r: UserAnswer)
        ensures
            r == old(self).grade(),
            (*old(self) is FlashCard) ==> final(self).answer_of() == old(self).answer_of(),
            !(*old(self) is FlashCard) ==> final(self).answer_of() == r,
            validated(*old(self), *final(self)),
    {
        match self {
            Card::FlashCard(card) => card.validate_answer(),
            Card::MultipleAnswer(card) => card.validate_answer(),
            Card::MultipleChoice(card) => card.validate_answer(),
            Card::FillInTheBlanks(card) => card.validate_answer(),
            Card::Order(card) => card.validate_answer(),
        }
    }

    /// The card has been graded.
    pub fn check_answered(&self) -> (r: bool)
        ensures
            r == (self.answer_of() != UserAnswer::Undecided),
    {
        match self {
            Card::FlashCard(card) => card.user_answer != UserAnswer::Undecided,
            Card::MultipleAnswer(card) => card.user_answer != UserAnswer::Undecided,
            Card::MultipleChoice(card) => card.user_answer != UserAnswer::Undecided,
            Card::FillInTheBlanks(card) => card.user_answer != UserAnswer::Undecided,
            Card::Order(card) => card.user_answer != UserAnswer::Undecided,
        }
    }

    /// The keys that act on the card.
    pub fn instructions(&self) -> (r: String)
        ensures
            match self {
                Card::FlashCard(c) => r@ == "<SPACE>: Show cards back"@,
                Card::MultipleChoice(c) => r@ == "SPACE: Select choice, ENTER: Validate answer"@,
                Card::MultipleAnswer(c) => r@ == "<SPACE>: Select/unselect choice"@,
                Card::FillInTheBlanks(c) => r@
                    == "<ESC>: Quit application, <TAB>: Cycle selection, <Char>: Add character pressed to blank space"@,
                Card::Order(c) => r@
                    == "<SPACE>: Select item, use <Space> again on another item to swap them"@,
            },
    {
        match self {
            Card::FlashCard(card) => card.instructions(),
            Card::MultipleAnswer(card) => card.instructions(),
            Card::MultipleChoice(card) => card.instructions(),
            Card::FillInTheBlanks(card) => card.instructions(),
            Card::Order(card) => card.instructions(),
        }
    }

    /// The question of a card's text and its body.
    pub fn extract_card_title(content: &String) -> (r: Result<(String, String), ParsingError>)
        ensures
            match title_of(content@) {
                Ok((q, b)) => r matches Ok((rq, rb)) && rq@ == q && rb@ == b,
                Err(e) => r matches Err(re) && re == e,
            },
    {
        let chars = chars_of(content.as_str());
        match split_title(&chars) {
            Err(e) => Err(e),
            Ok((question, body)) => {
                let text = string_of(&body, 0, body.len());
                assert(text@ =~= body@);
                Ok((question, text))
            },
        }
    }

    /// The card that one section of a document writes.
    fn parse_section(section: &Vec<char>) -> (r: Result<Card, ParsingError>)
        ensures
            match section_outcome(section@) {
                Ok(_) => r matches Ok(c) && card_fits(c, section@),
                Err(e) => r matches Err(re) && re == e,
            },
    {
        match split_section(section) {
            Err(e) => Err(e),
            Ok((kind, text)) => {
                let raw = string_of(&text, 0, text.len());
                assert(raw@ =~= text@);
                match kind {
                    CardKind::FlashCard => match FlashCard::parse_raw(raw) {
                        Ok(c) => Ok(Card::FlashCard(c)),
                        Err(e) => Err(e),
                    },
                    CardKind::MultipleChoice => match MultipleChoice::parse_raw(raw) {
                        Ok(c) => Ok(Card::MultipleChoice(c)),
                        Err(e) => Err(e),
                    },
                    CardKind::MultipleAnswer => match MultipleAnswer::parse_raw(raw) {
                        Ok(c) => Ok(Card::MultipleAnswer(c)),
                        Err(e) => Err(e),
                    },
                    CardKind::FillInTheBlanks => match FillInTheBlanks::parse_raw(raw) {
                        Ok(c) => Ok(Card::FillInTheBlanks(c)),
                        Err(e) => Err(e),
                    },
                    CardKind::Order => match Order::parse_raw(raw) {
                        Ok(c) => Ok(Card::Order(c)),
                        Err(e) => Err(e),
                    },
                }
            },
        }
    }

    /// The cards of a quiz document, one for each section between `---`
    /// dividers; the first malformed section fails the whole document.
    pub fn card_parser(content: String) -> (r: Result<Vec<Card>, ParsingError>)
        ensures
            parse_fits(content@, r),
            r matches Ok(cards) ==> cards@.len() == card_sections(content@).len(),
    {
        let chars = chars_of(content.as_str());
        let dash = vec!['-', '-', '-'];
        assert(dash@ =~= divider());
        let sections = split_chars(&chars, &dash);
        let ghost ss = card_sections(content@);
        let mut cards: Vec<Card> = Vec::new();
        let mut i: usize = 0;
        while i < sections.len()
            invariant
                i <= sections@.len(),
                views(sections@) == ss,
                ss == card_sections(content@),
                cards@.len() == i,
                forall|j: int| 0 <= j < i ==> (#[trigger] section_outcome(ss[j])) is Ok,
                forall|j: int| 0 <= j < i ==> card_fits(#[trigger] cards@[j], ss[j]),
            decreases sections@.len() - i,
        {
            assert(ss[i as int] == sections@[i as int]@);
            match Card::parse_section(&sections[i]) {
                Ok(card) => {
                    cards.push(card);
                },
                Err(e) => {
                    assert(section_outcome(ss[i as int]) == Err::<
                        (CardKind, Seq<char>, Seq<char>),
                        ParsingError,
                    >(e));
                    let r: Result<Vec<Card>, ParsingError> = Err(e);
                    assert(!(section_outcome(ss[i as int]) is Ok));
                    assert(exists|k: int|
                        0 <= k < ss.len() && section_outcome(#[trigger] ss[k]) == Err::<
                            (CardKind, Seq<char>, Seq<char>),
                            ParsingError,
                        >(e) && forall|j: int| 0 <= j < k ==> (#[trigger] section_outcome(ss[j])) is Ok);
                    return r;
                },
            }
            i = i + 1;
        }
        Ok(cards)
    }
}

} // verus!
