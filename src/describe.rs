//! Debug-style descriptions of cards: texts quoted as Rust's `Debug` quotes
//! them, lists in brackets, and the blanks' answers as a map by position.

use vstd::prelude::*;
use crate::card::Card;
use crate::card_types::fill_in_the_blanks::FillInTheBlanks;
use crate::card_types::flashcard::FlashCard;
use crate::card_types::multiple_answer::MultipleAnswer;
use crate::card_types::multiple_choice::MultipleChoice;
use crate::card_types::order::Order;
use crate::choice::Choice;
use crate::text::{chars_of, join, join_chars, push_all, string_of, texts, views};

verus! {

/// A name for how `Debug` writes a text: quoted, with escapes.
pub uninterp spec fn debug_of(s: Seq<char>) -> Seq<char>;

/// Relies on `<str as Debug>::fmt`: the quoted text depends on the characters alone.
#[verifier::external_body]
fn debug_quoted(s: &str) -> (r: String)
    ensures
        r@ == debug_of(s@),
{
    format!("{:?}", s)
}

/// How `Debug` writes a boolean.
pub open spec fn bool_text(b: bool) -> Seq<char> {
    if b {
        "true"@
    } else {
        "false"@
    }
}

/// The decimal digit for `d`.
pub open spec fn digit(d: nat) -> char {
    if d == 0 {
        '0'
    } else if d == 1 {
        '1'
    } else if d == 2 {
        '2'
    } else if d == 3 {
        '3'
    } else if d == 4 {
        '4'
    } else if d == 5 {
        '5'
    } else if d == 6 {
        '6'
    } else if d == 7 {
        '7'
    } else if d == 8 {
        '8'
    } else {
        '9'
    }
}

/// The decimal digits of `n`.
pub open spec fn decimal(n: nat) -> Seq<char>
    decreases n,
{
    if n < 10 {
        seq![digit(n)]
    } else {
        decimal(n / 10).push(digit(n % 10))
    }
}

/// Items between brackets, separated by a comma and a space.
pub open spec fn bracketed(items: Seq<Seq<char>>) -> Seq<char> {
    "["@ + join(items, ", "@) + "]"@
}

/// The quoted form of each text.
pub open spec fn quoted_all(items: Seq<Seq<char>>) -> Seq<Seq<char>> {
    items.map_values(|t: Seq<char>| debug_of(t))
}

/// How `Debug` writes a choice.
pub open spec fn choice_debug(c: Choice) -> Seq<char> {
    "Choice { content: "@ + debug_of(c.content@) + ", selected: "@ + bool_text(c.selected) + " }"@
}

/// How `Debug` writes each choice.
pub open spec fn choice_debugs(cs: Seq<Choice>) -> Seq<Seq<char>> {
    cs.map_values(|c: Choice| choice_debug(c))
}

/// One entry of the blanks' answers: the position, then its accepted values.
pub open spec fn entry_debug(i: nat, values: Seq<Seq<char>>) -> Seq<char> {
    decimal(i) + ": "@ + bracketed(quoted_all(values))
}

/// The entries of the blanks' answers, in order of position.
pub open spec fn entries_debug(answers: Seq<Vec<String>>) -> Seq<Seq<char>> {
    Seq::new(answers.len(), |i: int| entry_debug(i as nat, texts(answers[i]@)))
}

/// How the blanks' answers are written: a map from position to values.
pub open spec fn answers_debug(answers: Seq<Vec<String>>) -> Seq<char> {
    "{"@ + join(entries_debug(answers), ", "@) + "}"@
}

/// Three labelled lines: `Question: `, then two more.
pub open spec fn labelled_text(
    question: Seq<char>,
    second: Seq<char>,
    second_value: Seq<char>,
    third: Seq<char>,
    third_value: Seq<char>,
) -> Seq<char> {
    "Question: "@ + question + "\n"@ + second + ": "@ + second_value + "\n"@ + third + ": "@
        + third_value
}

/// The description of a card.
pub open spec fn card_text(card: Card) -> Seq<char> {
    match card {
        Card::FlashCard(c) => "Question: "@ + c.question@ + "\nAnswer: "@ + c.answer@,
        Card::MultipleChoice(c) => labelled_text(
            c.question@,
            "Choices"@,
            bracketed(choice_debugs(c.choices.items@)),
            "Answers"@,
            bracketed(quoted_all(texts(c.answers@))),
        ),
        Card::MultipleAnswer(c) => labelled_text(
            c.question@,
            "Choices"@,
            bracketed(choice_debugs(c.choices.items@)),
            "Answers"@,
            bracketed(quoted_all(texts(c.answers@))),
        ),
        Card::FillInTheBlanks(c) => labelled_text(
            c.question@,
            "Content"@,
            debug_of(c.content@),
            "Answers"@,
            answers_debug(c.answers@),
        ),
        Card::Order(c) => labelled_text(
            c.question@,
            "Shuffled"@,
            bracketed(choice_debugs(c.shuffled.items@)),
            "Answer"@,
            bracketed(quoted_all(texts(c.answer@))),
        ),
    }
}

/// The decimal digits of `n`.
fn decimal_chars(n: usize) -> (r: Vec<char>)
    ensures
        r@ == decimal(n as nat),
    decreases n,
{
    let d = n % 10;
    let c = if d == 0 {
        '0'
    } else if d == 1 {
        '1'
    } else if d == 2 {
        '2'
    } else if d == 3 {
        '3'
    } else if d == 4 {
        '4'
    } else if d == 5 {
        '5'
    } else if d == 6 {
        '6'
    } else if d == 7 {
        '7'
    } else if d == 8 {
        '8'
    } else {
        '9'
    };
    if n < 10 {
        vec![c]
    } else {
        let mut r = decimal_chars(n / 10);
        r.push(c);
        r
    }
}

/// Items between brackets, separated by a comma and a space.
fn bracketed_chars(items: &Vec<Vec<char>>) -> (r: Vec<char>)
    ensures
        r@ == bracketed(views(items@)),
{
    let mut r = chars_of("[");
    push_all(&mut r, &join_chars(items, &chars_of(", ")));
    push_all(&mut r, &chars_of("]"));
    r
}

/// The quoted form of each text.
fn quoted_chars(items: &Vec<String>) -> (r: Vec<Vec<char>>)
    ensures
        views(r@) == quoted_all(texts(items@)),
{
    let mut r: Vec<Vec<char>> = Vec::new();
    let mut i: usize = 0;
    while i < items.len()
        invariant
            i <= items@.len(),
            views(r@) == quoted_all(texts(items@).take(i as int)),
        decreases items@.len() - i,
    {
        let q = chars_of(debug_quoted(items[i].as_str()).as_str());
        let ghost before = r@;
        r.push(q);
        assert(views(r@) =~= views(before).push(q@));
        assert(quoted_all(texts(items@).take(i + 1)) =~= quoted_all(texts(items@).take(i as int)).push(
            debug_of(items@[i as int]@),
        ));
        i = i + 1;
    }
    assert(texts(items@).take(i as int) =~= texts(items@));
    r
}

/// How `Debug` writes a list of texts.
fn texts_debug(items: &Vec<String>) -> (r: Vec<char>)
    ensures
        r@ == bracketed(quoted_all(texts(items@))),
{
    bracketed_chars(&quoted_chars(items))
}

/// How `Debug` writes a list of choices.
fn choices_debug(cs: &Vec<Choice>) -> (r: Vec<char>)
    ensures
        r@ == bracketed(choice_debugs(cs@)),
{
    let mut parts: Vec<Vec<char>> = Vec::new();
    let mut i: usize = 0;
    while i < cs.len()
        invariant
            i <= cs@.len(),
            views(parts@) == choice_debugs(cs@.take(i as int)),
        decreases cs@.len() - i,
    {
        let c = &cs[i];
        let mut d = chars_of("Choice { content: ");
        push_all(&mut d, &chars_of(debug_quoted(c.content.as_str()).as_str()));
        push_all(&mut d, &chars_of(", selected: "));
        if c.selected {
            push_all(&mut d, &chars_of("true"));
        } else {
            push_all(&mut d, &chars_of("false"));
        }
        push_all(&mut d, &chars_of(" }"));
        assert(d@ == choice_debug(cs@[i as int]));
        let ghost before = parts@;
        parts.push(d);
        assert(views(parts@) =~= views(before).push(d@));
        assert(choice_debugs(cs@.take(i + 1)) =~= choice_debugs(cs@.take(i as int)).push(
            choice_debug(cs@[i as int]),
        ));
        i = i + 1;
    }
    assert(cs@.take(i as int) =~= cs@);
    bracketed_chars(&parts)
}

/// How the blanks' answers are written.
fn answers_chars(answers: &Vec<Vec<String>>) -> (r: Vec<char>)
    ensures
        r@ == answers_debug(answers@),
{
    let mut parts: Vec<Vec<char>> = Vec::new();
    let mut i: usize = 0;
    while i < answers.len()
        invariant
            i <= answers@.len(),
            views(parts@) == entries_debug(answers@).take(i as int),
        decreases answers@.len() - i,
    {
        let mut d = decimal_chars(i);
        push_all(&mut d, &chars_of(": "));
        push_all(&mut d, &texts_debug(&answers[i]));
        let ghost before = parts@;
        parts.push(d);
        assert(views(parts@) =~= views(before).push(d@));
        assert(entries_debug(answers@).take(i + 1) =~= entries_debug(answers@).take(i as int).push(
            d@,
        ));
        i = i + 1;
    }
    assert(entries_debug(answers@).take(i as int) =~= entries_debug(answers@));
    let mut r = chars_of("{");
    push_all(&mut r, &join_chars(&parts, &chars_of(", ")));
    push_all(&mut r, &chars_of("}"));
    r
}

/// Three labelled lines: `Question: `, then two more.
fn labelled(
    question: &String,
    second: &str,
    second_value: &Vec<char>,
    third: &str,
    third_value: &Vec<char>,
) -> (r: String)
    ensures
        r@ == labelled_text(question@, second@, second_value@, third@, third_value@),
{
    let mut d = chars_of("Question: ");
    push_all(&mut d, &chars_of(question.as_str()));
    push_all(&mut d, &chars_of("\n"));
    push_all(&mut d, &chars_of(second));
    push_all(&mut d, &chars_of(": "));
    push_all(&mut d, second_value);
    push_all(&mut d, &chars_of("\n"));
    push_all(&mut d, &chars_of(third));
    push_all(&mut d, &chars_of(": "));
    push_all(&mut d, third_value);
    let r = string_of(&d, 0, d.len());
    assert(r@ =~= d@);
    r
}

impl FlashCard {
    /// The question and the answer.
    pub fn to_string(&self) -> (r: String)
        ensures
            r@ == card_text(Card::FlashCard(*self)),
    {
        let mut d = chars_of("Question: ");
        push_all(&mut d, &chars_of(self.question.as_str()));
        push_all(&mut d, &chars_of("\nAnswer: "));
        push_all(&mut d, &chars_of(self.answer.as_str()));
        let r = string_of(&d, 0, d.len());
        assert(r@ =~= d@);
        r
    }
}

impl MultipleChoice {
    /// The question, the choices and the right answer.
    pub fn to_string(&self) -> (r: String)
        ensures
            r@ == card_text(Card::MultipleChoice(*self)),
    {
        labelled(
            &self.question,
            "Choices",
            &choices_debug(&self.choices.items),
            "Answers",
            &texts_debug(&self.answers),
        )
    }
}

impl MultipleAnswer {
    /// The question, the choices and the right ones.
    pub fn to_string(&self) -> (r: String)
        ensures
            r@ == card_text(Card::MultipleAnswer(*self)),
    {
        labelled(
            &self.question,
            "Choices",
            &choices_debug(&self.choices.items),
            "Answers",
            &texts_debug(&self.answers),
        )
    }
}

impl Order {
    /// The question, the items as they stand and their right order.
    pub fn to_string(&self) -> (r: String)
        ensures
            r@ == card_text(Card::Order(*self)),
    {
        labelled(
            &self.question,
            "Shuffled",
            &choices_debug(&self.shuffled.items),
            "Answer",
            &texts_debug(&self.answer),
        )
    }
}

impl FillInTheBlanks {
    /// The question, the template and the accepted values of each blank.
    pub fn to_string(&self) -> (r: String)
        ensures
            r@ == card_text(Card::FillInTheBlanks(*self)),
    {
        let content = chars_of(debug_quoted(self.content.as_str()).as_str());
        labelled(&self.question, "Content", &content, "Answers", &answers_chars(&self.answers))
    }
}

impl Card {
    /// A description of the card: its question and what it holds.
    pub fn to_string(&self) -> (r: String)
        ensures
            r@ == card_text(*self),
    {
        match self {
            Card::FlashCard(card) => card.to_string(),
            Card::MultipleAnswer(card) => card.to_string(),
            Card::MultipleChoice(card) => card.to_string(),
            Card::FillInTheBlanks(card) => card.to_string(),
            Card::Order(card) => card.to_string(),
        }
    }
}

} // verus!
