//! The layout of a quiz document: cards separated by `---`, each a type tag,
//! a blank line, a question line starting with `#`, and the body below it.

use vstd::prelude::*;
use crate::errors::ParsingError;
use crate::text::{
    chars_of, join, join_chars, lines, lines_of, lower_of, lowercase, non_empty, non_empty_chars,
    slice_of, split_chars, split_on, string_of, trim, trim_chars, views,
};

verus! {

/// The five kinds of card.
#[derive(Clone, Copy, Debug, PartialEq, Eq, Structural)]
pub enum CardKind {
    FlashCard,
    MultipleChoice,
    MultipleAnswer,
    FillInTheBlanks,
    Order,
}

/// The divider between two cards.
pub open spec fn divider() -> Seq<char> {
    seq!['-', '-', '-']
}

/// A blank line: what separates the type tag from the rest of a card.
pub open spec fn blank_line() -> Seq<char> {
    seq!['\n', '\n']
}

/// The sections of a document, one for each card.
pub open spec fn card_sections(doc: Seq<char>) -> Seq<Seq<char>> {
    split_on(doc, divider())
}

/// The non-empty blocks of a section, once trimmed, between blank lines.
pub open spec fn blocks_of(section: Seq<char>) -> Seq<Seq<char>> {
    non_empty(split_on(trim(section), blank_line()))
}

/// The kind named by a lower-cased type tag.
pub open spec fn kind_of(tag: Seq<char>) -> Option<CardKind> {
    if tag == "flashcard"@ {
        Some(CardKind::FlashCard)
    } else if tag == "multiple_choice"@ {
        Some(CardKind::MultipleChoice)
    } else if tag == "multiple_answer"@ {
        Some(CardKind::MultipleAnswer)
    } else if tag == "fill_in_the_blanks"@ {
        Some(CardKind::FillInTheBlanks)
    } else if tag == "order"@ {
        Some(CardKind::Order)
    } else {
        None
    }
}

/// The kind of card that a section declares.
pub open spec fn section_kind(section: Seq<char>) -> Result<CardKind, ParsingError> {
    let blocks = blocks_of(section);
    if blocks.len() == 0 {
        Err(ParsingError::IncorrectDivider)
    } else {
        match kind_of(lower_of(blocks[0])) {
            Some(k) => Ok(k),
            None => Err(ParsingError::NoCardType),
        }
    }
}

/// The question line and the body of a section: the block after the tag.
pub open spec fn section_text(section: Seq<char>) -> Seq<char> {
    let blocks = blocks_of(section);
    if blocks.len() > 1 {
        blocks[1]
    } else {
        Seq::empty()
    }
}

/// The question and the body of a card's text: the first line must start
/// with `#`, and its rest, trimmed, is the question; the other lines, joined,
/// are the body, which must not be empty.
pub open spec fn title_of(content: Seq<char>) -> Result<(Seq<char>, Seq<char>), ParsingError> {
    let ls = lines(content);
    if ls.len() == 0 || ls[0].len() == 0 || ls[0][0] != '#' {
        Err(ParsingError::NoQuestion)
    } else {
        let body = join(ls.drop_first(), seq!['\n']);
        if body.len() == 0 {
            Err(ParsingError::NoContent)
        } else {
            Ok((trim(ls[0].drop_first()), body))
        }
    }
}

/// Title extraction fails with `NoQuestion` exactly when the first line is
/// missing, empty, or does not start with `#`.
pub proof fn lemma_no_question(content: Seq<char>)
    ensures
        title_of(content) == Err::<(Seq<char>, Seq<char>), ParsingError>(ParsingError::NoQuestion)
            <==> (lines(content).len() == 0 || lines(content)[0].len() == 0 || lines(content)[0][0]
            != '#'),
{
}

/// What a section holds: its kind, question and body, or the first error
/// found in it.
pub open spec fn section_outcome(section: Seq<char>) -> Result<
    (CardKind, Seq<char>, Seq<char>),
    ParsingError,
> {
    match section_kind(section) {
        Err(e) => Err(e),
        Ok(k) => match title_of(section_text(section)) {
            Err(e) => Err(e),
            Ok((q, b)) => Ok((k, q, b)),
        },
    }
}

/// Whether two texts are equal.
pub fn same_chars(a: &Vec<char>, b: &Vec<char>) -> (r: bool)
    ensures
        r == (a@ == b@),
{
    if a.len() != b.len() {
        return false;
    }
    let mut i: usize = 0;
    while i < a.len()
        invariant
            a@.len() == b@.len(),
            i <= a@.len(),
            forall|j: int| 0 <= j < i ==> a@[j] == b@[j],
        decreases a@.len() - i,
    {
        if a[i] != b[i] {
            return false;
        }
        i = i + 1;
    }
    assert(a@ =~= b@);
    true
}

impl CardKind {
    /// The kind named by a lower-cased type tag, if any.
    pub fn from_tag(tag: &str) -> (r: Option<CardKind>)
        ensures
            r == kind_of(tag@),
    {
        let t = chars_of(tag);
        if same_chars(&t, &chars_of("flashcard")) {
            Some(CardKind::FlashCard)
        } else if same_chars(&t, &chars_of("multiple_choice")) {
            Some(CardKind::MultipleChoice)
        } else if same_chars(&t, &chars_of("multiple_answer")) {
            Some(CardKind::MultipleAnswer)
        } else if same_chars(&t, &chars_of("fill_in_the_blanks")) {
            Some(CardKind::FillInTheBlanks)
        } else if same_chars(&t, &chars_of("order")) {
            Some(CardKind::Order)
        } else {
            None
        }
    }
}

/// The question and the body of a card's text.
pub fn split_title(content: &Vec<char>) -> (r: Result<(String, Vec<char>), ParsingError>)
    ensures
        match title_of(content@) {
            Ok((q, b)) => r matches Ok((rq, rb)) && rq@ == q && rb@ == b,
            Err(e) => r matches Err(re) && re == e,
        },
{
    let mut ls = lines_of(content);
    if ls.len() == 0 || ls[0].len() == 0 || ls[0][0] != '#' {
        return Err(ParsingError::NoQuestion);
    }
    let ghost all = views(ls@);
    let first = ls.remove(0);
    assert(views(ls@) =~= all.drop_first());
    let nl = vec!['\n'];
    assert(nl@ =~= seq!['\n']);
    let body = join_chars(&ls, &nl);
    if body.len() == 0 {
        return Err(ParsingError::NoContent);
    }
    let q = trim_chars(&first, 1, first.len());
    assert(first@.subrange(1, first@.len() as int) =~= first@.drop_first());
    let question = string_of(&q, 0, q.len());
    assert(q@.subrange(0, q@.len() as int) =~= q@);
    Ok((question, body))
}

/// The kind of a section and the text that follows its tag.
pub fn split_section(section: &Vec<char>) -> (r: Result<(CardKind, Vec<char>), ParsingError>)
    ensures
        match section_kind(section@) {
            Ok(k) => r matches Ok((rk, rt)) && rk == k && rt@ == section_text(section@),
            Err(e) => r matches Err(re) && re == e,
        },
{
    let trimmed = trim_chars(section, 0, section.len());
    assert(section@.subrange(0, section@.len() as int) =~= section@);
    let gap = vec!['\n', '\n'];
    assert(gap@ =~= blank_line());
    let pieces = split_chars(&trimmed, &gap);
    let blocks = non_empty_chars(&pieces);
    if blocks.len() == 0 {
        return Err(ParsingError::IncorrectDivider);
    }
    let tag = string_of(&blocks[0], 0, blocks[0].len());
    assert(tag@ =~= blocks@[0]@);
    let lowered = lowercase(tag.as_str());
    match CardKind::from_tag(lowered.as_str()) {
        None => Err(ParsingError::NoCardType),
        Some(k) => {
            if blocks.len() > 1 {
                let text = slice_of(&blocks[1], 0, blocks[1].len());
                assert(text@ =~= blocks@[1]@);
                Ok((k, text))
            } else {
                Ok((k, Vec::new()))
            }
        },
    }
}

} // verus!
