use quiz_rs::card::Card;
use quiz_rs::document::CardKind;
use quiz_rs::errors::ParsingError;

fn parse(doc: &str) -> Result<Vec<Card>, ParsingError> {
    Card::card_parser(doc.to_string())
}

fn question_of(card: &Card) -> String {
    match card {
        Card::FlashCard(c) => c.question.clone(),
        Card::MultipleChoice(c) => c.question.clone(),
        Card::MultipleAnswer(c) => c.question.clone(),
        Card::FillInTheBlanks(c) => c.question.clone(),
        Card::Order(c) => c.question.clone(),
    }
}

const DECK: &str = "flashcard\n\n# What is the capital of France?\nParis\n---\nmultiple_choice\n\n# Pick the even number\n- 3\n* 4\n- 5\n---\nmultiple_answer\n\n# Pick the primes\n[*] 2\n[ ] 4\n[*] 5\n---\nfill_in_the_blanks\n\n# Complete\nThe sky is _blue|azure_ today\n---\norder\n\n# Sort\n1. one\n2. two\n3. three";

#[test]
fn card_count_matches_sections() {
    let cards = parse(DECK).unwrap();
    assert_eq!(cards.len(), 5);
    assert!(matches!(cards[0], Card::FlashCard(_)));
    assert!(matches!(cards[1], Card::MultipleChoice(_)));
    assert!(matches!(cards[2], Card::MultipleAnswer(_)));
    assert!(matches!(cards[3], Card::FillInTheBlanks(_)));
    assert!(matches!(cards[4], Card::Order(_)));
}

#[test]
fn single_card_document() {
    let cards = parse("flashcard\n\n# Q\nA").unwrap();
    assert_eq!(cards.len(), 1);
}

#[test]
fn flashcard_fields() {
    let cards = parse("flashcard\n\n#   What is 2 + 2?  \nFour\nor 4").unwrap();
    match &cards[0] {
        Card::FlashCard(c) => {
            assert_eq!(c.question, "What is 2 + 2?");
            assert_eq!(c.answer, "Four\nor 4");
            assert!(!c.flipped);
            assert!(!c.show_validation_popup);
        }
        _ => panic!("expected a flash card"),
    }
}

#[test]
fn card_type_is_case_insensitive() {
    let cards = parse("FlashCard\n\n# Q\nA\n---\nORDER\n\n# Sort\n1. a").unwrap();
    assert!(matches!(cards[0], Card::FlashCard(_)));
    assert!(matches!(cards[1], Card::Order(_)));
}

#[test]
fn tag_lookup() {
    assert_eq!(CardKind::from_tag("flashcard"), Some(CardKind::FlashCard));
    assert_eq!(CardKind::from_tag("multiple_choice"), Some(CardKind::MultipleChoice));
    assert_eq!(CardKind::from_tag("multiple_answer"), Some(CardKind::MultipleAnswer));
    assert_eq!(CardKind::from_tag("fill_in_the_blanks"), Some(CardKind::FillInTheBlanks));
    assert_eq!(CardKind::from_tag("order"), Some(CardKind::Order));
    assert_eq!(CardKind::from_tag("Order"), None);
    assert_eq!(CardKind::from_tag("quiz"), None);
}

#[test]
fn unknown_card_type() {
    assert_eq!(parse("essay\n\n# Q\nA").err(), Some(ParsingError::NoCardType));
}

#[test]
fn empty_document_has_incorrect_divider() {
    assert_eq!(parse("").err(), Some(ParsingError::IncorrectDivider));
    assert_eq!(parse("   \n ").err(), Some(ParsingError::IncorrectDivider));
}

#[test]
fn trailing_divider_is_an_empty_section() {
    assert_eq!(parse("flashcard\n\n# Q\nA\n---\n").err(), Some(ParsingError::IncorrectDivider));
}

#[test]
fn missing_hash_is_no_question() {
    assert_eq!(parse("flashcard\n\nQuestion\nA").err(), Some(ParsingError::NoQuestion));
}

#[test]
fn missing_question_block_is_no_question() {
    assert_eq!(parse("flashcard").err(), Some(ParsingError::NoQuestion));
}

#[test]
fn missing_body_is_no_content() {
    assert_eq!(parse("flashcard\n\n# Q").err(), Some(ParsingError::NoContent));
}

#[test]
fn first_bad_section_decides_the_error() {
    let doc = "flashcard\n\n# Q\nA\n---\nessay\n\n# Q\nA\n---\nflashcard\n\nno hash\nA";
    assert_eq!(parse(doc).err(), Some(ParsingError::NoCardType));
}

#[test]
fn title_extraction() {
    let (q, body) = Card::extract_card_title(&"# Hello \nworld\nagain".to_string()).unwrap();
    assert_eq!(q, "Hello");
    assert_eq!(body, "world\nagain");
}

#[test]
fn title_extraction_errors() {
    assert_eq!(Card::extract_card_title(&String::new()).err(), Some(ParsingError::NoQuestion));
    assert_eq!(Card::extract_card_title(&"\n# Q\nA".to_string()).err(), Some(ParsingError::NoQuestion));
    assert_eq!(Card::extract_card_title(&"Q\nA".to_string()).err(), Some(ParsingError::NoQuestion));
    assert_eq!(Card::extract_card_title(&"# Q".to_string()).err(), Some(ParsingError::NoContent));
    assert_eq!(Card::extract_card_title(&"# Q\n".to_string()).err(), Some(ParsingError::NoContent));
}

#[test]
fn title_extraction_drops_carriage_returns() {
    let (q, body) = Card::extract_card_title(&"# Q\r\nA\r\nB".to_string()).unwrap();
    assert_eq!(q, "Q");
    assert_eq!(body, "A\nB");
}

#[test]
fn reparsing_gives_the_same_cards() {
    let first = parse(DECK).unwrap();
    let second = parse(DECK).unwrap();
    assert_eq!(first.len(), second.len());
    for (a, b) in first.iter().zip(second.iter()) {
        assert_eq!(question_of(a), question_of(b));
        match (a, b) {
            (Card::FlashCard(x), Card::FlashCard(y)) => assert_eq!(x.answer, y.answer),
            (Card::MultipleChoice(x), Card::MultipleChoice(y)) => {
                assert_eq!(x.answers, y.answers);
                let cx: Vec<&String> = x.choices.items.iter().map(|c| &c.content).collect();
                let cy: Vec<&String> = y.choices.items.iter().map(|c| &c.content).collect();
                assert_eq!(cx, cy);
            }
            (Card::MultipleAnswer(x), Card::MultipleAnswer(y)) => assert_eq!(x.answers, y.answers),
            (Card::FillInTheBlanks(x), Card::FillInTheBlanks(y)) => {
                assert_eq!(x.content, y.content);
                assert_eq!(x.answers, y.answers);
            }
            (Card::Order(x), Card::Order(y)) => assert_eq!(x.answer, y.answer),
            _ => panic!("cards of different kinds"),
        }
    }
}
