use quiz_rs::args::Args;
use quiz_rs::cards::Cards;
use quiz_rs::card::Card;
use quiz_rs::choice::Choice;
use quiz_rs::errors::{Errors, FileError, ParsingError};
use quiz_rs::file_type::FileType;
use quiz_rs::stateful_list::StatefulList;

#[test]
fn with_items_selects_first() {
    let list = StatefulList::with_items(vec![10, 20, 30]);
    assert_eq!(list.selected(), Some(0));
    let empty: StatefulList<u8> = StatefulList::with_items(vec![]);
    assert_eq!(empty.selected(), None);
}

#[test]
fn next_stops_at_last() {
    let mut list = StatefulList::with_items(vec![10, 20]);
    list.next();
    assert_eq!(list.selected(), Some(1));
    list.next();
    assert_eq!(list.selected(), Some(1));
}

#[test]
fn previous_stops_at_first() {
    let mut list = StatefulList::with_items(vec![10, 20]);
    list.previous();
    assert_eq!(list.selected(), Some(0));
    list.next();
    list.previous();
    assert_eq!(list.selected(), Some(0));
}

#[test]
fn moves_on_empty_list_do_nothing() {
    let mut list: StatefulList<u8> = StatefulList::with_items(vec![]);
    list.next();
    list.previous();
    assert_eq!(list.selected(), None);
    assert_eq!(list.cursor, None);
    assert!(list.selected_value().is_none());
}

#[test]
fn swap_keeps_cursor() {
    let mut list = StatefulList::with_items(vec![1, 2, 3]);
    list.next();
    list.swap(0, 2);
    assert_eq!(list.items, vec![3, 2, 1]);
    assert_eq!(list.selected(), Some(1));
    list.swap(1, 1);
    assert_eq!(list.items, vec![3, 2, 1]);
}

#[test]
fn selected_value_edits_in_place() {
    let mut list = StatefulList::with_items(vec![1, 2, 3]);
    list.next();
    if let Some(v) = list.selected_value() {
        *v = 7;
    }
    assert_eq!(list.items, vec![1, 7, 3]);
}

#[test]
fn choice_toggles() {
    let mut c = Choice { content: "a".to_string(), selected: false };
    c.select();
    assert!(c.selected);
    c.select();
    assert!(!c.selected);
    c.select();
    c.unselect();
    assert!(!c.selected);
    c.unselect();
    assert!(!c.selected);
}

#[test]
fn deck_navigation() {
    let cards = Card::card_parser("flashcard\n\n# A\n1\n---\nflashcard\n\n# B\n2".to_string()).unwrap();
    let mut deck = Cards::with_cards(cards);
    deck.previous();
    assert_eq!(deck.current_card, 0);
    deck.next();
    deck.next();
    assert_eq!(deck.current_card, 1);
    match deck.selected() {
        Card::FlashCard(c) => assert_eq!(c.question, "B"),
        _ => panic!("expected a flash card"),
    }
}

#[test]
fn file_validation() {
    assert_eq!(Args::validate_file(Some("md")), Ok(()));
    assert_eq!(Args::validate_file(Some("txt")), Err(FileError::InvalidFileType));
    assert_eq!(Args::validate_file(Some("MD")), Err(FileError::InvalidFileType));
    assert_eq!(Args::validate_file(None), Err(FileError::InvalidFileType));
    assert_eq!(FileType::from_osstr("md"), Some(FileType::Markdown));
    assert_eq!(FileType::from_osstr("markdown"), None);
    assert_eq!(FileType::Markdown.to_string(), "md");
}

#[test]
fn error_messages() {
    assert_eq!(
        ParsingError::IncorrectDivider.to_string(),
        "One or more cards have an incorrect divider (---)"
    );
    assert_eq!(
        ParsingError::NoContent.to_string(),
        "No available content to parse for one or more cards."
    );
    assert_eq!(FileError::InvalidFileType.to_string(), "Invalid file type");
    let e = Errors::ParsingError(ParsingError::NoQuestion);
    assert_eq!(e.heading(), "Parsing Error");
    assert!(e.to_string().starts_with("No question provided"));
    assert_eq!(Errors::FileError(FileError::InvalidFileType).heading(), "File Error");
}
