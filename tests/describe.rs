use quiz_rs::card::Card;
use quiz_rs::card_types::fill_in_the_blanks::FillInTheBlanks;
use quiz_rs::card_types::flashcard::FlashCard;
use quiz_rs::card_types::multiple_choice::MultipleChoice;
use quiz_rs::card_types::order::Order;

#[test]
fn flashcard_description() {
    let card = FlashCard::parse_raw("# Q\nA".to_string()).unwrap();
    assert_eq!(card.to_string(), "Question: Q\nAnswer: A");
    assert_eq!(Card::FlashCard(card).to_string(), "Question: Q\nAnswer: A");
}

#[test]
fn multiple_choice_description() {
    let mut card = MultipleChoice::parse_raw("# Pick\n- 3\n* 4".to_string()).unwrap();
    card.choices.items[0].select();
    assert_eq!(
        card.to_string(),
        "Question: Pick\nChoices: [Choice { content: \"3\", selected: true }, Choice { content: \"4\", selected: false }]\nAnswers: [\"4\"]"
    );
}

#[test]
fn fill_in_the_blanks_description() {
    let card = FillInTheBlanks::parse_raw("# Complete\nThe \"sky\" is _blue|azure_".to_string()).unwrap();
    assert_eq!(
        card.to_string(),
        "Question: Complete\nContent: \"The \\\"sky\\\" is __\"\nAnswers: {0: [\"blue\", \"azure\"]}"
    );
}

#[test]
fn many_blanks_are_numbered_in_decimal() {
    let card = FillInTheBlanks::parse_raw("# Q\n_a_ _b_ _c_ _d_ _e_ _f_ _g_ _h_ _i_ _j_ _k_".to_string()).unwrap();
    assert!(card.to_string().ends_with("9: [\"j\"], 10: [\"k\"]}"));
}

#[test]
fn order_description() {
    let mut card = Order::parse_raw("# Sort\n1. a".to_string()).unwrap();
    card.shuffled.items[0].select();
    assert_eq!(
        card.to_string(),
        "Question: Sort\nShuffled: [Choice { content: \"a\", selected: true }]\nAnswer: [\"a\"]"
    );
}
