use quiz_rs::card::Card;
use quiz_rs::card_types::fill_in_the_blanks::FillInTheBlanks;
use quiz_rs::card_types::flashcard::FlashCard;
use quiz_rs::card_types::multiple_answer::MultipleAnswer;
use quiz_rs::card_types::multiple_choice::MultipleChoice;
use quiz_rs::card_types::order::Order;
use quiz_rs::choice::Choice;
use quiz_rs::user_answer::UserAnswer;

fn mc() -> MultipleChoice {
    MultipleChoice::parse_raw("# Pick the even number\n- 3\n* 4\n- 5".to_string()).unwrap()
}

fn ma() -> MultipleAnswer {
    MultipleAnswer::parse_raw("# Pick the primes\n[*] 2\n[ ] 4\n[*] 5".to_string()).unwrap()
}

fn contents(items: &[Choice]) -> Vec<String> {
    items.iter().map(|c| c.content.clone()).collect()
}

#[test]
fn multiple_choice_parsing() {
    let card = mc();
    assert_eq!(card.question, "Pick the even number");
    assert_eq!(contents(&card.choices.items), vec!["3", "4", "5"]);
    assert_eq!(card.answers, vec!["4"]);
    assert_eq!(card.choices.selected(), Some(0));
    assert_eq!(card.user_answer, UserAnswer::Undecided);
}

#[test]
fn multiple_choice_right_choice_is_correct() {
    let mut card = mc();
    card.choices.items[1].select();
    assert_eq!(card.validate_answer(), UserAnswer::Correct);
    assert!(card.check_answered());
}

#[test]
fn multiple_choice_other_choice_is_incorrect() {
    let mut card = mc();
    card.choices.items[2].select();
    assert_eq!(card.validate_answer(), UserAnswer::Incorrect);
}

#[test]
fn multiple_choice_nothing_selected_is_undecided() {
    let mut card = mc();
    assert_eq!(card.validate_answer(), UserAnswer::Undecided);
    assert!(!card.check_answered());
}

#[test]
fn multiple_choice_choose_current_is_exclusive() {
    let mut card = mc();
    card.choose_current();
    card.choices.next();
    card.choose_current();
    let selected: Vec<bool> = card.choices.items.iter().map(|c| c.selected).collect();
    assert_eq!(selected, vec![false, true, false]);
    assert_eq!(card.validate_answer(), UserAnswer::Correct);
}

#[test]
fn multiple_choice_unselect_all() {
    let mut card = mc();
    card.choices.items[0].select();
    card.choices.items[2].select();
    card.unselect_all();
    assert!(card.choices.items.iter().all(|c| !c.selected));
}

#[test]
fn multiple_choice_skips_unmarked_lines() {
    let card = MultipleChoice::parse_raw("# Q\n\n- a\nnote\n* b".to_string()).unwrap();
    assert_eq!(contents(&card.choices.items), vec!["a", "b"]);
    assert_eq!(card.answers, vec!["b"]);
}

#[test]
fn multiple_answer_parsing() {
    let card = ma();
    assert_eq!(contents(&card.choices.items), vec!["2", "4", "5"]);
    assert_eq!(card.answers, vec!["2", "5"]);
}

#[test]
fn multiple_answer_exact_set_is_correct() {
    let mut card = ma();
    card.choices.items[0].select();
    card.choices.items[2].select();
    assert_eq!(card.validate_answer(), UserAnswer::Correct);
}

#[test]
fn multiple_answer_subset_is_incorrect() {
    let mut card = ma();
    card.choices.items[0].select();
    assert_eq!(card.validate_answer(), UserAnswer::Incorrect);
}

#[test]
fn multiple_answer_superset_is_incorrect() {
    let mut card = ma();
    for c in card.choices.items.iter_mut() {
        c.select();
    }
    assert_eq!(card.validate_answer(), UserAnswer::Incorrect);
}

#[test]
fn multiple_answer_toggle_twice_unselects() {
    let mut card = ma();
    card.toggle_current();
    assert!(card.choices.items[0].selected);
    card.toggle_current();
    assert!(!card.choices.items[0].selected);
    assert_eq!(card.validate_answer(), UserAnswer::Undecided);
}

#[test]
fn flashcard_behaviour() {
    let mut card = FlashCard::parse_raw("# Q\nA".to_string()).unwrap();
    assert_eq!(card.instructions(), "<SPACE>: Show cards back");
    card.flip_card();
    assert!(card.flipped);
    card.flip_card();
    assert!(!card.flipped);
    card.show_back();
    card.show_back();
    assert!(card.flipped);
    assert_eq!(card.validate_answer(), UserAnswer::Undecided);
    assert!(card.show_validation_popup);
    assert_eq!(card.validate_answer(), UserAnswer::Undecided);
    assert!(!card.show_validation_popup);
    assert_eq!(card.user_answer, UserAnswer::Undecided);
}

#[test]
fn order_parsing_keeps_items() {
    let card = Order::parse_raw("# Sort\n1. one\n2. two\n3. three".to_string()).unwrap();
    assert_eq!(card.answer, vec!["one", "two", "three"]);
    let mut shuffled = contents(&card.shuffled.items);
    shuffled.sort();
    assert_eq!(shuffled, vec!["one", "three", "two"]);
    assert!(card.shuffled.items.iter().all(|c| !c.selected));
}

fn order_in(items: &[&str]) -> Order {
    let mut card = Order::parse_raw("# Sort\n1. a\n2. b\n3. c\n4. d".to_string()).unwrap();
    for (k, item) in items.iter().enumerate() {
        card.shuffled.items[k].content = item.to_string();
    }
    card
}

#[test]
fn order_swap_of_two_marked_items() {
    let mut card = order_in(&["a", "c", "b", "d"]);
    card.shuffled.items[1].select();
    assert_eq!(card.multiple_selected(), None);
    card.shuffled.items[2].select();
    assert_eq!(card.multiple_selected(), Some((1, 2)));
    card.swap_selected();
    assert_eq!(contents(&card.shuffled.items), vec!["a", "b", "c", "d"]);
    assert!(card.shuffled.items.iter().all(|c| !c.selected));
    assert_eq!(card.validate_answer(), UserAnswer::Correct);
}

#[test]
fn order_three_marked_items_do_not_swap() {
    let mut card = order_in(&["d", "c", "b", "a"]);
    card.shuffled.items[0].select();
    card.shuffled.items[1].select();
    card.shuffled.items[3].select();
    assert_eq!(card.multiple_selected(), None);
    card.swap_selected();
    assert_eq!(contents(&card.shuffled.items), vec!["d", "c", "b", "a"]);
    assert_eq!(card.validate_answer(), UserAnswer::Incorrect);
}

#[test]
fn order_pick_current_twice_swaps() {
    let mut card = order_in(&["b", "a", "c", "d"]);
    card.pick_current();
    card.shuffled.next();
    card.pick_current();
    assert_eq!(contents(&card.shuffled.items), vec!["a", "b", "c", "d"]);
    assert!(card.shuffled.items.iter().all(|c| !c.selected));
}

fn sky() -> FillInTheBlanks {
    FillInTheBlanks::parse_raw("# Complete\nThe sky is _blue|azure_".to_string()).unwrap()
}

#[test]
fn fill_in_the_blanks_parsing() {
    let card = sky();
    assert_eq!(card.content, "The sky is __");
    assert_eq!(card.output, "The sky is ");
    assert_eq!(card.answers, vec![vec!["blue".to_string(), "azure".to_string()]]);
    assert_eq!(card.user_input, vec![String::new()]);
    assert_eq!(card.blank_index, 0);
}

#[test]
fn fill_in_the_blanks_accepted_value_is_correct() {
    let mut card = sky();
    card.user_input[0] = "azure".to_string();
    assert_eq!(card.validate_answer(), UserAnswer::Correct);
}

#[test]
fn fill_in_the_blanks_other_value_is_incorrect() {
    let mut card = sky();
    card.user_input[0] = "green".to_string();
    assert_eq!(card.validate_answer(), UserAnswer::Incorrect);
}

#[test]
fn fill_in_the_blanks_empty_is_undecided() {
    let mut card = sky();
    assert_eq!(card.validate_answer(), UserAnswer::Undecided);
}

#[test]
fn fill_in_the_blanks_partial_answer_is_correct() {
    let mut card = FillInTheBlanks::parse_raw("# Q\n_a_ and _b|c_".to_string()).unwrap();
    assert_eq!(card.answers.len(), 2);
    card.user_input[1] = "c".to_string();
    assert_eq!(card.validate_answer(), UserAnswer::Correct);
    card.user_input[0] = "x".to_string();
    assert_eq!(card.validate_answer(), UserAnswer::Incorrect);
}

#[test]
fn fill_in_the_blanks_markers() {
    let card = FillInTheBlanks::parse_raw("# Q\nx _a_ y _b|c_ z_\n_d\n_".to_string()).unwrap();
    assert_eq!(card.answers.len(), 2);
    assert_eq!(card.content, "x __ y __ z_\n_d\n_");
    assert_eq!(card.output, "x  y  z_\n_d\n_");
    assert_eq!(card.answers[1], vec!["b".to_string(), "c".to_string()]);
}

#[test]
fn fill_in_the_blanks_typing_updates_output() {
    let mut card = FillInTheBlanks::parse_raw("# Q\nThe _sky|air_ is _blue_ today".to_string()).unwrap();
    card.type_char('s');
    card.type_char('k');
    card.type_char('x');
    card.erase_char();
    card.type_char('y');
    assert_eq!(card.user_input[0], "sky");
    assert_eq!(card.output, "The sky is  today");
    card.next();
    card.type_char('b');
    assert_eq!(card.output, "The sky is b today");
    card.next();
    assert_eq!(card.blank_index, 0);
    card.erase_char();
    card.erase_char();
    card.erase_char();
    card.erase_char();
    assert_eq!(card.user_input[0], "");
    assert_eq!(card.output, "The  is b today");
}

#[test]
fn fill_in_the_blanks_next_wraps() {
    let mut card = FillInTheBlanks::parse_raw("# Q\n_a_ _b_ _c_".to_string()).unwrap();
    card.next();
    assert_eq!(card.blank_index, 1);
    card.next();
    assert_eq!(card.blank_index, 2);
    card.next();
    assert_eq!(card.blank_index, 0);
}

#[test]
fn card_dispatch() {
    let mut card = Card::MultipleChoice(mc());
    assert_eq!(card.instructions(), "SPACE: Select choice, ENTER: Validate answer");
    assert!(!card.check_answered());
    if let Card::MultipleChoice(c) = &mut card {
        c.choices.items[1].select();
    }
    assert_eq!(card.validate_answer(), UserAnswer::Correct);
    assert!(card.check_answered());
}

#[test]
fn order_pick_current_on_graded_card_does_nothing() {
    let mut card = order_in(&["b", "a", "c", "d"]);
    assert_eq!(card.validate_answer(), UserAnswer::Incorrect);
    card.pick_current();
    assert_eq!(contents(&card.shuffled.items), vec!["b", "a", "c", "d"]);
    assert!(card.shuffled.items.iter().all(|c| !c.selected));
}

#[test]
fn order_pick_current_once_only_marks() {
    let mut card = order_in(&["b", "a", "c", "d"]);
    card.pick_current();
    assert_eq!(contents(&card.shuffled.items), vec!["b", "a", "c", "d"]);
    assert!(card.shuffled.items[0].selected);
}
