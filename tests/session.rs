use quiz_rs::card::Card;
use quiz_rs::session::{AppState, Flow, InputMode, Key, Score};
use quiz_rs::user_answer::UserAnswer;

const DECK: &str = "multiple_choice\n\n# Pick the even number\n- 3\n* 4\n- 5\n---\nflashcard\n\n# Capital of France?\nParis\n---\nfill_in_the_blanks\n\n# Complete\nThe sky is _blue|azure_";

fn session() -> AppState {
    AppState::new(Card::card_parser(DECK.to_string()).unwrap())
}

#[test]
fn score_counters() {
    let mut score = Score::default();
    score.add_correct();
    score.add_correct();
    score.add_incorrect();
    assert_eq!(score.correct, 2);
    assert_eq!(score.incorrect, 1);
}

#[test]
fn new_session_starts_on_first_card() {
    let app = session();
    assert_eq!(app.cards.selected(), Some(0));
    assert_eq!(app.input_mode, InputMode::Normal);
    assert_eq!(app.score.correct, 0);
    assert_eq!(app.score.incorrect, 0);
}

#[test]
fn quit_keys() {
    let mut app = session();
    assert_eq!(app.handle_key(Key::Char('x')), Flow::Continue);
    assert_eq!(app.handle_key(Key::Esc), Flow::Continue);
    assert_eq!(app.handle_key(Key::Char('q')), Flow::Quit);
    app.input_mode = InputMode::Editing;
    assert_eq!(app.handle_key(Key::Char('q')), Flow::Continue);
    assert_eq!(app.handle_key(Key::Esc), Flow::Quit);
}

#[test]
fn grading_counts_once() {
    let mut app = session();
    app.handle_key(Key::Enter);
    assert_eq!(app.score.correct + app.score.incorrect, 0);
    app.handle_key(Key::Down);
    app.handle_key(Key::Char(' '));
    app.handle_key(Key::Enter);
    assert_eq!(app.score.correct, 1);
    app.handle_key(Key::Enter);
    app.handle_key(Key::Up);
    app.handle_key(Key::Char(' '));
    app.handle_key(Key::Enter);
    assert_eq!(app.score.correct, 1);
    assert_eq!(app.score.incorrect, 0);
}

#[test]
fn wrong_choice_counts_incorrect() {
    let mut app = session();
    app.handle_key(Key::Char(' '));
    app.handle_key(Key::Enter);
    assert_eq!(app.score.incorrect, 1);
    assert_eq!(app.score.correct, 0);
}

#[test]
fn flashcard_is_graded_by_the_user() {
    let mut app = session();
    app.handle_key(Key::Char('l'));
    assert_eq!(app.cards.selected(), Some(1));
    app.handle_key(Key::Char('y'));
    assert_eq!(app.score.correct, 0);
    app.handle_key(Key::Char(' '));
    app.handle_key(Key::Enter);
    app.handle_key(Key::Char('n'));
    assert_eq!(app.score.incorrect, 1);
    app.handle_key(Key::Char('y'));
    assert_eq!(app.score.correct, 0);
    match &app.cards.items[1] {
        Card::FlashCard(c) => {
            assert!(c.flipped);
            assert_eq!(c.user_answer, UserAnswer::Incorrect);
        }
        _ => panic!("expected a flash card"),
    }
}

#[test]
fn typing_into_a_blank() {
    let mut app = session();
    app.handle_key(Key::Right);
    app.handle_key(Key::Right);
    app.handle_key(Key::Right);
    assert_eq!(app.cards.selected(), Some(2));
    app.sync_input_mode();
    assert_eq!(app.input_mode, InputMode::Editing);
    for c in "azure".chars() {
        app.handle_key(Key::Char(c));
    }
    app.handle_key(Key::Enter);
    assert_eq!(app.score.correct, 1);
    assert_eq!(app.input_mode, InputMode::Normal);
    app.sync_input_mode();
    assert_eq!(app.input_mode, InputMode::Normal);
    match &app.cards.items[2] {
        Card::FillInTheBlanks(c) => assert_eq!(c.output, "The sky is azure"),
        _ => panic!("expected a fill-in-the-blanks card"),
    }
}

#[test]
fn sync_leaves_other_cards_in_normal_mode() {
    let mut app = session();
    app.input_mode = InputMode::Editing;
    app.sync_input_mode();
    assert_eq!(app.input_mode, InputMode::Normal);
}
