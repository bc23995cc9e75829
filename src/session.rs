//! The quiz session: the list of cards, the input mode and the score, and
//! what each key press does to them.

use vstd::prelude::*;
use crate::card::Card;
use crate::card_types::contents;
use crate::card_types::order::{swapped_if_two, toggled};
use crate::stateful_list::{cursor_after_next, cursor_after_previous, StatefulList};
use crate::user_answer::UserAnswer;

verus! {

/// Whether key presses move through the quiz or type into a blank.
#[derive(Clone, Copy, Debug, PartialEq, Eq, Structural)]
pub enum InputMode {
    Normal,
    Editing,
}

/// A key press, as the session sees it.
#[derive(Clone, Copy, Debug, PartialEq, Eq, Structural)]
pub enum Key {
    Char(char),
    Left,
    Right,
    Up,
    Down,
    Enter,
    Tab,
    Backspace,
    Esc,
    Other,
}

/// Whether the session goes on after a key press.
#[derive(Clone, Copy, Debug, PartialEq, Eq, Structural)]
pub enum Flow {
    Continue,
    Quit,
}

/// What a key press asks of the selected card.
#[derive(Clone, Copy, Debug, PartialEq, Eq, Structural)]
pub enum CardAction {
    Pick,
    Up,
    Down,
    NextBlank,
    Type(char),
    Erase,
}

/// The action that a key asks of the selected card in a mode, if any.
pub open spec fn action_of(mode: InputMode, key: Key) -> Option<CardAction> {
    match mode {
        InputMode::Normal => match key {
            Key::Char(' ') => Some(CardAction::Pick),
            Key::Char('k') | Key::Up => Some(CardAction::Up),
            Key::Char('j') | Key::Down => Some(CardAction::Down),
            _ => None,
        },
        InputMode::Editing => match key {
            Key::Tab => Some(CardAction::NextBlank),
            Key::Char(c) => Some(CardAction::Type(c)),
            Key::Backspace => Some(CardAction::Erase),
            _ => None,
        },
    }
}

/// A list's cursor moved by `up` (backward) or not (forward), its items kept.
pub open spec fn list_moved<T>(a: StatefulList<T>, b: StatefulList<T>, up: bool) -> bool {
    &&& b.items@ == a.items@
    &&& b.cursor == (if up {
        cursor_after_previous(a.cursor, a.items@.len())
    } else {
        cursor_after_next(a.cursor, a.items@.len())
    })
}

/// The change that `action` makes to a card, `a` before and `b` after.
pub open spec fn acted(action: CardAction, a: Card, b: Card) -> bool {
    match (a, b) {
        (Card::FlashCard(x), Card::FlashCard(y)) => if action == CardAction::Pick {
            &&& y.flipped
            &&& y.question == x.question
            &&& y.answer == x.answer
            &&& y.show_validation_popup == x.show_validation_popup
            &&& y.user_answer == x.user_answer
        } else {
            y == x
        },
        (Card::MultipleChoice(x), Card::MultipleChoice(y)) => match action {
            CardAction::Pick => {
                let picks = x.user_answer == UserAnswer::Undecided && x.choices.current() is Some;
                &&& contents(y.choices.items@) == contents(x.choices.items@)
                &&& y.choices.cursor == x.choices.cursor
                &&& y.question == x.question
                &&& y.answers == x.answers
                &&& y.user_answer == x.user_answer
                &&& picks ==> forall|j: int|
                    0 <= j < y.choices.items@.len() ==> (#[trigger] y.choices.items@[j]).selected
                        == (j == x.choices.current()->0)
                &&& !picks ==> y.choices.items@ == x.choices.items@
            },
            CardAction::Up | CardAction::Down => {
                &&& list_moved(x.choices, y.choices, action == CardAction::Up)
                &&& y.question == x.question
                &&& y.answers == x.answers
                &&& y.user_answer == x.user_answer
            },
            _ => y == x,
        },
        (Card::MultipleAnswer(x), Card::MultipleAnswer(y)) => match action {
            CardAction::Pick => {
                let picks = x.user_answer == UserAnswer::Undecided && x.choices.current() is Some;
                &&& y.choices.cursor == x.choices.cursor
                &&& y.question == x.question
                &&& y.answers == x.answers
                &&& y.user_answer == x.user_answer
                &&& picks ==> y.choices.items@ == toggled(
                    x.choices.items@,
                    x.choices.current()->0 as int,
                )
                &&& !picks ==> y.choices.items@ == x.choices.items@
            },
            CardAction::Up | CardAction::Down => {
                &&& list_moved(x.choices, y.choices, action == CardAction::Up)
                &&& y.question == x.question
                &&& y.answers == x.answers
                &&& y.user_answer == x.user_answer
            },
            _ => y == x,
        },
        (Card::Order(x), Card::Order(y)) => match action {
            CardAction::Pick => {
                let undecided = x.user_answer == UserAnswer::Undecided;
                &&& y.shuffled.cursor == x.shuffled.cursor
                &&& y.question == x.question
                &&& y.answer == x.answer
                &&& y.user_answer == x.user_answer
                &&& !undecided ==> y.shuffled.items@ == x.shuffled.items@
                &&& undecided && x.shuffled.current() is Some ==> swapped_if_two(
                    toggled(x.shuffled.items@, x.shuffled.current()->0 as int),
                    y.shuffled.items@,
                )
                &&& undecided && x.shuffled.current() is None ==> swapped_if_two(
                    x.shuffled.items@,
                    y.shuffled.items@,
                )
            },
            CardAction::Up | CardAction::Down => {
                &&& list_moved(x.shuffled, y.shuffled, action == CardAction::Up)
                &&& y.question == x.question
                &&& y.answer == x.answer
                &&& y.user_answer == x.user_answer
            },
            _ => y == x,
        },
        (Card::FillInTheBlanks(x), Card::FillInTheBlanks(y)) => {
            let fits = x.blank_index < x.user_input@.len();
            let typed = x.user_input@[x.blank_index as int]@;
            match action {
                CardAction::NextBlank => {
                    &&& x.answers@.len() > 0 ==> y.blank_index as int == (x.blank_index as int + 1)
                        % (x.answers@.len() as int)
                    &&& x.answers@.len() == 0 ==> y.blank_index == x.blank_index
                    &&& y.question == x.question
                    &&& y.content == x.content
                    &&& y.output == x.output
                    &&& y.user_input == x.user_input
                    &&& y.answers == x.answers
                    &&& y.user_answer == x.user_answer
                },
                CardAction::Type(c) => {
                    &&& fits ==> y.edited(x, typed.push(c))
                    &&& !fits ==> y.user_input == x.user_input && y.output == x.output
                    &&& y.question == x.question
                    &&& y.content == x.content
                    &&& y.answers == x.answers
                    &&& y.blank_index == x.blank_index
                    &&& y.user_answer == x.user_answer
                },
                CardAction::Erase => {
                    &&& fits ==> y.edited(
                        x,
                        if typed.len() == 0 {
                            typed
                        } else {
                            typed.drop_last()
                        },
                    )
                    &&& !fits ==> y.user_input == x.user_input && y.output == x.output
                    &&& y.question == x.question
                    &&& y.content == x.content
                    &&& y.answers == x.answers
                    &&& y.blank_index == x.blank_index
                    &&& y.user_answer == x.user_answer
                },
                _ => y == x,
            }
        },
        _ => false,
    }
}

/// The numbers of right and wrong answers so far.
pub struct Score {
    pub incorrect: usize,
    pub correct: usize,
}

impl Score {
    pub fn add_incorrect(&mut self)
        requires
            old(self).incorrect < usize::MAX,
        ensures
            final(self).incorrect == old(self).incorrect + 1,
            final(self).correct == old(self).correct,
    {
        self.incorrect += 1;
    }

    pub fn add_correct(&mut self)
        requires
            old(self).correct < usize::MAX,
        ensures
            final(self).correct == old(self).correct + 1,
            final(self).incorrect == old(self).incorrect,
    {
        self.correct += 1;
    }
}

impl Default for Score {
    fn default() -> (r: Self)
        ensures
            r.incorrect == 0,
            r.correct == 0,
    {
        Score { incorrect: 0, correct: 0 }
    }
}

/// How many of the cards hold the grade `a`.
pub open spec fn count_graded(cards: Seq<Card>, a: UserAnswer) -> nat
    decreases cards.len(),
{
    if cards.len() == 0 {
        0
    } else {
        count_graded(cards.drop_last(), a) + if cards.last().answer_of() == a {
            1nat
        } else {
            0nat
        }
    }
}

/// No more cards hold a grade than there are cards.
pub proof fn lemma_count_bound(cards: Seq<Card>, a: UserAnswer)
    ensures
        count_graded(cards, a) <= cards.len(),
    decreases cards.len(),
{
    if cards.len() > 0 {
        lemma_count_bound(cards.drop_last(), a);
    }
}

/// Changing one card changes the count by what its grade was and is.
pub proof fn lemma_count_update(cards: Seq<Card>, i: int, c: Card, a: UserAnswer)
    requires
        0 <= i < cards.len(),
    ensures
        count_graded(cards.update(i, c), a) + (if cards[i].answer_of() == a {
            1int
        } else {
            0int
        }) == count_graded(cards, a) + (if c.answer_of() == a {
            1int
        } else {
            0int
        }),
    decreases cards.len(),
{
    let u = cards.update(i, c);
    if i == cards.len() - 1 {
        assert(u.drop_last() =~= cards.drop_last());
    } else {
        assert(u.drop_last() =~= cards.drop_last().update(i, c));
        lemma_count_update(cards.drop_last(), i, c, a);
    }
}

/// The state of a quiz: its cards, the input mode and the score.
pub struct AppState {
    pub cards: StatefulList<Card>,
    pub input_mode: InputMode,
    pub score: Score,
}

impl AppState {
    /// The cursor is well placed, and the score counts exactly the cards
    /// graded right and those graded wrong.
    pub open spec fn wf(&self) -> bool {
        &&& self.cards.wf()
        &&& self.score.correct == count_graded(self.cards.items@, UserAnswer::Correct)
        &&& self.score.incorrect == count_graded(self.cards.items@, UserAnswer::Incorrect)
    }

    /// The selected card, where there is one.
    pub open spec fn current_card(&self) -> Option<Card> {
        match self.cards.current() {
            Some(i) => Some(self.cards.items@[i as int]),
            None => None,
        }
    }
}

/// Cards that no one has graded yet.
pub open spec fn all_ungraded(cards: Seq<Card>) -> bool {
    forall|i: int| 0 <= i < cards.len() ==> (#[trigger] cards[i]).answer_of() == UserAnswer::Undecided
}

/// No card is graded.
proof fn lemma_count_ungraded(cards: Seq<Card>, a: UserAnswer)
    requires
        all_ungraded(cards),
        a != UserAnswer::Undecided,
    ensures
        count_graded(cards, a) == 0,
    decreases cards.len(),
{
    if cards.len() > 0 {
        lemma_count_ungraded(cards.drop_last(), a);
    }
}

impl AppState {
    /// A session over `cards`, the first one selected, with no score yet.
    pub fn new(cards: Vec<Card>) -> (r: Self)
        ensures
            r.cards.items@ == cards@,
            r.cards.cursor == (if cards@.len() == 0 { None } else { Some(0usize) }),
            r.input_mode == InputMode::Normal,
            r.score.correct == 0 && r.score.incorrect == 0,
            all_ungraded(cards@) ==> r.wf(),
    {
        let r = AppState {
            cards: StatefulList::with_items(cards),
            score: Score::default(),
            input_mode: InputMode::Normal,
        };
        proof {
            if all_ungraded(cards@) {
                lemma_count_ungraded(cards@, UserAnswer::Correct);
                lemma_count_ungraded(cards@, UserAnswer::Incorrect);
            }
        }
        r
    }

    /// Type into the selected card while it is an ungraded fill-in-the-blanks
    /// card; move through the quiz while it is another kind.
    pub fn sync_input_mode(&mut self)
        ensures
            final(self).cards == old(self).cards,
            final(self).score == old(self).score,
            final(self).input_mode == (match old(self).current_card() {
                Some(Card::FillInTheBlanks(c)) => if c.user_answer == UserAnswer::Undecided {
                    InputMode::Editing
                } else {
                    old(self).input_mode
                },
                Some(_) => InputMode::Normal,
                None => old(self).input_mode,
            }),
    {
        match self.cards.selected() {
            Some(i) => {
                if i < self.cards.items.len() {
                    match &self.cards.items[i] {
                        Card::FillInTheBlanks(card) => {
                            if card.user_answer == UserAnswer::Undecided {
                                self.input_mode = InputMode::Editing;
                            }
                        },
                        _ => {
                            self.input_mode = InputMode::Normal;
                        },
                    }
                }
            },
            None => {},
        }
    }

    /// Apply `action` to the selected card; no grade changes.
    fn act_on_card(&mut self, action: CardAction)
        requires
            old(self).wf(),
        ensures
            final(self).wf(),
            final(self).cards.items@.len() == old(self).cards.items@.len(),
            final(self).cards.cursor == old(self).cards.cursor,
            final(self).input_mode == old(self).input_mode,
            final(self).score == old(self).score,
            old(self).cards.current() matches Some(i) ==> final(self).cards.items@
                == old(self).cards.items@.update(i as int, final(self).cards.items@[i as int])
                && acted(action, old(self).cards.items@[i as int], final(self).cards.items@[i as int]),
            old(self).cards.current() is None ==> final(self).cards.items@ == old(self).cards.items@,
            forall|j: int|
                0 <= j < old(self).cards.items@.len() ==> (#[trigger] final(self).cards.items@[j]).answer_of()
                    == old(self).cards.items@[j].answer_of(),
    {
        match self.cards.selected() {
            Some(i) => {
                if i < self.cards.items.len() {
                    let ghost before = self.cards.items@;
                    match &mut self.cards.items[i] {
                        Card::FlashCard(card) => {
                            if action == CardAction::Pick {
                                card.show_back();
                            }
                        },
                        Card::MultipleChoice(card) => {
                            match action {
                                CardAction::Pick => card.choose_current(),
                                CardAction::Up => card.choices.previous(),
                                CardAction::Down => card.choices.next(),
                                _ => {},
                            }
                        },
                        Card::MultipleAnswer(card) => {
                            match action {
                                CardAction::Pick => card.toggle_current(),
                                CardAction::Up => card.choices.previous(),
                                CardAction::Down => card.choices.next(),
                                _ => {},
                            }
                        },
                        Card::Order(card) => {
                            match action {
                                CardAction::Pick => card.pick_current(),
                                CardAction::Up => card.shuffled.previous(),
                                CardAction::Down => card.shuffled.next(),
                                _ => {},
                            }
                        },
                        Card::FillInTheBlanks(card) => {
                            match action {
                                CardAction::NextBlank => card.next(),
                                CardAction::Type(c) => card.type_char(c),
                                CardAction::Erase => card.erase_char(),
                                _ => {},
                            }
                        },
                    }
                    proof {
                        let c = self.cards.items@[i as int];
                        assert(self.cards.items@ == before.update(i as int, c));
                        assert(c.answer_of() == before[i as int].answer_of());
                        lemma_count_update(before, i as int, c, UserAnswer::Correct);
                        lemma_count_update(before, i as int, c, UserAnswer::Incorrect);
                    }
                }
            },
            None => {},
        }
    }

    /// Grade the selected card unless it has been graded, and count the
    /// grade; returns whether it was graded now.
    fn grade_card(&mut self) -> (graded: bool)
        requires
            old(self).wf(),
        ensures
            final(self).wf(),
            final(self).cards.items@.len() == old(self).cards.items@.len(),
            final(self).cards.cursor == old(self).cards.cursor,
            final(self).input_mode == old(self).input_mode,
            graded == (old(self).current_card() matches Some(c) && c.answer_of()
                == UserAnswer::Undecided),
            forall|j: int|
                0 <= j < old(self).cards.items@.len() && old(self).cards.items@[j].answer_of()
                    != UserAnswer::Undecided ==> (#[trigger] final(self).cards.items@[j]).answer_of()
                    == old(self).cards.items@[j].answer_of(),
            final(self).score.correct >= old(self).score.correct,
            final(self).score.incorrect >= old(self).score.incorrect,
            graded && !(old(self).current_card()->0 is FlashCard)
                ==> final(self).current_card()->0.answer_of()
                == old(self).current_card()->0.grade(),
    {
        match self.cards.selected() {
            Some(i) => {
                if i < self.cards.items.len() {
                    if self.cards.items[i].check_answered() {
                        return false;
                    }
                    let ghost before = self.cards.items@;
                    let r = self.cards.items[i].validate_answer();
                    proof {
                        let c = self.cards.items@[i as int];
                        assert(self.cards.items@ == before.update(i as int, c));
                        lemma_count_update(before, i as int, c, UserAnswer::Correct);
                        lemma_count_update(before, i as int, c, UserAnswer::Incorrect);
                        lemma_count_bound(self.cards.items@, UserAnswer::Correct);
                        lemma_count_bound(self.cards.items@, UserAnswer::Incorrect);
                    }
                    match r {
                        UserAnswer::Correct => self.score.add_correct(),
                        UserAnswer::Incorrect => self.score.add_incorrect(),
                        UserAnswer::Undecided => {},
                    }
                    return true;
                }
                false
            },
            None => false,
        }
    }

    /// The user's own grade of the selected flash card, once asked for it.
    fn self_grade(&mut self, right: bool)
        requires
            old(self).wf(),
        ensures
            final(self).wf(),
            forall|j: int|
                0 <= j < old(self).cards.items@.len() && old(self).cards.items@[j].answer_of()
                    != UserAnswer::Undecided ==> (#[trigger] final(self).cards.items@[j]).answer_of()
                    == old(self).cards.items@[j].answer_of(),
            final(self).score.correct >= old(self).score.correct,
            final(self).score.incorrect >= old(self).score.incorrect,
            old(self).current_card() matches Some(Card::FlashCard(c)) && c.show_validation_popup
                && c.user_answer == UserAnswer::Undecided
                ==> final(self).current_card()->0.answer_of() == (if right {
                UserAnswer::Correct
            } else {
                UserAnswer::Incorrect
            }),
            final(self).cards.items@.len() == old(self).cards.items@.len(),
            final(self).cards.cursor == old(self).cards.cursor,
            final(self).input_mode == old(self).input_mode,
    {
        match self.cards.selected() {
            Some(i) => {
                if i < self.cards.items.len() {
                    let ghost before = self.cards.items@;
                    let mut counted = false;
                    match &mut self.cards.items[i] {
                        Card::FlashCard(card) => {
                            if card.show_validation_popup && card.user_answer
                                == UserAnswer::Undecided {
                                card.user_answer = if right {
                                    UserAnswer::Correct
                                } else {
                                    UserAnswer::Incorrect
                                };
                                counted = true;
                            }
                        },
                        _ => {},
                    }
                    proof {
                        let c = self.cards.items@[i as int];
                        assert(self.cards.items@ == before.update(i as int, c));
                        lemma_count_update(before, i as int, c, UserAnswer::Correct);
                        lemma_count_update(before, i as int, c, UserAnswer::Incorrect);
                        lemma_count_bound(self.cards.items@, UserAnswer::Correct);
                        lemma_count_bound(self.cards.items@, UserAnswer::Incorrect);
                    }
                    if counted {
                        if right {
                            self.score.add_correct();
                        } else {
                            self.score.add_incorrect();
                        }
                    }
                }
            },
            None => {},
        }
    }

    /// What a key press does: in normal mode `h`/`l` or the arrows move
    /// between cards, `k`/`j` or the arrows between choices, space picks,
    /// Enter grades, `y`/`n` grade a flash card and `q` quits; in editing
    /// mode keys type into the blank, Tab moves to the next blank, Enter
    /// grades and Esc quits. A card is counted once, when it is first graded.
    pub fn handle_key(&mut self, key: Key) -> (r: Flow)
        requires
            old(self).wf(),
        ensures
            final(self).wf(),
            final(self).cards.items@.len() == old(self).cards.items@.len(),
            forall|j: int|
                0 <= j < old(self).cards.items@.len() && old(self).cards.items@[j].answer_of()
                    != UserAnswer::Undecided ==> (#[trigger] final(self).cards.items@[j]).answer_of()
                    == old(self).cards.items@[j].answer_of(),
            final(self).score.correct >= old(self).score.correct,
            final(self).score.incorrect >= old(self).score.incorrect,
            action_of(old(self).input_mode, key) is Some && old(self).cards.current() is Some ==> ({
                let i = old(self).cards.current()->0 as int;
                &&& final(self).cards.items@ == old(self).cards.items@.update(
                    i,
                    final(self).cards.items@[i],
                )
                &&& acted(
                    action_of(old(self).input_mode, key)->0,
                    old(self).cards.items@[i],
                    final(self).cards.items@[i],
                )
            }),
            r == Flow::Quit <==> (old(self).input_mode == InputMode::Normal && key == Key::Char('q'))
                || (old(self).input_mode == InputMode::Editing && key == Key::Esc),
            key == Key::Left || (old(self).input_mode == InputMode::Normal && key == Key::Char('h'))
                ==> final(self).cards.cursor == cursor_after_previous(
                old(self).cards.cursor,
                old(self).cards.items@.len(),
            ),
            key == Key::Right || (old(self).input_mode == InputMode::Normal && key == Key::Char('l'))
                ==> final(self).cards.cursor == cursor_after_next(
                old(self).cards.cursor,
                old(self).cards.items@.len(),
            ),
            !(key == Key::Enter || key == Key::Char('y') || key == Key::Char('n'))
                ==> final(self).score == old(self).score,
            key == Key::Enter && (old(self).current_card() matches Some(c)
                && c.answer_of() == UserAnswer::Undecided && !(c is FlashCard))
                ==> final(self).current_card()->0.answer_of()
                == old(self).current_card()->0.grade(),
            old(self).input_mode == InputMode::Normal
                && (key == Key::Char('y') || key == Key::Char('n'))
                && (old(self).current_card() matches Some(Card::FlashCard(c))
                && c.show_validation_popup && c.user_answer == UserAnswer::Undecided)
                ==> final(self).current_card()->0.answer_of() == (if key == Key::Char('y') {
                UserAnswer::Correct
            } else {
                UserAnswer::Incorrect
            }),
    {
        match self.input_mode {
            InputMode::Normal => match key {
                Key::Char('h') | Key::Left => self.cards.previous(),
                Key::Char('l') | Key::Right => self.cards.next(),
                Key::Char(' ') => self.act_on_card(CardAction::Pick),
                Key::Char('k') | Key::Up => self.act_on_card(CardAction::Up),
                Key::Char('j') | Key::Down => self.act_on_card(CardAction::Down),
                Key::Enter => {
                    self.grade_card();
                },
                Key::Char('y') => self.self_grade(true),
                Key::Char('n') => self.self_grade(false),
                Key::Char('q') => {
                    return Flow::Quit;
                },
                _ => {},
            },
            InputMode::Editing => match key {
                Key::Tab => self.act_on_card(CardAction::NextBlank),
                Key::Enter => {
                    if self.grade_card() {
                        self.input_mode = InputMode::Normal;
                    }
                },
                Key::Char(c) => self.act_on_card(CardAction::Type(c)),
                Key::Backspace => self.act_on_card(CardAction::Erase),
                Key::Left => self.cards.previous(),
                Key::Right => self.cards.next(),
                Key::Esc => {
                    return Flow::Quit;
                },
                _ => {},
            },
        }
        Flow::Continue
    }
}

} // verus!
