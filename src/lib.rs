//! Card model of a terminal quiz: a parser from quiz documents to cards,
//! the five card kinds with their grading rules, a list with a cursor, and
//! the quiz session that counts answers.

pub mod text;
pub mod errors;
pub mod user_answer;
pub mod choice;
pub mod stateful_list;
pub mod document;
pub mod card_types;
pub mod card;
pub mod describe;
pub mod cards;
pub mod session;
pub mod args;
pub mod file_type;
