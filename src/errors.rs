use vstd::prelude::*;
use vstd::string::StringExecFns;

verus! {

/// Why a quiz document could not be turned into cards.
#[derive(Clone, Copy, Debug, PartialEq, Eq, Structural)]
pub enum ParsingError {
    NoCardType,
    NoQuestion,
    NoContent,
    IncorrectDivider,
}

/// Why a quiz file was refused before it was read.
#[derive(Clone, Copy, Debug, PartialEq, Eq, Structural)]
pub enum FileError {
    InvalidFileType,
}

/// A failure that ends the program before a session starts.
#[derive(Clone, Copy, Debug, PartialEq, Eq, Structural)]
pub enum Errors {
    ParsingError(ParsingError),
    FileError(FileError),
}

/// The message shown for a parsing error.
pub open spec fn parsing_message(e: ParsingError) -> Seq<char> {
    match e {
        ParsingError::NoContent => "No available content to parse for one or more cards."@,
        ParsingError::NoQuestion =>
            "No question provided for one or more cards. The question must be prefixed with a hashtag (#)"@,
        ParsingError::NoCardType =>
            "One or more cards have not specified their card type.\nA list of all supported card types can be found here: https://brookjeynes.github.io/quiz-rs/cards"@,
        ParsingError::IncorrectDivider => "One or more cards have an incorrect divider (---)"@,
    }
}

/// The message shown for a file error.
pub open spec fn file_message(e: FileError) -> Seq<char> {
    match e {
        FileError::InvalidFileType => "Invalid file type"@,
    }
}

impl ParsingError {
    /// The message shown for this error.
    pub fn to_string(&self) -> (r: String)
        ensures
            r@ == parsing_message(*self),
    {
        match self {
            ParsingError::NoContent => String::from_str(
                "No available content to parse for one or more cards.",
            ),
            ParsingError::NoQuestion => String::from_str(
                "No question provided for one or more cards. The question must be prefixed with a hashtag (#)",
            ),
            ParsingError::NoCardType => String::from_str(
                "One or more cards have not specified their card type.\nA list of all supported card types can be found here: https://brookjeynes.github.io/quiz-rs/cards",
            ),
            ParsingError::IncorrectDivider => String::from_str(
                "One or more cards have an incorrect divider (---)",
            ),
        }
    }
}

impl FileError {
    /// The message shown for this error.
    pub fn to_string(&self) -> (r: String)
        ensures
            r@ == file_message(*self),
    {
        match self {
            FileError::InvalidFileType => String::from_str("Invalid file type"),
        }
    }
}

impl Errors {
    /// The heading under which the error is reported.
    pub fn heading(&self) -> (r: String)
        ensures
            r@ == (match *self {
                Errors::ParsingError(_) => "Parsing Error"@,
                Errors::FileError(_) => "File Error"@,
            }),
    {
        match self {
            Errors::ParsingError(_) => String::from_str("Parsing Error"),
            Errors::FileError(_) => String::from_str("File Error"),
        }
    }

    /// The message of the error.
    pub fn to_string(&self) -> (r: String)
        ensures
            r@ == (match *self {
                Errors::ParsingError(e) => parsing_message(e),
                Errors::FileError(e) => file_message(e),
            }),
    {
        match self {
            Errors::ParsingError(e) => e.to_string(),
            Errors::FileError(e) => e.to_string(),
        }
    }
}

} // verus!
