use vstd::prelude::*;
use vstd::string::StringExecFns;
use crate::document::same_chars;
use crate::text::chars_of;

verus! {

/// The kinds of file that hold a quiz.
#[derive(Clone, Copy, Debug, PartialEq, Eq, Structural)]
pub enum FileType {
    Markdown,
}

impl FileType {
    /// The file type that a file name extension names, if any.
    pub fn from_osstr(file_extension: &str) -> (r: Option<Self>)
        ensures
            r == (if file_extension@ == "md"@ {
                Some(FileType::Markdown)
            } else {
                None
            }),
    {
        if same_chars(&chars_of(file_extension), &chars_of("md")) {
            return Some(FileType::Markdown);
        }
        None
    }

    /// The extension of the file type.
    pub fn to_string(&self) -> (r: String)
        ensures
            r@ == "md"@,
    {
        match self {
            FileType::Markdown => String::from_str("md"),
        }
    }
}

} // verus!
