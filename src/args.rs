use vstd::prelude::*;
use crate::errors::FileError;
use crate::file_type::FileType;

verus! {

/// The command line: the path of a quiz file.
pub struct Args {
    /// Path to a quiz md file
    pub path: String,
}

impl Args {
    /// Accepts a file whose name has an extension, given here, that names a
    /// quiz file type.
    pub fn validate_file(extension: Option<&str>) -> (r: Result<(), FileError>)
        ensures
            r is Ok <==> (extension matches Some(e) && e@ == "md"@),
            r matches Err(e) ==> e == FileError::InvalidFileType,
    {
        match extension {
            Some(extension) => {
                if let Some(_) = FileType::from_osstr(extension) {
                    return Ok(());
                }
            },
            None => return Err(FileError::InvalidFileType),
        }
        Err(FileError::InvalidFileType)
    }
}

} // verus!
