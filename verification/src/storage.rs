use crate::error::{AppError, AppResult};
use vstd::prelude::*;

verus! {

/// What an attempt to read the task file gave.
#[derive(Debug)]
pub enum FileRead {
    /// There is no such file.
    Missing,
    /// The file could not be read, for another reason.
    Failed(std::io::Error),
    /// What the file holds.
    Contents(String),
}

/// What a read of the task file means for loading. A missing file and an
/// empty one both stand for no tasks: `None`. Any other failure to read is
/// an error. Else the text is to be decoded.
pub open spec fn meaning_of(read: FileRead) -> AppResult<Option<String>> {
    match read {
        FileRead::Missing => Ok(None),
        FileRead::Failed(e) => Err(AppError::Io(e)),
        FileRead::Contents(text) => if text@.len() == 0 {
            Ok(None)
        } else {
            Ok(Some(text))
        },
    }
}

/// Decides what a read of the task file means for loading.
pub fn text_to_decode(read: FileRead) -> (r: AppResult<Option<String>>)
    ensures
        r == meaning_of(read),
{
    match read {
        FileRead::Missing => Ok(None),
        FileRead::Failed(e) => Err(AppError::from(e)),
        FileRead::Contents(text) => {
            if text.as_str().is_empty() {
                Ok(None)
            } else {
                Ok(Some(text))
            }
        },
    }
}

} // verus!
