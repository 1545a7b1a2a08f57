use crate::error::{AppError, AppResult};
use crate::text::{chars_of, lowercase, same_text, to_lowercase};
use vstd::prelude::*;

verus! {

/// Where a task stands in its life.
#[derive(Debug, Clone, Copy, PartialEq, Eq, Structural)]
pub enum Status {
    NotStarted,
    InProgress,
    Completed,
}

/// A status text as it is compared: in lower case, with a space for every
/// underscore.
pub open spec fn normalized(text: Seq<char>) -> Seq<char> {
    spaced(lowercase(text))
}

/// A space for an underscore, and any other character as it is.
pub open spec fn underscore_to_space(c: char) -> char {
    if c == '_' {
        ' '
    } else {
        c
    }
}

/// `text` with a space in place of every underscore.
pub open spec fn spaced(text: Seq<char>) -> Seq<char> {
    text.map_values(|c: char| underscore_to_space(c))
}

impl Status {
    /// The status that a normalized text names: by its phrase or by its letter.
    pub open spec fn named_by(text: Seq<char>) -> Option<Status> {
        if text == "no iniciado"@ || text == "n"@ {
            Some(Status::NotStarted)
        } else if text == "en progreso"@ || text == "i"@ {
            Some(Status::InProgress)
        } else if text == "completado"@ || text == "c"@ {
            Some(Status::Completed)
        } else {
            None
        }
    }

    /// The status that a text names once it is normalized.
    pub open spec fn parsed(text: Seq<char>) -> Option<Status> {
        Status::named_by(normalized(text))
    }

    /// The words that show the status to the user.
    pub open spec fn label(self) -> Seq<char> {
        match self {
            Status::NotStarted => "Not started"@,
            Status::InProgress => "In progress"@,
            Status::Completed => "Completed"@,
        }
    }

    /// Whether the task is done.
    pub fn is_completed(&self) -> (done: bool)
        ensures
            done == (*self == Status::Completed),
    {
        match self {
            Status::Completed => true,
            _ => false,
        }
    }

    /// The status that `text` names, where `text` is already normalized.
    pub fn from_normalized(text: &str) -> (r: Option<Status>)
        ensures
            r == Status::named_by(text@),
    {
        if same_text(text, "no iniciado") || same_text(text, "n") {
            Some(Status::NotStarted)
        } else if same_text(text, "en progreso") || same_text(text, "i") {
            Some(Status::InProgress)
        } else if same_text(text, "completado") || same_text(text, "c") {
            Some(Status::Completed)
        } else {
            None
        }
    }

    /// Reads a status from what the user typed, whatever its case and with
    /// underscores for spaces. A text that names none is handed back in the
    /// error.
    pub fn from_str(s: &str) -> (r: AppResult<Status>)
        ensures
            Status::parsed(s@) matches Some(status) ==> r == Ok::<Status, AppError>(status),
            Status::parsed(s@) is None ==> (r matches Err(AppError::InvalidStatus(text)) && text@ == s@),
    {
        let lowered = to_lowercase(s);
        let spaced = spaces_for_underscores(lowered.as_str());
        match Status::from_normalized(spaced.as_str()) {
            Some(status) => Ok(status),
            None => Err(AppError::InvalidStatus(s.to_owned())),
        }
    }

    /// The words that show the status to the user.
    pub fn to_string(&self) -> (text: String)
        ensures
            text@ == self.label(),
    {
        match self {
            Status::NotStarted => "Not started".to_owned(),
            Status::InProgress => "In progress".to_owned(),
            Status::Completed => "Completed".to_owned(),
        }
    }
}

/// `text` with a space in place of every underscore.
fn spaces_for_underscores(text: &str) -> (result: String)
    ensures
        result@ == spaced(text@),
{
    let chars = chars_of(text);
    let mut result = String::new();
    let mut i: usize = 0;
    while i < chars.len()
        invariant
            i <= chars@.len(),
            chars@ == text@,
            result@ == spaced(text@.take(i as int)),
        decreases chars@.len() - i,
    {
        if chars[i] == '_' {
            proof {
                reveal_strlit(" ");
            }
            result.append(" ");
        } else {
            result.append(text.substring_char(i, i + 1));
        }
        i += 1;
    }
    result
}

} // verus!
