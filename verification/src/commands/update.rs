use crate::calendar::{parse_iso_date, parsed_date, Date};
use crate::commands::Outcome;
use crate::error::{AppError, AppResult};
use crate::status::Status;
use crate::task::{nothing_to_update, nothing_to_update_message, TaskChanges, TaskChangesView, TaskManager};
use crate::text::{split_and_trim, split_trimmed};
use vstd::prelude::*;

verus! {

/// An update as it was typed: a text for each field that is to change.
pub ghost struct UpdateRequest {
    pub name: Option<Seq<char>>,
    pub desc: Option<Seq<char>>,
    pub due: Option<Seq<char>>,
    pub status: Option<Seq<char>>,
    pub cat: Option<Seq<char>>,
}

/// A text that may be absent, as plain values.
pub open spec fn text_of(text: Option<String>) -> Option<Seq<char>> {
    match text {
        None => None,
        Some(text) => Some(text@),
    }
}

/// The request that the five texts of an update make.
pub open spec fn request(
    name: Option<String>,
    desc: Option<String>,
    due: Option<String>,
    status: Option<String>,
    cat: Option<String>,
) -> UpdateRequest {
    UpdateRequest {
        name: text_of(name),
        desc: text_of(desc),
        due: text_of(due),
        status: text_of(status),
        cat: text_of(cat),
    }
}

impl UpdateRequest {
    /// No field is to change.
    pub open spec fn is_empty(self) -> bool {
        self.name is None && self.desc is None && self.due is None && self.status is None
            && self.cat is None
    }

    /// The due date is absent or a calendar date.
    pub open spec fn due_is_readable(self) -> bool {
        self.due matches Some(due) ==> parsed_date(due) is Some
    }

    /// The status is absent or names one.
    pub open spec fn status_is_readable(self) -> bool {
        self.status matches Some(status) ==> Status::parsed(status) is Some
    }

    /// The changes that the texts stand for, where date and status are
    /// readable. The categories are every piece between commas, trimmed:
    /// one empty category for an empty text.
    pub open spec fn changes(self) -> TaskChangesView {
        TaskChangesView {
            name: self.name,
            description: self.desc,
            due_date: match self.due {
                Some(due) => parsed_date(due),
                None => None,
            },
            status: match self.status {
                Some(status) => Status::parsed(status),
                None => None,
            },
            categories: match self.cat {
                Some(cat) => Some(split_trimmed(cat, ',')),
                None => None,
            },
        }
    }
}

/// What updating does. Refused, in this order and with nothing changed: a
/// request that names no field; an identifier that no task carries; a due
/// date that is no calendar date; a status text that names none. Else the
/// first task that carries the identifier has the named fields set, and all
/// else is as before.
pub open spec fn effect(
    before: TaskManager,
    after: TaskManager,
    id: u32,
    request: UpdateRequest,
    r: AppResult<Outcome<'_>>,
) -> bool {
    if request.is_empty() {
        r matches Err(AppError::Custom(message)) && message@ == nothing_to_update_message() && after
            == before
    } else if !before@.holds(id as int) {
        r == Err::<Outcome<'_>, AppError>(AppError::TaskNotFound(id)) && after == before
    } else if !request.due_is_readable() {
        r matches Err(AppError::Chrono(_)) && after == before
    } else if !request.status_is_readable() {
        r matches Err(AppError::InvalidStatus(text)) && Some(text@) == request.status && after == before
    } else {
        &&& r == Ok::<Outcome<'_>, AppError>(Outcome::Updated { id })
        &&& exists|at: int|
            before@.is_first_with(id as int, at) && after@ == before@.updated(at, request.changes())
    }
}

/// Changes the task `id`: each field for which a text is given is set from
/// it, the due date read as year, month and day, the status by its phrase
/// or letter, the categories cut at commas.
pub fn execute(
    manager: &mut TaskManager,
    id: u32,
    name: Option<String>,
    desc: Option<String>,
    due: Option<String>,
    status: Option<String>,
    cat: Option<String>,
) -> (r: AppResult<Outcome<'static>>)
    ensures
        effect(*old(manager), *final(manager), id, request(name, desc, due, status, cat), r),
        r is Ok ==> r.unwrap().changed_store(),
        old(manager)@.well_formed() ==> final(manager)@.well_formed(),
        old(manager)@.ids_distinct() ==> final(manager)@.ids_distinct(),
{
    if name.is_none() && desc.is_none() && due.is_none() && status.is_none() && cat.is_none() {
        return Err(nothing_to_update());
    }
    if !manager.contains(id) {
        return Err(AppError::TaskNotFound(id));
    }
    let due_date: Option<Date> = match &due {
        None => None,
        Some(text) => match parse_iso_date(text.as_str()) {
            Ok(date) => Some(date),
            Err(e) => {
                return Err(AppError::from(e));
            },
        },
    };
    let new_status: Option<Status> = match &status {
        None => None,
        Some(text) => match Status::from_str(text.as_str()) {
            Ok(parsed) => Some(parsed),
            Err(e) => {
                return Err(e);
            },
        },
    };
    let categories: Option<Vec<String>> = match &cat {
        None => None,
        Some(text) => Some(split_and_trim(text.as_str(), ',')),
    };
    let changes = TaskChanges { name, description: desc, due_date, status: new_status, categories };
    match manager.update_task(id, changes) {
        Ok(()) => Ok(Outcome::Updated { id }),
        Err(e) => Err(e),
    }
}

} // verus!
