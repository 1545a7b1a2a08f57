use crate::commands::Outcome;
use crate::error::{AppError, AppResult};
use crate::task::TaskManager;
use vstd::prelude::*;

verus! {

/// What deleting does. An identifier that no task carries is refused and
/// nothing changes. Else the tasks that carry it are gone.
pub open spec fn effect(before: TaskManager, after: TaskManager, id: u32, r: AppResult<Outcome<'_>>) -> bool {
    if before@.holds(id as int) {
        r == Ok::<Outcome<'_>, AppError>(Outcome::Deleted { id }) && after@ == before@.without(id as int)
    } else {
        r == Err::<Outcome<'_>, AppError>(AppError::TaskNotFound(id)) && after == before
    }
}

/// Deletes the task `id`.
pub fn execute(manager: &mut TaskManager, id: u32) -> (r: AppResult<Outcome<'static>>)
    ensures
        effect(*old(manager), *final(manager), id, r),
        r is Ok ==> r.unwrap().changed_store(),
        old(manager)@.well_formed() ==> final(manager)@.well_formed(),
        old(manager)@.ids_distinct() ==> final(manager)@.ids_distinct(),
{
    match manager.delete_task(id) {
        Ok(()) => Ok(Outcome::Deleted { id }),
        Err(e) => Err(e),
    }
}

} // verus!
