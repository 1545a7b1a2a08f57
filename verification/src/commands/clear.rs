use crate::error::{AppError, AppResult};
use vstd::prelude::*;

verus! {

/// What the user is told when the screen could not be cleared.
pub const CLEAR_FAILED: &'static str = "No se pudo limpiar la pantalla.";

/// What the user is told when the screen could not be cleared.
pub open spec fn failure_message() -> Seq<char> {
    CLEAR_FAILED@
}

/// Judges an attempt to clear the screen, given whether the terminal's own
/// command succeeded. Clearing never changes the tasks, so on success there
/// is nothing to save.
pub fn execute(succeeded: bool) -> (r: AppResult<bool>)
    ensures
        succeeded ==> r == Ok::<bool, AppError>(false),
        !succeeded ==> (r matches Err(AppError::Custom(message)) && message@ == failure_message()),
{
    if succeeded {
        Ok(false)
    } else {
        Err(AppError::Custom(CLEAR_FAILED.to_owned()))
    }
}

} // verus!
