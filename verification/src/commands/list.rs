use crate::commands::Outcome;
use crate::error::AppResult;
use crate::task::{is_listing_of, TaskManager};
use vstd::prelude::*;

verus! {

/// A category filter as plain values.
pub open spec fn filter_of(cat: Option<String>) -> Option<Seq<char>> {
    match cat {
        None => None,
        Some(category) => Some(category@),
    }
}

/// What listing does: it never fails, changes nothing, and hands back the
/// listing of the store under the filter.
pub open spec fn effect(
    before: TaskManager,
    after: TaskManager,
    filter: Option<Seq<char>>,
    r: AppResult<Outcome<'_>>,
) -> bool {
    &&& after == before
    &&& r matches Ok(Outcome::Listed(listing))
    &&& is_listing_of(listing, before@, filter)
}

/// Lists the tasks, or those in the category `cat`.
pub fn execute(manager: &TaskManager, cat: Option<String>) -> (r: AppResult<Outcome<'_>>)
    ensures
        effect(*manager, *manager, filter_of(cat), r),
        r is Ok && !r.unwrap().changed_store(),
{
    let listing = match &cat {
        None => manager.list_tasks(None),
        Some(category) => manager.list_tasks(Some(category.as_str())),
    };
    Ok(Outcome::Listed(listing))
}

} // verus!
