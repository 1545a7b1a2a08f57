use crate::calendar::{parse_iso_date, parsed_date};
use crate::commands::Outcome;
use crate::error::{AppError, AppResult};
use crate::task::TaskManager;
use crate::text::{split_and_trim, split_trimmed};
use vstd::prelude::*;

verus! {

/// The categories that a comma-separated text names: none for an empty
/// text, else every piece between commas, trimmed.
pub open spec fn categories_of(text: Seq<char>) -> Seq<Seq<char>> {
    if text.len() == 0 {
        Seq::empty()
    } else {
        split_trimmed(text, ',')
    }
}

/// The categories that a comma-separated text names.
pub fn split_categories(cat_str: &str) -> (categories: Vec<String>)
    ensures
        categories.deep_view() == categories_of(cat_str@),
{
    if cat_str.is_empty() {
        let categories: Vec<String> = Vec::new();
        categories
    } else {
        split_and_trim(cat_str, ',')
    }
}

/// What adding does. A due date that is no calendar date is refused and
/// nothing changes. Else the store gains one task, last, under the next
/// identifier, and the outcome names it.
pub open spec fn effect(
    before: TaskManager,
    after: TaskManager,
    name: Seq<char>,
    desc: Seq<char>,
    due: Seq<char>,
    cat: Seq<char>,
    r: AppResult<Outcome<'_>>,
) -> bool {
    match parsed_date(due) {
        None => r matches Err(AppError::Chrono(_)) && after == before,
        Some(date) => {
            &&& r matches Ok(Outcome::Added { id, name: added })
            &&& id == before@.last_id + 1
            &&& added@ == name
            &&& after@ == before@.with_added(
                name,
                desc,
                date,
                categories_of(cat),
                after@.tasks.last().creation_date,
            )
            &&& after@.tasks.last().creation_date.is_valid()
        },
    }
}

/// Adds a task that is due on `due`, written as year, month and day, in the
/// categories that `cat` names.
pub fn execute(
    manager: &mut TaskManager,
    name: String,
    desc: String,
    due: String,
    cat: String,
) -> (r: AppResult<Outcome<'static>>)
    requires
        old(manager)@.last_id < u32::MAX,
    ensures
        effect(*old(manager), *final(manager), name@, desc@, due@, cat@, r),
        r is Ok ==> r.unwrap().changed_store(),
        old(manager)@.well_formed() ==> final(manager)@.well_formed(),
        old(manager)@.well_formed() && old(manager)@.ids_distinct() ==> final(manager)@.ids_distinct(),
{
    let due_date = match parse_iso_date(due.as_str()) {
        Ok(date) => date,
        Err(e) => {
            return Err(AppError::from(e));
        },
    };
    let categories = split_categories(cat.as_str());
    let shown = name.clone();
    let id = manager.add_task(name, desc, due_date, categories);
    Ok(Outcome::Added { id, name: shown })
}

} // verus!
