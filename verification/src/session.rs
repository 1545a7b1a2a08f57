use crate::calendar::{DateTimeView, DateView};
use crate::store::{lemma_removal_keeps_distinct, other_than, StoreView};
use vstd::prelude::*;

verus! {

/// One change to the store.
pub ghost enum Step {
    Add {
        name: Seq<char>,
        description: Seq<char>,
        due_date: DateView,
        categories: Seq<Seq<char>>,
        created: DateTimeView,
    },
    Delete { id: int },
}

/// The store after one change.
pub open spec fn after_step(store: StoreView, step: Step) -> StoreView {
    match step {
        Step::Add { name, description, due_date, categories, created } => store.with_added(
            name,
            description,
            due_date,
            categories,
            created,
        ),
        Step::Delete { id } => store.without(id),
    }
}

/// The store after the changes in `steps`, made in order.
pub open spec fn after_steps(store: StoreView, steps: Seq<Step>) -> StoreView
    decreases steps.len(),
{
    if steps.len() == 0 {
        store
    } else {
        after_step(after_steps(store, steps.drop_last()), steps.last())
    }
}

/// The identifiers that the additions in `steps` hand out, in order.
pub open spec fn ids_given(store: StoreView, steps: Seq<Step>) -> Seq<int>
    decreases steps.len(),
{
    if steps.len() == 0 {
        Seq::empty()
    } else if steps.last() is Add {
        ids_given(store, steps.drop_last()).push(after_steps(store, steps.drop_last()).last_id + 1)
    } else {
        ids_given(store, steps.drop_last())
    }
}

/// Additions and removals keep every identifier at or under the mark, and
/// the mark only counts the additions: a removal never moves it.
pub proof fn lemma_mark_counts_additions(store: StoreView, steps: Seq<Step>)
    requires
        store.well_formed(),
    ensures
        after_steps(store, steps).well_formed(),
        after_steps(store, steps).last_id == store.last_id + ids_given(store, steps).len(),
    decreases steps.len(),
{
    if steps.len() > 0 {
        lemma_mark_counts_additions(store, steps.drop_last());
        let before = after_steps(store, steps.drop_last());
        let after = after_steps(store, steps);
        match steps.last() {
            Step::Add { .. } => {
                assert(after.well_formed());
            },
            Step::Delete { id } => {
                assert forall|i: int| 0 <= i < after.tasks.len() implies 0 <= (#[trigger] after.tasks[i]).id
                    <= after.last_id by {
                    before.tasks.lemma_filter_contains_rev(other_than(id), after.tasks[i]);
                }
            },
        }
    }
}

/// Whatever is added and removed, and in whatever order, the additions are
/// given the identifiers that follow the mark, one after the other: each is
/// larger than all before it, none comes twice, and a removal changes none
/// of them.
pub proof fn lemma_ids_given_count_up(store: StoreView, steps: Seq<Step>)
    requires
        store.well_formed(),
    ensures
        forall|k: int|
            0 <= k < ids_given(store, steps).len() ==> #[trigger] ids_given(store, steps)[k]
                == store.last_id + 1 + k,
    decreases steps.len(),
{
    if steps.len() > 0 {
        lemma_ids_given_count_up(store, steps.drop_last());
        lemma_mark_counts_additions(store, steps.drop_last());
    }
}

/// An identifier that is handed out is carried by no task at that time,
/// though a task that once carried it may have been removed.
pub proof fn lemma_id_given_is_new(store: StoreView, steps: Seq<Step>)
    requires
        store.well_formed(),
    ensures
        !after_steps(store, steps).holds(after_steps(store, steps).last_id + 1),
{
    lemma_mark_counts_additions(store, steps);
}

/// Additions and removals keep identifiers distinct.
pub proof fn lemma_ids_stay_distinct(store: StoreView, steps: Seq<Step>)
    requires
        store.well_formed(),
        store.ids_distinct(),
    ensures
        after_steps(store, steps).ids_distinct(),
    decreases steps.len(),
{
    if steps.len() > 0 {
        lemma_ids_stay_distinct(store, steps.drop_last());
        lemma_mark_counts_additions(store, steps.drop_last());
        let before = after_steps(store, steps.drop_last());
        let after = after_steps(store, steps);
        match steps.last() {
            Step::Add { .. } => {
                assert(after.ids_distinct());
            },
            Step::Delete { id } => {
                lemma_removal_keeps_distinct(before.tasks, id);
            },
        }
    }
}

} // verus!
