use crate::calendar::{DateTimeView, DateView};
use crate::order::{in_display_order, lemma_display_order_permutes};
use crate::status::Status;
use crate::task::{TaskChangesView, TaskView};
use vstd::prelude::*;
use vstd::seq_lib::to_multiset_contains;

verus! {

/// The largest identifier among `tasks`, or 0 where there is none.
pub open spec fn highest_id(tasks: Seq<TaskView>) -> int
    decreases tasks.len(),
{
    if tasks.len() == 0 {
        0
    } else if tasks.last().id > highest_id(tasks.drop_last()) {
        tasks.last().id
    } else {
        highest_id(tasks.drop_last())
    }
}

/// Holds of the tasks that do not carry `id`.
pub open spec fn other_than(id: int) -> spec_fn(TaskView) -> bool {
    |task: TaskView| task.id != id
}

/// Holds of the tasks that a listing with `filter` shows.
pub open spec fn passing(filter: Option<Seq<char>>) -> spec_fn(TaskView) -> bool {
    |task: TaskView|
        match filter {
            None => true,
            Some(category) => task.in_category(category),
        }
}

/// The store as plain values: its tasks in the order they are kept, and the
/// largest identifier it has ever seen.
pub ghost struct StoreView {
    pub tasks: Seq<TaskView>,
    pub last_id: int,
}

impl StoreView {
    /// No task carries an identifier above the mark, so the next one is new.
    pub open spec fn well_formed(self) -> bool {
        &&& 0 <= self.last_id
        &&& forall|i: int| 0 <= i < self.tasks.len() ==> 0 <= (#[trigger] self.tasks[i]).id <= self.last_id
    }

    /// No two tasks share an identifier.
    pub open spec fn ids_distinct(self) -> bool {
        forall|i: int, j: int|
            0 <= i < j < self.tasks.len() ==> (#[trigger] self.tasks[i]).id != (#[trigger] self.tasks[j]).id
    }

    /// Some task carries `id`.
    pub open spec fn holds(self, id: int) -> bool {
        exists|i: int| 0 <= i < self.tasks.len() && (#[trigger] self.tasks[i]).id == id
    }

    /// `at` is where the first task with `id` stands.
    pub open spec fn is_first_with(self, id: int, at: int) -> bool {
        &&& 0 <= at < self.tasks.len()
        &&& self.tasks[at].id == id
        &&& forall|j: int| 0 <= j < at ==> (#[trigger] self.tasks[j]).id != id
    }

    /// The store with `tasks` and the mark they call for.
    pub open spec fn loaded(tasks: Seq<TaskView>) -> StoreView {
        StoreView { tasks, last_id: highest_id(tasks) }
    }

    /// The task that an addition makes.
    pub open spec fn new_task(
        self,
        name: Seq<char>,
        description: Seq<char>,
        due_date: DateView,
        categories: Seq<Seq<char>>,
        created: DateTimeView,
    ) -> TaskView {
        TaskView {
            id: self.last_id + 1,
            name,
            description,
            creation_date: created,
            due_date: DateTimeView::midnight(due_date),
            status: Status::NotStarted,
            categories,
        }
    }

    /// The store after an addition: the new task stands last and the mark has
    /// moved up to its identifier.
    pub open spec fn with_added(
        self,
        name: Seq<char>,
        description: Seq<char>,
        due_date: DateView,
        categories: Seq<Seq<char>>,
        created: DateTimeView,
    ) -> StoreView {
        StoreView {
            tasks: self.tasks.push(self.new_task(name, description, due_date, categories, created)),
            last_id: self.last_id + 1,
        }
    }

    /// The store without the tasks that carry `id`. The mark stays.
    pub open spec fn without(self, id: int) -> StoreView {
        StoreView { tasks: self.tasks.filter(other_than(id)), last_id: self.last_id }
    }

    /// The tasks that a listing with `filter` shows, in the order they are kept:
    /// all of them without a filter, else those in the category.
    pub open spec fn selected(self, filter: Option<Seq<char>>) -> Seq<TaskView> {
        self.tasks.filter(passing(filter))
    }

    /// What a listing with `filter` shows, in the order it shows it.
    pub open spec fn listing(self, filter: Option<Seq<char>>) -> Seq<TaskView> {
        in_display_order(self.selected(filter))
    }

    /// The store with `task` in place of the one at `at`.
    pub open spec fn with_task_at(self, at: int, task: TaskView) -> StoreView {
        StoreView { tasks: self.tasks.update(at, task), last_id: self.last_id }
    }

    /// The store after `changes` to the task at `at`.
    pub open spec fn updated(self, at: int, changes: TaskChangesView) -> StoreView {
        self.with_task_at(at, changes.applied_to(self.tasks[at]))
    }
}

/// Without a filter a listing shows every task.
pub proof fn lemma_no_filter_selects_all(store: StoreView)
    ensures
        store.selected(None) == store.tasks,
    decreases store.tasks.len(),
{
    reveal(Seq::filter);
    if store.tasks.len() > 0 {
        let rest = StoreView { tasks: store.tasks.drop_last(), last_id: store.last_id };
        lemma_no_filter_selects_all(rest);
    }
}

/// What stays after a removal stood in the store before, and identifiers
/// that were distinct stay so.
pub proof fn lemma_removal_keeps_distinct(tasks: Seq<TaskView>, id: int)
    ensures
        forall|k: int|
            0 <= k < tasks.filter(other_than(id)).len() ==> tasks.contains(
                #[trigger] tasks.filter(other_than(id))[k],
            ),
        (StoreView { tasks, last_id: 0 }).ids_distinct() ==> (StoreView {
            tasks: tasks.filter(other_than(id)),
            last_id: 0,
        }).ids_distinct(),
    decreases tasks.len(),
{
    reveal(Seq::filter);
    if tasks.len() > 0 {
        let rest = tasks.drop_last();
        lemma_removal_keeps_distinct(rest, id);
        if (StoreView { tasks, last_id: 0 }).ids_distinct() {
            assert((StoreView { tasks: rest, last_id: 0 }).ids_distinct());
        }
    }
}

/// Removing an identifier that no task carries changes nothing.
pub proof fn lemma_without_absent_id(store: StoreView, id: int)
    requires
        !store.holds(id),
    ensures
        store.without(id) == store,
    decreases store.tasks.len(),
{
    reveal(Seq::filter);
    if store.tasks.len() > 0 {
        let rest = StoreView { tasks: store.tasks.drop_last(), last_id: store.last_id };
        assert(!rest.holds(id));
        lemma_without_absent_id(rest, id);
        assert(store.tasks.drop_last().push(store.tasks.last()) == store.tasks);
    }
}

/// After a removal no task carries the identifier, every other task is
/// still there, and none has come.
pub proof fn lemma_without_removes_exactly(store: StoreView, id: int)
    ensures
        !store.without(id).holds(id),
        forall|task: TaskView|
            store.without(id).tasks.contains(task) <==> store.tasks.contains(task) && task.id != id,
{
    let kept = store.without(id).tasks;
    assert forall|task: TaskView| kept.contains(task) <==> store.tasks.contains(task) && task.id
        != id by {
        if kept.contains(task) {
            store.tasks.lemma_filter_contains_rev(other_than(id), task);
            let k = choose|k: int| 0 <= k < kept.len() && kept[k] == task;
            store.tasks.lemma_filter_pred(other_than(id), k);
        }
        if store.tasks.contains(task) && task.id != id {
            let i = choose|i: int| 0 <= i < store.tasks.len() && store.tasks[i] == task;
            store.tasks.lemma_filter_contains(other_than(id), i);
        }
    }
}

/// Where identifiers are distinct, removing one that a task carries takes
/// exactly one task away.
pub proof fn lemma_without_removes_one(store: StoreView, id: int)
    requires
        store.ids_distinct(),
        store.holds(id),
    ensures
        store.without(id).tasks.len() == store.tasks.len() - 1,
    decreases store.tasks.len(),
{
    reveal(Seq::filter);
    let rest = StoreView { tasks: store.tasks.drop_last(), last_id: store.last_id };
    let last = store.tasks.last();
    assert(rest.ids_distinct());
    if last.id == id {
        assert(!rest.holds(id));
        lemma_without_absent_id(rest, id);
    } else {
        assert(rest.holds(id)) by {
            let i = choose|i: int| 0 <= i < store.tasks.len() && (#[trigger] store.tasks[i]).id == id;
            assert(rest.tasks[i].id == id);
        }
        lemma_without_removes_one(rest, id);
    }
}

/// The mark of a loaded store is no smaller than any identifier in it, and
/// it is one of them unless it is 0.
pub proof fn lemma_highest_id(tasks: Seq<TaskView>)
    requires
        forall|i: int| 0 <= i < tasks.len() ==> (#[trigger] tasks[i]).id >= 0,
    ensures
        StoreView::loaded(tasks).well_formed(),
        highest_id(tasks) == 0 || StoreView::loaded(tasks).holds(highest_id(tasks)),
    decreases tasks.len(),
{
    if tasks.len() > 0 {
        let rest = tasks.drop_last();
        lemma_highest_id(rest);
        assert forall|i: int| 0 <= i < tasks.len() implies 0 <= (#[trigger] tasks[i]).id <= highest_id(
            tasks,
        ) by {
            if i < rest.len() {
                assert(rest[i] == tasks[i]);
            }
        }
    }
}

/// A store that is made again from its own tasks, as after saving and
/// loading, holds the same tasks in the same order. Its mark is the largest
/// identifier that is left, which may lie under the mark it had.
pub proof fn lemma_reloaded_store(store: StoreView)
    requires
        store.well_formed(),
    ensures
        StoreView::loaded(store.tasks).tasks == store.tasks,
        StoreView::loaded(store.tasks).well_formed(),
        StoreView::loaded(store.tasks).last_id <= store.last_id,
{
    lemma_highest_id(store.tasks);
}

/// A listing shows the tasks of the store that pass its filter, and no
/// others.
pub proof fn lemma_listing_members(store: StoreView, filter: Option<Seq<char>>, task: TaskView)
    ensures
        store.listing(filter).contains(task) <==> store.tasks.contains(task) && passing(filter)(task),
{
    let selected = store.selected(filter);
    lemma_display_order_permutes(selected);
    to_multiset_contains(selected, task);
    to_multiset_contains(store.listing(filter), task);
    if selected.contains(task) {
        store.tasks.lemma_filter_contains_rev(passing(filter), task);
        let k = choose|k: int| 0 <= k < selected.len() && selected[k] == task;
        store.tasks.lemma_filter_pred(passing(filter), k);
    }
    if store.tasks.contains(task) && passing(filter)(task) {
        let i = choose|i: int| 0 <= i < store.tasks.len() && store.tasks[i] == task;
        store.tasks.lemma_filter_contains(passing(filter), i);
    }
}

} // verus!
