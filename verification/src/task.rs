use crate::calendar::{Date, DateTimeView, DateView, UtcDateTime, utc_now};
use crate::error::{AppError, AppResult};
use crate::order::{
    in_display_order, is_display_ordered, lemma_display_order_is_ordered, lemma_display_order_permutes,
    lemma_insertion_point_found, shown_no_later,
};
use crate::status::Status;
use crate::store::{highest_id, lemma_removal_keeps_distinct, other_than, passing, StoreView};
use crate::text::{eq_ignore_ascii_case, same_ignoring_ascii_case};
use vstd::prelude::*;

verus! {

/// A task as plain values.
pub ghost struct TaskView {
    pub id: int,
    pub name: Seq<char>,
    pub description: Seq<char>,
    pub creation_date: DateTimeView,
    pub due_date: DateTimeView,
    pub status: Status,
    pub categories: Seq<Seq<char>>,
}

impl TaskView {
    /// The task is done.
    pub open spec fn is_completed(self) -> bool {
        self.status == Status::Completed
    }

    /// One of the task's categories is `category`, whatever the case of its
    /// ASCII letters.
    pub open spec fn in_category(self, category: Seq<char>) -> bool {
        exists|k: int|
            0 <= k < self.categories.len() && same_ignoring_ascii_case(
                #[trigger] self.categories[k],
                category,
            )
    }
}

/// One thing to do.
#[derive(Debug, Clone)]
pub struct Task {
    pub id: u32,
    pub name: String,
    pub description: String,
    pub creation_date: UtcDateTime,
    pub due_date: UtcDateTime,
    pub status: Status,
    pub categories: Vec<String>,
}

impl View for Task {
    type V = TaskView;

    open spec fn view(&self) -> TaskView {
        TaskView {
            id: self.id as int,
            name: self.name@,
            description: self.description@,
            creation_date: self.creation_date@,
            due_date: self.due_date@,
            status: self.status,
            categories: self.categories.deep_view(),
        }
    }
}

impl DeepView for Task {
    type V = TaskView;

    open spec fn deep_view(&self) -> TaskView {
        self@
    }
}

impl Task {
    /// Whether one of the task's categories is `category`, whatever the case
    /// of its ASCII letters.
    pub fn in_category(&self, category: &str) -> (r: bool)
        ensures
            r == self@.in_category(category@),
    {
        let mut k: usize = 0;
        while k < self.categories.len()
            invariant
                k <= self.categories@.len(),
                forall|j: int|
                    0 <= j < k ==> !same_ignoring_ascii_case(
                        #[trigger] self.categories.deep_view()[j],
                        category@,
                    ),
            decreases self.categories@.len() - k,
        {
            if eq_ignore_ascii_case(self.categories[k].as_str(), category) {
                assert(self@.categories[k as int] == self.categories@[k as int]@);
                return true;
            }
            k += 1;
        }
        false
    }

    /// Whether a listing shows `self` no later than `other`.
    pub fn shown_no_later(&self, other: &Task) -> (r: bool)
        ensures
            r == shown_no_later(self@, other@),
    {
        if self.status.is_completed() != other.status.is_completed() {
            !self.status.is_completed()
        } else {
            self.due_date.not_after(&other.due_date)
        }
    }
}

/// A category filter as plain values.
pub open spec fn filter_view(filter: Option<&str>) -> Option<Seq<char>> {
    match filter {
        None => None,
        Some(category) => Some(category@),
    }
}

/// Owns the tasks and hands out their identifiers.
pub struct TaskManager {
    pub tasks: Vec<Task>,
    last_id: u32,
}

impl View for TaskManager {
    type V = StoreView;

    open spec fn view(&self) -> StoreView {
        StoreView { tasks: views_of(self.items()), last_id: self.mark() }
    }
}

/// The store `before` lends out the task at `at`: it is handed out as
/// `lent`, and what comes back as `returned` stands in its place in `after`,
/// where nothing else has changed.
pub open spec fn lends(before: TaskManager, after: TaskManager, at: int, lent: Task, returned: Task) -> bool {
    &&& lent == before.items()[at]
    &&& after.items() == before.items().update(at, returned)
    &&& after.mark() == before.mark()
}

/// Each task as plain values.
pub open spec fn views_of(items: Seq<Task>) -> Seq<TaskView> {
    items.map_values(|task: Task| task@)
}

impl TaskManager {
    /// The tasks as they are kept.
    pub closed spec fn items(&self) -> Seq<Task> {
        self.tasks@
    }

    /// The largest identifier the store has seen.
    pub closed spec fn mark(&self) -> int {
        self.last_id as int
    }

    /// A store of `tasks`, as they were loaded. The mark is their largest
    /// identifier, or 0 where there are none.
    pub fn new(tasks: Vec<Task>) -> (manager: TaskManager)
        ensures
            manager.items() == tasks@,
            manager@ == StoreView::loaded(views_of(tasks@)),
            manager@.well_formed(),
    {
        let mut last_id: u32 = 0;
        let mut i: usize = 0;
        while i < tasks.len()
            invariant
                i <= tasks@.len(),
                last_id == highest_id(views_of(tasks@).take(i as int)),
                forall|j: int| 0 <= j < i ==> tasks@[j].id <= last_id,
            decreases tasks@.len() - i,
        {
            assert(views_of(tasks@).take(i + 1).drop_last() == views_of(tasks@).take(i as int));
            if tasks[i].id > last_id {
                last_id = tasks[i].id;
            }
            i += 1;
        }
        assert(views_of(tasks@).take(tasks@.len() as int) == views_of(tasks@));
        TaskManager { tasks, last_id }
    }

    /// The tasks as they are kept.
    pub fn tasks(&self) -> (tasks: &Vec<Task>)
        ensures
            tasks@ == self.items(),
    {
        &self.tasks
    }

    /// The largest identifier the store has seen.
    pub fn last_id(&self) -> (id: u32)
        ensures
            id == self@.last_id,
    {
        self.last_id
    }

    /// Moves the mark up by one and returns it.
    fn next_id(&mut self) -> (id: u32)
        requires
            old(self)@.last_id < u32::MAX,
        ensures
            id == old(self)@.last_id + 1,
            final(self)@.last_id == id,
            final(self).items() == old(self).items(),
    {
        self.last_id += 1;
        self.last_id
    }

    /// Adds a task created at `created`, not started, due on the first moment
    /// of `due_date`, and returns its identifier: one above the mark.
    pub fn add_task_at(
        &mut self,
        name: String,
        description: String,
        due_date: Date,
        categories: Vec<String>,
        created: UtcDateTime,
    ) -> (id: u32)
        requires
            old(self)@.last_id < u32::MAX,
        ensures
            id == old(self)@.last_id + 1,
            final(self)@ == old(self)@.with_added(
                name@,
                description@,
                due_date@,
                categories.deep_view(),
                created@,
            ),
            old(self)@.well_formed() ==> final(self)@.well_formed() && !old(self)@.holds(id as int),
            old(self)@.well_formed() && old(self)@.ids_distinct() ==> final(self)@.ids_distinct(),
    {
        let id = self.next_id();
        let task = Task {
            id,
            name,
            description,
            creation_date: created,
            due_date: UtcDateTime::at_midnight(due_date),
            status: Status::NotStarted,
            categories,
        };
        let ghost before = views_of(self.tasks@);
        self.tasks.push(task);
        assert(views_of(self.tasks@) == before.push(task@));
        id
    }

    /// Adds a task created now, not started, due on the first moment of
    /// `due_date`, and returns its identifier: one above the mark.
    pub fn add_task(
        &mut self,
        name: String,
        description: String,
        due_date: Date,
        categories: Vec<String>,
    ) -> (id: u32)
        requires
            old(self)@.last_id < u32::MAX,
        ensures
            id == old(self)@.last_id + 1,
            final(self)@ == old(self)@.with_added(
                name@,
                description@,
                due_date@,
                categories.deep_view(),
                final(self)@.tasks.last().creation_date,
            ),
            final(self)@.tasks.last().creation_date.is_valid(),
            old(self)@.well_formed() ==> final(self)@.well_formed() && !old(self)@.holds(id as int),
            old(self)@.well_formed() && old(self)@.ids_distinct() ==> final(self)@.ids_distinct(),
    {
        let created = utc_now();
        self.add_task_at(name, description, due_date, categories, created)
    }

    /// The first task that carries `id`, to be changed in place.
    pub fn find_task_mut(&mut self, id: u32) -> (found: Option<&mut Task>)
        ensures
            found is Some <==> old(self)@.holds(id as int),
            found matches Some(task) ==> exists|at: int|
                old(self)@.is_first_with(id as int, at) && lends(
                    *old(self),
                    *final(self),
                    at,
                    *task,
                    *final(task),
                ),
            found is None ==> *final(self) == *old(self),
    {
        let mut i: usize = 0;
        while i < self.tasks.len()
            invariant
                i <= self.tasks@.len(),
                *self == *old(self),
                forall|j: int| 0 <= j < i ==> self.tasks@[j].id != id,
            decreases self.tasks@.len() - i,
        {
            if self.tasks[i].id == id {
                assert(old(self)@.is_first_with(id as int, i as int));
                return Some(&mut self.tasks[i]);
            }
            i += 1;
        }
        None
    }

    /// Removes the tasks that carry `id`: one, where identifiers are distinct.
    /// Fails, and changes nothing, where no task carries it. The mark never
    /// moves, so the identifier is not given out again.
    pub fn delete_task(&mut self, id: u32) -> (r: AppResult<()>)
        ensures
            old(self)@.holds(id as int) ==> r is Ok && final(self)@ == old(self)@.without(id as int),
            !old(self)@.holds(id as int) ==> r == Err::<(), AppError>(AppError::TaskNotFound(id))
                && *final(self) == *old(self),
            old(self)@.well_formed() ==> final(self)@.well_formed(),
            old(self)@.ids_distinct() ==> final(self)@.ids_distinct(),
    {
        if !self.contains(id) {
            return Err(AppError::TaskNotFound(id));
        }
        let mut all: Vec<Task> = Vec::new();
        std::mem::swap(&mut self.tasks, &mut all);
        let ghost keep = other_than(id as int);
        let ghost before = views_of(all@);
        proof {
            reveal(Seq::filter);
        }
        for task in it: all
            invariant
                it.seq() == old(self).items(),
                before == views_of(old(self).items()),
                keep == other_than(id as int),
                self.last_id == old(self).last_id,
                views_of(self.tasks@) == before.take(it.index() as int).filter(keep),
        {
            proof {
                reveal(Seq::filter);
                assert(before.take(it.index() + 1).drop_last() == before.take(it.index() as int));
            }
            if task.id != id {
                self.tasks.push(task);
            }
        }
        proof {
            assert(before.take(before.len() as int) == before);
            lemma_removal_keeps_distinct(before, id as int);
        }
        Ok(())
    }
}

/// The fields of a task that an update may set. `None` leaves a field as it is.
#[derive(Debug)]
pub struct TaskChanges {
    pub name: Option<String>,
    pub description: Option<String>,
    pub due_date: Option<Date>,
    pub status: Option<Status>,
    pub categories: Option<Vec<String>>,
}

/// An update as plain values.
pub ghost struct TaskChangesView {
    pub name: Option<Seq<char>>,
    pub description: Option<Seq<char>>,
    pub due_date: Option<DateView>,
    pub status: Option<Status>,
    pub categories: Option<Seq<Seq<char>>>,
}

impl TaskChangesView {
    /// The update sets no field.
    pub open spec fn is_empty(self) -> bool {
        self.name is None && self.description is None && self.due_date is None && self.status is None
            && self.categories is None
    }

    /// `task` with every field that the update holds set to it: the due date
    /// to the first moment of the day, the categories as a whole. Identifier
    /// and creation date stay.
    pub open spec fn applied_to(self, task: TaskView) -> TaskView {
        TaskView {
            id: task.id,
            name: match self.name {
                Some(name) => name,
                None => task.name,
            },
            description: match self.description {
                Some(description) => description,
                None => task.description,
            },
            creation_date: task.creation_date,
            due_date: match self.due_date {
                Some(date) => DateTimeView::midnight(date),
                None => task.due_date,
            },
            status: match self.status {
                Some(status) => status,
                None => task.status,
            },
            categories: match self.categories {
                Some(categories) => categories,
                None => task.categories,
            },
        }
    }
}

impl View for TaskChanges {
    type V = TaskChangesView;

    open spec fn view(&self) -> TaskChangesView {
        TaskChangesView {
            name: match self.name {
                Some(name) => Some(name@),
                None => None,
            },
            description: match self.description {
                Some(description) => Some(description@),
                None => None,
            },
            due_date: match self.due_date {
                Some(date) => Some(date@),
                None => None,
            },
            status: self.status,
            categories: match self.categories {
                Some(categories) => Some(categories.deep_view()),
                None => None,
            },
        }
    }
}

impl TaskChanges {
    /// Whether the update sets no field.
    pub fn is_empty(&self) -> (r: bool)
        ensures
            r == self@.is_empty(),
    {
        self.name.is_none() && self.description.is_none() && self.due_date.is_none()
            && self.status.is_none() && self.categories.is_none()
    }
}

/// What an update without a field is refused with.
pub const NOTHING_TO_UPDATE: &'static str =
    "Se debe proporcionar al menos un flag (--name, --desc, --due, --status o --cat) para actualizar.";

/// What an update without a field is refused with.
pub open spec fn nothing_to_update_message() -> Seq<char> {
    NOTHING_TO_UPDATE@
}

/// The error for an update that sets no field.
pub(crate) fn nothing_to_update() -> (e: AppError)
    ensures
        e matches AppError::Custom(message) && message@ == nothing_to_update_message(),
{
    AppError::Custom(NOTHING_TO_UPDATE.to_owned())
}

impl TaskManager {
    /// Whether some task carries `id`.
    pub fn contains(&self, id: u32) -> (r: bool)
        ensures
            r == self@.holds(id as int),
    {
        let mut i: usize = 0;
        while i < self.tasks.len()
            invariant
                i <= self.tasks@.len(),
                forall|j: int| 0 <= j < i ==> self.tasks@[j].id != id,
            decreases self.tasks@.len() - i,
        {
            if self.tasks[i].id == id {
                assert(views_of(self.tasks@)[i as int].id == id);
                return true;
            }
            i += 1;
        }
        false
    }

    /// Sets the fields that `changes` holds on the first task that carries
    /// `id`, and leaves its other fields, and every other task, as they are.
    /// Refused, with nothing changed: an update that sets no field; then an
    /// identifier that no task carries.
    pub fn update_task(&mut self, id: u32, changes: TaskChanges) -> (r: AppResult<()>)
        ensures
            changes@.is_empty() ==> (r matches Err(AppError::Custom(message)) && message@
                == nothing_to_update_message()),
            !changes@.is_empty() && !old(self)@.holds(id as int) ==> r == Err::<(), AppError>(
                AppError::TaskNotFound(id),
            ),
            r is Err ==> *final(self) == *old(self),
            r is Ok <==> !changes@.is_empty() && old(self)@.holds(id as int),
            r is Ok ==> exists|at: int|
                old(self)@.is_first_with(id as int, at) && final(self)@ == old(self)@.updated(at, changes@),
            old(self)@.well_formed() ==> final(self)@.well_formed(),
            old(self)@.ids_distinct() ==> final(self)@.ids_distinct(),
    {
        if changes.is_empty() {
            return Err(nothing_to_update());
        }
        let ghost before = *self;
        match self.find_task_mut(id) {
            None => Err(AppError::TaskNotFound(id)),
            Some(task) => {
                let ghost found = *task;
                let TaskChanges { name, description, due_date, status, categories } = changes;
                if let Some(name) = name {
                    task.name = name;
                }
                if let Some(description) = description {
                    task.description = description;
                }
                if let Some(date) = due_date {
                    task.due_date = UtcDateTime::at_midnight(date);
                }
                if let Some(status) = status {
                    task.status = status;
                }
                if let Some(categories) = categories {
                    task.categories = categories;
                }
                proof {
                    let at = choose|at: int|
                        before@.is_first_with(id as int, at) && lends(before, *self, at, found, *task);
                    lemma_views_of_update(before.items(), at, *task);
                    assert forall|i: int| 0 <= i < self@.tasks.len() implies (#[trigger] self@.tasks[i]).id
                        == before@.tasks[i].id by {}
                }
                Ok(())
            },
        }
    }
}

/// What a listing found.
#[derive(Debug)]
pub enum Listing<'a> {
    /// No filter was given and the store is empty.
    NoTasks,
    /// A filter was given and no task is in the category.
    NoneInCategory,
    /// The tasks to show, in the order to show them: never empty.
    Tasks(Vec<&'a Task>),
}

impl<'a> Listing<'a> {
    /// The tasks to show, in order.
    pub open spec fn shown(self) -> Seq<TaskView> {
        match self {
            Listing::Tasks(tasks) => tasks.deep_view(),
            _ => Seq::empty(),
        }
    }
}

/// `listing` is what a listing of `store` under `filter` hands back: the
/// tasks it selects in display order, or which of the two ways it found
/// nothing.
pub open spec fn is_listing_of(listing: Listing<'_>, store: StoreView, filter: Option<Seq<char>>) -> bool {
    &&& listing.shown() == store.listing(filter)
    &&& listing is Tasks <==> store.selected(filter).len() > 0
    &&& listing is NoTasks <==> store.selected(filter).len() == 0 && filter is None
    &&& listing is NoneInCategory <==> store.selected(filter).len() == 0 && filter is Some
}

impl TaskManager {
    /// Lists the tasks, or those in a category, in display order: open tasks
    /// before completed ones, and within each group by due date. Says apart
    /// an empty store and a category without tasks. The store stays as it is.
    pub fn list_tasks(&self, category_filter: Option<&str>) -> (listing: Listing<'_>)
        ensures
            is_listing_of(listing, self@, filter_view(category_filter)),
            is_display_ordered(listing.shown()),
            listing.shown().to_multiset() == self@.selected(filter_view(category_filter)).to_multiset(),
    {
        let ghost all = views_of(self.tasks@);
        let ghost pass = passing(filter_view(category_filter));
        let mut sorted: Vec<&Task> = Vec::new();
        let mut i: usize = 0;
        proof {
            reveal(Seq::filter);
        }
        while i < self.tasks.len()
            invariant
                i <= self.tasks@.len(),
                all == views_of(self.tasks@),
                pass == passing(filter_view(category_filter)),
                sorted.deep_view() == in_display_order(all.take(i as int).filter(pass)),
            decreases self.tasks@.len() - i,
        {
            let task = &self.tasks[i];
            let wanted = match category_filter {
                None => true,
                Some(category) => task.in_category(category),
            };
            proof {
                reveal(Seq::filter);
                assert(all.take(i + 1).drop_last() == all.take(i as int));
            }
            if wanted {
                let ghost before = sorted.deep_view();
                let mut at: usize = sorted.len();
                while at > 0 && !sorted[at - 1].shown_no_later(task)
                    invariant
                        at <= sorted@.len(),
                        before == sorted.deep_view(),
                        forall|j: int| at <= j < before.len() ==> !shown_no_later(#[trigger] before[j], task@),
                    decreases at,
                {
                    at -= 1;
                }
                proof {
                    lemma_insertion_point_found(before, task@, at as int);
                    assert(all.take(i as int).filter(pass).push(task@).drop_last() == all.take(
                        i as int,
                    ).filter(pass));
                }
                sorted.insert(at, task);
            }
            i += 1;
        }
        proof {
            assert(all.take(self.tasks@.len() as int) == all);
            lemma_display_order_is_ordered(self@.selected(filter_view(category_filter)));
            lemma_display_order_permutes(self@.selected(filter_view(category_filter)));
        }
        if sorted.len() == 0 {
            assert(sorted.deep_view() == Seq::<TaskView>::empty());
            match category_filter {
                None => Listing::NoTasks,
                Some(_) => Listing::NoneInCategory,
            }
        } else {
            Listing::Tasks(sorted)
        }
    }
}

/// Changing one task changes its view, and no other's.
pub proof fn lemma_views_of_update(items: Seq<Task>, at: int, task: Task)
    requires
        0 <= at < items.len(),
    ensures
        views_of(items.update(at, task)) == views_of(items).update(at, task@),
{
}

/// An update that names only a status sets the status and nothing else.
pub proof fn lemma_status_only_update(task: TaskView, status: Status)
    ensures
        (TaskChangesView {
            name: None,
            description: None,
            due_date: None,
            status: Some(status),
            categories: None,
        }).applied_to(task) == (TaskView { status, ..task }),
{
}

/// An update never changes a task's identifier or the moment it was created.
pub proof fn lemma_update_keeps_identity(task: TaskView, changes: TaskChangesView)
    ensures
        changes.applied_to(task).id == task.id,
        changes.applied_to(task).creation_date == task.creation_date,
{
}

} // verus!
