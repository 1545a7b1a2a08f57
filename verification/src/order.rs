use crate::task::TaskView;
use vstd::prelude::*;
use vstd::seq_lib::{to_multiset_build, to_multiset_insert};

verus! {

/// `a` is shown no later than `b`: an open task before a completed one, and
/// of two that are both open or both completed, the one due first.
pub open spec fn shown_no_later(a: TaskView, b: TaskView) -> bool {
    if a.is_completed() != b.is_completed() {
        !a.is_completed()
    } else {
        a.due_date.not_after(b.due_date)
    }
}

/// Every task is shown no later than the ones behind it.
pub open spec fn is_display_ordered(tasks: Seq<TaskView>) -> bool {
    forall|i: int, j: int| 0 <= i < j < tasks.len() ==> shown_no_later(tasks[i], tasks[j])
}

/// Where `task` goes into `sorted`: behind the last task that is shown no
/// later than it, so behind its equals.
pub open spec fn insertion_point(sorted: Seq<TaskView>, task: TaskView) -> int
    decreases sorted.len(),
{
    if sorted.len() > 0 && !shown_no_later(sorted.last(), task) {
        insertion_point(sorted.drop_last(), task)
    } else {
        sorted.len() as int
    }
}

/// `sorted` with `task` put in at its insertion point.
pub open spec fn insert_in_order(sorted: Seq<TaskView>, task: TaskView) -> Seq<TaskView> {
    sorted.insert(insertion_point(sorted, task), task)
}

/// The tasks in the order they are shown, those that rank alike in the order
/// they had.
pub open spec fn in_display_order(tasks: Seq<TaskView>) -> Seq<TaskView>
    decreases tasks.len(),
{
    if tasks.len() == 0 {
        tasks
    } else {
        insert_in_order(in_display_order(tasks.drop_last()), tasks.last())
    }
}

/// Of any two tasks one is shown no later than the other.
pub proof fn lemma_shown_no_later_total(a: TaskView, b: TaskView)
    ensures
        shown_no_later(a, b) || shown_no_later(b, a),
{
}

/// What is shown no later than a task is shown no later than all that
/// follow it.
pub proof fn lemma_shown_no_later_transitive(a: TaskView, b: TaskView, c: TaskView)
    requires
        shown_no_later(a, b),
        shown_no_later(b, c),
    ensures
        shown_no_later(a, c),
{
}

/// The insertion point is the one place that keeps the order and puts the
/// task behind its equals.
pub proof fn lemma_insertion_point(sorted: Seq<TaskView>, task: TaskView)
    ensures
        0 <= insertion_point(sorted, task) <= sorted.len(),
        forall|j: int|
            insertion_point(sorted, task) <= j < sorted.len() ==> !shown_no_later(
                #[trigger] sorted[j],
                task,
            ),
        insertion_point(sorted, task) > 0 ==> shown_no_later(
            sorted[insertion_point(sorted, task) - 1],
            task,
        ),
    decreases sorted.len(),
{
    if sorted.len() > 0 && !shown_no_later(sorted.last(), task) {
        let rest = sorted.drop_last();
        lemma_insertion_point(rest, task);
        assert forall|j: int| insertion_point(sorted, task) <= j < sorted.len() implies !shown_no_later(
            #[trigger] sorted[j],
            task,
        ) by {
            if j < rest.len() {
                assert(sorted[j] == rest[j]);
            }
        }
    }
}

/// Scanning back from the end finds the insertion point: it is `at` as soon
/// as everything from `at` on is shown later than the task and what stands
/// before `at` is not.
pub proof fn lemma_insertion_point_found(sorted: Seq<TaskView>, task: TaskView, at: int)
    requires
        0 <= at <= sorted.len(),
        forall|j: int| at <= j < sorted.len() ==> !shown_no_later(#[trigger] sorted[j], task),
        at > 0 ==> shown_no_later(sorted[at - 1], task),
    ensures
        insertion_point(sorted, task) == at,
    decreases sorted.len(),
{
    if at < sorted.len() {
        lemma_insertion_point_found(sorted.drop_last(), task, at);
    }
}

/// Putting a task into an ordered list leaves it ordered.
pub proof fn lemma_insert_keeps_order(sorted: Seq<TaskView>, task: TaskView)
    requires
        is_display_ordered(sorted),
    ensures
        is_display_ordered(insert_in_order(sorted, task)),
{
    lemma_insertion_point(sorted, task);
    let at = insertion_point(sorted, task);
    let after = insert_in_order(sorted, task);
    assert forall|i: int, j: int| 0 <= i < j < after.len() implies shown_no_later(after[i], after[j]) by {
        if j == at && i < at - 1 {
            // What stands before the task stands before its neighbour in front.
            lemma_shown_no_later_transitive(sorted[i], sorted[at - 1], task);
        } else if i == at {
            // What stands behind the task is shown later than it.
            lemma_shown_no_later_total(sorted[j - 1], task);
        }
    }
}

/// The display order is ordered: of two tasks in the result, the one in
/// front is open while the other is completed, or they agree on that and
/// the one in front is due no later.
pub proof fn lemma_display_order_is_ordered(tasks: Seq<TaskView>)
    ensures
        is_display_ordered(in_display_order(tasks)),
    decreases tasks.len(),
{
    if tasks.len() > 0 {
        lemma_display_order_is_ordered(tasks.drop_last());
        lemma_insert_keeps_order(in_display_order(tasks.drop_last()), tasks.last());
    }
}

/// The display order holds the same tasks, each as often as before.
pub proof fn lemma_display_order_permutes(tasks: Seq<TaskView>)
    ensures
        in_display_order(tasks).to_multiset() == tasks.to_multiset(),
        in_display_order(tasks).len() == tasks.len(),
    decreases tasks.len(),
{
    if tasks.len() > 0 {
        let rest = tasks.drop_last();
        lemma_display_order_permutes(rest);
        lemma_insertion_point(in_display_order(rest), tasks.last());
        to_multiset_insert(
            in_display_order(rest),
            insertion_point(in_display_order(rest), tasks.last()),
            tasks.last(),
        );
        to_multiset_build(rest, tasks.last());
        assert(rest.push(tasks.last()) == tasks);
    }
}

/// Holds of the tasks that rank with `task`: neither is shown before the
/// other but by the order they came in.
pub open spec fn ranking_with(task: TaskView) -> spec_fn(TaskView) -> bool {
    |other: TaskView| shown_no_later(other, task) && shown_no_later(task, other)
}

/// The display order is stable: the tasks that rank alike stand in the order
/// they had. With the two lemmas before, this leaves one order only.
pub proof fn lemma_display_order_is_stable(tasks: Seq<TaskView>, task: TaskView)
    ensures
        in_display_order(tasks).filter(ranking_with(task)) == tasks.filter(ranking_with(task)),
    decreases tasks.len(),
{
    let alike = ranking_with(task);
    if tasks.len() > 0 {
        let rest = tasks.drop_last();
        let last = tasks.last();
        let sorted = in_display_order(rest);
        let at = insertion_point(sorted, last);
        lemma_display_order_is_stable(rest, task);
        lemma_insertion_point(sorted, last);
        let front = sorted.subrange(0, at);
        let back = sorted.subrange(at, sorted.len() as int);
        assert(sorted == front + back);
        Seq::filter_distributes_over_add(front, back, alike);
        Seq::filter_distributes_over_add(front.push(last), back, alike);
        front.lemma_filter_push(last, alike);
        rest.lemma_filter_push(last, alike);
        assert(rest.push(last) == tasks);
        if alike(last) {
            assert forall|j: int| 0 <= j < back.len() implies !alike(#[trigger] back[j]) by {
                if alike(back[j]) {
                    lemma_shown_no_later_transitive(back[j], task, last);
                }
            }
            back.lemma_all_neg_filter_empty(alike);
        }
    }
}

} // verus!
