use crate::calendar::formatted_date;
use crate::task::{Task, TaskView};
use crate::text::{join, joined, shorten, shortened};
use vstd::prelude::*;

verus! {

/// One line of the table of tasks: a text for each column but the first.
#[derive(Debug)]
pub struct TaskRow {
    pub id: u32,
    pub status: String,
    pub due: String,
    pub name: String,
    pub categories: String,
    pub description: String,
}

/// A line of the table as plain values.
pub ghost struct TaskRowView {
    pub id: int,
    pub status: Seq<char>,
    pub due: Seq<char>,
    pub name: Seq<char>,
    pub categories: Seq<char>,
    pub description: Seq<char>,
}

impl View for TaskRow {
    type V = TaskRowView;

    open spec fn view(&self) -> TaskRowView {
        TaskRowView {
            id: self.id as int,
            status: self.status@,
            due: self.due@,
            name: self.name@,
            categories: self.categories@,
            description: self.description@,
        }
    }
}

/// The line that shows `task`: the status in words, the day it is due, the
/// categories with a comma and a space between them, the description cut
/// where it is long.
pub open spec fn row_of(task: TaskView) -> TaskRowView {
    TaskRowView {
        id: task.id,
        status: task.status.label(),
        due: formatted_date(task.due_date.date),
        name: task.name,
        categories: joined(task.categories, ", "@),
        description: shortened(task.description),
    }
}

impl Task {
    /// The line that shows the task.
    pub fn table_row(&self) -> (row: TaskRow)
        ensures
            row@ == row_of(self@),
    {
        TaskRow {
            id: self.id,
            status: self.status.to_string(),
            due: self.due_date.date().to_iso_string(),
            name: self.name.clone(),
            categories: join(&self.categories, ", "),
            description: shorten(self.description.as_str()),
        }
    }
}

} // verus!
