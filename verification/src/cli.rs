use vstd::prelude::*;

verus! {

/// A command line as it was understood.
#[derive(Debug)]
pub struct Cli {
    pub command: Commands,
}

/// What the user can ask for. Dates, statuses and category lists are still
/// the texts that were typed.
#[derive(Debug)]
#[allow(inconsistent_fields)]
pub enum Commands {
    /// Add a task.
    Add { name: String, desc: String, due: String, cat: String },
    /// List all tasks, or those in one category.
    List { cat: Option<String> },
    /// Change fields of a task.
    Update {
        id: u32,
        name: Option<String>,
        desc: Option<String>,
        due: Option<String>,
        status: Option<String>,
        cat: Option<String>,
    },
    /// Delete a task.
    Delete { id: u32 },
    /// Clear the screen.
    Clear,
}

} // verus!
