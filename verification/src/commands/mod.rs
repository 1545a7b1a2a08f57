pub mod add;
pub mod clear;
pub mod delete;
pub mod list;
pub mod update;

use crate::cli::Commands;
use crate::error::{AppError, AppResult};
use crate::task::{Listing, TaskManager};
use vstd::prelude::*;

verus! {

/// What a command did, for the caller to tell the user and to act on.
#[derive(Debug)]
pub enum Outcome<'a> {
    /// A task was added under `id`.
    Added { id: u32, name: String },
    /// The task `id` was changed.
    Updated { id: u32 },
    /// The task `id` was removed.
    Deleted { id: u32 },
    /// Nothing changed; here is what to show.
    Listed(Listing<'a>),
    /// Nothing changed; the caller is to clear the screen.
    ClearScreen,
}

impl<'a> Outcome<'a> {
    /// The command changed the store.
    pub open spec fn changed_store(self) -> bool {
        self is Added || self is Updated || self is Deleted
    }

    /// Whether the tasks have to be written out: after a command that
    /// changed the store, and only then.
    pub fn needs_saving(&self) -> (r: bool)
        ensures
            r == self.changed_store(),
    {
        match self {
            Outcome::Added { .. } => true,
            Outcome::Updated { .. } => true,
            Outcome::Deleted { .. } => true,
            Outcome::Listed(_) => false,
            Outcome::ClearScreen => false,
        }
    }
}

/// What a command does to the store and reports: what its own kind does.
/// Clearing the screen is left to the caller and changes nothing.
pub open spec fn effect(
    before: TaskManager,
    after: TaskManager,
    command: Commands,
    r: AppResult<Outcome<'_>>,
) -> bool {
    match command {
        Commands::Add { name, desc, due, cat } => add::effect(before, after, name@, desc@, due@, cat@, r),
        Commands::List { cat } => list::effect(before, after, list::filter_of(cat), r),
        Commands::Update { id, name, desc, due, status, cat } => update::effect(
            before,
            after,
            id,
            update::request(name, desc, due, status, cat),
            r,
        ),
        Commands::Delete { id } => delete::effect(before, after, id, r),
        Commands::Clear => r == Ok::<Outcome<'_>, AppError>(Outcome::ClearScreen) && after == before,
    }
}

/// Carries out `command` on the store: each kind by its own function, but
/// clearing the screen, which is left to the caller.
pub fn handle_command<'a>(manager: &'a mut TaskManager, command: Commands) -> (r: AppResult<Outcome<'a>>)
    requires
        command is Add ==> old(manager)@.last_id < u32::MAX,
    ensures
        effect(*old(manager), *final(manager), command, r),
        r is Ok ==> (r.unwrap().changed_store() <==> command is Add || command is Update || command is Delete),
        old(manager)@.well_formed() ==> final(manager)@.well_formed(),
        old(manager)@.well_formed() && old(manager)@.ids_distinct() ==> final(manager)@.ids_distinct(),
{
    match command {
        Commands::Add { name, desc, due, cat } => add::execute(manager, name, desc, due, cat),
        Commands::List { cat } => list::execute(manager, cat),
        Commands::Update { id, name, desc, due, status, cat } => update::execute(
            manager,
            id,
            name,
            desc,
            due,
            status,
            cat,
        ),
        Commands::Delete { id } => delete::execute(manager, id),
        Commands::Clear => Ok(Outcome::ClearScreen),
    }
}

} // verus!
