//! A single-user task store: tasks with a status, a due date and categories,
//! kept in memory, listed in display order, and changed by identifier.
//!
//! The store is [`task::TaskManager`]. Its contracts are stated over the
//! plain-value model in [`store`], and [`order`] defines the order in which
//! a listing shows tasks. [`commands`] carries out what the user typed,
//! given as a [`cli::Commands`] value, and says in its
//! [`commands::Outcome`] what to report and whether to save. [`session`]
//! proves what holds over any run of additions and removals.
//!
//! Nothing here reads, writes or prints. The caller reads lines and hands
//! them to [`prompt::read_input`], reads the task file and asks
//! [`storage::text_to_decode`] what to make of it, and draws the rows that
//! [`table`] computes.

pub mod calendar;
pub mod cli;
pub mod commands;
pub mod error;
pub mod order;
pub mod prompt;
pub mod session;
pub mod status;
pub mod storage;
pub mod store;
pub mod table;
pub mod task;
pub mod text;
