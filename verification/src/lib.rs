//! Break timers: short-lived reminders that are set from the command line and
//! fire a desktop notification when they are due.
//!
//! - [`database`]: the store of timers, as executable code and as the
//!   mathematical model that the code is proved against.
//! - [`laws`]: what holds of the store through any sequence of operations.
//! - [`transaction`]: how the store is read and written where it is kept, under
//!   which lock and in which order.
//! - [`exclusion`]: why two writers that follow that order lose no update.
//! - [`daemon`]: the decisions of the background process that notifies.
//! - [`supervisor`]: finding out whether that process runs, and starting it.
//! - [`parser`]: durations and a message out of free-form input.
//! - [`cli`]: what the command line shows, and flags among its words.
//! - [`text`]: characters, words and decimal numbers.
//! - [`platform`]: what comes from outside and is not proved here: the clock,
//!   random identifiers, and Unicode's lowercase.
//!
//! Files, locks, processes and notifications are not touched by this library:
//! it says what is to be done with them, and takes word of how it went.

pub mod platform;
pub mod text;
pub mod database;
pub mod laws;
pub mod transaction;
pub mod exclusion;
pub mod daemon;
pub mod supervisor;
pub mod parser;
pub mod cli;
