//! The commands, each a state machine: it asks for outside work (running
//! `git` or a hook, asking the user) together with the lines to print
//! first, and is told what came of it.
pub mod flow;

pub mod push;
pub mod commit;
pub mod amend;
pub mod branch;
pub mod release;
pub mod connect;
pub mod undo;
pub mod once;
pub mod categories;
