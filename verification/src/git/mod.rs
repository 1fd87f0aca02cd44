//! What the `git` commands are asked and what their output means.
pub mod branches;
pub mod commits;
pub mod common;
pub mod forward;
pub mod log;
pub mod push;
pub mod remote;
pub mod staging;
pub mod status;
pub mod tags;
pub mod types;
