use vstd::prelude::*;

pub mod app;
pub mod categories;
pub mod clone;
pub mod cmd;
pub mod config;
pub mod env_args;
pub mod git;
pub mod hooks;
pub mod picker;
pub mod print;
pub mod style;
pub mod text;
pub mod ui;

verus! {

} // verus!
