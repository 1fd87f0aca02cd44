//! The interactive parts: what each key does to a picker, selector or
//! prompt, and what is drawn.
pub mod confirms;
pub mod draw;
pub mod editor;
pub mod keys;
pub mod prompts;
pub mod selectors;
