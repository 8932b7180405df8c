//! Library behind a fish-shell prompt generator.
//!
//! The crate gathers the ephemeral state of one shell interaction (exit
//! status, vi editing mode, git branch and short status, working directory)
//! into a context snapshot and renders it into a styled prompt string, plus
//! an optional right-side duration annotation.  All parsing and rendering
//! decisions are made here, with contracts; the thin binary around the crate
//! only gathers raw process state and prints the result.

pub mod cli;
pub mod context;
pub mod render;
pub mod style;
pub mod text;
pub mod traits;
