//! The shapes of the three requests the program serves.
//!
//! These are plain data carriers; the binary around the crate parses the
//! command line into its own mirror of these types and converts.

use vstd::prelude::*;

verus! {

/// Arguments of a left-prompt request.
#[derive(Debug)]
pub struct PromptArgs {
    /// Exit status of the previous command.
    pub status: i16,
    /// Free-text token naming the current vi editing mode.
    pub vi_mode: String,
}

/// Arguments of a right-prompt request.
#[derive(Debug)]
pub struct RightPromptArgs {
    /// Duration of the previous command, in milliseconds.
    pub last_duration: u64,
    /// Text of the previous command line.
    pub last_command: String,
}

/// Arguments of an init request.
#[derive(Debug)]
pub struct InitArgs {}

/// The three requests.
#[derive(Debug)]
pub enum Cmds {
    Init(InitArgs),
    Prompt(PromptArgs),
    RightPrompt(RightPromptArgs),
}

/// A whole parsed command line.
#[derive(Debug)]
pub struct VifiArgs {
    pub cmd: Cmds,
}

} // verus!
