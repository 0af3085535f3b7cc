//! The command surface: the set of commands and their dispatch.
//!
//! Argument parsing, file I/O and exit codes are the embedding program's
//! business; a command here is plain data, and running it works on the raw
//! file text that the program hands in.

use vstd::prelude::*;

use crate::replace_tag::{run_post, ReplaceError, ReplaceTag, UpdateOutcome};

verus! {

/// A collection of tools for manipulating kustomization files.
#[derive(Debug, Clone)]
pub struct Cli {
    pub command: Commands,
}

impl Cli {
    /// Runs the selected command on the raw text of the manifest file.
    pub fn run(&self, text: &str) -> (r: Result<UpdateOutcome, ReplaceError>)
        ensures
            match self.command {
                Commands::ReplaceTag(cmd) => run_post(cmd, text@, r),
            },
    {
        self.command.run(text)
    }
}

/// The available commands.
#[derive(Debug, Clone)]
pub enum Commands {
    ReplaceTag(ReplaceTag),
}

impl Commands {
    /// Runs the command on the raw text of the manifest file.
    pub fn run(&self, text: &str) -> (r: Result<UpdateOutcome, ReplaceError>)
        ensures
            match *self {
                Commands::ReplaceTag(cmd) => run_post(cmd, text@, r),
            },
    {
        match self {
            Commands::ReplaceTag(cmd) => cmd.run(text),
        }
    }
}

} // verus!
