//! What the program is started with.

use vstd::prelude::*;
use crate::command::Command;

verus! {

/// The options of the program.
#[derive(Debug)]
pub struct Opts {
    /// The file of the store to open at the start.
    pub db_file: Option<String>,
    /// The password of that store; asked for where it is left out.
    pub password: Option<String>,
    /// A single command to run in place of an interactive session.
    pub command: Option<Command>,
}

impl Opts {
    /// Whether the program asks for the password before it opens the store:
    /// where a file is given without one.
    pub fn needs_password_prompt(&self) -> (r: bool)
        ensures
            r == (self.db_file is Some && self.password is None),
    {
        self.db_file.is_some() && self.password.is_none()
    }

    /// Whether the program runs an interactive session: where no single
    /// command is given.
    pub fn is_interactive(&self) -> (r: bool)
        ensures
            r == (self.command is None),
    {
        self.command.is_none()
    }
}

} // verus!
