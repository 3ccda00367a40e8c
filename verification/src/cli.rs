//! The command-line surface, as plain data: which command to run and with
//! which arguments. Argument parsing itself lives with the caller.

use vstd::prelude::*;

verus! {

/// The parsed command line: a configuration file path and a command.
#[derive(Debug)]
pub struct Args {
    /// Path of the configuration file to use.
    pub config: String,
    pub command: Commands,
}

/// The available commands.
#[derive(Debug)]
pub enum Commands {
    /// Import a spreadsheet with a list of tasks as an invoice.
    Import(ImportArgs),
    /// Log in to the invoicing server.
    Login(LoginArgs),
}

/// Arguments of the import command.
#[derive(Debug)]
pub struct ImportArgs {
    /// Path to the template file.
    pub template: String,
    /// Path to the spreadsheet to import.
    pub spreadsheet: String,
}

/// Arguments of the login command.
#[derive(Debug)]
pub struct LoginArgs {
    /// The user's name on the invoicing server.
    pub username: String,
    /// The user's password on the invoicing server.
    pub password: String,
}

} // verus!
