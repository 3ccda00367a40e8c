//! The authenticated session: the token the server hands back on login.

use vstd::prelude::*;

verus! {

/// An open session with the server.
#[derive(Debug)]
pub struct Session {
    pub token: String,
}

/// Why the session token could not be written to or read from disk.
#[derive(Debug, PartialEq, Eq, Structural, Clone, Copy)]
pub enum TokenWriteReadError {
    /// The configured session path could not be resolved.
    TokenPathResolveError,
    /// The token file could not be created.
    TokenFileCreationError,
    /// The directory for the token file could not be created.
    TokenDirCreationError,
}

/// The outcome a login attempt is classified into, by the status code the
/// server answered with.
#[derive(Debug, PartialEq, Eq, Structural, Clone, Copy)]
pub enum LoginOutcome {
    /// The server accepted the credentials and answered a session token.
    Accepted,
    /// The server rejected the credentials.
    WrongCredentials,
    /// Any other answer.
    OtherFailure,
}

impl Session {
    /// Classifies the status code of a login answer: 200 means acceptance,
    /// 422 means rejected credentials, anything else is another failure.
    pub fn classify_login_status(status: u16) -> (r: LoginOutcome)
        ensures
            r == LoginOutcome::Accepted <==> status == 200,
            r == LoginOutcome::WrongCredentials <==> status == 422,
    {
        if status == 200 {
            LoginOutcome::Accepted
        } else if status == 422 {
            LoginOutcome::WrongCredentials
        } else {
            LoginOutcome::OtherFailure
        }
    }

    /// Resuming a stored session is not implemented; the call does nothing.
    #[allow(unused_variables)]
    pub fn resume(session_path: &str) {
    }
}

} // verus!
