//! The errors of the library.

use vstd::prelude::*;
use vstd::string::StringExecFns;

use crate::traits::{run_error_text, RunError};

verus! {

/// All errors produced by this crate; each variant is a distinct failure
/// mode of the dispatch lifecycle.
#[derive(Debug)]
pub enum Error {
    /// Failed to establish a database connection; holds the database
    /// client's description of the failure.
    Connect(String),
    /// Failed to issue the `LISTEN` command; holds the database client's
    /// description of the failure.
    Listen(String),
    /// The channel name is not a valid unquoted PostgreSQL identifier.
    InvalidChannel(String),
    /// The command spec is empty (no program specified).
    EmptyCommand,
    /// A dispatch failure from the command runner.
    Run(RunError),
}

/// The text that describes an error.
pub open spec fn error_text(e: Error) -> Seq<char> {
    match e {
        Error::Connect(m) => "failed to connect to database: "@ + m@,
        Error::Listen(m) => "failed to issue LISTEN: "@ + m@,
        Error::InvalidChannel(m) => "invalid channel name: "@ + m@,
        Error::EmptyCommand => "command spec is empty"@,
        Error::Run(r) => run_error_text(r),
    }
}

impl Error {
    /// Describes the error.
    pub fn to_string(&self) -> (s: String)
        ensures
            s@ == error_text(*self),
    {
        match self {
            Error::Connect(m) => {
                let mut s = String::from_str("failed to connect to database: ");
                s.append(m.as_str());
                s
            },
            Error::Listen(m) => {
                let mut s = String::from_str("failed to issue LISTEN: ");
                s.append(m.as_str());
                s
            },
            Error::InvalidChannel(m) => {
                let mut s = String::from_str("invalid channel name: ");
                s.append(m.as_str());
                s
            },
            Error::EmptyCommand => String::from_str("command spec is empty"),
            Error::Run(r) => r.to_string(),
        }
    }
}

impl From<RunError> for Error {
    fn from(e: RunError) -> (r: Self) {
        Error::Run(e)
    }
}

impl vstd::std_specs::convert::FromSpecImpl<RunError> for Error {
    open spec fn obeys_from_spec() -> bool {
        true
    }

    open spec fn from_spec(e: RunError) -> Self {
        Error::Run(e)
    }
}

} // verus!
