//! What the PostgreSQL notification source computes before it talks to the
//! database: the checked channel name and the `LISTEN` statement for it.

use vstd::prelude::*;
use vstd::string::StringExecFns;

use crate::cli::{channel_problem, valid_channel, validate_channel};
use crate::error::Error;

verus! {

/// Validates a PostgreSQL channel name for safe interpolation into `LISTEN`.
///
/// A valid unquoted identifier consists of ASCII letters, digits and
/// underscores, and starts with a letter or underscore.
pub fn validate_channel_name(channel: &str) -> (r: Result<(), Error>)
    ensures
        match r {
            Ok(()) => valid_channel(channel@),
            Err(Error::InvalidChannel(m)) => !valid_channel(channel@) && m@ == channel_problem(
                channel@,
            ),
            Err(_) => false,
        },
{
    validate_channel(channel)
}

/// The statement that subscribes to `channel`: `LISTEN <channel>`, issued
/// only for a channel name that passes validation.
pub fn listen_statement(channel: &str) -> (r: Result<String, Error>)
    ensures
        match r {
            Ok(s) => valid_channel(channel@) && s@ == "LISTEN "@ + channel@,
            Err(Error::InvalidChannel(m)) => !valid_channel(channel@) && m@ == channel_problem(
                channel@,
            ),
            Err(_) => false,
        },
{
    validate_channel_name(channel)?;
    let mut s = String::from_str("LISTEN ");
    s.append(channel);
    Ok(s)
}

} // verus!
