//! Listens to a PostgreSQL notification channel and dispatches each
//! notification payload to a command runner.
//!
//! The library holds what the dispatcher decides: the configuration drawn
//! from the command line and its validation, the checked `LISTEN` statement,
//! the parsed command, the dispatch loop over a [`NotificationSource`] and a
//! [`CommandRunner`], the mapping of a command's exit to the runner's result,
//! and the text of every error.

pub mod cli;
pub mod dispatcher;
pub mod error;
pub mod pg_source;
pub mod text;
pub mod traits;

pub use cli::{Cli, Config};
pub use dispatcher::{DispatchEnd, DispatchReport, Dispatcher};
pub use error::Error;
pub use traits::{CommandRunner, CommandSpec, ExitError, NotificationSource, RunError};
