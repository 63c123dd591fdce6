//! The command line's values and the configuration drawn from them.

use vstd::prelude::*;
use vstd::string::StringExecFns;

use crate::error::Error;
use crate::text::{
    ascii_letter, ascii_letter_or_digit, chars_of, debug_quoted, is_ascii_letter,
    is_ascii_letter_or_digit, quoted, split_words, views, words,
};

verus! {

/// Command-line values of the dispatcher: the database connection string,
/// the channel to listen on, the command to execute for each notification,
/// and the number of workers.
#[derive(Debug, Clone)]
pub struct Cli {
    /// Database connection string (e.g. `postgres://user@host:port/dbname`).
    pub db_uri: String,
    /// PostgreSQL channel to `LISTEN` on.
    pub channel: String,
    /// Command to execute when a notification arrives; arguments may be
    /// included, e.g. `sh script.sh`.
    pub exec_command: String,
    /// Maximum number of worker threads to spawn.
    pub workers: usize,
}

/// Parsed configuration ready for the dispatcher.
#[derive(Debug, Clone)]
pub struct Config {
    /// Database connection string.
    pub db_url: String,
    /// PostgreSQL channel to LISTEN on.
    pub db_channel: String,
    /// Maximum number of worker threads.
    pub max_threads: usize,
    /// Parsed command (program and arguments).
    pub command: Vec<String>,
}

impl Config {
    /// The configuration of the command-line values `cli`: the command line
    /// `exec_command` is split into its words.
    pub fn from(cli: Cli) -> (config: Self)
        ensures
            config.db_url == cli.db_uri,
            config.db_channel == cli.channel,
            config.max_threads == cli.workers,
            views(config.command@) == words(cli.exec_command@),
    {
        let command = split_words(cli.exec_command.as_str());
        Config {
            db_url: cli.db_uri,
            db_channel: cli.channel,
            max_threads: cli.workers,
            command,
        }
    }
}

/// A character that may start an unquoted PostgreSQL identifier: an ASCII
/// letter or an underscore.
pub open spec fn is_identifier_start(c: char) -> bool {
    is_ascii_letter(c) || c == '_'
}

/// A character that may follow in an unquoted PostgreSQL identifier: an
/// ASCII letter, an ASCII digit or an underscore.
pub open spec fn is_identifier_char(c: char) -> bool {
    is_ascii_letter_or_digit(c) || c == '_'
}

/// A channel name that is safe to interpolate into `LISTEN`: a non-empty
/// unquoted identifier.
pub open spec fn valid_channel(s: Seq<char>) -> bool {
    &&& s.len() > 0
    &&& is_identifier_start(s[0])
    &&& forall|i: int| 1 <= i < s.len() ==> is_identifier_char(#[trigger] s[i])
}

/// A channel name that passes validation consists of ASCII letters, digits
/// and underscores only, so `LISTEN <channel>` cannot carry anything but
/// the identifier.
pub proof fn law_valid_channel_is_plain_identifier(s: Seq<char>)
    requires
        valid_channel(s),
    ensures
        forall|i: int| 0 <= i < s.len() ==> is_identifier_char(#[trigger] s[i]),
{
    assert forall|i: int| 0 <= i < s.len() implies is_identifier_char(#[trigger] s[i]) by {
        if i == 0 {
            assert(is_identifier_start(s[0]));
        }
    }
}

/// A channel name is valid exactly when it is non-empty, of any length, its
/// first character is an ASCII letter (either case) or `_`, and each other
/// character is an ASCII letter, an ASCII digit or `_`.
pub proof fn law_valid_channel_exactly_identifiers(s: Seq<char>)
    ensures
        valid_channel(s) <==> {
            &&& s.len() > 0
            &&& {
                let u = s[0] as u32;
                (65 <= u && u <= 90) || (97 <= u && u <= 122) || u == 95
            }
            &&& forall|i: int|
                1 <= i < s.len() ==> {
                    let u = #[trigger] s[i] as u32;
                    (65 <= u && u <= 90) || (97 <= u && u <= 122) || (48 <= u && u <= 57) || u
                        == 95
                }
        },
{
    assert forall|i: int| 0 <= i < s.len() implies identifier_codes(#[trigger] s[i]) by {
        lemma_identifier_codes(s[i]);
    }
}

/// How the identifier character classes read as code points.
spec fn identifier_codes(c: char) -> bool {
    let u = c as u32;
    &&& is_identifier_char(c) <==> ((65 <= u && u <= 90) || (97 <= u && u <= 122) || (48 <= u && u
        <= 57) || u == 95)
    &&& is_identifier_start(c) <==> ((65 <= u && u <= 90) || (97 <= u && u <= 122) || u == 95)
}

proof fn lemma_identifier_codes(c: char)
    ensures
        identifier_codes(c),
{
    crate::text::law_ascii_letters_and_digits(c);
}

/// What is wrong with a channel name that is not valid.
pub open spec fn channel_problem(s: Seq<char>) -> Seq<char> {
    if s.len() == 0 {
        "channel name must not be empty"@
    } else if !is_identifier_start(s[0]) {
        "channel name must start with a letter or underscore, got: "@ + debug_quoted(s)
    } else {
        "channel name must contain only alphanumeric characters and underscores, got: "@
            + debug_quoted(s)
    }
}

/// Validates a PostgreSQL channel name for safe interpolation into `LISTEN`.
///
/// A valid unquoted identifier consists of ASCII letters, digits and
/// underscores, and starts with a letter or underscore.
pub fn validate_channel(channel: &str) -> (r: Result<(), Error>)
    ensures
        match r {
            Ok(()) => valid_channel(channel@),
            Err(Error::InvalidChannel(m)) => !valid_channel(channel@) && m@ == channel_problem(
                channel@,
            ),
            Err(_) => false,
        },
{
    let cs = chars_of(channel);
    let n = cs.len();
    if n == 0 {
        return Err(Error::InvalidChannel(String::from_str("channel name must not be empty")));
    }
    let first = cs[0];
    if !ascii_letter(first) && first != '_' {
        let mut m = String::from_str("channel name must start with a letter or underscore, got: ");
        let q = quoted(channel);
        m.append(q.as_str());
        return Err(Error::InvalidChannel(m));
    }
    let mut i: usize = 1;
    while i < n
        invariant
            n == cs@.len(),
            cs@ == channel@,
            1 <= i <= n,
            is_identifier_start(cs@[0]),
            forall|j: int| 1 <= j < i ==> is_identifier_char(#[trigger] cs@[j]),
        decreases n - i,
    {
        let c = cs[i];
        if !ascii_letter_or_digit(c) && c != '_' {
            let mut m = String::from_str(
                "channel name must contain only alphanumeric characters and underscores, got: ",
            );
            let q = quoted(channel);
            m.append(q.as_str());
            assert(!is_identifier_char(channel@[i as int]));
            return Err(Error::InvalidChannel(m));
        }
        i = i + 1;
    }
    Ok(())
}

impl Config {
    /// Validates the configuration: the channel name must be a valid
    /// unquoted identifier (checked first), and the command must not be
    /// empty.
    pub fn validate(&self) -> (r: Result<(), Error>)
        ensures
            match r {
                Ok(()) => valid_channel(self.db_channel@) && self.command@.len() > 0,
                Err(Error::InvalidChannel(m)) => !valid_channel(self.db_channel@) && m@
                    == channel_problem(self.db_channel@),
                Err(Error::EmptyCommand) => valid_channel(self.db_channel@)
                    && self.command@.len() == 0,
                Err(_) => false,
            },
    {
        validate_channel(self.db_channel.as_str())?;
        if self.command.len() == 0 {
            return Err(Error::EmptyCommand);
        }
        Ok(())
    }
}

} // verus!
