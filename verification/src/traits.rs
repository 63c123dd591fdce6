//! The two roles the dispatcher is written against, the runner's error, and
//! the command a runner executes.

use vstd::prelude::*;
use vstd::string::StringExecFns;

use crate::text::{decimal, lemma_words_nonempty, push_decimal, split_words, views, words};

verus! {

/// A source of notification payloads.
///
/// Implementations are responsible for subscribing to their channel and
/// yielding payloads as they arrive.
pub trait NotificationSource {
    /// Polled in this state, the source may give `answer` (a payload, or
    /// `None` for the end of the stream) and move to state `next`.
    /// An implementation that states its behaviour defines this relation;
    /// the default states nothing of it.
    closed spec fn yields(&self, next: &Self, answer: Option<Seq<char>>) -> bool {
        true
    }

    /// Returns the next notification payload, or `None` when the stream has
    /// ended.
    fn next_payload(&mut self) -> (r: Option<String>)
        ensures
            old(self).yields(final(self), payload_view(r)),
    ;
}

/// The view of a payload answer.
pub open spec fn payload_view(r: Option<String>) -> Option<Seq<char>> {
    match r {
        Some(p) => Some(p@),
        None => None,
    }
}

/// Runs a command for a given payload.
pub trait CommandRunner {
    /// Handed `payload` in this state, the runner may answer `r` and move to
    /// state `next`. An implementation that states its behaviour defines
    /// this relation; the default states nothing of it.
    closed spec fn handled(
        &self,
        next: &Self,
        payload: Seq<char>,
        r: Result<(), RunError>,
    ) -> bool {
        true
    }

    /// Executes the configured command with `payload` on its standard input.
    fn run(&mut self, payload: &str) -> (r: Result<(), RunError>)
        ensures
            old(self).handled(final(self), payload@, r),
    ;
}

/// Describes a process exit that was not a success.
#[derive(Debug, Clone, Copy)]
pub struct ExitError {
    /// The raw exit code, or `None` if the process was terminated by a signal.
    pub code: Option<i32>,
}

/// Error returned by [`CommandRunner::run`].
#[derive(Debug, Clone)]
pub enum RunError {
    /// The command could not be spawned.
    Spawn(String),
    /// The command exited with a status other than success.
    Exit(ExitError),
}

/// The text that describes an exit with `code`.
pub open spec fn exit_text(code: Option<i32>) -> Seq<char> {
    match code {
        Some(c) => "status code "@ + decimal(c as int),
        None => "terminated by a signal"@,
    }
}

/// The text that describes a run error.
pub open spec fn run_error_text(e: RunError) -> Seq<char> {
    match e {
        RunError::Spawn(m) => "failed to spawn command: "@ + m@,
        RunError::Exit(x) => "command failed: "@ + exit_text(x.code),
    }
}

impl ExitError {
    /// Describes the exit: `status code N`, or `terminated by a signal`.
    pub fn to_string(&self) -> (s: String)
        ensures
            s@ == exit_text(self.code),
    {
        match self.code {
            Some(c) => {
                let mut s = String::from_str("status code ");
                push_decimal(&mut s, c);
                s
            },
            None => String::from_str("terminated by a signal"),
        }
    }
}

impl RunError {
    /// Describes the error.
    pub fn to_string(&self) -> (s: String)
        ensures
            s@ == run_error_text(*self),
    {
        match self {
            RunError::Spawn(m) => {
                let mut s = String::from_str("failed to spawn command: ");
                s.append(m.as_str());
                s
            },
            RunError::Exit(x) => {
                let mut s = String::from_str("command failed: ");
                let t = x.to_string();
                s.append(t.as_str());
                s
            },
        }
    }
}

/// The outcome that a process exit with `code` stands for: success exactly
/// for exit code zero; any other code, or no code (a signal), is an error
/// that carries it.
pub open spec fn exit_outcome(code: Option<i32>) -> Result<(), RunError> {
    match code {
        Some(0) => Ok(()),
        _ => Err(RunError::Exit(ExitError { code })),
    }
}

/// A finished command succeeded exactly when it exited with code zero;
/// every other exit, with a code or by a signal, is the exit error carrying
/// that very code.
pub proof fn law_only_exit_code_zero_succeeds(code: Option<i32>)
    ensures
        exit_outcome(code) is Ok <==> code == Some(0i32),
        code != Some(0i32) ==> exit_outcome(code) == Err::<(), RunError>(
            RunError::Exit(ExitError { code }),
        ),
{
}

/// Maps the exit code of a finished command to the runner's result.
pub fn exit_status_result(code: Option<i32>) -> (r: Result<(), RunError>)
    ensures
        r == exit_outcome(code),
{
    match code {
        Some(0) => Ok(()),
        _ => Err(RunError::Exit(ExitError { code })),
    }
}

/// A parsed command: a program and its arguments.
#[derive(Debug, Clone)]
pub struct CommandSpec {
    /// The program to execute.
    pub program: String,
    /// Arguments to pass to the program (excluding the program name itself).
    pub args: Vec<String>,
}

impl CommandSpec {
    /// A command spec for `program` with no arguments.
    pub fn new(program: &str) -> (spec: Self)
        ensures
            spec.program@ == program@,
            spec.args@.len() == 0,
    {
        CommandSpec { program: String::from_str(program), args: Vec::new() }
    }

    /// A command spec for `program` with `args`.
    pub fn with_args(program: &str, args: Vec<String>) -> (spec: Self)
        ensures
            spec.program@ == program@,
            spec.args == args,
    {
        CommandSpec { program: String::from_str(program), args }
    }

    /// Parses a whitespace-separated command line: the first word is the
    /// program, the others are its arguments.
    pub fn parse(s: &str) -> (spec: Self)
        requires
            crate::text::has_word(s@),
        ensures
            seq![spec.program@] + views(spec.args@) == words(s@),
    {
        proof {
            lemma_words_nonempty(s@);
        }
        let mut parts = split_words(s);
        let program = parts.remove(0);
        assert(views(parts@) =~= words(s@).drop_first());
        CommandSpec { program, args: parts }
    }
}

} // verus!
