//! The dispatch loop: pull a payload from a notification source, hand it to
//! a command runner, repeat.

use vstd::prelude::*;

use crate::traits::{CommandRunner, NotificationSource, RunError};

verus! {

/// Why a dispatch loop ended.
#[derive(Debug, Clone)]
pub enum DispatchEnd {
    /// The source returned `None`.
    SourceExhausted,
    /// The runner returned this error for the last payload it was handed.
    RunnerFailed(RunError),
    /// The source was polled `u64::MAX` times, the most one call of
    /// [`Dispatcher::run`] makes; the caller may run the loop again.
    PollLimitReached,
}

/// One turn of a dispatch loop, as it happened.
pub enum Turn {
    /// The source returned `None`.
    Exhausted,
    /// The source yielded this payload, the runner was handed it, and
    /// answered with this result.
    Dispatched(Seq<char>, Result<(), RunError>),
}

/// What a call of [`Dispatcher::run`] did: why the loop ended, and the
/// record of its turns.
pub struct DispatchReport {
    /// Why the loop ended.
    pub end: DispatchEnd,
    /// The turns of the loop, oldest first.
    pub turns: Ghost<Seq<Turn>>,
}

/// The most polls that one call of [`Dispatcher::run`] makes.
pub open spec fn max_polls() -> nat {
    u64::MAX as nat
}

/// The calls the runner got, oldest first: each payload it was handed and
/// its answer.
pub open spec fn calls_of(turns: Seq<Turn>) -> Seq<(Seq<char>, Result<(), RunError>)>
    decreases turns.len(),
{
    if turns.len() == 0 {
        Seq::empty()
    } else {
        match turns.last() {
            Turn::Exhausted => calls_of(turns.drop_last()),
            Turn::Dispatched(p, r) => calls_of(turns.drop_last()).push((p, r)),
        }
    }
}

/// The answers of the source over a record of turns, oldest first.
pub open spec fn answers_of(turns: Seq<Turn>) -> Seq<Option<Seq<char>>> {
    turns.map_values(|t: Turn| match t {
        Turn::Exhausted => None,
        Turn::Dispatched(p, _) => Some(p),
    })
}

/// The source went through `states`, from `first` to `last`, giving one of
/// `answers` at each step, in order.
pub open spec fn polled_through<S: NotificationSource>(
    states: Seq<S>,
    first: S,
    last: S,
    answers: Seq<Option<Seq<char>>>,
) -> bool {
    &&& states.len() == answers.len() + 1
    &&& states[0] == first
    &&& states.last() == last
    &&& forall|k: int|
        0 <= k < answers.len() ==> #[trigger] states[k].yields(&states[k + 1], answers[k])
}

/// The runner went through `states`, from `first` to `last`, handling one of
/// `calls` at each step, in order: one call of `run` per step and no other.
pub open spec fn ran_through<R: CommandRunner>(
    states: Seq<R>,
    first: R,
    last: R,
    calls: Seq<(Seq<char>, Result<(), RunError>)>,
) -> bool {
    &&& states.len() == calls.len() + 1
    &&& states[0] == first
    &&& states.last() == last
    &&& forall|k: int|
        0 <= k < calls.len() ==> #[trigger] states[k].handled(
            &states[k + 1],
            calls[k].0,
            calls[k].1,
        )
}

/// A turn in which the runner was handed a payload and accepted it.
pub open spec fn accepted(t: Turn) -> bool {
    match t {
        Turn::Dispatched(_, Ok(())) => true,
        _ => false,
    }
}

/// The rules of the dispatch loop, over the record of a finished loop: it
/// polled the source at least once and at most `max_polls()` times; every
/// turn but the last handed a payload to the runner, which accepted it; and
/// the last turn is why the loop ended: the source was exhausted, the runner
/// failed, or the poll limit was reached.
pub open spec fn follows_rules(turns: Seq<Turn>, end: DispatchEnd) -> bool {
    &&& 0 < turns.len() <= max_polls()
    &&& forall|k: int| 0 <= k < turns.len() - 1 ==> accepted(#[trigger] turns[k])
    &&& match turns.last() {
        Turn::Exhausted => end == DispatchEnd::SourceExhausted,
        Turn::Dispatched(_, Err(e)) => end == DispatchEnd::RunnerFailed(e),
        Turn::Dispatched(_, Ok(())) => end == DispatchEnd::PollLimitReached && turns.len()
            == max_polls(),
    }
}

/// The runner's calls line up with the source's answers: the `i`-th call
/// handed the runner the `i`-th payload the source yielded, with the answer
/// recorded in that turn; there is one call per payload, so every answer
/// but a final `None` was handed on.
pub proof fn law_calls_are_the_yielded_payloads(turns: Seq<Turn>, end: DispatchEnd)
    requires
        follows_rules(turns, end),
    ensures
        calls_of(turns).len() == if turns.last() is Exhausted {
            turns.len() - 1
        } else {
            turns.len() as int
        },
        forall|i: int|
            0 <= i < calls_of(turns).len() ==> answers_of(turns)[i] == Some(
                (#[trigger] calls_of(turns)[i]).0,
            ) && turns[i] == Turn::Dispatched(calls_of(turns)[i].0, calls_of(turns)[i].1),
{
    lemma_calls_line_up(turns);
    assert forall|i: int| 0 <= i < calls_of(turns).len() implies answers_of(turns)[i] == Some(
        (#[trigger] calls_of(turns)[i]).0,
    ) by {
        assert(turns[i] == Turn::Dispatched(calls_of(turns)[i].0, calls_of(turns)[i].1));
    }
}

/// A loop that ended because the source was exhausted handed every payload
/// the source yielded to the runner, which accepted each of them.
pub proof fn law_exhausted_source_was_fully_dispatched(turns: Seq<Turn>)
    requires
        follows_rules(turns, DispatchEnd::SourceExhausted),
    ensures
        turns.last() is Exhausted,
        forall|k: int| 0 <= k < turns.len() - 1 ==> accepted(#[trigger] turns[k]),
        calls_of(turns).len() == turns.len() - 1,
        forall|i: int| 0 <= i < calls_of(turns).len() ==> (#[trigger] calls_of(turns)[i]).1 is Ok,
{
    lemma_calls_line_up(turns);
    assert forall|i: int| 0 <= i < calls_of(turns).len() implies (#[trigger] calls_of(
        turns,
    )[i]).1 is Ok by {
        assert(accepted(turns[i]));
    }
}

/// The loop stops at the first payload the runner rejects: that payload was
/// handed to the runner in the last call, it is the last turn, and the loop
/// reports the runner's error.
pub proof fn law_stops_at_first_failure(
    turns: Seq<Turn>,
    end: DispatchEnd,
    k: int,
    p: Seq<char>,
    e: RunError,
)
    requires
        follows_rules(turns, end),
        0 <= k < turns.len(),
        turns[k] == Turn::Dispatched(p, Err(e)),
    ensures
        k == turns.len() - 1,
        end == DispatchEnd::RunnerFailed(e),
        calls_of(turns).last() == (p, Err::<(), RunError>(e)),
{
    if k < turns.len() - 1 {
        assert(accepted(turns[k]));
    }
}

/// In a record where every turn but the last handed a payload to the runner,
/// the `i`-th call is the `i`-th turn, and every turn but a final exhausted
/// one is a call.
proof fn lemma_calls_line_up(turns: Seq<Turn>)
    requires
        forall|k: int| 0 <= k < turns.len() - 1 ==> accepted(#[trigger] turns[k]),
    ensures
        calls_of(turns).len() == if turns.len() > 0 && turns.last() is Exhausted {
            turns.len() - 1
        } else {
            turns.len() as int
        },
        forall|i: int|
            0 <= i < calls_of(turns).len() ==> turns[i] == Turn::Dispatched(
                (#[trigger] calls_of(turns)[i]).0,
                calls_of(turns)[i].1,
            ),
    decreases turns.len(),
{
    if turns.len() > 0 {
        let init = turns.drop_last();
        assert forall|k: int| 0 <= k < init.len() - 1 implies accepted(#[trigger] init[k]) by {
            assert(accepted(turns[k]));
        }
        lemma_calls_line_up(init);
        if init.len() > 0 {
            assert(accepted(turns[init.len() - 1]));
            assert(!(init.last() is Exhausted));
        }
        assert forall|i: int| 0 <= i < calls_of(turns).len() implies turns[i] == Turn::Dispatched(
            (#[trigger] calls_of(turns)[i]).0,
            calls_of(turns)[i].1,
        ) by {
            if i < calls_of(init).len() {
                assert(turns[i] == init[i]);
            }
        }
    }
}

/// Orchestrates pulling notifications from a [`NotificationSource`] and
/// dispatching each payload to a [`CommandRunner`].
pub struct Dispatcher<R: CommandRunner> {
    runner: R,
}

impl<R: CommandRunner> Dispatcher<R> {
    /// The runner that this dispatcher hands payloads to.
    pub closed spec fn runner(&self) -> R {
        self.runner
    }

    /// Creates a dispatcher with the given command runner.
    pub fn new(runner: R) -> (d: Self)
        ensures
            d.runner() == runner,
    {
        Dispatcher { runner }
    }

    /// Pulls payloads from `source` and hands each one to the runner, once,
    /// in order.
    ///
    /// The loop stops when the source returns `None`, when the runner
    /// returns an error, or after `u64::MAX` polls. The record of turns is
    /// what the source answered to each poll, in order, and for each payload
    /// the runner's answer; the source took one step per turn and the runner
    /// one step per dispatched payload, and neither was called otherwise.
    pub fn run<S: NotificationSource>(&mut self, source: &mut S) -> (report: DispatchReport)
        ensures
            follows_rules(report.turns@, report.end),
            exists|states: Seq<S>|
                polled_through(states, *old(source), *final(source), answers_of(report.turns@)),
            exists|runs: Seq<R>|
                ran_through(runs, old(self).runner(), final(self).runner(), calls_of(report.turns@)),
    {
        let ghost mut turns: Seq<Turn> = Seq::empty();
        let ghost mut states: Seq<S> = seq![*source];
        let ghost mut runs: Seq<R> = seq![self.runner];
        let mut polls: u64 = 0;
        loop
            invariant
                polls == turns.len(),
                forall|k: int| 0 <= k < turns.len() ==> accepted(#[trigger] turns[k]),
                polled_through(states, *old(source), *source, answers_of(turns)),
                ran_through(runs, old(self).runner(), self.runner(), calls_of(turns)),
            decreases u64::MAX - polls,
        {
            if polls == u64::MAX {
                return DispatchReport { end: DispatchEnd::PollLimitReached, turns: Ghost(turns) };
            }
            polls = polls + 1;
            let ghost before_poll = *source;
            let polled = source.next_payload();
            proof {
                let answer = crate::traits::payload_view(polled);
                assert(before_poll.yields(&*source, answer));
                let prev = states;
                states = states.push(*source);
                assert forall|k: int| 0 <= k < answers_of(turns).len() + 1 implies
                    #[trigger] states[k].yields(&states[k + 1], answers_of(turns).push(answer)[k]) by {
                    if k < answers_of(turns).len() {
                        assert(prev[k].yields(&prev[k + 1], answers_of(turns)[k]));
                    }
                }
            }
            match polled {
                None => {
                    proof {
                        let before = turns;
                        turns = turns.push(Turn::Exhausted);
                        assert(turns.drop_last() =~= before);
                        assert(calls_of(turns) == calls_of(before));
                        assert(ran_through(runs, old(self).runner(), self.runner(), calls_of(turns)));
                        assert(answers_of(turns) =~= answers_of(before).push(None));
                        assert(polled_through(states, *old(source), *source, answers_of(turns)));
                    }
                    return DispatchReport {
                        end: DispatchEnd::SourceExhausted,
                        turns: Ghost(turns),
                    };
                },
                Some(payload) => {
                    let ghost before_run = self.runner;
                    let outcome = self.runner.run(payload.as_str());
                    proof {
                        let before = turns;
                        let prev = runs;
                        let call = (payload@, outcome);
                        assert(before_run.handled(&self.runner, call.0, call.1));
                        runs = runs.push(self.runner);
                        turns = turns.push(Turn::Dispatched(payload@, outcome));
                        assert(turns.drop_last() =~= before);
                        assert(calls_of(turns) == calls_of(before).push(call));
                        assert forall|k: int| 0 <= k < calls_of(turns).len() implies
                            #[trigger] runs[k].handled(&runs[k + 1], calls_of(turns)[k].0, calls_of(turns)[k].1) by {
                            if k < calls_of(before).len() {
                                assert(prev[k].handled(&prev[k + 1], calls_of(before)[k].0, calls_of(before)[k].1));
                            }
                        }
                        assert(ran_through(runs, old(self).runner(), self.runner(), calls_of(turns)));
                        assert(answers_of(turns) =~= answers_of(before).push(Some(payload@)));
                        assert(polled_through(states, *old(source), *source, answers_of(turns)));
                    }
                    match outcome {
                        Ok(()) => {},
                        Err(e) => {
                            return DispatchReport {
                                end: DispatchEnd::RunnerFailed(e),
                                turns: Ghost(turns),
                            };
                        },
                    }
                },
            }
        }
    }
}

} // verus!
