//! One run of the toggle as a state machine: the caller does the I/O that an
//! action names and hands back what happened as an event.

use vstd::prelude::*;
use crate::dispatch::{lemma_record_extends, result_of, ToggleResult, WriteOutcome};
use crate::mode::Mode;

verus! {

/// How a run ended.
#[derive(Clone, Copy, Debug, PartialEq, Eq, Structural)]
pub enum Outcome {
    /// The HID subsystem could not be initialised; no device was looked at.
    TransportInitError,
    /// No interface of the keyboard's control channel was found.
    NotFound,
    /// Candidates were found and no write to any of them was confirmed.
    Blocked,
    /// A write was confirmed and the new mode persisted.
    Succeeded,
    /// A write was confirmed and the new mode could not be persisted: the
    /// recorded state is now behind the keyboard.
    SucceededButPersistFailed,
}

/// What the caller is to do next.
#[derive(Clone, Copy, Debug, PartialEq, Eq, Structural)]
pub enum Action {
    /// Read the persisted state and report the mode it stands for.
    LoadState,
    /// Enumerate the interfaces, select the candidates and report how many there are.
    Enumerate,
    /// Write the command for `mode` to the candidate at `candidate` and report the outcome.
    Write { candidate: usize, mode: Mode },
    /// Persist `mode` and report whether that worked.
    Persist { mode: Mode },
    /// Report the outcome; the run is over.
    Report { outcome: Outcome },
}

/// What the caller reports back.
#[derive(Clone, Copy, Debug, PartialEq, Eq, Structural)]
pub enum Event {
    /// The persisted state stands for this mode.
    StateLoaded { current: Mode },
    /// The HID subsystem could not be initialised.
    TransportFailed,
    /// This many candidates were selected.
    Enumerated { candidates: usize },
    /// The write to the candidate last named came out like this.
    Wrote { outcome: WriteOutcome },
    /// The mode was persisted (`true`), or could not be.
    Persisted { ok: bool },
}

/// Where a run stands.
#[derive(Clone, Copy, Debug, PartialEq, Eq, Structural)]
pub enum RunState {
    /// Nothing is known yet.
    Idle,
    /// The persisted mode is known.
    Loaded { current: Mode },
    /// The candidates are known and the write to the one at `next` is under
    /// way; `result` holds the outcomes of the writes before it.
    Selected { target: Mode, candidates: usize, next: usize, result: ToggleResult },
    /// Every candidate was written to, one write at least was confirmed, and
    /// the target mode is being persisted.
    Dispatched { target: Mode, result: ToggleResult },
    /// The run is over.
    Finished { outcome: Outcome },
}

impl RunState {
    /// Whether the state is one that a run can be in.
    pub open spec fn wf(self) -> bool {
        match self {
            RunState::Selected { target, candidates, next, result } => {
                &&& next < candidates
                &&& result.found <==> next > 0
                &&& result.success ==> result.found
            },
            RunState::Dispatched { target, result } => result.found && result.success,
            _ => true,
        }
    }

    /// The state and the action that follow when `event` comes in, or `None`
    /// where the event is none that the state waits for.
    pub open spec fn spec_step(self, event: Event) -> Option<(RunState, Action)> {
        match (self, event) {
            (RunState::Idle, Event::StateLoaded { current }) => Some(
                (RunState::Loaded { current }, Action::Enumerate),
            ),
            (RunState::Loaded { current }, Event::TransportFailed) => Some(
                finish(Outcome::TransportInitError),
            ),
            (RunState::Loaded { current }, Event::Enumerated { candidates }) => if candidates == 0 {
                Some(finish(Outcome::NotFound))
            } else {
                let target = current.spec_toggled();
                Some(
                    (
                        RunState::Selected {
                            target,
                            candidates,
                            next: 0,
                            result: result_of(Seq::empty()),
                        },
                        Action::Write { candidate: 0, mode: target },
                    ),
                )
            },
            (RunState::Selected { target, candidates, next, result }, Event::Wrote { outcome }) => {
                let result = result.spec_record(outcome);
                if next >= candidates {
                    None
                } else if next + 1 < candidates {
                    Some(
                        (
                            RunState::Selected {
                                target,
                                candidates,
                                next: (next + 1) as usize,
                                result,
                            },
                            Action::Write { candidate: (next + 1) as usize, mode: target },
                        ),
                    )
                } else if result.success {
                    Some((RunState::Dispatched { target, result }, Action::Persist { mode: target }))
                } else {
                    Some(finish(Outcome::Blocked))
                }
            },
            (RunState::Dispatched { target, result }, Event::Persisted { ok }) => Some(
                finish(
                    if ok {
                        Outcome::Succeeded
                    } else {
                        Outcome::SucceededButPersistFailed
                    },
                ),
            ),
            _ => None,
        }
    }

    /// The state in which a run begins, and its first action.
    pub fn start() -> (first: (RunState, Action))
        ensures
            first == (RunState::Idle, Action::LoadState),
            first.0.wf(),
    {
        (RunState::Idle, Action::LoadState)
    }

    /// Takes in `event`: the state that follows and what to do next, or `None`
    /// where the event is none that the state waits for.
    #[verifier::when_used_as_spec(spec_step)]
    pub fn step(self, event: Event) -> (next: Option<(RunState, Action)>)
        ensures
            next == self.spec_step(event),
            self.wf() && next.is_some() ==> next.unwrap().0.wf(),
    {
        match self {
            RunState::Idle => match event {
                Event::StateLoaded { current } => Some(
                    (RunState::Loaded { current }, Action::Enumerate),
                ),
                _ => None,
            },
            RunState::Loaded { current } => match event {
                Event::TransportFailed => Some(finished(Outcome::TransportInitError)),
                Event::Enumerated { candidates } => {
                    if candidates == 0 {
                        Some(finished(Outcome::NotFound))
                    } else {
                        let target = current.toggled();
                        Some(
                            (
                                RunState::Selected {
                                    target,
                                    candidates,
                                    next: 0,
                                    result: ToggleResult::none(),
                                },
                                Action::Write { candidate: 0, mode: target },
                            ),
                        )
                    }
                },
                _ => None,
            },
            RunState::Selected { target, candidates, next, result } => match event {
                Event::Wrote { outcome } => {
                    let result = result.record(outcome);
                    if next >= candidates {
                        None
                    } else if next + 1 < candidates {
                        Some(
                            (
                                RunState::Selected { target, candidates, next: next + 1, result },
                                Action::Write { candidate: next + 1, mode: target },
                            ),
                        )
                    } else if result.success {
                        Some(
                            (
                                RunState::Dispatched { target, result },
                                Action::Persist { mode: target },
                            ),
                        )
                    } else {
                        Some(finished(Outcome::Blocked))
                    }
                },
                _ => None,
            },
            RunState::Dispatched { target, result } => match event {
                Event::Persisted { ok } => Some(
                    finished(
                        if ok {
                            Outcome::Succeeded
                        } else {
                            Outcome::SucceededButPersistFailed
                        },
                    ),
                ),
                _ => None,
            },
            RunState::Finished { outcome } => None,
        }
    }
}

/// The end of a run with this outcome.
pub open spec fn finish(outcome: Outcome) -> (RunState, Action) {
    (RunState::Finished { outcome }, Action::Report { outcome })
}

/// The end of a run with this outcome.
fn finished(outcome: Outcome) -> (last: (RunState, Action))
    ensures
        last == finish(outcome),
{
    (RunState::Finished { outcome }, Action::Report { outcome })
}

/// The mode is persisted only after a confirmed write, and it is the mode
/// that was written: `Persist` comes out of no step but the one that takes
/// in the outcome of the last write, names the target of the run, and
/// comes only where the outcomes taken in hold a confirmed one. And no run
/// is reported as succeeded but from the state that follows that step.
pub proof fn lemma_persist_only_confirmed(state: RunState, event: Event)
    requires
        state.wf(),
        state.spec_step(event).is_some(),
    ensures
        ({
            let (after, action) = state.spec_step(event).unwrap();
            &&& action is Persist ==> {
                &&& state is Selected
                &&& event is Wrote
                &&& action->Persist_mode == state->Selected_target
                &&& state->Selected_result.success || event->outcome.spec_is_confirmed()
                &&& after == (RunState::Dispatched {
                    target: state->Selected_target,
                    result: state->Selected_result.spec_record(event->outcome),
                })
            }
            &&& action == (Action::Report { outcome: Outcome::Succeeded }) ==> {
                &&& state is Dispatched
                &&& event == (Event::Persisted { ok: true })
            }
        }),
{
}

/// Without candidates no write is asked for: the run ends as `NotFound` at
/// once. And a write is only ever asked for to a candidate that exists, in
/// the mode opposite to the one that was persisted.
pub proof fn lemma_writes_stay_in_range(state: RunState, event: Event)
    requires
        state.wf(),
        state.spec_step(event).is_some(),
    ensures
        ({
            let (after, action) = state.spec_step(event).unwrap();
            &&& state is Loaded && event == (Event::Enumerated { candidates: 0 }) ==> (after, action)
                == finish(Outcome::NotFound)
            &&& action is Write ==> {
                &&& after is Selected
                &&& action->candidate == after->next
                &&& action->candidate < after->candidates
                &&& action->Write_mode == after->Selected_target
                &&& state is Loaded ==> action->Write_mode == state->current.spec_toggled()
                &&& state is Selected ==> action->Write_mode == state->Selected_target
            }
        }),
{
}

/// A run takes the outcomes in as `result_of` counts them. Where the writes
/// so far came out as `seen`, and the next as `outcome`: the run goes on to
/// the next candidate while there is one; after the last it persists the
/// target if any write of all was confirmed, and ends as `Blocked` if none was.
pub proof fn lemma_step_tracks_outcomes(
    target: Mode,
    candidates: usize,
    seen: Seq<WriteOutcome>,
    outcome: WriteOutcome,
)
    requires
        seen.len() < candidates,
    ensures
        ({
            let state = RunState::Selected {
                target,
                candidates,
                next: seen.len() as usize,
                result: result_of(seen),
            };
            let all = seen.push(outcome);
            let result = result_of(all);
            &&& state.wf()
            &&& state.spec_step(Event::Wrote { outcome }) == Some(
                if all.len() < candidates {
                    (
                        RunState::Selected { target, candidates, next: all.len() as usize, result },
                        Action::Write { candidate: all.len() as usize, mode: target },
                    )
                } else if result.success {
                    (RunState::Dispatched { target, result }, Action::Persist { mode: target })
                } else {
                    finish(Outcome::Blocked)
                },
            )
        }),
{
    lemma_record_extends(seen, outcome);
}

/// Where a run stands after `events` came in one after the other, and the
/// actions that it asked for on the way, or `None` where one of the events
/// was refused.
pub open spec fn run(state: RunState, events: Seq<Event>) -> Option<(RunState, Seq<Action>)>
    decreases events.len(),
{
    if events.len() == 0 {
        Some((state, Seq::empty()))
    } else {
        match state.spec_step(events[0]) {
            Some((next, action)) => match run(next, events.drop_first()) {
                Some((last, actions)) => Some((last, seq![action] + actions)),
                None => None,
            },
            None => None,
        }
    }
}

/// The events that report these outcomes, in their order.
pub open spec fn wrote(outcomes: Seq<WriteOutcome>) -> Seq<Event> {
    Seq::new(outcomes.len(), |i: int| Event::Wrote { outcome: outcomes[i] })
}

/// The writes of `mode` to the candidates from `from` up to, but not
/// including, `to`, in their order.
pub open spec fn writes(mode: Mode, from: int, to: int) -> Seq<Action> {
    Seq::new((to - from) as nat, |i: int| Action::Write { candidate: (from + i) as usize, mode })
}

/// How a run ends in which the HID subsystem came up, the writes to the
/// candidates came out as `outcomes`, and the mode, where a write was
/// confirmed, was or was not persisted.
pub open spec fn outcome_of(outcomes: Seq<WriteOutcome>, persisted: bool) -> Outcome {
    let result = result_of(outcomes);
    if !result.found {
        Outcome::NotFound
    } else if !result.success {
        Outcome::Blocked
    } else if persisted {
        Outcome::Succeeded
    } else {
        Outcome::SucceededButPersistFailed
    }
}

/// What the caller reports after the last write: how persisting went, where
/// a write was confirmed, and nothing where none was.
pub open spec fn closing_events(outcomes: Seq<WriteOutcome>, persisted: bool) -> Seq<Event> {
    if result_of(outcomes).success {
        seq![Event::Persisted { ok: persisted }]
    } else {
        Seq::empty()
    }
}

/// What a run asks for after the last write: to persist the target, where a
/// write was confirmed, and then to report the outcome.
pub open spec fn closing_actions(
    target: Mode,
    outcomes: Seq<WriteOutcome>,
    persisted: bool,
) -> Seq<Action> {
    let report = seq![Action::Report { outcome: outcome_of(outcomes, persisted) }];
    if result_of(outcomes).success {
        seq![Action::Persist { mode: target }] + report
    } else {
        report
    }
}

/// A run that hears nothing more stays where it is and asks for nothing.
proof fn lemma_run_rests(state: RunState)
    ensures
        run(state, Seq::empty()) == Some((state, Seq::<Action>::empty())),
{
}

/// A run takes its first event in by one step and goes on from there.
proof fn lemma_run_unfolds(
    state: RunState,
    events: Seq<Event>,
    next: RunState,
    action: Action,
    last: RunState,
    actions: Seq<Action>,
)
    requires
        events.len() > 0,
        state.spec_step(events[0]) == Some((next, action)),
        run(next, events.drop_first()) == Some((last, actions)),
    ensures
        run(state, events) == Some((last, seq![action] + actions)),
{
}

/// After the last write a run closes as the outcomes say.
proof fn lemma_last_write(
    target: Mode,
    candidates: usize,
    outcomes: Seq<WriteOutcome>,
    persisted: bool,
)
    requires
        0 < outcomes.len(),
        outcomes.len() == candidates,
    ensures
        run(
            RunState::Selected {
                target,
                candidates,
                next: (outcomes.len() - 1) as usize,
                result: result_of(outcomes.drop_last()),
            },
            seq![Event::Wrote { outcome: outcomes.last() }] + closing_events(outcomes, persisted),
        ) == Some(
            (
                RunState::Finished { outcome: outcome_of(outcomes, persisted) },
                closing_actions(target, outcomes, persisted),
            ),
        ),
{
    let seen = outcomes.drop_last();
    let tail = closing_events(outcomes, persisted);
    let events = seq![Event::Wrote { outcome: outcomes.last() }] + tail;
    let outcome = outcome_of(outcomes, persisted);
    let ended = RunState::Finished { outcome };
    let report = Action::Report { outcome };
    let state = RunState::Selected {
        target,
        candidates,
        next: (outcomes.len() - 1) as usize,
        result: result_of(seen),
    };
    assert(seen.push(outcomes.last()) =~= outcomes);
    lemma_step_tracks_outcomes(target, candidates, seen, outcomes.last());
    lemma_run_rests(ended);
    assert(events[0] == Event::Wrote { outcome: outcomes.last() });
    assert(events.drop_first() =~= tail);
    if result_of(outcomes).success {
        let dispatched = RunState::Dispatched { target, result: result_of(outcomes) };
        assert(tail.drop_first() =~= Seq::<Event>::empty());
        lemma_run_unfolds(dispatched, tail, ended, report, ended, Seq::empty());
        lemma_run_unfolds(
            state,
            events,
            dispatched,
            Action::Persist { mode: target },
            ended,
            seq![report] + Seq::empty(),
        );
        assert(seq![Action::Persist { mode: target }] + (seq![report] + Seq::empty())
            =~= closing_actions(target, outcomes, persisted));
    } else {
        lemma_run_unfolds(state, events, ended, report, ended, Seq::empty());
        assert(seq![report] + Seq::empty() =~= closing_actions(target, outcomes, persisted));
    }
}

/// While the write to candidate `k` is under way, the rest of the run is
/// fixed by the outcomes: a write to each candidate after `k`, then the
/// closing actions.
proof fn lemma_writes_phase(
    target: Mode,
    candidates: usize,
    outcomes: Seq<WriteOutcome>,
    k: int,
    persisted: bool,
)
    requires
        0 <= k < outcomes.len(),
        outcomes.len() == candidates,
    ensures
        run(
            RunState::Selected {
                target,
                candidates,
                next: k as usize,
                result: result_of(outcomes.take(k)),
            },
            wrote(outcomes.skip(k)) + closing_events(outcomes, persisted),
        ) == Some(
            (
                RunState::Finished { outcome: outcome_of(outcomes, persisted) },
                writes(target, k + 1, outcomes.len() as int) + closing_actions(
                    target,
                    outcomes,
                    persisted,
                ),
            ),
        ),
    decreases outcomes.len() - k,
{
    let n = outcomes.len() as int;
    let tail = closing_events(outcomes, persisted);
    let closing = closing_actions(target, outcomes, persisted);
    let events = wrote(outcomes.skip(k)) + tail;
    let ended = RunState::Finished { outcome: outcome_of(outcomes, persisted) };
    let state = RunState::Selected {
        target,
        candidates,
        next: k as usize,
        result: result_of(outcomes.take(k)),
    };
    if k + 1 < n {
        let next = RunState::Selected {
            target,
            candidates,
            next: (k + 1) as usize,
            result: result_of(outcomes.take(k + 1)),
        };
        let write = Action::Write { candidate: (k + 1) as usize, mode: target };
        let later = writes(target, k + 2, n) + closing;
        lemma_writes_phase(target, candidates, outcomes, k + 1, persisted);
        assert(events[0] == Event::Wrote { outcome: outcomes[k] });
        assert(events.drop_first() =~= wrote(outcomes.skip(k + 1)) + tail);
        assert(state.spec_step(events[0]) == Some((next, write))) by {
            assert(outcomes.take(k).push(outcomes[k]) =~= outcomes.take(k + 1));
            lemma_step_tracks_outcomes(target, candidates, outcomes.take(k), outcomes[k]);
        }
        lemma_run_unfolds(state, events, next, write, ended, later);
        assert(seq![write] + later =~= writes(target, k + 1, n) + closing);
    } else {
        lemma_last_write(target, candidates, outcomes, persisted);
        assert(outcomes.take(k) =~= outcomes.drop_last());
        assert(events =~= seq![Event::Wrote { outcome: outcomes.last() }] + tail);
        assert(writes(target, k + 1, n) + closing =~= closing);
    }
}

/// A whole run, from its events. With the state loaded as `current` and the
/// HID subsystem up, the run asks to enumerate, then for one write of the
/// command for the other mode to each candidate in turn, whatever the writes
/// before came to; then, only where a write was confirmed, to persist that
/// mode; and then it reports. Without candidates it asks for no write and
/// ends as `NotFound`; with candidates and no confirmed write it ends as
/// `Blocked`; with a confirmed write as `Succeeded` where the mode was
/// persisted and as `SucceededButPersistFailed` where it was not.
pub proof fn lemma_run_outcome(current: Mode, outcomes: Seq<WriteOutcome>, persisted: bool)
    requires
        outcomes.len() <= usize::MAX,
    ensures
        run(
            RunState::Idle,
            seq![
                Event::StateLoaded { current },
                Event::Enumerated { candidates: outcomes.len() as usize },
            ] + wrote(outcomes) + closing_events(outcomes, persisted),
        ) == Some(
            (
                RunState::Finished { outcome: outcome_of(outcomes, persisted) },
                seq![Action::Enumerate] + writes(
                    current.spec_toggled(),
                    0,
                    outcomes.len() as int,
                ) + closing_actions(current.spec_toggled(), outcomes, persisted),
            ),
        ),
{
    let n = outcomes.len() as int;
    let candidates = outcomes.len() as usize;
    let target = current.spec_toggled();
    let tail = closing_events(outcomes, persisted);
    let closing = closing_actions(target, outcomes, persisted);
    let head = seq![Event::StateLoaded { current }, Event::Enumerated { candidates }];
    let events = head + wrote(outcomes) + tail;
    let rest = seq![Event::Enumerated { candidates }] + wrote(outcomes) + tail;
    let rest_of_writes = wrote(outcomes) + tail;
    let outcome = outcome_of(outcomes, persisted);
    let ended = RunState::Finished { outcome };
    let loaded = RunState::Loaded { current };
    assert(events[0] == head[0]);
    assert(events.drop_first() =~= rest);
    assert(rest[0] == Event::Enumerated { candidates });
    assert(rest.drop_first() =~= rest_of_writes);
    assert(RunState::Idle.spec_step(events[0]) == Some((loaded, Action::Enumerate)));
    lemma_run_rests(ended);
    let after_enumerate: Seq<Action>;
    if n == 0 {
        after_enumerate = seq![Action::Report { outcome }];
        assert(rest_of_writes =~= Seq::<Event>::empty());
        assert(loaded.spec_step(rest[0]) == Some(finish(outcome)));
        assert(after_enumerate + Seq::<Action>::empty() =~= after_enumerate);
        assert(run(loaded, rest) == Some((ended, after_enumerate)));
        assert(writes(target, 0, n) + closing =~= after_enumerate);
    } else {
        after_enumerate = writes(target, 0, n) + closing;
        let selected = RunState::Selected {
            target,
            candidates,
            next: 0,
            result: result_of(Seq::empty()),
        };
        assert(outcomes.take(0) =~= Seq::<WriteOutcome>::empty());
        assert(outcomes.skip(0) =~= outcomes);
        lemma_writes_phase(target, candidates, outcomes, 0, persisted);
        assert(loaded.spec_step(rest[0]) == Some(
            (selected, Action::Write { candidate: 0, mode: target }),
        ));
        assert(seq![Action::Write { candidate: 0, mode: target }] + (writes(target, 1, n)
            + closing) =~= after_enumerate);
        assert(run(loaded, rest) == Some((ended, after_enumerate)));
    }
    assert(seq![Action::Enumerate] + after_enumerate =~= seq![Action::Enumerate] + writes(
        target,
        0,
        n,
    ) + closing);
}

} // verus!
