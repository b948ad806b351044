//! The control loop's state machine.
//!
//! The loop itself lives in the binary: it polls the command channel with
//! a short bounded wait, then hands what it observed to `step` and
//! performs the returned action. Everything the loop decides is here,
//! as a function from state and observed event to next state and action.

use vstd::prelude::*;
use crate::modes::{Command, DisplayMode};

verus! {

/// What the control loop observed on the command channel in one poll.
#[derive(Clone, Copy, Debug, PartialEq, Eq, Structural)]
pub enum ChannelEvent {
    /// A command arrived.
    Received(Command),
    /// The bounded wait ended with nothing pending.
    TimedOut,
    /// Every sender is gone; no further command can ever arrive.
    Disconnected,
}

/// The two states of the control loop. `Terminated` is absorbing: the
/// loop never resumes once it has decided to end the process.
#[derive(Clone, Copy, Debug, PartialEq, Eq, Structural)]
pub enum LoopState {
    /// The loop keeps polling the channel.
    Running,
    /// The loop has ended; the process exits.
    Terminated,
}

/// What the loop's host must do after one step.
#[derive(Clone, Copy, Debug, PartialEq, Eq, Structural)]
pub enum StepAction {
    /// Hand exactly this mode to the display mutator, exactly once.
    ApplyMode(DisplayMode),
    /// Nothing; wait for the next poll.
    DoNothing,
}

/// The loop's transition function. A received `Quit` terminates; a
/// received `SwitchTo` keeps running; an empty poll keeps running; a
/// disconnected channel is treated as a quit (defensive termination:
/// with no sender left the loop could never be told to end otherwise).
pub open spec fn next_state(s: LoopState, e: ChannelEvent) -> LoopState {
    match s {
        LoopState::Terminated => LoopState::Terminated,
        LoopState::Running => match e {
            ChannelEvent::Received(Command::Quit) => LoopState::Terminated,
            ChannelEvent::Received(Command::SwitchTo(_)) => LoopState::Running,
            ChannelEvent::TimedOut => LoopState::Running,
            ChannelEvent::Disconnected => LoopState::Terminated,
        },
    }
}

/// The action of one step: only a received `SwitchTo` while running
/// makes the host invoke the display mutator, with the exact mode the
/// command carries; every other observation does nothing.
pub open spec fn spec_action(s: LoopState, e: ChannelEvent) -> StepAction {
    match (s, e) {
        (LoopState::Running, ChannelEvent::Received(Command::SwitchTo(m))) => StepAction::ApplyMode(
            m,
        ),
        _ => StepAction::DoNothing,
    }
}

/// One step of the control loop.
pub fn step(state: LoopState, event: ChannelEvent) -> (r: (LoopState, StepAction))
    ensures
        r.0 == next_state(state, event),
        r.1 == spec_action(state, event),
{
    match (state, event) {
        (LoopState::Terminated, _) => (LoopState::Terminated, StepAction::DoNothing),
        (LoopState::Running, ChannelEvent::Received(Command::Quit)) => (
            LoopState::Terminated,
            StepAction::DoNothing,
        ),
        (LoopState::Running, ChannelEvent::Received(Command::SwitchTo(m))) => (
            LoopState::Running,
            StepAction::ApplyMode(m),
        ),
        (LoopState::Running, ChannelEvent::TimedOut) => (LoopState::Running, StepAction::DoNothing),
        (LoopState::Running, ChannelEvent::Disconnected) => (
            LoopState::Terminated,
            StepAction::DoNothing,
        ),
    }
}

/// The state after a whole sequence of observed events.
pub open spec fn run(s: LoopState, events: Seq<ChannelEvent>) -> LoopState
    decreases events.len(),
{
    if events.len() == 0 {
        s
    } else {
        run(next_state(s, events[0]), events.drop_first())
    }
}

/// Law: `Terminated` is absorbing — no later observation revives the
/// loop.
pub proof fn lemma_terminated_absorbing(events: Seq<ChannelEvent>)
    ensures
        run(LoopState::Terminated, events) is Terminated,
    decreases events.len(),
{
    if events.len() > 0 {
        lemma_terminated_absorbing(events.drop_first());
    }
}

/// Law: a `Quit` read from the channel terminates the loop within that
/// very step, regardless of what was observed before it — pending
/// `SwitchTo` commands included — and the loop stays terminated for the
/// rest of the event sequence.
pub proof fn lemma_quit_terminates(events: Seq<ChannelEvent>, i: int)
    requires
        0 <= i < events.len(),
        events[i] == ChannelEvent::Received(Command::Quit),
    ensures
        run(LoopState::Running, events.take(i + 1)) is Terminated,
        run(LoopState::Running, events) is Terminated,
    decreases i,
{
    assert(events.take(i + 1)[0] == events[0]);
    if i == 0 {
        assert(events.take(1).len() == 1);
        lemma_terminated_absorbing(events.take(1).drop_first());
        lemma_terminated_absorbing(events.drop_first());
    } else {
        if next_state(LoopState::Running, events[0]) is Terminated {
            lemma_terminated_absorbing(events.drop_first());
            lemma_terminated_absorbing(events.take(i + 1).drop_first());
        } else {
            assert(events.drop_first()[i - 1] == events[i]);
            lemma_quit_terminates(events.drop_first(), i - 1);
            assert(events.take(i + 1).drop_first() =~= events.drop_first().take(i));
        }
    }
}

} // verus!
