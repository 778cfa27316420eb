//! The event-loop kernel: a single-writer fold of events into state.
//!
//! The kernel holds the application state together with the currently
//! scheduled wake-up.  Folding one event computes the new state, diffs the
//! old and new outcomes into commands for the UI, and re-derives the next
//! wake-up deadline.  The kernel itself is synchronous and deterministic;
//! all non-determinism (wall clock, OS timers, I/O) enters through the
//! event stream that a driver feeds into [`handle_event`].

use vstd::prelude::*;

use crate::commands::Commands;
use crate::state;
use crate::state::{
    spec_apply_event, spec_commands_to_reach, spec_next_wake, spec_outcome, Application,
};

verus! {

/// The state of the loop kernel: the folded application state and the
/// wake-up that has been scheduled for it, if any.
pub struct State {
    pub actor_state: Application,
    pub scheduled_wakeup: Option<u64>,
}

impl State {
    pub fn new(actor_state: Application, scheduled_wakeup: Option<u64>) -> (r: State)
        ensures
            r.actor_state == actor_state,
            r.scheduled_wakeup == scheduled_wakeup,
    {
        State { actor_state, scheduled_wakeup }
    }
}

/// Folds one event into the loop state.
///
/// Returns the new loop state and the commands that carry the outcome
/// change to the UI.  The new state's scheduled wake-up is the deadline
/// derived from the new application state; the driver is expected to arm
/// a timer for it when it differs from the previous one.
pub fn handle_event(loop_state: State, event: state::Event, now: u64) -> (r: (State, Commands))
    requires
        loop_state.actor_state@.wf(),
        state::event_wf(event@),
        now <= state::TIME_LIMIT,
    ensures
        r.0.actor_state@ == spec_apply_event(loop_state.actor_state@, event@, now),
        r.0.actor_state@.wf(),
        r.0.scheduled_wakeup == spec_next_wake(r.0.actor_state@, now),
        r.1@ == spec_commands_to_reach(
            spec_outcome(loop_state.actor_state@, now),
            spec_outcome(r.0.actor_state@, now),
        ),
{
    let old_outcome = loop_state.actor_state.get_outcome(now);
    let new_actor = loop_state.actor_state.apply_event(event, now);
    let new_outcome = new_actor.get_outcome(now);
    let commands = old_outcome.get_commands_to_reach(&new_outcome);
    let scheduled_wakeup = new_actor.get_next_wake(now);
    (State { actor_state: new_actor, scheduled_wakeup }, commands)
}

} // verus!
