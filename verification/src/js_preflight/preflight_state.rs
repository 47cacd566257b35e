//! Preflight process state machine: the states a JS preflight goes
//! through, with the time spent in each.

use std::time::{Duration, Instant};
use vstd::prelude::*;
use crate::clock::{duration_nanos, elapsed, elapsed_nanos, exceeds, now};
use crate::config::opt_view;

verus! {

/// States in a JS preflight operation.
#[derive(Debug, Clone, Copy, PartialEq, Eq, Structural)]
pub enum PreflightState {
    /// Preflight is initializing (browser launch, setup)
    Initializing,
    /// Navigating to about:blank for stealth injection
    InjectingStealth,
    /// Navigating to the target URL
    Navigating,
    /// Waiting for page load / challenge resolution
    WaitingForChallenge,
    /// Waiting for a specific CSS selector
    WaitingForSelector,
    /// Extracting cookies and final URL
    Extracting,
    /// Preflight completed successfully
    Complete,
    /// Preflight failed (timeout, error, etc.)
    Failed,
}

/// How a preflight state is written.
pub open spec fn preflight_state_name(s: PreflightState) -> Seq<char> {
    match s {
        PreflightState::Initializing => "initializing"@,
        PreflightState::InjectingStealth => "injecting_stealth"@,
        PreflightState::Navigating => "navigating"@,
        PreflightState::WaitingForChallenge => "waiting_for_challenge"@,
        PreflightState::WaitingForSelector => "waiting_for_selector"@,
        PreflightState::Extracting => "extracting"@,
        PreflightState::Complete => "complete"@,
        PreflightState::Failed => "failed"@,
    }
}

impl PreflightState {
    /// The state's name, as it is displayed.
    pub fn to_string(&self) -> (r: String)
        ensures
            r@ == preflight_state_name(*self),
    {
        let s = match self {
            PreflightState::Initializing => "initializing",
            PreflightState::InjectingStealth => "injecting_stealth",
            PreflightState::Navigating => "navigating",
            PreflightState::WaitingForChallenge => "waiting_for_challenge",
            PreflightState::WaitingForSelector => "waiting_for_selector",
            PreflightState::Extracting => "extracting",
            PreflightState::Complete => "complete",
            PreflightState::Failed => "failed",
        };
        String::from_str(s)
    }
}

/// Result of a preflight step.
#[derive(Debug, Clone, PartialEq, Eq)]
pub enum PreflightStepResult {
    /// Step succeeded, continue to next state
    Continue,
    /// Step failed with an error
    Failed(String),
    /// Step timed out
    Timeout,
    /// Step succeeded and preflight is complete
    Complete,
}

/// Tracks a preflight operation's state and timing.
#[derive(Debug)]
pub struct PreflightStateMachine {
    state: PreflightState,
    started_at: Instant,
    current_step_started_at: Instant,
    url: String,
    step_durations: Vec<(PreflightState, Duration)>,
    error: Option<String>,
}

/// The abstract content of a [`PreflightStateMachine`]: its state, its
/// URL, the states it has left (in order), the time spent in each of them,
/// its error, and the instants at which it and its current step started
/// (readings of the clock, carried without looking inside).
pub struct PreflightModel {
    pub state: PreflightState,
    pub url: Seq<char>,
    pub history: Seq<PreflightState>,
    pub spent: Seq<Duration>,
    pub error: Option<Seq<char>>,
    pub started_at: Instant,
    pub step_started_at: Instant,
}

/// The states of a list of timed steps.
pub open spec fn step_states(v: Seq<(PreflightState, Duration)>) -> Seq<PreflightState> {
    v.map_values(|p: (PreflightState, Duration)| p.0)
}

/// The durations of a list of timed steps.
pub open spec fn step_spans(v: Seq<(PreflightState, Duration)>) -> Seq<Duration> {
    v.map_values(|p: (PreflightState, Duration)| p.1)
}

/// `after` is `before` moved on to `next`: the state left is recorded with
/// the time spent in it (a reading of the clock), and a new step starts;
/// the URL, the error and the start of the preflight stay.
pub open spec fn stepped(before: PreflightModel, after: PreflightModel, next: PreflightState) -> bool {
    &&& after.state == next
    &&& after.url == before.url
    &&& after.history == before.history.push(before.state)
    &&& after.spent.len() == before.spent.len() + 1
    &&& after.spent.drop_last() == before.spent
    &&& after.started_at == before.started_at
}

impl View for PreflightStateMachine {
    type V = PreflightModel;

    closed spec fn view(&self) -> PreflightModel {
        PreflightModel {
            state: self.state,
            url: self.url@,
            history: step_states(self.step_durations@),
            spent: step_spans(self.step_durations@),
            error: opt_view(self.error),
            started_at: self.started_at,
            step_started_at: self.current_step_started_at,
        }
    }
}

impl PreflightStateMachine {
    /// Create a new state machine for the given URL; it and its first
    /// step start at the same instant.
    pub fn new(url: String) -> (r: Self)
        ensures
            r@.state == PreflightState::Initializing,
            r@.url == url@,
            r@.history == Seq::<PreflightState>::empty(),
            r@.spent == Seq::<Duration>::empty(),
            r@.error is None,
            r@.started_at == r@.step_started_at,
    {
        let t = now();
        let r = PreflightStateMachine {
            state: PreflightState::Initializing,
            started_at: t,
            current_step_started_at: t,
            url,
            step_durations: Vec::new(),
            error: None,
        };
        assert(step_states(r.step_durations@) =~= Seq::<PreflightState>::empty());
        assert(step_spans(r.step_durations@) =~= Seq::<Duration>::empty());
        r
    }

    /// Transition to a new state, recording the previous step and its
    /// duration.
    pub fn transition(&mut self, new_state: PreflightState)
        ensures
            stepped(old(self)@, final(self)@, new_state),
            final(self)@.error == old(self)@.error,
    {
        let spent = elapsed(&self.current_step_started_at);
        let ghost before = self.step_durations@;
        self.step_durations.push((self.state, spent));
        assert(step_states(self.step_durations@) =~= step_states(before).push(self.state));
        assert(step_spans(self.step_durations@) =~= step_spans(before).push(spent));
        assert(step_spans(self.step_durations@).drop_last() =~= step_spans(before));
        self.state = new_state;
        self.current_step_started_at = now();
    }

    /// Mark the preflight as complete.
    pub fn mark_complete(&mut self)
        ensures
            stepped(old(self)@, final(self)@, PreflightState::Complete),
            final(self)@.error == old(self)@.error,
    {
        self.transition(PreflightState::Complete);
    }

    /// Mark the preflight as failed with an error message.
    pub fn mark_failed(&mut self, error: String)
        ensures
            stepped(old(self)@, final(self)@, PreflightState::Failed),
            final(self)@.error == Some(error@),
    {
        self.error = Some(error);
        self.transition(PreflightState::Failed);
    }

    /// Get the current state.
    pub fn state(&self) -> (r: PreflightState)
        ensures
            r == self@.state,
    {
        self.state
    }

    /// Get the URL being prefetched.
    pub fn url(&self) -> (r: &str)
        ensures
            r@ == self@.url,
    {
        self.url.as_str()
    }

    /// Get the total elapsed time since the preflight started (read from
    /// the clock).
    pub fn total_elapsed(&self) -> Duration {
        elapsed(&self.started_at)
    }

    /// Get the elapsed time for the current step (read from the clock).
    pub fn current_step_elapsed(&self) -> Duration {
        elapsed(&self.current_step_started_at)
    }

    /// Get the error message if the preflight failed.
    pub fn error(&self) -> (r: Option<&str>)
        ensures
            match r {
                Some(e) => self@.error == Some(e@),
                None => self@.error is None,
            },
    {
        match &self.error {
            Some(e) => Some(e.as_str()),
            None => None,
        }
    }

    /// Check if the total elapsed time exceeds the given timeout: the
    /// nanoseconds since the start, read from the clock, [`exceeds`] those
    /// of the timeout. The reading itself is not stated.
    pub fn is_timeout(&self, timeout: Duration) -> bool {
        let total = elapsed_nanos(&self.started_at);
        let limit = duration_nanos(&timeout);
        exceeds(total, limit)
    }

    /// The steps left so far, each with the time spent in it, in order.
    pub fn steps(&self) -> (r: &[(PreflightState, Duration)])
        ensures
            step_states(r@) == self@.history,
            step_spans(r@) == self@.spent,
    {
        self.step_durations.as_slice()
    }
}

} // verus!
