//! Browser instance state machine.
//!
//! Each pooled browser tracks its state explicitly so that unhealthy
//! browsers are destroyed instead of returned to the pool.

use std::time::{Duration, Instant};
use vstd::prelude::*;
use crate::clock::{duration_nanos, elapsed, elapsed_nanos, exceeds, max_duration_nanos, now};

verus! {

/// Lifecycle states for a pooled browser instance.
#[derive(Debug, Clone, Copy, PartialEq, Eq, Structural)]
pub enum BrowserState {
    /// Browser process is being created
    Creating,
    /// Browser is ready and available in the pool
    Ready,
    /// Browser is currently in use for a preflight
    InUse,
    /// Browser failed a health check or preflight error
    Unhealthy,
    /// Browser has been idle too long and should be recycled
    Expired,
}

/// How a browser state is written.
pub open spec fn browser_state_name(s: BrowserState) -> Seq<char> {
    match s {
        BrowserState::Creating => "creating"@,
        BrowserState::Ready => "ready"@,
        BrowserState::InUse => "in_use"@,
        BrowserState::Unhealthy => "unhealthy"@,
        BrowserState::Expired => "expired"@,
    }
}

/// A browser in this state can go back to the pool.
pub open spec fn reusable(s: BrowserState) -> bool {
    s == BrowserState::Ready
}

/// A browser in this state must be destroyed.
pub open spec fn destroyable(s: BrowserState) -> bool {
    s == BrowserState::Unhealthy || s == BrowserState::Expired
}

impl BrowserState {
    /// Returns true if the browser can be reused (returned to the pool).
    pub fn is_reusable(self) -> (r: bool)
        ensures
            r == reusable(self),
    {
        match self {
            BrowserState::Ready => true,
            _ => false,
        }
    }

    /// Returns true if the browser should be destroyed.
    pub fn should_destroy(self) -> (r: bool)
        ensures
            r == destroyable(self),
    {
        match self {
            BrowserState::Unhealthy | BrowserState::Expired => true,
            _ => false,
        }
    }

    /// The state's name, as it is displayed.
    pub fn to_string(&self) -> (r: String)
        ensures
            r@ == browser_state_name(*self),
    {
        let s = match self {
            BrowserState::Creating => "creating",
            BrowserState::Ready => "ready",
            BrowserState::InUse => "in_use",
            BrowserState::Unhealthy => "unhealthy",
            BrowserState::Expired => "expired",
        };
        String::from_str(s)
    }
}

/// No browser is both reusable and to be destroyed, and a browser that is
/// being created or is in use is neither.
pub proof fn lemma_reuse_and_destroy_exclusive(s: BrowserState)
    ensures
        !(reusable(s) && destroyable(s)),
        (s == BrowserState::Creating || s == BrowserState::InUse) ==> !reusable(s) && !destroyable(
            s,
        ),
{
}

/// Tracks the state of a single browser instance over time.
#[derive(Debug)]
pub struct BrowserStateTracker {
    state: BrowserState,
    created_at: Instant,
    last_used: Instant,
    use_count: u64,
}

/// The abstract content of a [`BrowserStateTracker`]: its state, how many
/// times the browser was used, and the instants of its creation and of
/// its last use (read from the clock, carried without looking inside).
pub struct TrackerModel {
    pub state: BrowserState,
    pub use_count: u64,
    pub created_at: Instant,
    pub last_used: Instant,
}

impl View for BrowserStateTracker {
    type V = TrackerModel;

    closed spec fn view(&self) -> TrackerModel {
        TrackerModel {
            state: self.state,
            use_count: self.use_count,
            created_at: self.created_at,
            last_used: self.last_used,
        }
    }
}

/// The operations that change a tracker.
pub enum TrackerOp {
    MarkReady,
    MarkInUse,
    MarkReadyAfterUse,
    MarkUnhealthy,
    MarkExpired,
}

/// How much an operation adds to the use count: one for a use, nothing
/// for the others.
pub open spec fn use_delta(op: TrackerOp) -> nat {
    match op {
        TrackerOp::MarkInUse => 1,
        _ => 0,
    }
}

/// How many operations of `ops` are uses.
pub open spec fn uses_in(ops: Seq<TrackerOp>) -> nat
    decreases ops.len(),
{
    if ops.len() == 0 {
        0
    } else {
        uses_in(ops.drop_last()) + (if ops.last() is MarkInUse {
            1nat
        } else {
            0nat
        })
    }
}

/// The use count after a run of operations, each adding its
/// [`use_delta`] as the tracker's methods state.
pub open spec fn use_count_after(start: nat, ops: Seq<TrackerOp>) -> nat
    decreases ops.len(),
{
    if ops.len() == 0 {
        start
    } else {
        use_count_after(start, ops.drop_last()) + use_delta(ops.last())
    }
}

/// A tracker's use count counts exactly its uses: starting from a new
/// tracker (count 0), after any run of operations the count is the number
/// of `mark_in_use` calls among them, since only that operation changes it
/// (by one).
pub proof fn lemma_use_count_counts_uses(ops: Seq<TrackerOp>)
    ensures
        use_count_after(0, ops) == uses_in(ops),
    decreases ops.len(),
{
    if ops.len() > 0 {
        lemma_use_count_counts_uses(ops.drop_last());
    }
}

impl BrowserStateTracker {
    /// Create a new tracker in the Creating state; it was created and last
    /// used at the same instant.
    pub fn new() -> (r: Self)
        ensures
            r@.state == BrowserState::Creating,
            r@.use_count == 0,
            r@.created_at == r@.last_used,
    {
        let t = now();
        BrowserStateTracker { state: BrowserState::Creating, created_at: t, last_used: t, use_count: 0 }
    }

    /// Mark the browser as ready (after successful creation); its creation
    /// and last use restart now.
    pub fn mark_ready(&mut self)
        ensures
            final(self)@.state == BrowserState::Ready,
            final(self)@.use_count == old(self)@.use_count + use_delta(TrackerOp::MarkReady),
    {
        self.state = BrowserState::Ready;
        self.created_at = now();
        self.last_used = now();
    }

    /// Mark the browser as in use, counting the use; its instants stay.
    pub fn mark_in_use(&mut self)
        requires
            old(self)@.use_count < u64::MAX,
        ensures
            final(self)@ == (TrackerModel {
                state: BrowserState::InUse,
                use_count: (old(self)@.use_count + 1) as u64,
                ..old(self)@
            }),
            final(self)@.use_count == old(self)@.use_count + use_delta(TrackerOp::MarkInUse),
    {
        self.state = BrowserState::InUse;
        self.use_count = self.use_count + 1;
    }

    /// Mark the browser as ready after use (before returning to pool); its
    /// last use is now, its creation stays.
    pub fn mark_ready_after_use(&mut self)
        ensures
            final(self)@.state == BrowserState::Ready,
            final(self)@.use_count == old(self)@.use_count + use_delta(
                TrackerOp::MarkReadyAfterUse,
            ),
            final(self)@.created_at == old(self)@.created_at,
    {
        self.state = BrowserState::Ready;
        self.last_used = now();
    }

    /// Mark the browser as unhealthy.
    pub fn mark_unhealthy(&mut self)
        ensures
            final(self)@ == (TrackerModel { state: BrowserState::Unhealthy, ..old(self)@ }),
            final(self)@.use_count == old(self)@.use_count + use_delta(TrackerOp::MarkUnhealthy),
    {
        self.state = BrowserState::Unhealthy;
    }

    /// Mark the browser as expired (idle timeout exceeded).
    pub fn mark_expired(&mut self)
        ensures
            final(self)@ == (TrackerModel { state: BrowserState::Expired, ..old(self)@ }),
            final(self)@.use_count == old(self)@.use_count + use_delta(TrackerOp::MarkExpired),
    {
        self.state = BrowserState::Expired;
    }

    /// Check if the browser has been idle longer than `idle_timeout`: the
    /// nanoseconds since its last use, read from the clock, [`exceeds`]
    /// those of the timeout. The reading itself is not stated.
    pub fn is_idle_expired(&self, idle_timeout: Duration) -> bool {
        let idle = self.idle_nanos();
        let limit = duration_nanos(&idle_timeout);
        exceeds(idle, limit)
    }

    /// Get the current state.
    pub fn state(&self) -> (r: BrowserState)
        ensures
            r == self@.state,
    {
        self.state
    }

    /// Get the number of times this browser has been used.
    pub fn use_count(&self) -> (r: u64)
        ensures
            r == self@.use_count,
    {
        self.use_count
    }

    /// Get the age of this browser (read from the clock).
    pub fn age(&self) -> Duration {
        elapsed(&self.created_at)
    }

    /// The nanoseconds since last use (read from the clock).
    pub fn idle_nanos(&self) -> (r: u128)
        ensures
            r <= max_duration_nanos(),
    {
        elapsed_nanos(&self.last_used)
    }

    /// Get time since last use (read from the clock).
    pub fn idle_time(&self) -> Duration {
        elapsed(&self.last_used)
    }
}

impl Default for BrowserStateTracker {
    fn default() -> (r: Self)
        ensures
            r@.state == BrowserState::Creating,
            r@.use_count == 0,
            r@.created_at == r@.last_used,
    {
        Self::new()
    }
}

} // verus!
