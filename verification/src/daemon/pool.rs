//! Browser pool management: the pool's configuration and statistics, the
//! slots that hold warm browsers with their states, and the per-domain
//! cookie cache.

use std::time::{Duration, Instant};
use vstd::prelude::*;
use crate::clock::{
    duration_from_secs, duration_nanos, duration_of_secs, elapsed_nanos, exceeds, now, whole_seconds,
};
use crate::config::opt_view;
use crate::js_preflight::cookies::CookieModel;
use crate::js_preflight::ExtractedCookies;
use crate::text::str_eq;
use crate::daemon::browser_state::{destroyable, BrowserState, BrowserStateTracker, TrackerModel};

verus! {

/// Configuration for the browser pool.
#[derive(Debug)]
pub struct PoolConfig {
    /// Minimum number of warm browsers
    pub min_size: usize,
    /// Maximum number of browsers
    pub max_size: usize,
    /// Browser idle timeout before recycling
    pub idle_timeout: Duration,
    /// Default preflight timeout
    pub default_timeout: Duration,
}

impl Clone for PoolConfig {
    fn clone(&self) -> (r: Self)
        ensures
            r == *self,
    {
        PoolConfig {
            min_size: self.min_size,
            max_size: self.max_size,
            idle_timeout: self.idle_timeout,
            default_timeout: self.default_timeout,
        }
    }
}

impl Default for PoolConfig {
    /// One to three browsers, recycled after five idle minutes, with a
    /// thirty second preflight timeout.
    fn default() -> (r: Self)
        ensures
            r.min_size == 1,
            r.max_size == 3,
            r.idle_timeout == duration_of_secs(300),
            r.default_timeout == duration_of_secs(30),
    {
        PoolConfig {
            min_size: 1,
            max_size: 3,
            idle_timeout: duration_from_secs(300),
            default_timeout: duration_from_secs(30),
        }
    }
}

/// Statistics for the pool.
#[derive(Debug)]
pub struct PoolStats {
    /// Total requests served
    pub requests_served: u64,
    /// Currently active requests
    pub active_requests: usize,
    /// Start time
    pub start_time: Option<Instant>,
}

impl Default for PoolStats {
    /// No requests, and no start time.
    fn default() -> (r: Self)
        ensures
            r.requests_served == 0,
            r.active_requests == 0,
            r.start_time is None,
    {
        PoolStats { requests_served: 0, active_requests: 0, start_time: None }
    }
}

impl PoolStats {
    /// Statistics starting now, with no requests.
    pub fn new() -> (r: Self)
        ensures
            r.requests_served == 0,
            r.active_requests == 0,
            r.start_time is Some,
    {
        PoolStats { requests_served: 0, active_requests: 0, start_time: Some(now()) }
    }

    /// Whole seconds since the start: 0 without a start time; otherwise
    /// the [`whole_seconds`] of the nanoseconds since the start, read from
    /// the clock (the reading itself is not stated).
    pub fn uptime_secs(&self) -> (r: u64)
        ensures
            self.start_time is None ==> r == 0,
    {
        match &self.start_time {
            Some(t) => whole_seconds(elapsed_nanos(t)),
            None => 0,
        }
    }

    /// Count a served request (wrapping like an atomic counter).
    pub fn increment_served(&mut self)
        ensures
            final(self).requests_served == old(self).requests_served.wrapping_add(1),
            final(self).active_requests == old(self).active_requests,
            final(self).start_time == old(self).start_time,
    {
        self.requests_served = self.requests_served.wrapping_add(1);
    }

    /// Count a request that starts (wrapping like an atomic counter).
    pub fn increment_active(&mut self)
        ensures
            final(self).active_requests == old(self).active_requests.wrapping_add(1),
            final(self).requests_served == old(self).requests_served,
            final(self).start_time == old(self).start_time,
    {
        self.active_requests = self.active_requests.wrapping_add(1);
    }

    /// Count a request that ends (wrapping like an atomic counter).
    pub fn decrement_active(&mut self)
        ensures
            final(self).active_requests == old(self).active_requests.wrapping_sub(1),
            final(self).requests_served == old(self).requests_served,
            final(self).start_time == old(self).start_time,
    {
        self.active_requests = self.active_requests.wrapping_sub(1);
    }
}

/// A request that starts and then ends leaves the count of active
/// requests as it was, whatever it was (the counters wrap).
pub proof fn lemma_active_count_restored(active: usize)
    ensures
        active.wrapping_add(1).wrapping_sub(1) == active,
{
}

/// A browser in the pool, with the tracker of its state.
#[derive(Debug)]
pub struct PooledBrowser<B> {
    pub browser: B,
    pub tracker: BrowserStateTracker,
}

impl<B> View for PooledBrowser<B> {
    type V = (B, TrackerModel);

    open spec fn view(&self) -> (B, TrackerModel) {
        (self.browser, self.tracker@)
    }
}

/// The browsers of the pool, in the order they were returned to it.
#[derive(Debug)]
pub struct BrowserSlots<B> {
    slots: Vec<PooledBrowser<B>>,
}

/// The views of pooled browsers.
pub open spec fn slot_views<B>(v: Seq<PooledBrowser<B>>) -> Seq<(B, TrackerModel)> {
    v.map_values(|p: PooledBrowser<B>| p@)
}

impl<B> View for BrowserSlots<B> {
    type V = Seq<(B, TrackerModel)>;

    closed spec fn view(&self) -> Seq<(B, TrackerModel)> {
        slot_views(self.slots@)
    }
}

/// The first index whose browser is ready.
pub open spec fn first_ready_from<B>(s: Seq<(B, TrackerModel)>, k: int) -> Option<int>
    decreases s.len() - k,
{
    if k < 0 || k >= s.len() {
        None
    } else if s[k].1.state == BrowserState::Ready {
        Some(k)
    } else {
        first_ready_from(s, k + 1)
    }
}

/// The browsers whose flag in `expired` is not set, in order.
pub open spec fn unexpired<B>(s: Seq<(B, TrackerModel)>, expired: Seq<bool>) -> Seq<(B, TrackerModel)>
    decreases s.len(),
{
    if s.len() == 0 || expired.len() == 0 {
        s
    } else {
        let rest = unexpired(s.drop_first(), expired.drop_first());
        if expired[0] {
            rest
        } else {
            seq![s[0]] + rest
        }
    }
}

/// The browsers with their flagged ones marked expired, less every browser
/// that must be destroyed.
pub open spec fn survivors<B>(s: Seq<(B, TrackerModel)>, expired: Seq<bool>) -> Seq<(B, TrackerModel)>
    decreases s.len(),
{
    if s.len() == 0 {
        s
    } else {
        let e = s[0];
        let st = if expired.len() > 0 && expired[0] {
            BrowserState::Expired
        } else {
            e.1.state
        };
        let rest = survivors(
            s.drop_first(),
            if expired.len() > 0 {
                expired.drop_first()
            } else {
                expired
            },
        );
        if destroyable(st) {
            rest
        } else {
            seq![(e.0, TrackerModel { state: st, ..e.1 })] + rest
        }
    }
}

/// The tracker of a browser that comes back: ready, with its use count
/// and creation kept (its last use is a new reading of the clock).
pub open spec fn back_ready(before: TrackerModel, after: TrackerModel) -> bool {
    &&& after.state == BrowserState::Ready
    &&& after.use_count == before.use_count
    &&& after.created_at == before.created_at
}

/// The tracker of the browser that comes back from a preflight: marked
/// unhealthy when the health check failed.
pub open spec fn checked<B>(pooled: (B, TrackerModel), healthy: bool) -> TrackerModel {
    if healthy {
        pooled.1
    } else {
        TrackerModel { state: BrowserState::Unhealthy, ..pooled.1 }
    }
}

/// `r` is the pool after a browser comes back from a preflight: an
/// unhealthy browser (or one that must be destroyed) is dropped and the
/// pool is left as it is; otherwise the expired browsers leave the pool,
/// and the browser comes back ready at its end if there is room for it
/// under `max_size`.
pub open spec fn released<B>(
    s: Seq<(B, TrackerModel)>,
    pooled: (B, TrackerModel),
    healthy: bool,
    expired: Seq<bool>,
    max_size: usize,
    r: Seq<(B, TrackerModel)>,
) -> bool {
    let t = checked(pooled, healthy);
    if destroyable(t.state) {
        r == s
    } else {
        let kept = unexpired(s, expired);
        if kept.len() < max_size {
            &&& r.len() == kept.len() + 1
            &&& r.drop_last() == kept
            &&& r.last().0 == pooled.0
            &&& back_ready(t, r.last().1)
        } else {
            r == kept
        }
    }
}

/// For each idle time (in nanoseconds), whether it exceeds the timeout.
pub fn expired_among(idle_nanos: &[u128], timeout_nanos: u128) -> (r: Vec<bool>)
    ensures
        r.len() == idle_nanos.len(),
        forall|i: int| 0 <= i < r.len() ==> r@[i] == (idle_nanos@[i] > timeout_nanos),
{
    let mut r: Vec<bool> = Vec::new();
    let n = idle_nanos.len();
    let mut i: usize = 0;
    while i < n
        invariant
            i <= n == idle_nanos.len(),
            r.len() == i,
            forall|k: int| 0 <= k < i ==> r@[k] == (idle_nanos@[k] > timeout_nanos),
        decreases n - i,
    {
        r.push(exceeds(idle_nanos[i], timeout_nanos));
        i = i + 1;
    }
    r
}

/// Moves the pooled browsers out of `v`, leaving it empty.
fn take_all<B>(v: &mut Vec<PooledBrowser<B>>) -> (r: Vec<PooledBrowser<B>>)
    ensures
        r@ == old(v)@,
        final(v)@.len() == 0,
{
    let mut r: Vec<PooledBrowser<B>> = Vec::new();
    core::mem::swap(v, &mut r);
    r
}

impl<B> BrowserSlots<B> {
    /// An empty pool.
    pub fn new() -> (r: Self)
        ensures
            r@.len() == 0,
    {
        let r = BrowserSlots { slots: Vec::new() };
        assert(r@ =~= Seq::<(B, TrackerModel)>::empty());
        r
    }

    /// The number of browsers in the pool.
    pub fn len(&self) -> (r: usize)
        ensures
            r == self@.len(),
    {
        self.slots.len()
    }

    /// Add a freshly created, warm browser at the end of the pool: it is
    /// ready, unused, and can be taken by the next preflight.
    pub fn push_new(&mut self, browser: B)
        ensures
            final(self)@.len() == old(self)@.len() + 1,
            final(self)@.drop_last() == old(self)@,
            final(self)@.last().0 == browser,
            final(self)@.last().1.state == BrowserState::Ready,
            final(self)@.last().1.use_count == 0,
    {
        let ghost before = self.slots@;
        let mut tracker = BrowserStateTracker::new();
        tracker.mark_ready();
        let p = PooledBrowser { browser, tracker };
        self.slots.push(p);
        assert(slot_views(self.slots@) =~= slot_views(before).push(p@));
    }

    /// Whether every ready browser can count one more use.
    pub fn uses_countable(&self) -> (r: bool)
        ensures
            r == forall|i: int|
                0 <= i < self@.len() && self@[i].1.state == BrowserState::Ready ==> self@[i].1.use_count
                    < u64::MAX,
    {
        let n = self.slots.len();
        let mut i: usize = 0;
        while i < n
            invariant
                i <= n == self.slots.len(),
                self@ == slot_views(self.slots@),
                forall|k: int|
                    0 <= k < i && self@[k].1.state == BrowserState::Ready ==> self@[k].1.use_count
                        < u64::MAX,
            decreases n - i,
        {
            assert(self@[i as int] == self.slots@[i as int]@);
            if self.slots[i].tracker.state() == BrowserState::Ready
                && self.slots[i].tracker.use_count() == u64::MAX {
                return false;
            }
            i = i + 1;
        }
        true
    }

    /// Take the first ready browser out of the pool, marked in use.
    pub fn take_ready(&mut self) -> (r: Option<PooledBrowser<B>>)
        requires
            forall|i: int|
                0 <= i < old(self)@.len() && old(self)@[i].1.state == BrowserState::Ready
                    ==> old(self)@[i].1.use_count < u64::MAX,
        ensures
            match first_ready_from(old(self)@, 0) {
                Some(i) => r matches Some(p) && p@ == (
                    old(self)@[i].0,
                    TrackerModel {
                        state: BrowserState::InUse,
                        use_count: (old(self)@[i].1.use_count + 1) as u64,
                        ..old(self)@[i].1
                    },
                ) && final(self)@ == old(self)@.remove(i),
                None => r is None && final(self)@ == old(self)@,
            },
    {
        let ghost s = self@;
        let n = self.slots.len();
        let mut i: usize = 0;
        while i < n
            invariant
                i <= n == self.slots.len(),
                s == self@,
                s == old(self)@,
                self@ == slot_views(self.slots@),
                first_ready_from(s, 0) == first_ready_from(s, i as int),
                forall|k: int|
                    0 <= k < s.len() && s[k].1.state == BrowserState::Ready ==> s[k].1.use_count
                        < u64::MAX,
            decreases n - i,
        {
            assert(s[i as int] == self.slots@[i as int]@);
            if self.slots[i].tracker.state() == BrowserState::Ready {
                assert(first_ready_from(s, i as int) == Some(i as int));
                let ghost old_slots = self.slots@;
                let mut p = self.slots.remove(i);
                assert(p == old_slots[i as int]);
                assert(p@ == s[i as int]);
                assert(slot_views(self.slots@) =~= s.remove(i as int));
                let ghost b = p.browser;
                p.tracker.mark_in_use();
                assert(p.browser == b);
                return Some(p);
            }
            i = i + 1;
        }
        None
    }

    /// For each browser, the nanoseconds since its last use (read from the
    /// clock).
    pub fn idle_readings(&self) -> (r: Vec<u128>)
        ensures
            r.len() == self@.len(),
    {
        let mut r: Vec<u128> = Vec::new();
        let n = self.slots.len();
        let mut i: usize = 0;
        while i < n
            invariant
                i <= n == self.slots.len(),
                r.len() == i,
                self@ == slot_views(self.slots@),
            decreases n - i,
        {
            r.push(self.slots[i].tracker.idle_nanos());
            i = i + 1;
        }
        r
    }

    /// For each browser, whether it has been idle longer than
    /// `idle_timeout`: its [`idle_readings`](Self::idle_readings), read
    /// from the clock, compared by [`expired_among`].
    pub fn expired_flags(&self, idle_timeout: Duration) -> (r: Vec<bool>)
        ensures
            r.len() == self@.len(),
    {
        let readings = self.idle_readings();
        let limit = duration_nanos(&idle_timeout);
        expired_among(readings.as_slice(), limit)
    }

    /// Return a browser after a preflight. An unhealthy browser is
    /// destroyed and the pool left as it is; otherwise the browsers flagged
    /// in `expired` (one flag per browser, from
    /// [`expired_flags`](Self::expired_flags)) leave the pool, and the
    /// browser goes back ready when fewer than `max_size` remain.
    pub fn release(&mut self, pooled: PooledBrowser<B>, healthy: bool, expired: &[bool], max_size: usize)
        requires
            expired.len() == old(self)@.len(),
        ensures
            released(old(self)@, pooled@, healthy, expired@, max_size, final(self)@),
    {
        let ghost s = self@;
        let mut pooled = pooled;
        if !healthy {
            pooled.tracker.mark_unhealthy();
        }
        if pooled.tracker.state().should_destroy() {
            return;
        }
        let mut rest = take_all(&mut self.slots);
        let mut kept: Vec<PooledBrowser<B>> = Vec::new();
        let mut j: usize = 0;
        assert(slot_views(kept@) =~= Seq::<(B, TrackerModel)>::empty());
        assert(expired@.skip(0) =~= expired@);
        assert(s.skip(0) =~= s);
        while rest.len() > 0
            invariant
                j + rest.len() == s.len() == expired.len(),
                slot_views(rest@) == s.skip(j as int),
                unexpired(s, expired@) == slot_views(kept@) + unexpired(
                    slot_views(rest@),
                    expired@.skip(j as int),
                ),
            decreases rest.len(),
        {
            let ghost before = rest@;
            let e = rest.remove(0);
            assert(slot_views(rest@) =~= slot_views(before).drop_first());
            assert(slot_views(before)[0] == e@);
            assert(expired@.skip(j as int).drop_first() =~= expired@.skip(j + 1));
            assert(s.skip(j as int).drop_first() =~= s.skip(j + 1));
            assert(expired@.skip(j as int)[0] == expired@[j as int]);
            let ghost kb = slot_views(kept@);
            if !expired[j] {
                kept.push(e);
                assert(slot_views(kept@) =~= kb + seq![e@]);
            }
            j = j + 1;
        }
        assert(unexpired(slot_views(rest@), expired@.skip(j as int)) =~= Seq::<
            (B, TrackerModel),
        >::empty());
        assert(slot_views(kept@) + Seq::<(B, TrackerModel)>::empty() =~= slot_views(kept@));
        if kept.len() < max_size {
            pooled.tracker.mark_ready_after_use();
            let ghost kb = slot_views(kept@);
            kept.push(pooled);
            assert(slot_views(kept@) =~= kb.push(pooled@));
            assert(slot_views(kept@).drop_last() =~= kb);
        }
        self.slots = kept;
    }

    /// Mark the browsers flagged in `expired` (one flag per browser) as
    /// expired and remove every browser that must be destroyed; returns how
    /// many browsers are missing to reach `min_size`.
    pub fn cleanup(&mut self, expired: &[bool], min_size: usize) -> (r: usize)
        requires
            expired.len() == old(self)@.len(),
        ensures
            final(self)@ == survivors(old(self)@, expired@),
            r == (if final(self)@.len() < min_size {
                min_size - final(self)@.len()
            } else {
                0
            }),
    {
        let ghost s = self@;
        let mut rest = take_all(&mut self.slots);
        let mut kept: Vec<PooledBrowser<B>> = Vec::new();
        let mut j: usize = 0;
        assert(slot_views(kept@) =~= Seq::<(B, TrackerModel)>::empty());
        assert(expired@.skip(0) =~= expired@);
        assert(s.skip(0) =~= s);
        while rest.len() > 0
            invariant
                j + rest.len() == s.len() == expired.len(),
                slot_views(rest@) == s.skip(j as int),
                survivors(s, expired@) == slot_views(kept@) + survivors(
                    slot_views(rest@),
                    expired@.skip(j as int),
                ),
            decreases rest.len(),
        {
            let ghost before = rest@;
            let mut e = rest.remove(0);
            assert(slot_views(rest@) =~= slot_views(before).drop_first());
            assert(slot_views(before)[0] == e@);
            assert(expired@.skip(j as int).drop_first() =~= expired@.skip(j + 1));
            assert(s.skip(j as int).drop_first() =~= s.skip(j + 1));
            assert(expired@.skip(j as int)[0] == expired@[j as int]);
            if expired[j] {
                e.tracker.mark_expired();
            }
            let ghost kb = slot_views(kept@);
            if !e.tracker.state().should_destroy() {
                kept.push(e);
                assert(slot_views(kept@) =~= kb + seq![e@]);
            }
            j = j + 1;
        }
        assert(slot_views(kept@) + Seq::<(B, TrackerModel)>::empty() =~= slot_views(kept@));
        self.slots = kept;
        let current = self.slots.len();
        if current < min_size {
            min_size - current
        } else {
            0
        }
    }
}

/// Removing expired browsers never adds any: what is left is no longer
/// than the pool, and each browser left was in the pool.
pub proof fn lemma_unexpired_shrinks<B>(s: Seq<(B, TrackerModel)>, expired: Seq<bool>)
    ensures
        unexpired(s, expired).len() <= s.len(),
        forall|i: int|
            0 <= i < unexpired(s, expired).len() ==> s.contains(#[trigger] unexpired(s, expired)[i]),
    decreases s.len(),
{
    if s.len() > 0 && expired.len() > 0 {
        lemma_unexpired_shrinks(s.drop_first(), expired.drop_first());
        let rest = unexpired(s.drop_first(), expired.drop_first());
        assert forall|i: int| 0 <= i < unexpired(s, expired).len() implies s.contains(
            #[trigger] unexpired(s, expired)[i],
        ) by {
            if expired[0] {
                assert(s.drop_first().contains(rest[i]));
                let k = choose|k: int| 0 <= k < s.drop_first().len() && s.drop_first()[k] == rest[i];
                assert(s[k + 1] == rest[i]);
            } else if i == 0 {
                assert(s[0] == unexpired(s, expired)[0]);
            } else {
                assert(unexpired(s, expired)[i] == rest[i - 1]);
                assert(s.drop_first().contains(rest[i - 1]));
                let k = choose|k: int|
                    0 <= k < s.drop_first().len() && s.drop_first()[k] == rest[i - 1];
                assert(s[k + 1] == rest[i - 1]);
            }
        }
    }
}

/// Returning a browser never makes a pool of at most `max_size` browsers
/// larger than `max_size`; an unhealthy browser is never returned to the
/// pool, which is then left as it was; and a browser that is returned comes
/// back ready, at the end of the pool, after the browsers that stay.
pub proof fn lemma_release_keeps_pool_bounded<B>(
    s: Seq<(B, TrackerModel)>,
    pooled: (B, TrackerModel),
    healthy: bool,
    expired: Seq<bool>,
    max_size: usize,
    r: Seq<(B, TrackerModel)>,
)
    requires
        released(s, pooled, healthy, expired, max_size, r),
    ensures
        s.len() <= max_size ==> r.len() <= max_size,
        r.len() <= s.len() + 1,
        !healthy ==> r == s,
        healthy && !destroyable(pooled.1.state) ==> {
            &&& r.take(unexpired(s, expired).len() as int) == unexpired(s, expired)
            &&& r.len() <= unexpired(s, expired).len() + 1
            &&& r.len() == unexpired(s, expired).len() + 1 ==> r.last().0 == pooled.0
                && back_ready(pooled.1, r.last().1)
        },
{
    lemma_unexpired_shrinks(s, expired);
    let k = unexpired(s, expired);
    if healthy && !destroyable(pooled.1.state) {
        if k.len() < max_size {
            assert(r.take(k.len() as int) =~= r.drop_last());
        } else {
            assert(k.take(k.len() as int) =~= k);
        }
    }
}

/// After a cleanup no browser in the pool must be destroyed, and the pool
/// has not grown.
pub proof fn lemma_cleanup_leaves_no_destroyable<B>(s: Seq<(B, TrackerModel)>, expired: Seq<bool>)
    ensures
        survivors(s, expired).len() <= s.len(),
        forall|i: int|
            0 <= i < survivors(s, expired).len() ==> !destroyable(
                #[trigger] survivors(s, expired)[i].1.state,
            ),
    decreases s.len(),
{
    if s.len() > 0 {
        let rest_flags = if expired.len() > 0 {
            expired.drop_first()
        } else {
            expired
        };
        lemma_cleanup_leaves_no_destroyable(s.drop_first(), rest_flags);
        let rest = survivors(s.drop_first(), rest_flags);
        assert forall|i: int| 0 <= i < survivors(s, expired).len() implies !destroyable(
            #[trigger] survivors(s, expired)[i].1.state,
        ) by {
            let st = if expired.len() > 0 && expired[0] {
                BrowserState::Expired
            } else {
                s[0].1.state
            };
            if !destroyable(st) && i > 0 {
                assert(survivors(s, expired)[i] == rest[i - 1]);
            }
        }
    }
}

// ---------------------------------------------------------------------------
// Cookies cached per domain
// ---------------------------------------------------------------------------

/// The domain of `url` as the `url` crate reads it: `Url::parse`, then
/// `Url::domain` (none when the URL does not parse or its host is not a
/// domain name).
pub uninterp spec fn url_domain_of(url: Seq<char>) -> Option<Seq<char>>;

/// The domain of a URL (`url::Url::parse` followed by `Url::domain`),
/// named by [`url_domain_of`].
#[verifier::external_body]
fn url_domain(url: &str) -> (r: Option<String>)
    ensures
        opt_view(r) == url_domain_of(url@),
{
    match url::Url::parse(url) {
        Ok(parsed) => match parsed.domain() {
            Some(d) => Some(d.to_string()),
            None => None,
        },
        Err(_) => None,
    }
}

/// The position of `domain` in a cache.
pub open spec fn domain_index(s: Seq<(Seq<char>, Seq<CookieModel>)>, domain: Seq<char>) -> Option<
    int,
> {
    if exists|i: int| 0 <= i < s.len() && s[i].0 == domain {
        Some(choose|i: int| 0 <= i < s.len() && s[i].0 == domain)
    } else {
        None
    }
}

/// No domain occurs twice in a cache.
pub open spec fn domains_distinct(s: Seq<(Seq<char>, Seq<CookieModel>)>) -> bool {
    forall|i: int, j: int| 0 <= i < s.len() && 0 <= j < s.len() && i != j ==> s[i].0 != s[j].0
}

/// A cache after storing `cookies` for `domain`, replacing what it held
/// for that domain.
pub open spec fn cache_insert(
    s: Seq<(Seq<char>, Seq<CookieModel>)>,
    domain: Seq<char>,
    cookies: Seq<CookieModel>,
) -> Seq<(Seq<char>, Seq<CookieModel>)> {
    match domain_index(s, domain) {
        Some(i) => s.update(i, (domain, cookies)),
        None => s.push((domain, cookies)),
    }
}

/// What a cache holds for `domain`.
pub open spec fn cache_lookup(s: Seq<(Seq<char>, Seq<CookieModel>)>, domain: Seq<char>) -> Option<
    Seq<CookieModel>,
> {
    match domain_index(s, domain) {
        Some(i) => Some(s[i].1),
        None => None,
    }
}

struct CacheEntry {
    domain: String,
    cookies: ExtractedCookies,
}

/// The cookies of the last preflight of each domain.
pub struct DomainCookieCache {
    entries: Vec<CacheEntry>,
}

/// The views of cache entries.
spec fn entry_views(v: Seq<CacheEntry>) -> Seq<(Seq<char>, Seq<CookieModel>)> {
    v.map_values(|e: CacheEntry| (e.domain@, e.cookies@))
}

impl View for DomainCookieCache {
    type V = Seq<(Seq<char>, Seq<CookieModel>)>;

    closed spec fn view(&self) -> Seq<(Seq<char>, Seq<CookieModel>)> {
        entry_views(self.entries@)
    }
}

impl DomainCookieCache {
    #[verifier::type_invariant]
    closed spec fn unique_domains(&self) -> bool {
        domains_distinct(entry_views(self.entries@))
    }

    /// An empty cache.
    pub fn new() -> (r: Self)
        ensures
            r@.len() == 0,
    {
        let r = DomainCookieCache { entries: Vec::new() };
        assert(entry_views(r.entries@) =~= Seq::<(Seq<char>, Seq<CookieModel>)>::empty());
        r
    }

    /// Position of a domain.
    fn find(&self, domain: &str) -> (r: Option<usize>)
        ensures
            match r {
                Some(i) => i < self@.len() && self@[i as int].0 == domain@,
                None => domain_index(self@, domain@) is None,
            },
    {
        let n = self.entries.len();
        let mut i: usize = 0;
        while i < n
            invariant
                i <= n == self.entries.len(),
                self@ == entry_views(self.entries@),
                forall|k: int| 0 <= k < i ==> self@[k].0 != domain@,
            decreases n - i,
        {
            if str_eq(self.entries[i].domain.as_str(), domain) {
                return Some(i);
            }
            i = i + 1;
        }
        None
    }

    /// Store the cookies of `domain`, replacing what was stored for it.
    pub fn insert(&mut self, domain: String, cookies: ExtractedCookies)
        ensures
            final(self)@ == cache_insert(old(self)@, domain@, cookies@),
    {
        proof {
            use_type_invariant(&*self);
        }
        let ghost s = self@;
        let ghost d = domain@;
        let ghost c = cookies@;
        match self.find(domain.as_str()) {
            Some(i) => {
                assert(domain_index(s, d) == Some(i as int)) by {
                    let j = choose|j: int| 0 <= j < s.len() && s[j].0 == d;
                    assert(j == i);
                }
                let mut entries = Vec::new();
                core::mem::swap(&mut entries, &mut self.entries);
                entries.set(i, CacheEntry { domain, cookies });
                assert(entry_views(entries@) =~= s.update(i as int, (d, c)));
                assert(domains_distinct(entry_views(entries@)));
                self.entries = entries;
            },
            None => {
                let mut entries = Vec::new();
                core::mem::swap(&mut entries, &mut self.entries);
                entries.push(CacheEntry { domain, cookies });
                assert(entry_views(entries@) =~= s.push((d, c)));
                assert(domains_distinct(entry_views(entries@)));
                self.entries = entries;
            },
        }
    }

    /// The cookies stored for `domain`.
    pub fn get(&self, domain: &str) -> (r: Option<ExtractedCookies>)
        ensures
            match r {
                Some(c) => cache_lookup(self@, domain@) == Some(c@),
                None => cache_lookup(self@, domain@) is None,
            },
    {
        proof {
            use_type_invariant(self);
        }
        match self.find(domain) {
            Some(i) => {
                assert(domain_index(self@, domain@) == Some(i as int)) by {
                    let j = choose|j: int| 0 <= j < self@.len() && self@[j].0 == domain@;
                    assert(j == i);
                }
                assert(self@[i as int] == (self.entries@[i as int].domain@, self.entries@[i as int].cookies@));
                Some(self.entries[i].cookies.clone())
            },
            None => None,
        }
    }

    /// Cache the cookies of a preflight of `url` under the URL's domain
    /// (nothing is cached when the URL has no domain).
    pub fn record_preflight(&mut self, url: &str, cookies: &ExtractedCookies)
        ensures
            final(self)@ == match url_domain_of(url@) {
                Some(d) => cache_insert(old(self)@, d, cookies@),
                None => old(self)@,
            },
    {
        match url_domain(url) {
            Some(d) => self.insert(d, cookies.clone()),
            None => {},
        }
    }
}

/// Reading a domain back after storing cookies for it gives those
/// cookies, and storing for one domain leaves every other domain as it was.
pub proof fn lemma_cache_insert_then_lookup(
    s: Seq<(Seq<char>, Seq<CookieModel>)>,
    domain: Seq<char>,
    cookies: Seq<CookieModel>,
    other: Seq<char>,
)
    requires
        domains_distinct(s),
    ensures
        domains_distinct(cache_insert(s, domain, cookies)),
        cache_lookup(cache_insert(s, domain, cookies), domain) == Some(cookies),
        other != domain ==> cache_lookup(cache_insert(s, domain, cookies), other) == cache_lookup(
            s,
            other,
        ),
{
    let t = cache_insert(s, domain, cookies);
    let i0 = domain_index(s, domain);
    match i0 {
        Some(i) => {
            assert(s[i].0 == domain);
            assert(t == s.update(i, (domain, cookies)));
        },
        None => {
            assert(t == s.push((domain, cookies)));
        },
    }
    assert(domains_distinct(t));
    let ti = match i0 {
        Some(i) => i,
        None => s.len() as int,
    };
    assert(t[ti].0 == domain);
    let j = choose|j: int| 0 <= j < t.len() && t[j].0 == domain;
    assert(j == ti);
    if other != domain {
        if exists|k: int| 0 <= k < s.len() && s[k].0 == other {
            let k = choose|k: int| 0 <= k < s.len() && s[k].0 == other;
            assert(t[k] == s[k]);
            let k2 = choose|k2: int| 0 <= k2 < t.len() && t[k2].0 == other;
            assert(k2 == k);
        } else {
            assert forall|k: int| 0 <= k < t.len() implies t[k].0 != other by {
                if k < s.len() {
                    assert(t[k] == s[k] || t[k].0 == domain);
                }
            }
        }
    }
}

} // verus!
