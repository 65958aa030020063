//! Connection choice within a host's pool, slot acquisition, reconnection
//! backoff and host health.
use vstd::prelude::*;
use crate::error::RequestError;

verus! {

/// Position `k` of the round-robin order that starts at index `s` of `n`.
pub open spec fn rr_index(s: int, k: int, n: int) -> int {
    if s + k < n { s + k } else { s + k - n }
}

/// Some connection has fewer than `cap` requests in flight.
pub open spec fn has_free_slot(loads: Seq<u32>, cap: u32) -> bool {
    exists|j: int| 0 <= j < loads.len() && loads[j] < cap
}

/// Index `i`, at round-robin position `k`, is a least-loaded connection below
/// `cap`, and the first such in round-robin order from `start`.
pub open spec fn best_at(loads: Seq<u32>, cap: u32, start: int, k: int, i: int) -> bool {
    let n = loads.len() as int;
    &&& 0 <= k < n
    &&& i == rr_index(start % n, k, n)
    &&& loads[i] < cap
    &&& forall|k2: int|
        0 <= k2 < n && loads[#[trigger] rr_index(start % n, k2, n)] < cap ==> loads[i] < loads[rr_index(
            start % n,
            k2,
            n,
        )] || (loads[i] == loads[rr_index(start % n, k2, n)] && k <= k2)
}

/// Index `i` is the connection that the pool picks.
pub open spec fn is_pick(loads: Seq<u32>, cap: u32, start: int, i: int) -> bool {
    exists|k: int| #[trigger] best_at(loads, cap, start, k, i)
}

/// Picks the connection with the fewest requests in flight among those below
/// `cap`, breaking ties by round-robin order from `start`; `None` when every
/// connection is saturated.
pub fn pick_connection(loads: &Vec<u32>, cap: u32, start: usize) -> (r: Option<usize>)
    ensures
        r is None <==> !has_free_slot(loads@, cap),
        r matches Some(i) ==> is_pick(loads@, cap, start as int, i as int),
{
    let n = loads.len();
    if n == 0 {
        return None;
    }
    let s: usize = start % n;
    let mut best: Option<(usize, usize)> = None;
    let mut k: usize = 0;
    while k < n
        invariant
            n == loads@.len(),
            n > 0,
            s == start as int % n as int,
            k <= n,
            s < n,
            best is None ==> forall|k2: int|
                0 <= k2 < k ==> loads@[#[trigger] rr_index(s as int, k2, n as int)] >= cap,
            best matches Some(p) ==> {
                &&& p.1 < k
                &&& p.0 == rr_index(s as int, p.1 as int, n as int)
                &&& loads@[p.0 as int] < cap
                &&& forall|k2: int|
                    0 <= k2 < k && loads@[#[trigger] rr_index(s as int, k2, n as int)] < cap
                        ==> loads@[p.0 as int] < loads@[rr_index(s as int, k2, n as int)] || (
                    loads@[p.0 as int] == loads@[rr_index(s as int, k2, n as int)] && p.1 <= k2)
            },
        decreases n - k,
    {
        let idx: usize = if k < n - s {
            s + k
        } else {
            k - (n - s)
        };
        if loads[idx] < cap {
            match best {
                None => {
                    best = Some((idx, k));
                },
                Some(p) => {
                    if loads[idx] < loads[p.0] {
                        best = Some((idx, k));
                    }
                },
            }
        }
        k = k + 1;
    }
    match best {
        None => {
            proof {
                assert forall|j: int| 0 <= j < loads@.len() implies loads@[j] >= cap by {
                    let k2 = if j >= s { j - s } else { j + n - s };
                    assert(rr_index(s as int, k2, n as int) == j);
                }
            }
            None
        },
        Some(p) => {
            let i: usize = p.0;
            let k: usize = p.1;
            assert(best_at(loads@, cap, start as int, k as int, i as int));
            assert(is_pick(loads@, cap, start as int, i as int));
            Some(i)
        },
    }
}

/// Decides a caller's wait for a request slot after waiting `waited` of a
/// `timeout`: `Ok(Some(i))` takes connection `i`, `Ok(None)` keeps waiting,
/// and `PoolTimeout` ends the wait once the timeout has elapsed with every
/// connection saturated.
pub fn acquire_slot(loads: &Vec<u32>, cap: u32, start: usize, waited: u64, timeout: u64) -> (r:
    Result<Option<usize>, RequestError>)
    ensures
        has_free_slot(loads@, cap) ==> (r matches Ok(Some(i)) && is_pick(loads@, cap, start as int, i as int)),
        !has_free_slot(loads@, cap) && waited >= timeout ==> r == Err::<Option<usize>, RequestError>(
            RequestError::PoolTimeout,
        ),
        !has_free_slot(loads@, cap) && waited < timeout ==> r == Ok::<Option<usize>, RequestError>(
            None,
        ),
{
    match pick_connection(loads, cap, start) {
        Some(i) => Ok(Some(i)),
        None => {
            if waited >= timeout {
                Err(RequestError::PoolTimeout)
            } else {
                Ok(None)
            }
        },
    }
}

/// A change to the number of live connections of a host's pool.
#[derive(PartialEq, Eq, Structural, Clone, Copy, Debug)]
pub enum PoolAction {
    Grow,
    Shrink,
    Keep,
}

/// Keeps a host's pool within `[min, max]` live connections: it grows while
/// below `min`, or while every connection is saturated and it is below `max`;
/// it shrinks while above `max`; otherwise it keeps its size. `loads` holds
/// the in-flight count of each live connection.
pub fn resize_decision(loads: &Vec<u32>, cap: u32, min: usize, max: usize) -> (r: PoolAction)
    requires
        min <= max,
    ensures
        r == if loads@.len() < min {
            PoolAction::Grow
        } else if loads@.len() > max {
            PoolAction::Shrink
        } else if loads@.len() < max && !has_free_slot(loads@, cap) {
            PoolAction::Grow
        } else {
            PoolAction::Keep
        },
{
    let live = loads.len();
    if live < min {
        PoolAction::Grow
    } else if live > max {
        PoolAction::Shrink
    } else if live < max && pick_connection(loads, cap, 0).is_none() {
        PoolAction::Grow
    } else {
        PoolAction::Keep
    }
}

/// Two connections each capped at `cap` in-flight requests: once `2 * cap`
/// requests are in flight no slot is free, so a further caller waits and
/// times out; once any one of them retires, a slot is free for it.
pub proof fn lemma_pool_saturation(loads: Seq<u32>, cap: u32, j: int)
    requires
        loads.len() == 2,
        loads[0] <= cap,
        loads[1] <= cap,
        loads[0] + loads[1] == 2 * cap,
        0 <= j < 2,
        loads[j] > 0,
    ensures
        !has_free_slot(loads, cap),
        has_free_slot(loads.update(j, (loads[j] - 1) as u32), cap),
{
    let l2 = loads.update(j, (loads[j] - 1) as u32);
    assert(l2[j] < cap);
}

/// `min(cap, base * multiplier^attempt)`.
pub open spec fn backoff_spec(base: u64, multiplier: u64, cap: u64, attempt: nat) -> int
    decreases attempt,
{
    if attempt == 0 {
        if base <= cap { base as int } else { cap as int }
    } else {
        let prev = backoff_spec(base, multiplier, cap, (attempt - 1) as nat);
        if prev * multiplier <= cap { prev * multiplier } else { cap as int }
    }
}

proof fn lemma_backoff_bounded(base: u64, multiplier: u64, cap: u64, attempt: nat)
    ensures
        0 <= backoff_spec(base, multiplier, cap, attempt) <= cap,
    decreases attempt,
{
    if attempt > 0 {
        lemma_backoff_bounded(base, multiplier, cap, (attempt - 1) as nat);
    }
}

/// Delay before reconnection attempt `attempt` (counting from zero): the base
/// delay grown by `multiplier` per attempt, never above `cap`.
pub fn backoff_delay(base: u64, multiplier: u64, cap: u64, attempt: u32) -> (r: u64)
    ensures
        r == backoff_spec(base, multiplier, cap, attempt as nat),
{
    let mut d: u64 = if base <= cap {
        base
    } else {
        cap
    };
    let mut i: u32 = 0;
    while i < attempt
        invariant
            i <= attempt,
            d == backoff_spec(base, multiplier, cap, i as nat),
        decreases attempt - i,
    {
        proof {
            lemma_backoff_bounded(base, multiplier, cap, i as nat);
        }
        if multiplier == 0 {
            d = 0;
        } else if d <= cap / multiplier {
            proof {
                assert(d * multiplier <= cap) by (nonlinear_arith)
                    requires
                        d <= cap / multiplier,
                        multiplier > 0,
                ;
            }
            d = d * multiplier;
        } else {
            proof {
                assert(d * multiplier > cap) by (nonlinear_arith)
                    requires
                        d > cap / multiplier,
                        multiplier > 0,
                ;
            }
            d = cap;
        }
        i = i + 1;
    }
    d
}

/// A delay reduced by a random share of it: `jitter_permille` thousandths of
/// the delay at most, scaled by `draw` thousandths.
pub open spec fn jitter_spec(delay: u64, jitter_permille: u64, draw: u64) -> int {
    delay - (delay as int * jitter_permille as int * draw as int) / 1_000_000
}

/// Applies jitter to a backoff delay, with `draw` a random value in `0..=1000`.
pub fn apply_jitter(delay: u64, jitter_permille: u64, draw: u64) -> (r: u64)
    requires
        jitter_permille <= 1000,
        draw <= 1000,
    ensures
        r == jitter_spec(delay, jitter_permille, draw),
        r <= delay,
{
    assert(jitter_permille * draw <= 1_000_000) by (nonlinear_arith)
        requires
            jitter_permille <= 1000,
            draw <= 1000,
    ;
    let p: u128 = (jitter_permille * draw) as u128;
    assert(delay as u128 * p <= delay as u128 * 1_000_000) by (nonlinear_arith)
        requires
            p <= 1_000_000,
    ;
    let cut: u128 = delay as u128 * p / 1_000_000;
    assert(cut <= delay) by (nonlinear_arith)
        requires
            cut == delay * p / 1_000_000,
            p <= 1_000_000,
    ;
    assert(delay as int * jitter_permille as int * draw as int == delay as int * p as int) by (nonlinear_arith)
        requires
            p == jitter_permille * draw,
    ;
    (delay as u128 - cut) as u64
}

/// Health of a host as seen by the pool.
#[derive(PartialEq, Eq, Structural, Clone, Copy, Debug)]
pub enum HostState {
    Up,
    Down,
    Unknown,
}

/// A host's health and its run of failed connection attempts.
#[derive(PartialEq, Eq, Structural, Clone, Copy, Debug)]
pub struct HostHealth {
    pub state: HostState,
    pub consecutive_failures: u32,
}

impl HostHealth {
    pub fn new() -> (r: HostHealth)
        ensures
            r.state == HostState::Unknown,
            r.consecutive_failures == 0,
    {
        HostHealth { state: HostState::Unknown, consecutive_failures: 0 }
    }

    /// Records a failed attempt: the host goes down once `threshold`
    /// consecutive attempts have failed.
    pub fn record_failure(&mut self, threshold: u32)
        ensures
            final(self).consecutive_failures == if old(self).consecutive_failures == u32::MAX {
                u32::MAX as int
            } else {
                old(self).consecutive_failures + 1
            },
            final(self).state == if final(self).consecutive_failures >= threshold {
                HostState::Down
            } else {
                old(self).state
            },
    {
        if self.consecutive_failures < u32::MAX {
            self.consecutive_failures = self.consecutive_failures + 1;
        }
        if self.consecutive_failures >= threshold {
            self.state = HostState::Down;
        }
    }

    /// Records a successful attempt: the host is up and its run of failures ends.
    pub fn record_success(&mut self)
        ensures
            final(self).state == HostState::Up,
            final(self).consecutive_failures == 0,
    {
        self.state = HostState::Up;
        self.consecutive_failures = 0;
    }
}

/// Reconnection settings of a pool.
#[derive(PartialEq, Eq, Structural, Clone, Copy, Debug)]
pub struct ReconnectPolicy {
    pub base: u64,
    pub multiplier: u64,
    pub cap: u64,
    /// Largest share of a delay, in thousandths, that jitter may cut.
    pub jitter_permille: u64,
    /// Consecutive failed attempts after which the host is marked down.
    pub down_threshold: u32,
}

/// Reconnection state of one host: the next attempt's number and its health.
#[derive(PartialEq, Eq, Structural, Clone, Copy, Debug)]
pub struct Reconnector {
    pub policy: ReconnectPolicy,
    pub attempt: u32,
    pub health: HostHealth,
}

/// The delay of attempt `attempt` under `p`, after jitter with `draw`.
pub open spec fn scheduled_delay(p: ReconnectPolicy, attempt: u32, draw: u64) -> int {
    jitter_spec(backoff_spec(p.base, p.multiplier, p.cap, attempt as nat) as u64, p.jitter_permille, draw)
}

impl Reconnector {
    pub fn new(policy: ReconnectPolicy) -> (r: Reconnector)
        ensures
            r.policy == policy,
            r.attempt == 0,
            r.health == (HostHealth { state: HostState::Unknown, consecutive_failures: 0 }),
    {
        Reconnector { policy, attempt: 0, health: HostHealth::new() }
    }

    /// A connection to the host faulted, or an attempt to reconnect failed:
    /// records the failure and returns the delay before the next attempt,
    /// jittered with `draw` (a random value in `0..=1000`).
    pub fn schedule_after_failure(&mut self, draw: u64) -> (r: u64)
        requires
            old(self).policy.jitter_permille <= 1000,
            draw <= 1000,
        ensures
            r == scheduled_delay(old(self).policy, old(self).attempt, draw),
            final(self).policy == old(self).policy,
            final(self).attempt == if old(self).attempt == u32::MAX {
                u32::MAX as int
            } else {
                old(self).attempt + 1
            },
            final(self).health.consecutive_failures == if old(self).health.consecutive_failures
                == u32::MAX {
                u32::MAX as int
            } else {
                old(self).health.consecutive_failures + 1
            },
            final(self).health.state == if final(self).health.consecutive_failures
                >= old(self).policy.down_threshold {
                HostState::Down
            } else {
                old(self).health.state
            },
    {
        let p = self.policy;
        let d = backoff_delay(p.base, p.multiplier, p.cap, self.attempt);
        let r = apply_jitter(d, p.jitter_permille, draw);
        if self.attempt < u32::MAX {
            self.attempt = self.attempt + 1;
        }
        self.health.record_failure(p.down_threshold);
        r
    }

    /// A reconnection succeeded: the host is up and backoff starts over.
    pub fn on_success(&mut self)
        ensures
            final(self).policy == old(self).policy,
            final(self).attempt == 0,
            final(self).health == (HostHealth { state: HostState::Up, consecutive_failures: 0 }),
    {
        self.attempt = 0;
        self.health.record_success();
    }
}

/// After a success (or at the start), the next failure schedules a
/// reconnection after the configured initial backoff, less jitter.
pub proof fn lemma_first_reconnect_delay(p: ReconnectPolicy, draw: u64)
    requires
        p.base <= p.cap,
    ensures
        scheduled_delay(p, 0, draw) == jitter_spec(p.base, p.jitter_permille, draw),
{
}

} // verus!
