//! The integer side of cycle-latency measurement: turning a pair of
//! performance-counter readings into nanoseconds, and picking the
//! nearest-rank sample out of a sorted distribution.

use vstd::prelude::*;

use std::sync::atomic::AtomicU64;

verus! {

/// Nanoseconds between two performance-counter readings at `freq` ticks per
/// second: a negative interval counts as zero, and the product saturates
/// before the division. `None` when the frequency is unknown (zero).
pub open spec fn elapsed_ns_spec(start: int, now: int, freq: int) -> Option<int> {
    if freq == 0 {
        None
    } else {
        let ticks = if now - start > 0 {
            now - start
        } else {
            0
        };
        let scaled = if ticks * 1_000_000_000 > u64::MAX {
            u64::MAX as int
        } else {
            ticks * 1_000_000_000
        };
        Some(scaled / freq)
    }
}

/// Nanoseconds from `start` to `now`; `None` when `freq` is zero, so a
/// missing frequency skips the sample rather than dividing by zero.
pub fn elapsed_ns(start: i64, now: i64, freq: u64) -> (r: Option<u64>)
    requires
        i64::MIN <= now - start <= i64::MAX,
    ensures
        match r {
            Some(v) => elapsed_ns_spec(start as int, now as int, freq as int) == Some(v as int),
            None => elapsed_ns_spec(start as int, now as int, freq as int) is None,
        },
{
    if freq == 0 {
        return None;
    }
    let diff = now - start;
    let ticks: u64 = if diff > 0 {
        diff as u64
    } else {
        0
    };
    let scaled: u64 = if ticks > u64::MAX / 1_000_000_000 {
        u64::MAX
    } else {
        ticks * 1_000_000_000
    };
    Some(scaled / freq)
}

/// The nearest-rank sample: rank `r` (1-based) of `sorted`, with rank 0 read
/// as rank 1 and ranks past the end read as the last sample; 0 for no
/// samples. The result is always an observed sample.
pub open spec fn sample_at_rank_spec(sorted: Seq<u64>, rank: int) -> u64 {
    if sorted.len() == 0 {
        0
    } else {
        let idx = if rank <= 1 {
            0
        } else if rank - 1 < sorted.len() - 1 {
            rank - 1
        } else {
            sorted.len() - 1
        };
        sorted[idx]
    }
}

/// The sample at nearest rank `rank` of an ascending distribution.
pub fn sample_at_rank(sorted: &[u64], rank: usize) -> (v: u64)
    ensures
        v == sample_at_rank_spec(sorted@, rank as int),
        sorted@.len() > 0 ==> sorted@.contains(v),
{
    let n = sorted.len();
    if n == 0 {
        return 0;
    }
    let below = if rank == 0 {
        0
    } else {
        rank - 1
    };
    let idx = if below < n - 1 {
        below
    } else {
        n - 1
    };
    let v = sorted[idx];
    assert(sorted@[idx as int] == v);
    v
}

/// The command-reconciliation counters, one per kind of event, shared
/// between the hook and worker threads. The values live in atomics that
/// other threads update at any time, so no contract here speaks of them.
pub struct CycleCounters {
    /// Exact-match events the hook accepted and published to the ring.
    pub accepted: AtomicU64,
    /// Matched events rejected by the anti-macro throttle.
    pub throttled: AtomicU64,
    /// Matched events dropped because the ring was full.
    pub dropped_full: AtomicU64,
    /// Commands the worker pulled off the ring.
    pub drained: AtomicU64,
    /// Cycles that ended in a real focus change.
    pub activated: AtomicU64,
    /// Cycles where every eligible target was attempted and none activated.
    pub exhausted: AtomicU64,
    /// Cycles where no candidate survived eligibility.
    pub no_target: AtomicU64,
}

impl CycleCounters {
    /// Every counter at zero.
    pub fn new() -> (c: Self) {
        CycleCounters {
            accepted: AtomicU64::new(0),
            throttled: AtomicU64::new(0),
            dropped_full: AtomicU64::new(0),
            drained: AtomicU64::new(0),
            activated: AtomicU64::new(0),
            exhausted: AtomicU64::new(0),
            no_target: AtomicU64::new(0),
        }
    }

    /// Every counter, in reporting order.
    pub fn all_counters(&self) -> (r: [&AtomicU64; 7])
        ensures
            r@ == seq![
                &self.accepted,
                &self.throttled,
                &self.dropped_full,
                &self.drained,
                &self.activated,
                &self.exhausted,
                &self.no_target,
            ],
    {
        let r = [
            &self.accepted,
            &self.throttled,
            &self.dropped_full,
            &self.drained,
            &self.activated,
            &self.exhausted,
            &self.no_target,
        ];
        assert(r@ =~= seq![
            &self.accepted,
            &self.throttled,
            &self.dropped_full,
            &self.drained,
            &self.activated,
            &self.exhausted,
            &self.no_target,
        ]);
        r
    }

    /// Zero every counter this set reports.
    pub fn reset(&self) {
        clear_all(&self.all_counters());
    }
}

/// Zero each counter it is given, in order.
pub fn clear_all(counters: &[&AtomicU64]) {
    let mut i: usize = 0;
    while i < counters.len()
        invariant
            i <= counters.len(),
        decreases counters.len() - i,
    {
        counters[i].store(0, std::sync::atomic::Ordering::Relaxed);
        i = i + 1;
    }
}

} // verus!
