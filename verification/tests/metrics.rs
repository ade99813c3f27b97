use std::sync::atomic::{AtomicU64, Ordering};

use wiradesk::metrics::{clear_all, elapsed_ns, sample_at_rank, CycleCounters};

/// Nearest-rank percentile: the rank is `ceil(p * n)`, read through the
/// verified sample picker.
fn percentile(sorted: &[u64], p: f64) -> u64 {
    let rank = (p * sorted.len() as f64).ceil() as usize;
    sample_at_rank(sorted, rank)
}

#[test]
fn percentile_of_empty_is_zero() {
    assert_eq!(percentile(&[], 0.95), 0);
}

#[test]
fn percentile_single_sample() {
    assert_eq!(percentile(&[7], 0.50), 7);
    assert_eq!(percentile(&[7], 0.95), 7);
}

#[test]
fn nearest_rank_percentiles_are_observed_samples() {
    let sorted: Vec<u64> = (1..=100).collect();
    assert_eq!(percentile(&sorted, 0.50), 50);
    assert_eq!(percentile(&sorted, 0.95), 95);
    assert_eq!(percentile(&sorted, 1.00), 100);
}

#[test]
fn percentile_never_indexes_out_of_bounds() {
    let sorted = [1u64, 2, 3];
    for p in [0.0, 0.01, 0.5, 0.99, 1.0] {
        let v = percentile(&sorted, p);
        assert!(sorted.contains(&v), "p={p} produced a synthesized value");
    }
}

#[test]
fn ranks_outside_the_samples_clamp_to_the_ends() {
    let sorted = [4u64, 8, 15];
    assert_eq!(sample_at_rank(&sorted, 0), 4);
    assert_eq!(sample_at_rank(&sorted, 1), 4);
    assert_eq!(sample_at_rank(&sorted, 2), 8);
    assert_eq!(sample_at_rank(&sorted, 3), 15);
    assert_eq!(sample_at_rank(&sorted, 99), 15);
}

#[test]
fn elapsed_time_is_scaled_to_nanoseconds() {
    assert_eq!(elapsed_ns(100, 110, 0), None);
    assert_eq!(elapsed_ns(100, 110, 10_000_000), Some(1_000));
    assert_eq!(elapsed_ns(100, 90, 10_000_000), Some(0), "a clock that went backwards counts as zero");
    assert_eq!(elapsed_ns(0, i64::MAX, 1), Some(u64::MAX), "the product saturates");
}

#[test]
fn clear_all_zeroes_every_counter_it_is_given() {
    let a = AtomicU64::new(5);
    let b = AtomicU64::new(3);
    let c = AtomicU64::new(9);
    clear_all(&[&a, &b, &c]);
    assert_eq!(a.load(Ordering::Relaxed), 0);
    assert_eq!(b.load(Ordering::Relaxed), 0);
    assert_eq!(c.load(Ordering::Relaxed), 0);
}

#[test]
fn clear_all_on_an_empty_set_is_harmless() {
    clear_all(&[]);
}

#[test]
fn reset_covers_every_reported_counter() {
    assert_eq!(
        CycleCounters::new().all_counters().len(),
        7,
        "counter set drifted from the seven reported by dump()"
    );
}

#[test]
fn reset_zeroes_the_whole_counter_set() {
    let counters = CycleCounters::new();
    counters.accepted.fetch_add(4, Ordering::Relaxed);
    counters.no_target.fetch_add(2, Ordering::Relaxed);
    counters.reset();
    for c in counters.all_counters() {
        assert_eq!(c.load(Ordering::Relaxed), 0);
    }
}
