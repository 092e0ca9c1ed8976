use memchurn::actions::{Actions, Config, Decision};
use memchurn::options::{Distribution, Policy, SizeMode, TTLMode, Trend};
use memchurn::pool::Pool;
use memchurn::random::Random;

const ALWAYS: u64 = 1 << 53;

fn config(trend: Trend, min: usize, max: usize, step: usize) -> Config {
    Config {
        policy: Policy::Fifo,
        alloc_threshold: ALWAYS,
        min_size: min,
        max_size: max,
        size_trend: trend,
        size_step: step,
        trend_jitter: 0,
        size_list: vec![],
        size_mode: SizeMode::Exact,
        size_weights: vec![],
        distribution: Distribution::Uniform,
        ttl_mode: TTLMode::Off,
        ttl_fixed: 10,
        ttl_list: vec![],
        ttl_weights: vec![],
    }
}

fn no_shape(_: u64, lo: usize, _: usize) -> usize {
    lo
}

fn sizes_of(cfg: Config, capacity: usize, seed: u64, ticks: usize) -> Vec<usize> {
    let mut a = Actions::new(cfg, Random::seeded(seed), Pool::new(capacity));
    let mut out = vec![];
    for _ in 0..ticks {
        if let Decision::Allocate { size, .. } = a.block_action(&no_shape) {
            out.push(size);
        }
    }
    out
}

#[test]
fn grow_trend_climbs_and_holds_at_max() {
    let got = sizes_of(config(Trend::Grow, 0, 10, 5), 100, 1, 6);
    assert_eq!(got, vec![0, 5, 10, 10, 10, 10]);
}

#[test]
fn saw_trend_restarts_at_min_past_max() {
    let got = sizes_of(config(Trend::Saw, 0, 10, 7), 100, 1, 6);
    assert_eq!(got, vec![0, 7, 0, 7, 0, 7]);
}

#[test]
fn shrink_trend_falls_and_resets_to_min() {
    let got = sizes_of(config(Trend::Shrink, 2, 20, 7), 100, 1, 5);
    assert_eq!(got, vec![20, 13, 6, 2, 2]);
}

#[test]
fn grow_with_jitter_stays_in_bounds_and_never_falls() {
    let mut cfg = config(Trend::Grow, 100, 10_000, 10);
    cfg.trend_jitter = 30;
    let got = sizes_of(cfg, 10_000, 99, 2_000);
    assert_eq!(got[0], 100);
    for w in got.windows(2) {
        assert!(w[0] <= w[1]);
        assert!(w[1] <= 10_000);
    }
    assert_eq!(*got.last().unwrap(), 10_000);
}

#[test]
fn untrended_uniform_sizes_in_bounds() {
    let got = sizes_of(config(Trend::Sampled, 64, 128, 1), 10_000, 5, 1_000);
    assert_eq!(got.len(), 1_000);
    assert!(got.iter().all(|&s| s >= 64 && s < 128));
}

#[test]
fn untrended_shaped_sizes_are_clamped() {
    let mut cfg = config(Trend::Sampled, 64, 128, 1);
    cfg.distribution = Distribution::Exp;
    let mut a = Actions::new(cfg, Random::seeded(5), Pool::new(10));
    let big = |_: u64, _: usize, _: usize| 1_000_000usize;
    assert_eq!(a.block_action(&big), Decision::Allocate { size: 128, ttl: -1 });
    let small = |_: u64, _: usize, _: usize| 3usize;
    assert_eq!(a.block_action(&small), Decision::Allocate { size: 64, ttl: -1 });
}

#[test]
fn single_slot_pool_alternates() {
    let mut a = Actions::new(config(Trend::Sampled, 1, 1000, 1), Random::seeded(11), Pool::new(1));
    for t in 0..100 {
        let d = a.block_action(&no_shape);
        if t % 2 == 0 {
            assert!(matches!(d, Decision::Allocate { ttl: -1, .. }));
            assert_eq!(a.pool().count(), 1);
        } else {
            assert_eq!(d, Decision::Evict);
            assert_eq!(a.pool().count(), 0);
        }
    }
}

#[test]
fn pool_never_exceeds_capacity() {
    let mut cfg = config(Trend::Sampled, 1, 4096, 1);
    cfg.alloc_threshold = ALWAYS / 10 * 7;
    cfg.policy = Policy::Random;
    let mut a = Actions::new(cfg, Random::seeded(21), Pool::new(8));
    for _ in 0..5_000 {
        a.block_action(&no_shape);
        assert!(a.pool().count() <= 8);
    }
}

#[test]
fn same_seed_same_decisions() {
    let mut cfg = config(Trend::Grow, 16, 4096, 64);
    cfg.trend_jitter = 40;
    cfg.alloc_threshold = ALWAYS / 2;
    cfg.policy = Policy::BigFirst;
    cfg.ttl_mode = TTLMode::List;
    cfg.ttl_list = vec![1, 5, 20];
    cfg.ttl_weights = vec![2, 1, 1];
    let mut a = Actions::new(cfg.clone(), Random::seeded(8080), Pool::new(32));
    let mut b = Actions::new(cfg, Random::seeded(8080), Pool::new(32));
    for _ in 0..3_000 {
        assert_eq!(a.block_action(&no_shape), b.block_action(&no_shape));
        assert_eq!(a.pool().count(), b.pool().count());
    }
}

#[test]
fn zero_threshold_never_allocates() {
    let mut cfg = config(Trend::Sampled, 1, 10, 1);
    cfg.alloc_threshold = 0;
    let mut a = Actions::new(cfg, Random::seeded(3), Pool::new(4));
    for _ in 0..100 {
        assert_eq!(a.block_action(&no_shape), Decision::Evict);
    }
    assert_eq!(a.tracker().total_number_of_allocations, 0);
}

#[test]
fn exact_size_list_uses_weights() {
    let mut cfg = config(Trend::Grow, 0, 10, 5);
    cfg.size_list = vec![10, 20, 30];
    cfg.size_weights = vec![0, 0, 1];
    let got = sizes_of(cfg, 100, 4, 50);
    assert!(got.iter().all(|&s| s == 30));
}

#[test]
fn nearest_mode_snaps_trend_sizes() {
    let mut cfg = config(Trend::Grow, 0, 100, 10);
    cfg.size_list = vec![0, 25, 50, 75, 100];
    cfg.size_mode = SizeMode::Nearest;
    let got = sizes_of(cfg, 100, 4, 12);
    assert_eq!(got, vec![0, 0, 25, 25, 50, 50, 50, 75, 75, 100, 100, 100]);
}

#[test]
fn closest_prefers_leftmost_on_ties() {
    assert_eq!(Actions::get_closest(&vec![10, 20], 15), 10);
    assert_eq!(Actions::get_closest(&vec![20, 10], 15), 20);
    assert_eq!(Actions::get_closest(&vec![1, 8, 12], 11), 12);
    assert_eq!(Actions::get_closest(&vec![], 33), 33);
}

#[test]
fn fixed_lifetimes_expire_blocks() {
    let mut cfg = config(Trend::Sampled, 1, 10, 1);
    cfg.ttl_mode = TTLMode::Fixed;
    cfg.ttl_fixed = 3;
    cfg.policy = Policy::Never;
    let mut a = Actions::new(cfg, Random::seeded(6), Pool::new(100));
    for _ in 0..50 {
        let d = a.block_action(&no_shape);
        assert!(matches!(d, Decision::Allocate { ttl: 3, .. }));
        assert!(a.pool().count() <= 3);
    }
    assert_eq!(a.pool().count(), 3);
}

#[test]
fn never_policy_leaves_pool_alone_without_expiry() {
    let mut cfg = config(Trend::Sampled, 1, 10, 1);
    cfg.policy = Policy::Never;
    cfg.alloc_threshold = ALWAYS / 2;
    let mut a = Actions::new(cfg, Random::seeded(17), Pool::new(1_000));
    let mut last = 0;
    for _ in 0..500 {
        a.block_action(&no_shape);
        assert!(a.pool().count() >= last);
        last = a.pool().count();
    }
}

#[test]
fn finish_releases_remaining_blocks() {
    let mut a = Actions::new(config(Trend::Grow, 8, 64, 8), Random::seeded(2), Pool::new(10));
    for _ in 0..4 {
        a.block_action(&no_shape);
    }
    assert_eq!(a.tracker().current_size_allocated, 8 + 16 + 24 + 32);
    let t = a.finish();
    assert_eq!(t.current_size_allocated, 0);
    assert_eq!(t.freed_allocation_size, 80);
    assert_eq!(t.total_number_of_allocations, 4);
}

#[test]
fn ttl_list_draws_lifetimes_from_list() {
    let mut cfg = config(Trend::Sampled, 1, 10, 1);
    cfg.ttl_mode = TTLMode::List;
    cfg.ttl_list = vec![4, 9];
    cfg.ttl_weights = vec![0, 5];
    let mut a = Actions::new(cfg, Random::seeded(12), Pool::new(1_000));
    for _ in 0..20 {
        assert!(matches!(a.block_action(&no_shape), Decision::Allocate { ttl: 9, .. }));
    }
}
