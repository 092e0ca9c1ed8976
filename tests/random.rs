use memchurn::options::Distribution;
use memchurn::random::Random;

#[test]
fn uniform_stays_in_half_open_range() {
    let mut rng = Random::seeded(42);
    for _ in 0..10_000 {
        let v = rng.uniform(3, 17);
        assert!(v >= 3 && v < 17);
    }
}

#[test]
fn uniform_with_equal_bounds_returns_min() {
    let mut rng = Random::seeded(9);
    for _ in 0..1_000 {
        assert_eq!(rng.uniform(5, 5), 5);
    }
}

#[test]
fn seeded_draws_match_known_sequence() {
    let mut rng = Random::seeded(42);
    let got: Vec<usize> = (0..8).map(|_| rng.uniform(0, 100)).collect();
    assert_eq!(got, vec![19, 56, 48, 27, 80, 58, 30, 79]);
    let mut rng = Random::seeded(7);
    let got: Vec<usize> = (0..5).map(|_| rng.uniform(0, 1000)).collect();
    assert_eq!(got, vec![81, 258, 354, 553, 651]);
}

#[test]
fn raw_draws_match_known_sequence() {
    let mut rng = Random::seeded(1);
    assert_eq!(rng.uniform01_bits(), 2648537414134819);
    assert_eq!(rng.uniform01_bits(), 7595693285953223);
    assert_eq!(rng.uniform01_bits(), 3345391044193267);
}

#[test]
fn same_seed_same_draws() {
    let mut a = Random::seeded(12345);
    let mut b = Random::seeded(12345);
    for _ in 0..1_000 {
        assert_eq!(a.uniform(0, 1 << 40), b.uniform(0, 1 << 40));
    }
}

#[test]
fn default_generator_is_fixed() {
    let mut a = Random::new();
    let mut b = Random::new();
    for _ in 0..100 {
        assert_eq!(a.uniform01_bits(), b.uniform01_bits());
    }
}

#[test]
fn uniform01_average_is_one_half() {
    let mut rng = Random::seeded(2024);
    let n = 1_000_000;
    let mut sum = 0.0f64;
    for _ in 0..n {
        let bits = rng.uniform01_bits();
        assert!(bits < (1u64 << 53));
        sum += bits as f64 / (1u64 << 53) as f64;
    }
    let mean = sum / n as f64;
    assert!((mean - 0.5).abs() < 0.002, "mean {}", mean);
}

#[test]
fn coin_flip_gives_both_sides() {
    let mut rng = Random::seeded(3);
    let heads = (0..10_000).filter(|_| rng.coin_flip()).count();
    assert!(heads > 4_500 && heads < 5_500, "heads {}", heads);
}

#[test]
fn wchoice_with_single_weight_always_first() {
    let mut rng = Random::seeded(77);
    let l = vec![10, 20, 30];
    let w = vec![1, 0, 0];
    for _ in 0..10_000 {
        assert_eq!(rng.wchoice(&l, &w), 10);
    }
}

#[test]
fn wchoice_without_weights_is_choice() {
    let mut a = Random::seeded(555);
    let mut b = Random::seeded(555);
    let l = vec![4, 8, 15, 16, 23, 42];
    for _ in 0..1_000 {
        assert_eq!(a.wchoice(&l, &vec![]), b.choice(&l));
    }
}

#[test]
fn wchoice_follows_weights() {
    let mut rng = Random::seeded(31337);
    let l = vec![1, 2, 3];
    let w = vec![1, 3, 0];
    let mut counts = [0usize; 3];
    for _ in 0..40_000 {
        let v = rng.wchoice(&l, &w);
        counts[v - 1] += 1;
    }
    assert_eq!(counts[2], 0);
    assert!(counts[0] > 9_000 && counts[0] < 11_000, "{:?}", counts);
    assert!(counts[1] > 29_000 && counts[1] < 31_000, "{:?}", counts);
}

#[test]
fn wchoice_with_zero_weights_picks_first() {
    let mut rng = Random::seeded(8);
    for _ in 0..100 {
        assert_eq!(rng.wchoice(&vec![7, 9], &vec![0, 0]), 7);
    }
}

#[test]
fn choice_picks_members() {
    let mut rng = Random::seeded(100);
    let l = vec![3, 1, 4, 1, 5];
    for _ in 0..1_000 {
        assert!(l.contains(&rng.choice(&l)));
    }
}

#[test]
fn next_uniform_matches_uniform() {
    let mut a = Random::seeded(64);
    let mut b = Random::seeded(64);
    let shape = |_: u64, lo: usize, _: usize| lo;
    for _ in 0..1_000 {
        assert_eq!(a.next(10, 90, Distribution::Uniform, &shape), b.uniform(10, 90));
    }
}

#[test]
fn next_clamps_shaped_values() {
    let mut rng = Random::seeded(64);
    let too_big = |_: u64, _: usize, _: usize| 1_000usize;
    let too_small = |_: u64, _: usize, _: usize| 0usize;
    let inside = |_: u64, _: usize, _: usize| 42usize;
    assert_eq!(rng.next(10, 90, Distribution::Exp, &too_big), 90);
    assert_eq!(rng.next(10, 90, Distribution::Powerlaw, &too_small), 10);
    assert_eq!(rng.next(10, 90, Distribution::Exp, &inside), 42);
}

#[test]
fn next_hands_the_raw_draw_to_the_shape() {
    let mut a = Random::seeded(5);
    let mut b = Random::seeded(5);
    let echo = |bits: u64, _: usize, _: usize| (bits % 50) as usize;
    let v = a.next(0, 100, Distribution::Exp, &echo);
    assert_eq!(v as u64, b.uniform01_bits() % 50);
}

#[test]
fn zero_seed_still_draws() {
    let mut rng = Random::seeded(0);
    let mut seen_nonzero = false;
    for _ in 0..100 {
        let v = rng.uniform(0, 1000);
        assert!(v < 1000);
        seen_nonzero |= v != 0;
    }
    assert!(seen_nonzero);
}
