use memchurn::options::Policy;
use memchurn::pool::{Block, Pool};
use memchurn::random::Random;

fn sizes(p: &Pool) -> Vec<usize> {
    (0..p.count()).map(|i| p.block(i).size()).collect()
}

fn ttls(p: &Pool) -> Vec<isize> {
    (0..p.count()).map(|i| p.block(i).ttl()).collect()
}

#[test]
fn block_lifetime_counts_down_to_death() {
    let mut b = Block::with_ttl(8, 2);
    assert!(b.alive());
    assert_eq!(b.ttl_org(), 2);
    b.tick();
    assert!(b.alive());
    b.tick();
    assert!(!b.alive());
    assert_eq!(b.ttl(), 0);
    b.tick();
    assert_eq!(b.ttl(), 0);
    assert_eq!(b.ttl_org(), 2);
    assert_eq!(b.size(), 8);
}

#[test]
fn infinite_block_never_dies() {
    let mut b = Block::new(4);
    for _ in 0..100 {
        b.tick();
    }
    assert!(b.alive());
    assert_eq!(b.ttl(), -1);
    assert_eq!(b.ttl_org(), -1);
}

#[test]
fn add_beyond_capacity_is_dropped() {
    let mut p = Pool::new(2);
    p.add_block(1);
    p.add_block(2);
    p.add_block(3);
    assert_eq!(p.count(), 2);
    assert_eq!(sizes(&p), vec![1, 2]);
    assert_eq!(p.capacity(), 2);
    assert_eq!(p.tracker().total_number_of_allocations, 2);
}

#[test]
fn zero_capacity_pool_stays_empty() {
    let mut p = Pool::new(0);
    p.add_block_with_ttl(5, 3);
    assert_eq!(p.count(), 0);
}

#[test]
fn lifo_and_fifo_follow_insertion_order() {
    let mut rng = Random::seeded(1);
    let mut p = Pool::new(10);
    for s in [1, 2, 3, 4] {
        p.add_block(s);
    }
    p.del_block(Policy::Lifo, &mut rng);
    assert_eq!(sizes(&p), vec![1, 2, 3]);
    p.del_block(Policy::Fifo, &mut rng);
    assert_eq!(sizes(&p), vec![2, 3]);
}

#[test]
fn big_first_breaks_ties_by_earliest() {
    let mut rng = Random::seeded(1);
    let mut p = Pool::new(10);
    p.add_block_with_ttl(5, 1);
    p.add_block_with_ttl(9, 2);
    p.add_block_with_ttl(9, 3);
    p.add_block_with_ttl(2, 4);
    p.del_block(Policy::BigFirst, &mut rng);
    assert_eq!(sizes(&p), vec![5, 9, 2]);
    assert_eq!(ttls(&p), vec![1, 3, 4]);
}

#[test]
fn small_first_breaks_ties_by_earliest() {
    let mut rng = Random::seeded(1);
    let mut p = Pool::new(10);
    p.add_block_with_ttl(5, 1);
    p.add_block_with_ttl(2, 2);
    p.add_block_with_ttl(2, 3);
    p.add_block_with_ttl(9, 4);
    p.del_block(Policy::SmallFirst, &mut rng);
    assert_eq!(sizes(&p), vec![5, 2, 9]);
    assert_eq!(ttls(&p), vec![1, 3, 4]);
}

#[test]
fn random_policy_removes_drawn_index() {
    let mut rng = Random::seeded(42);
    let mut probe = Random::seeded(42);
    let mut p = Pool::new(100);
    for s in 0..100 {
        p.add_block(s);
    }
    let i = probe.uniform(0, 100);
    p.del_block(Policy::Random, &mut rng);
    assert_eq!(p.count(), 99);
    assert!(!sizes(&p).contains(&i));
}

#[test]
fn never_policy_keeps_every_block() {
    let mut rng = Random::seeded(1);
    let mut p = Pool::new(10);
    p.add_block(1);
    p.add_block(2);
    for _ in 0..10 {
        p.del_block(Policy::Never, &mut rng);
    }
    assert_eq!(sizes(&p), vec![1, 2]);
}

#[test]
fn empty_pool_eviction_is_a_no_op() {
    let mut rng = Random::seeded(1);
    let mut p = Pool::new(3);
    for policy in [
        Policy::Lifo,
        Policy::Fifo,
        Policy::Random,
        Policy::BigFirst,
        Policy::SmallFirst,
        Policy::Never,
    ] {
        p.del_block(policy, &mut rng);
        assert_eq!(p.count(), 0);
    }
    assert_eq!(p.tracker().freed_allocation_size, 0);
}

#[test]
fn prune_removes_expired_and_keeps_order() {
    let mut p = Pool::new(10);
    p.add_block_with_ttl(1, 1);
    p.add_block_with_ttl(2, -1);
    p.add_block_with_ttl(3, 2);
    p.add_block_with_ttl(4, 1);
    p.add_block_with_ttl(5, 0);
    p.update_and_prune();
    assert_eq!(sizes(&p), vec![2, 3]);
    assert_eq!(ttls(&p), vec![-1, 1]);
    p.update_and_prune();
    assert_eq!(sizes(&p), vec![2]);
    for i in 0..p.count() {
        assert!(p.block(i).ttl() != 0);
    }
    assert_eq!(p.tracker().freed_allocation_size, 1 + 3 + 4 + 5);
    assert_eq!(p.tracker().current_number_of_allocations, 1);
}

#[test]
fn tracker_follows_pool_changes() {
    let mut rng = Random::seeded(1);
    let mut p = Pool::new(10);
    p.add_block(100);
    p.add_block(50);
    p.del_block(Policy::Fifo, &mut rng);
    p.add_block(10);
    let t = p.tracker();
    assert_eq!(t.total_size_allocated, 160);
    assert_eq!(t.total_number_of_allocations, 3);
    assert_eq!(t.current_size_allocated, 60);
    assert_eq!(t.current_number_of_allocations, 2);
    assert_eq!(t.peak_size_allocated, 150);
    assert_eq!(t.freed_allocation_size, 100);
}

#[test]
fn clear_releases_every_block() {
    let mut p = Pool::new(5);
    p.add_block(10);
    p.add_block_with_ttl(20, 3);
    p.clear();
    assert_eq!(p.count(), 0);
    assert_eq!(p.tracker().current_size_allocated, 0);
    assert_eq!(p.tracker().current_number_of_allocations, 0);
    assert_eq!(p.tracker().freed_allocation_size, 30);
    assert_eq!(p.tracker().peak_size_allocated, 30);
}
