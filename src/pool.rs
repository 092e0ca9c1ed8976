//! A capacity-bounded, insertion-ordered pool of blocks with eviction
//! policies and lifetime expiry.
use vstd::prelude::*;
use std::collections::VecDeque;
use crate::options::Policy;
use crate::random::{Random, uniform_value, xs_advance};
use crate::tracker::{SystemMemoryStats, Tracker};

verus! {

/// What a block is: its byte size, its remaining lifetime (negative for
/// infinite, zero for dead) and the lifetime it was created with.
#[derive(Debug, Clone, Copy, PartialEq, Eq, Structural)]
pub struct BlockModel {
    pub size: usize,
    pub ttl: isize,
    pub ttl_org: isize,
}

/// A block one tick later: a positive lifetime counts down by one.
pub open spec fn ticked(b: BlockModel) -> BlockModel {
    if b.ttl > 0 {
        BlockModel { ttl: (b.ttl - 1) as isize, ..b }
    } else {
        b
    }
}

/// A block is alive while its lifetime is infinite or still positive.
pub open spec fn is_alive(b: BlockModel) -> bool {
    b.ttl < 0 || b.ttl > 0
}

/// The blocks that survive one tick, ticked, in their original order.
pub open spec fn pruned(s: Seq<BlockModel>) -> Seq<BlockModel>
    decreases s.len(),
{
    if s.len() == 0 {
        s
    } else {
        let rest = pruned(s.drop_last());
        let b = ticked(s.last());
        if is_alive(b) {
            rest.push(b)
        } else {
            rest
        }
    }
}

/// The tracker after the blocks that die in one tick of `s` are released,
/// from the first to the last.
pub open spec fn pruned_tracker(t: Tracker, s: Seq<BlockModel>) -> Tracker
    decreases s.len(),
{
    if s.len() == 0 {
        t
    } else {
        let rest = pruned_tracker(t, s.drop_last());
        let b = ticked(s.last());
        if is_alive(b) {
            rest
        } else {
            rest.after_remove(b.size)
        }
    }
}

/// Index of the largest block; the earliest among equals.
pub open spec fn first_max_index(s: Seq<BlockModel>) -> int
    decreases s.len(),
{
    if s.len() <= 1 {
        0
    } else {
        let k = first_max_index(s.drop_last());
        if s.last().size > s[k].size {
            s.len() - 1
        } else {
            k
        }
    }
}

/// Index of the smallest block; the earliest among equals.
pub open spec fn first_min_index(s: Seq<BlockModel>) -> int
    decreases s.len(),
{
    if s.len() <= 1 {
        0
    } else {
        let k = first_min_index(s.drop_last());
        if s.last().size < s[k].size {
            s.len() - 1
        } else {
            k
        }
    }
}

/// The index that `policy` evicts from `s`, with `x` the generator's register;
/// `None` where nothing is evicted.
pub open spec fn evict_index(s: Seq<BlockModel>, policy: Policy, x: u64) -> Option<int> {
    if s.len() == 0 {
        None
    } else {
        match policy {
            Policy::Lifo => Some(s.len() - 1),
            Policy::Fifo => Some(0),
            Policy::Random => Some(uniform_value(0, s.len() as int, x)),
            Policy::BigFirst => Some(first_max_index(s)),
            Policy::SmallFirst => Some(first_min_index(s)),
            Policy::Never => None,
        }
    }
}

/// The blocks after an eviction by `policy`.
pub open spec fn evicted(s: Seq<BlockModel>, policy: Policy, x: u64) -> Seq<BlockModel> {
    match evict_index(s, policy, x) {
        Some(i) => s.remove(i),
        None => s,
    }
}

/// The tracker after an eviction by `policy`.
pub open spec fn evicted_tracker(t: Tracker, s: Seq<BlockModel>, policy: Policy, x: u64) -> Tracker {
    match evict_index(s, policy, x) {
        Some(i) => t.after_remove(s[i].size),
        None => t,
    }
}

/// The generator's register after an eviction by `policy`: only a random
/// eviction draws, and it draws even from an empty pool.
pub open spec fn evict_rng(policy: Policy, x: u64) -> u64 {
    if policy == Policy::Random {
        xs_advance(x)
    } else {
        x
    }
}

/// A prefix one longer is the shorter prefix plus the next element.
pub proof fn lemma_take_last<T>(s: Seq<T>, i: int)
    requires
        0 <= i < s.len(),
    ensures
        s.take(i + 1).drop_last() == s.take(i),
        s.take(i + 1).last() == s[i],
        forall|j: int| 0 <= j <= i ==> s.take(i + 1)[j] == s[j],
{
    assert(s.take(i + 1).drop_last() =~= s.take(i));
}

/// The block that `BigFirst` evicts is a largest one, and every block before
/// it is strictly smaller: ties go to the earliest inserted.
pub proof fn lemma_first_max_is_earliest(s: Seq<BlockModel>)
    requires
        s.len() > 0,
    ensures
        0 <= first_max_index(s) < s.len(),
        forall|j: int| 0 <= j < s.len() ==> (#[trigger] s[j]).size <= s[first_max_index(s)].size,
        forall|j: int| 0 <= j < first_max_index(s) ==> (#[trigger] s[j]).size < s[first_max_index(s)].size,
    decreases s.len(),
{
    if s.len() > 1 {
        let t = s.drop_last();
        lemma_first_max_is_earliest(t);
        assert(forall|j: int| 0 <= j < t.len() ==> t[j] == s[j]);
    }
}

/// The block that `SmallFirst` evicts is a smallest one, and every block
/// before it is strictly larger: ties go to the earliest inserted.
pub proof fn lemma_first_min_is_earliest(s: Seq<BlockModel>)
    requires
        s.len() > 0,
    ensures
        0 <= first_min_index(s) < s.len(),
        forall|j: int| 0 <= j < s.len() ==> (#[trigger] s[j]).size >= s[first_min_index(s)].size,
        forall|j: int| 0 <= j < first_min_index(s) ==> (#[trigger] s[j]).size > s[first_min_index(s)].size,
    decreases s.len(),
{
    if s.len() > 1 {
        let t = s.drop_last();
        lemma_first_min_is_earliest(t);
        assert(forall|j: int| 0 <= j < t.len() ==> t[j] == s[j]);
    }
}

/// After a tick no surviving block has a zero lifetime, and no block is
/// gained.
pub proof fn lemma_pruned_alive(s: Seq<BlockModel>)
    ensures
        pruned(s).len() <= s.len(),
        forall|i: int| 0 <= i < pruned(s).len() ==> is_alive(#[trigger] pruned(s)[i]),
        forall|i: int| 0 <= i < pruned(s).len() ==> (#[trigger] pruned(s)[i]).ttl != 0,
    decreases s.len(),
{
    if s.len() > 0 {
        lemma_pruned_alive(s.drop_last());
    }
}

/// The tracker after every block of `s` is released, from the first to the
/// last.
pub open spec fn released_tracker(t: Tracker, s: Seq<BlockModel>) -> Tracker
    decreases s.len(),
{
    if s.len() == 0 {
        t
    } else {
        released_tracker(t, s.drop_last()).after_remove(s.last().size)
    }
}

/// An eviction removes at most one block.
pub proof fn lemma_evict_len(s: Seq<BlockModel>, policy: Policy, x: u64)
    ensures
        s.len() - 1 <= evicted(s, policy, x).len() <= s.len(),
{
    crate::random::lemma_uniform_bounds(0, s.len() as int, x);
    if s.len() > 0 {
        lemma_first_max_is_earliest(s);
        lemma_first_min_is_earliest(s);
    }
}

/// Under `Never` an eviction changes neither the blocks, the tracker nor the
/// generator.
pub proof fn lemma_never_evicts(s: Seq<BlockModel>, t: Tracker, x: u64)
    ensures
        evicted(s, Policy::Never, x) == s,
        evicted_tracker(t, s, Policy::Never, x) == t,
        evict_rng(Policy::Never, x) == x,
{
}

/// A logical allocation: `size` zeroed bytes and a lifetime countdown.
#[derive(Debug)]
pub struct Block {
    data: Vec<u8>,
    ttl: isize,
    ttl_org: isize,
}

impl View for Block {
    type V = BlockModel;

    closed spec fn view(&self) -> BlockModel {
        BlockModel { size: self.data@.len() as usize, ttl: self.ttl, ttl_org: self.ttl_org }
    }
}

impl Block {
    /// A block of `size` bytes that never expires.
    pub fn new(size: usize) -> (r: Self)
        ensures
            r@ == (BlockModel { size, ttl: -1isize, ttl_org: -1isize }),
    {
        Self::with_ttl(size, -1)
    }

    /// A block of `size` bytes that lives `ttl` ticks (forever if negative).
    pub fn with_ttl(size: usize, ttl: isize) -> (r: Self)
        ensures
            r@ == (BlockModel { size, ttl, ttl_org: ttl }),
    {
        Block { data: vec![0u8; size], ttl, ttl_org: ttl }
    }

    /// Counts a positive lifetime down by one.
    pub fn tick(&mut self)
        ensures
            final(self)@ == ticked(old(self)@),
    {
        if self.ttl > 0 {
            self.ttl -= 1;
        }
    }

    /// Whether the block is still alive.
    pub fn alive(&self) -> (r: bool)
        ensures
            r == is_alive(self@),
    {
        self.ttl < 0 || self.ttl > 0
    }

    /// The lifetime the block was created with.
    pub fn ttl_org(&self) -> (r: isize)
        ensures
            r == self@.ttl_org,
    {
        self.ttl_org
    }

    /// The remaining lifetime.
    pub fn ttl(&self) -> (r: isize)
        ensures
            r == self@.ttl,
    {
        self.ttl
    }

    /// The size in bytes.
    pub fn size(&self) -> (r: usize)
        ensures
            r == self@.size,
    {
        self.data.len()
    }
}

/// An insertion-ordered collection of at most `capacity` blocks. The pool
/// owns its blocks, and reports every block it creates or destroys to
/// `tracker` in the same step.
pub struct Pool {
    blocks: VecDeque<Block>,
    capacity: usize,
    tracker: Tracker,
}

impl View for Pool {
    type V = Seq<BlockModel>;

    closed spec fn view(&self) -> Seq<BlockModel> {
        self.blocks@.map_values(|b: Block| b@)
    }
}

impl Pool {
    /// The most blocks the pool holds.
    pub closed spec fn spec_capacity(&self) -> usize {
        self.capacity
    }

    /// The bookkeeping of the blocks created and destroyed so far.
    pub closed spec fn spec_tracker(&self) -> Tracker {
        self.tracker
    }

    /// The pool holds no more blocks than its capacity.
    pub open spec fn wf(&self) -> bool {
        self@.len() <= self.spec_capacity()
    }

    /// An empty pool of the given capacity.
    pub fn new(capacity: usize) -> (r: Self)
        ensures
            r@ == Seq::<BlockModel>::empty(),
            r.spec_capacity() == capacity,
            r.spec_tracker().counts_zero(),
            r.wf(),
    {
        let r = Pool { blocks: VecDeque::new(), capacity, tracker: Tracker::new() };
        assert(r@ =~= Seq::<BlockModel>::empty());
        r
    }

    /// Appends a block of `size` bytes that never expires, unless the pool is
    /// full, in which case nothing happens.
    pub fn add_block(&mut self, size: usize)
        requires
            old(self).wf(),
        ensures
            final(self).wf(),
            final(self).spec_capacity() == old(self).spec_capacity(),
            old(self)@.len() < old(self).spec_capacity() ==> final(self)@ == old(self)@.push(
                BlockModel { size, ttl: -1isize, ttl_org: -1isize },
            ) && final(self).spec_tracker() == old(self).spec_tracker().after_add(size),
            old(self)@.len() >= old(self).spec_capacity() ==> final(self)@ == old(self)@
                && final(self).spec_tracker() == old(self).spec_tracker(),
    {
        self.add_block_with_ttl(size, -1);
    }

    /// Appends a block of `size` bytes that lives `ttl` ticks, unless the pool
    /// is full, in which case nothing happens.
    pub fn add_block_with_ttl(&mut self, size: usize, ttl: isize)
        requires
            old(self).wf(),
        ensures
            final(self).wf(),
            final(self).spec_capacity() == old(self).spec_capacity(),
            old(self)@.len() < old(self).spec_capacity() ==> final(self)@ == old(self)@.push(
                BlockModel { size, ttl, ttl_org: ttl },
            ) && final(self).spec_tracker() == old(self).spec_tracker().after_add(size),
            old(self)@.len() >= old(self).spec_capacity() ==> final(self)@ == old(self)@
                && final(self).spec_tracker() == old(self).spec_tracker(),
    {
        if self.blocks.len() >= self.capacity {
            return;
        }
        let b = Block::with_ttl(size, ttl);
        self.blocks.push_back(b);
        self.tracker.add_alloc(size);
        assert(self@ =~= old(self)@.push(BlockModel { size, ttl, ttl_org: ttl }));
    }

    fn size_at(&self, i: usize) -> (r: usize)
        requires
            i < self@.len(),
        ensures
            r == self@[i as int].size,
    {
        self.blocks[i].size()
    }

    fn biggest_index(&self) -> (r: usize)
        requires
            self@.len() > 0,
        ensures
            r == first_max_index(self@),
    {
        let mut best: usize = 0;
        let mut i: usize = 1;
        while i < self.blocks.len()
            invariant
                1 <= i <= self@.len(),
                self@.len() == self.blocks@.len(),
                best == first_max_index(self@.take(i as int)),
                best < i,
            decreases self@.len() - i,
        {
            proof {
                lemma_take_last(self@, i as int);
                lemma_first_max_is_earliest(self@.take(i as int));
            }
            if self.size_at(i) > self.size_at(best) {
                best = i;
            }
            i = i + 1;
        }
        assert(self@.take(i as int) =~= self@);
        best
    }

    fn smallest_index(&self) -> (r: usize)
        requires
            self@.len() > 0,
        ensures
            r == first_min_index(self@),
    {
        let mut best: usize = 0;
        let mut i: usize = 1;
        while i < self.blocks.len()
            invariant
                1 <= i <= self@.len(),
                self@.len() == self.blocks@.len(),
                best == first_min_index(self@.take(i as int)),
                best < i,
            decreases self@.len() - i,
        {
            proof {
                lemma_take_last(self@, i as int);
                lemma_first_min_is_earliest(self@.take(i as int));
            }
            if self.size_at(i) < self.size_at(best) {
                best = i;
            }
            i = i + 1;
        }
        assert(self@.take(i as int) =~= self@);
        best
    }

    fn remove_at(&mut self, i: usize)
        requires
            i < old(self)@.len(),
        ensures
            final(self)@ == old(self)@.remove(i as int),
            final(self).spec_tracker() == old(self).spec_tracker().after_remove(old(self)@[i as int].size),
            final(self).spec_capacity() == old(self).spec_capacity(),
    {
        let removed = self.blocks.remove(i);
        match removed {
            Some(b) => {
                self.tracker.remove_alloc(b.size());
            },
            None => {},
        }
        assert(self@ =~= old(self)@.remove(i as int));
    }

    /// Removes one block chosen by `policy`; nothing happens to an empty
    /// pool or under `Never`. `Random` draws an index from `rng`, even from
    /// an empty pool.
    pub fn del_block(&mut self, policy: Policy, rng: &mut Random)
        requires
            old(self).wf(),
        ensures
            final(self).wf(),
            final(self).spec_capacity() == old(self).spec_capacity(),
            final(self)@ == evicted(old(self)@, policy, old(rng)@),
            final(self).spec_tracker() == evicted_tracker(old(self).spec_tracker(), old(self)@, policy, old(rng)@),
            final(rng)@ == evict_rng(policy, old(rng)@),
    {
        let n = self.blocks.len();
        match policy {
            Policy::Lifo => {
                if n > 0 {
                    self.remove_at(n - 1);
                }
            },
            Policy::Fifo => {
                if n > 0 {
                    self.remove_at(0);
                }
            },
            Policy::Random => {
                let i = rng.uniform(0, n);
                if i < n {
                    self.remove_at(i);
                }
            },
            Policy::BigFirst => {
                if n > 0 {
                    let i = self.biggest_index();
                    proof {
                        lemma_first_max_is_earliest(self@);
                    }
                    self.remove_at(i);
                }
            },
            Policy::SmallFirst => {
                if n > 0 {
                    let i = self.smallest_index();
                    proof {
                        lemma_first_min_is_earliest(self@);
                    }
                    self.remove_at(i);
                }
            },
            Policy::Never => {},
        }
    }

    /// Ticks every block, then removes, in order, every block whose lifetime
    /// reached zero; the survivors keep their order.
    pub fn update_and_prune(&mut self)
        requires
            old(self).wf(),
        ensures
            final(self).wf(),
            final(self).spec_capacity() == old(self).spec_capacity(),
            final(self)@ == pruned(old(self)@),
            final(self).spec_tracker() == pruned_tracker(old(self).spec_tracker(), old(self)@),
    {
        let ghost s = self@;
        let n = self.blocks.len();
        let mut kept: VecDeque<Block> = VecDeque::new();
        let mut i: usize = 0;
        while i < n
            invariant
                n == s.len(),
                0 <= i <= n,
                self.capacity == old(self).spec_capacity(),
                self.blocks@.map_values(|b: Block| b@) == s.skip(i as int),
                kept@.map_values(|b: Block| b@) == pruned(s.take(i as int)),
                self.spec_tracker() == pruned_tracker(old(self).spec_tracker(), s.take(i as int)),
            decreases n - i,
        {
            proof {
                lemma_take_last(s, i as int);
            }
            let ghost rest = self.blocks@;
            assert(rest.len() == n - i) by {
                assert(rest.map_values(|b: Block| b@).len() == rest.len());
            }
            let popped = self.blocks.pop_front();
            if let Some(mut b) = popped {
                assert(b@ == s[i as int]) by {
                    assert(rest.map_values(|b: Block| b@)[0] == s.skip(i as int)[0]);
                }
                assert(self.blocks@.map_values(|b: Block| b@) =~= s.skip(i as int + 1)) by {
                    assert(rest.map_values(|b: Block| b@) == s.skip(i as int));
                    assert(self.blocks@ == rest.subrange(1, rest.len() as int));
                    assert forall|k: int| 0 <= k < n - i - 1 implies #[trigger] self.blocks@[k]@ == s[i
                        + 1 + k] by {
                        assert(rest.map_values(|b: Block| b@)[k + 1] == s.skip(i as int)[k + 1]);
                    }
                }
                b.tick();
                let ghost kv = kept@;
                if b.alive() {
                    kept.push_back(b);
                    assert(kept@.map_values(|b: Block| b@) =~= kv.map_values(|b: Block| b@).push(
                        b@,
                    ));
                } else {
                    self.tracker.remove_alloc(b.size());
                }
            }
            i = i + 1;
        }
        self.blocks = kept;
        assert(s.take(n as int) =~= s);
        proof {
            lemma_pruned_alive(s);
        }
    }

    /// The most blocks the pool holds.
    pub fn capacity(&self) -> (r: usize)
        ensures
            r == self.spec_capacity(),
    {
        self.capacity
    }

    /// The bookkeeping of the blocks created and destroyed so far.
    pub fn tracker(&self) -> (r: &Tracker)
        ensures
            *r == self.spec_tracker(),
    {
        &self.tracker
    }

    /// Replaces the tracker's memory figures with a fresh reading.
    pub fn set_system_stats(&mut self, stats: SystemMemoryStats)
        ensures
            final(self)@ == old(self)@,
            final(self).spec_capacity() == old(self).spec_capacity(),
            final(self).spec_tracker() == (Tracker { system_stats: stats, ..old(self).spec_tracker() }),
    {
        self.tracker.set_system_stats(stats);
    }

    /// The `i`-th block in insertion order.
    pub fn block(&self, i: usize) -> (r: &Block)
        requires
            i < self@.len(),
        ensures
            r@ == self@[i as int],
    {
        &self.blocks[i]
    }

    /// Destroys every block, from the first inserted to the last, reporting
    /// each to the tracker.
    pub fn clear(&mut self)
        ensures
            final(self)@ == Seq::<BlockModel>::empty(),
            final(self).spec_capacity() == old(self).spec_capacity(),
            final(self).spec_tracker() == released_tracker(old(self).spec_tracker(), old(self)@),
    {
        let ghost s = self@;
        let n = self.blocks.len();
        let mut i: usize = 0;
        while i < n
            invariant
                n == s.len(),
                0 <= i <= n,
                self.capacity == old(self).capacity,
                self@ == s.skip(i as int),
                self.tracker == released_tracker(old(self).tracker, s.take(i as int)),
            decreases n - i,
        {
            proof {
                lemma_take_last(s, i as int);
            }
            let ghost rest = self.blocks@;
            assert(rest.len() == n - i) by {
                assert(rest.map_values(|b: Block| b@).len() == rest.len());
            }
            let popped = self.blocks.pop_front();
            if let Some(b) = popped {
                assert(b@ == s[i as int]) by {
                    assert(rest.map_values(|b: Block| b@)[0] == s.skip(i as int)[0]);
                }
                assert(self@ =~= s.skip(i as int + 1)) by {
                    assert(self.blocks@ == rest.subrange(1, rest.len() as int));
                    assert forall|k: int| 0 <= k < n - i - 1 implies #[trigger] self.blocks@[k]@ == s[i
                        + 1 + k] by {
                        assert(rest.map_values(|b: Block| b@)[k + 1] == s.skip(i as int)[k + 1]);
                    }
                }
                self.tracker.remove_alloc(b.size());
            }
            i = i + 1;
        }
        assert(s.take(n as int) =~= s);
        assert(self@ =~= Seq::<BlockModel>::empty());
    }

    /// The number of blocks in the pool.
    pub fn count(&self) -> (r: usize)
        ensures
            r == self@.len(),
    {
        self.blocks.len()
    }
}

} // verus!
