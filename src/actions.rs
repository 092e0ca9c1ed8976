//! The per-tick decision engine: expiry, the allocate-or-evict draw, the
//! stateful size trend and the lifetime of new blocks.
use vstd::prelude::*;
use crate::options::{Distribution, Policy, SizeMode, TTLMode, Trend};
use crate::pool::{
    BlockModel,
    Pool,
    evict_rng,
    evicted,
    evicted_tracker,
    pruned,
    pruned_tracker,
};
use crate::random::{
    Random,
    UNIT,
    clamp,
    draw53,
    lemma_uniform_bounds,
    lemma_wchoice_index_bounds,
    uniform_value,
    wchoice_index,
    wchoice_value,
    wsum,
    xs_advance,
};
use crate::tracker::{SystemMemoryStats, Tracker};

verus! {

/// The validated parameters of a run.
#[derive(Debug, Clone)]
pub struct Config {
    /// Which block leaves when the engine does not allocate.
    pub policy: Policy,
    /// The allocation probability scaled by 2^53: a tick with room in the
    /// pool allocates iff its 53-bit draw is below this value, so 2^53
    /// always allocates and 0 never does.
    pub alloc_threshold: u64,
    pub min_size: usize,
    pub max_size: usize,
    pub size_trend: Trend,
    pub size_step: usize,
    pub trend_jitter: usize,
    /// Sizes to use instead of the trend; empty for none.
    pub size_list: Vec<usize>,
    pub size_mode: SizeMode,
    /// Weights of `size_list`; empty for a uniform choice.
    pub size_weights: Vec<usize>,
    pub distribution: Distribution,
    pub ttl_mode: TTLMode,
    pub ttl_fixed: usize,
    pub ttl_list: Vec<usize>,
    /// Weights of `ttl_list`; empty for a uniform choice.
    pub ttl_weights: Vec<usize>,
}

/// A weight list is empty or one per element, and its sum fits in a `usize`.
pub open spec fn weights_fit(l: Seq<usize>, w: Seq<usize>) -> bool {
    &&& w.len() == 0 || w.len() == l.len()
    &&& wsum(w) <= usize::MAX
}

impl Config {
    /// What validation guarantees of a configuration.
    pub open spec fn wf(&self) -> bool {
        &&& self.min_size <= self.max_size
        &&& self.size_step + 2 * self.trend_jitter <= isize::MAX
        &&& self.size_list@.len() > 0 ==> weights_fit(self.size_list@, self.size_weights@)
        &&& self.ttl_mode == TTLMode::List ==> self.ttl_list@.len() > 0 && weights_fit(
            self.ttl_list@,
            self.ttl_weights@,
        )
        &&& self.ttl_fixed <= isize::MAX
        &&& forall|i: int| 0 <= i < self.ttl_list@.len() ==> #[trigger] self.ttl_list@[i] <= isize::MAX
    }

    /// Whether a size is drawn through the caller's shaping function: an
    /// untrended, non-uniform size that no exact list replaces.
    pub open spec fn uses_shape(&self) -> bool {
        &&& self.size_trend == Trend::Sampled
        &&& self.distribution != Distribution::Uniform
        &&& !(self.size_list@.len() > 0 && self.size_mode == SizeMode::Exact)
    }
}

/// What one tick decided.
#[derive(Debug, Clone, Copy, PartialEq, Eq, Structural)]
pub enum Decision {
    /// A block of `size` bytes with lifetime `ttl` was added.
    Allocate { size: usize, ttl: isize },
    /// One block was evicted by the policy, if it had one to evict.
    Evict,
}

/// Everything a tick reads and changes: the trend cursor, the generator's
/// register, the blocks, the pool's capacity and its tracker.
pub struct EngineModel {
    pub cursor: usize,
    pub rng: u64,
    pub blocks: Seq<BlockModel>,
    pub capacity: usize,
    pub tracker: Tracker,
}

/// `|a - b|`.
pub open spec fn abs_diff(a: int, b: int) -> int {
    if a >= b {
        a - b
    } else {
        b - a
    }
}

/// Index of the element of `l` closest to `v`; the leftmost among equals.
pub open spec fn closest_index(l: Seq<usize>, v: usize) -> int
    decreases l.len(),
{
    if l.len() <= 1 {
        0
    } else {
        let k = closest_index(l.drop_last(), v);
        if abs_diff(l.last() as int, v as int) < abs_diff(l[k] as int, v as int) {
            l.len() - 1
        } else {
            k
        }
    }
}

/// The trend step drawn from register `x`: the configured step plus a jitter
/// in `[-trend_jitter, trend_jitter)`, at least 1.
pub open spec fn jitter_step(cfg: Config, x: u64) -> int {
    let st = cfg.size_step + uniform_value(0, 2 * cfg.trend_jitter, x) - cfg.trend_jitter;
    if st <= 0 {
        1
    } else {
        st
    }
}

/// The trend cursor after one step of `step`.
pub open spec fn advance_cursor(trend: Trend, c: usize, step: int, lo: usize, hi: usize) -> usize {
    match trend {
        Trend::Sampled => c,
        Trend::Grow => clamp(c + step, lo as int, hi as int) as usize,
        Trend::Shrink => clamp(
            if step > c {
                lo as int
            } else {
                c - step
            },
            lo as int,
            hi as int,
        ) as usize,
        Trend::Saw => if c + step > hi {
            lo
        } else {
            (c + step) as usize
        },
    }
}

/// An untrended size drawn from register `x`; `raw` is what the shaping
/// function gave for a non-uniform distribution.
pub open spec fn sampled_size(cfg: Config, x: u64, raw: usize) -> usize {
    if cfg.distribution == Distribution::Uniform {
        uniform_value(cfg.min_size as int, cfg.max_size as int, x) as usize
    } else {
        clamp(raw as int, cfg.min_size as int, cfg.max_size as int) as usize
    }
}

/// The trend-driven size, the register after it and the new cursor. A
/// stateful trend returns the cursor as it was before it advances.
pub open spec fn trend_size(cfg: Config, c: usize, x: u64, raw: usize) -> (usize, u64, usize) {
    let x1 = xs_advance(x);
    if cfg.size_trend == Trend::Sampled {
        (sampled_size(cfg, x1, raw), xs_advance(x1), c)
    } else {
        (c, x1, advance_cursor(cfg.size_trend, c, jitter_step(cfg, x), cfg.min_size, cfg.max_size))
    }
}

/// The size of a new block, the register after it and the new cursor.
pub open spec fn block_size(cfg: Config, c: usize, x: u64, raw: usize) -> (usize, u64, usize) {
    let l = cfg.size_list@;
    if l.len() == 0 {
        trend_size(cfg, c, x, raw)
    } else if cfg.size_mode == SizeMode::Exact {
        (wchoice_value(l, cfg.size_weights@, x), xs_advance(x), c)
    } else {
        let t = trend_size(cfg, c, x, raw);
        (l[closest_index(l, t.0)], t.1, t.2)
    }
}

/// The lifetime of a new block and the register after it.
pub open spec fn block_ttl(cfg: Config, x: u64) -> (isize, u64) {
    match cfg.ttl_mode {
        TTLMode::Off => (-1isize, x),
        TTLMode::Fixed => (cfg.ttl_fixed as isize, x),
        TTLMode::List => (wchoice_value(cfg.ttl_list@, cfg.ttl_weights@, x) as isize, xs_advance(x)),
    }
}

/// The blocks and tracker after expiry, which runs unless lifetimes are off.
pub open spec fn expired(m: EngineModel, cfg: Config) -> (Seq<BlockModel>, Tracker) {
    if cfg.ttl_mode == TTLMode::Off {
        (m.blocks, m.tracker)
    } else {
        (pruned(m.blocks), pruned_tracker(m.tracker, m.blocks))
    }
}

/// Whether the tick allocates: the pool has room after expiry and the
/// allocation draw is below the threshold. Without room nothing is drawn.
pub open spec fn allocates(m: EngineModel, cfg: Config) -> bool {
    expired(m, cfg).0.len() < m.capacity && draw53(m.rng) < cfg.alloc_threshold
}

/// The register from which a tick's shaping function gets its draw.
pub open spec fn shape_register(m: EngineModel) -> u64 {
    xs_advance(xs_advance(m.rng))
}

/// One tick from `m`, with `raw` the value of the shaping function if the
/// tick calls it.
pub open spec fn tick(m: EngineModel, cfg: Config, raw: usize) -> (EngineModel, Decision) {
    let e = expired(m, cfg);
    let room = e.0.len() < m.capacity;
    let x1 = if room {
        xs_advance(m.rng)
    } else {
        m.rng
    };
    if !allocates(m, cfg) {
        (
            EngineModel {
                cursor: m.cursor,
                rng: evict_rng(cfg.policy, x1),
                blocks: evicted(e.0, cfg.policy, x1),
                capacity: m.capacity,
                tracker: evicted_tracker(e.1, e.0, cfg.policy, x1),
            },
            Decision::Evict,
        )
    } else {
        let sz = block_size(cfg, m.cursor, x1, raw);
        let tl = block_ttl(cfg, sz.1);
        (
            EngineModel {
                cursor: sz.2,
                rng: tl.1,
                blocks: e.0.push(BlockModel { size: sz.0, ttl: tl.0, ttl_org: tl.0 }),
                capacity: m.capacity,
                tracker: e.1.after_add(sz.0),
            },
            Decision::Allocate { size: sz.0, ttl: tl.0 },
        )
    }
}

/// The decisions of `raws.len()` ticks from `m`, the `i`-th tick shaping its
/// draw, if it asks for one, to `raws[i]`.
pub open spec fn run(m: EngineModel, cfg: Config, raws: Seq<usize>) -> Seq<Decision>
    decreases raws.len(),
{
    if raws.len() == 0 {
        Seq::empty()
    } else {
        let t = tick(m, cfg, raws[0]);
        seq![t.1] + run(t.0, cfg, raws.drop_first())
    }
}

/// The model after `raws.len()` ticks from `m`.
pub open spec fn run_model(m: EngineModel, cfg: Config, raws: Seq<usize>) -> EngineModel
    decreases raws.len(),
{
    if raws.len() == 0 {
        m
    } else {
        run_model(tick(m, cfg, raws[0]).0, cfg, raws.drop_first())
    }
}

/// Where the cursor of a stateful trend stays: between the size bounds.
pub open spec fn cursor_ok(cfg: Config, c: usize) -> bool {
    cfg.size_trend != Trend::Sampled ==> cfg.min_size <= c <= cfg.max_size
}

/// The starting cursor of a trend.
pub open spec fn initial_cursor(cfg: Config) -> usize {
    match cfg.size_trend {
        Trend::Sampled => 0,
        Trend::Grow => cfg.min_size,
        Trend::Shrink => cfg.max_size,
        Trend::Saw => cfg.min_size,
    }
}

/// A tick never lets the pool hold more blocks than its capacity, and keeps
/// the trend cursor between the size bounds.
pub proof fn lemma_tick_within_capacity(m: EngineModel, cfg: Config, raw: usize)
    requires
        cfg.wf(),
        m.blocks.len() <= m.capacity,
        cursor_ok(cfg, m.cursor),
    ensures
        tick(m, cfg, raw).0.blocks.len() <= m.capacity,
        tick(m, cfg, raw).0.capacity == m.capacity,
        cursor_ok(cfg, tick(m, cfg, raw).0.cursor),
{
    crate::pool::lemma_pruned_alive(m.blocks);
    lemma_uniform_bounds(0, m.blocks.len() as int, xs_advance(m.rng));
    lemma_uniform_bounds(0, m.blocks.len() as int, m.rng);
    lemma_uniform_bounds(0, expired(m, cfg).0.len() as int, m.rng);
    lemma_uniform_bounds(0, expired(m, cfg).0.len() as int, xs_advance(m.rng));
    crate::pool::lemma_evict_len(expired(m, cfg).0, cfg.policy, m.rng);
    crate::pool::lemma_evict_len(expired(m, cfg).0, cfg.policy, xs_advance(m.rng));
}

/// Every tick of every run keeps the pool within its capacity.
pub proof fn lemma_run_within_capacity(m: EngineModel, cfg: Config, raws: Seq<usize>)
    requires
        cfg.wf(),
        m.blocks.len() <= m.capacity,
        cursor_ok(cfg, m.cursor),
    ensures
        run_model(m, cfg, raws).blocks.len() <= m.capacity,
        run_model(m, cfg, raws).capacity == m.capacity,
    decreases raws.len(),
{
    if raws.len() > 0 {
        lemma_tick_within_capacity(m, cfg, raws[0]);
        lemma_run_within_capacity(tick(m, cfg, raws[0]).0, cfg, raws.drop_first());
    }
}

/// Equal starting models and configurations give equal decisions and equal
/// final models, tick for tick.
pub proof fn lemma_run_deterministic(
    m1: EngineModel,
    m2: EngineModel,
    cfg: Config,
    raws: Seq<usize>,
)
    requires
        m1 == m2,
    ensures
        run(m1, cfg, raws) == run(m2, cfg, raws),
        run_model(m1, cfg, raws) == run_model(m2, cfg, raws),
{
}

/// With room for one block, allocation certain, `Fifo` and lifetimes off,
/// ticks alternate: an empty pool gains a block, and a pool holding one loses
/// it, so the pool is full after every other tick.
pub proof fn lemma_single_slot_alternates(m: EngineModel, cfg: Config, raw: usize)
    requires
        cfg.wf(),
        m.capacity == 1,
        m.blocks.len() <= 1,
        cfg.alloc_threshold == UNIT,
        cfg.policy == Policy::Fifo,
        cfg.ttl_mode == TTLMode::Off,
    ensures
        m.blocks.len() == 0 ==> tick(m, cfg, raw).0.blocks.len() == 1 && tick(m, cfg, raw).1
            != Decision::Evict,
        m.blocks.len() == 1 ==> tick(m, cfg, raw).0.blocks.len() == 0 && tick(m, cfg, raw).1
            == Decision::Evict,
{
    crate::random::lemma_draw53_below_unit(m.rng);
}

/// Under `Never` a tick removes no block but by expiry: the pool after the
/// tick holds at least the blocks that survived expiry.
pub proof fn lemma_never_only_expiry_removes(m: EngineModel, cfg: Config, raw: usize)
    requires
        cfg.policy == Policy::Never,
    ensures
        tick(m, cfg, raw).0.blocks.len() >= expired(m, cfg).0.len(),
        cfg.ttl_mode == TTLMode::Off ==> tick(m, cfg, raw).0.blocks.len() >= m.blocks.len(),
{
}

/// Without jitter the trend step is the configured step, whatever the
/// register.
pub proof fn lemma_no_jitter_step(cfg: Config, x: u64)
    requires
        cfg.trend_jitter == 0,
        cfg.size_step > 0,
    ensures
        jitter_step(cfg, x) == cfg.size_step,
{
    lemma_uniform_bounds(0, 0, x);
}

/// `Grow` from 0 up to 10 by 5 without jitter yields 0, 5, 10, 10, ...:
/// each size is the cursor before it advances, and the cursor stops at the
/// maximum.
pub proof fn lemma_grow_by_five(cfg: Config, x: u64, raw: usize)
    requires
        cfg.size_trend == Trend::Grow,
        cfg.min_size == 0,
        cfg.max_size == 10,
        cfg.size_step == 5,
        cfg.trend_jitter == 0,
    ensures
        trend_size(cfg, 0, x, raw).0 == 0 && trend_size(cfg, 0, x, raw).2 == 5,
        trend_size(cfg, 5, x, raw).0 == 5 && trend_size(cfg, 5, x, raw).2 == 10,
        trend_size(cfg, 10, x, raw).0 == 10 && trend_size(cfg, 10, x, raw).2 == 10,
{
    lemma_no_jitter_step(cfg, x);
}

/// `Saw` from 0 up to 10 by 7 without jitter yields 0, 7, 0, 7, ...: past the
/// maximum the cursor restarts at the minimum.
pub proof fn lemma_saw_by_seven(cfg: Config, x: u64, raw: usize)
    requires
        cfg.size_trend == Trend::Saw,
        cfg.min_size == 0,
        cfg.max_size == 10,
        cfg.size_step == 7,
        cfg.trend_jitter == 0,
    ensures
        trend_size(cfg, 0, x, raw).0 == 0 && trend_size(cfg, 0, x, raw).2 == 7,
        trend_size(cfg, 7, x, raw).0 == 7 && trend_size(cfg, 7, x, raw).2 == 0,
{
    lemma_no_jitter_step(cfg, x);
}

/// The per-tick orchestration of a run: it owns the generator, the pool and
/// the trend cursor.
pub struct Actions {
    cur_block_size: usize,
    config: Config,
    rng: Random,
    pool: Pool,
}

impl Actions {
    /// The engine's state as a model.
    pub closed spec fn model(&self) -> EngineModel {
        EngineModel {
            cursor: self.cur_block_size,
            rng: self.rng@,
            blocks: self.pool@,
            capacity: self.pool.spec_capacity(),
            tracker: self.pool.spec_tracker(),
        }
    }

    /// The configuration of the run.
    pub closed spec fn spec_config(&self) -> Config {
        self.config
    }

    /// A valid configuration, a pool within its capacity and a cursor
    /// between the size bounds.
    pub open spec fn wf(&self) -> bool {
        &&& self.spec_config().wf()
        &&& self.model().blocks.len() <= self.model().capacity
        &&& cursor_ok(self.spec_config(), self.model().cursor)
    }

    /// An engine over `rng` and `pool`, with the trend cursor at its start:
    /// 0 for no trend, the minimum for `Grow` and `Saw`, the maximum for
    /// `Shrink`.
    pub fn new(config: Config, rng: Random, pool: Pool) -> (r: Self)
        requires
            config.wf(),
            pool.wf(),
        ensures
            r.wf(),
            r.spec_config() == config,
            r.model() == (EngineModel {
                cursor: initial_cursor(config),
                rng: rng@,
                blocks: pool@,
                capacity: pool.spec_capacity(),
                tracker: pool.spec_tracker(),
            }),
    {
        let cur_block_size = match config.size_trend {
            Trend::Sampled => 0usize,
            Trend::Grow => config.min_size,
            Trend::Shrink => config.max_size,
            Trend::Saw => config.min_size,
        };
        Actions { cur_block_size, config, rng, pool }
    }

    /// The pool.
    pub fn pool(&self) -> (r: &Pool)
        ensures
            r@ == self.model().blocks,
            r.spec_capacity() == self.model().capacity,
            r.spec_tracker() == self.model().tracker,
    {
        &self.pool
    }

    /// The tracker of the pool.
    pub fn tracker(&self) -> (r: &Tracker)
        ensures
            *r == self.model().tracker,
    {
        self.pool.tracker()
    }

    /// Ends the run: destroys every block still in the pool, first inserted
    /// first, and hands back the tracker.
    pub fn finish(self) -> (r: Tracker)
        ensures
            r == crate::pool::released_tracker(self.model().tracker, self.model().blocks),
    {
        let mut pool = self.pool;
        pool.clear();
        *pool.tracker()
    }

    /// Replaces the tracker's memory figures with a fresh reading.
    pub fn set_system_stats(&mut self, stats: SystemMemoryStats)
        ensures
            final(self).spec_config() == old(self).spec_config(),
            final(self).model() == (EngineModel {
                tracker: Tracker { system_stats: stats, ..old(self).model().tracker },
                ..old(self).model()
            }),
    {
        self.pool.set_system_stats(stats);
    }

    /// One tick: expiry unless lifetimes are off, then either an eviction
    /// by the policy or a new block with a size and a lifetime. `shape`
    /// turns a 53-bit draw and the size bounds into an untrended non-uniform
    /// size; the engine clamps what it returns.
    pub fn block_action<F: Fn(u64, usize, usize) -> usize>(&mut self, shape: &F) -> (r: Decision)
        requires
            old(self).wf(),
            forall|b: u64, lo: usize, hi: usize| shape.requires((b, lo, hi)),
        ensures
            final(self).wf(),
            final(self).spec_config() == old(self).spec_config(),
            exists|raw: usize|
                {
                    &&& (allocates(old(self).model(), old(self).spec_config())
                        && old(self).spec_config().uses_shape()) ==> shape.ensures(
                        (
                            draw53(shape_register(old(self).model())),
                            old(self).spec_config().min_size,
                            old(self).spec_config().max_size,
                        ),
                        raw,
                    )
                    &&& tick(old(self).model(), old(self).spec_config(), raw) == (final(self).model(), r)
                },
    {
        let ghost m = self.model();
        let ghost cfg = self.config;
        proof {
            lemma_tick_within_capacity(m, cfg, 0);
        }
        match self.config.ttl_mode {
            TTLMode::Off => {},
            _ => self.pool.update_and_prune(),
        }
        assert(self.pool@ == expired(m, cfg).0);
        let should_alloc = self.should_alloc();
        if !should_alloc {
            self.pool.del_block(self.config.policy, &mut self.rng);
            assert(tick(m, cfg, 0) == (self.model(), Decision::Evict));
            Decision::Evict
        } else {
            let ghost x1 = self.rng@;
            let size = self.get_block_size(shape);
            let ghost raw = choose|raw: usize|
                {
                    &&& cfg.uses_shape() ==> shape.ensures(
                        (draw53(xs_advance(x1)), cfg.min_size, cfg.max_size),
                        raw,
                    )
                    &&& block_size(cfg, m.cursor, x1, raw) == (size, self.rng@, self.cur_block_size)
                };
            let ttl = self.get_block_ttl();
            self.pool.add_block_with_ttl(size, ttl);
            proof {
                lemma_tick_within_capacity(m, cfg, raw);
            }
            assert(tick(m, cfg, raw) == (self.model(), Decision::Allocate { size, ttl }));
            Decision::Allocate { size, ttl }
        }
    }

    fn should_alloc(&mut self) -> (r: bool)
        requires
            old(self).pool.wf(),
        ensures
            final(self).pool == old(self).pool,
            final(self).cur_block_size == old(self).cur_block_size,
            final(self).config == old(self).config,
            r == (old(self).pool@.len() < old(self).pool.spec_capacity() && draw53(old(self).rng@)
                < old(self).config.alloc_threshold),
            final(self).rng@ == if old(self).pool@.len() < old(self).pool.spec_capacity() {
                xs_advance(old(self).rng@)
            } else {
                old(self).rng@
            },
    {
        if self.pool.count() < self.pool.capacity() {
            self.rng.uniform01_bits() < self.config.alloc_threshold
        } else {
            false
        }
    }

    fn trend_block_size<F: Fn(u64, usize, usize) -> usize>(&mut self, shape: &F) -> (r: usize)
        requires
            old(self).config.wf(),
            cursor_ok(old(self).config, old(self).cur_block_size),
            forall|b: u64, lo: usize, hi: usize| shape.requires((b, lo, hi)),
        ensures
            final(self).pool == old(self).pool,
            final(self).config == old(self).config,
            cursor_ok(old(self).config, final(self).cur_block_size),
            exists|raw: usize|
                {
                    &&& old(self).config.uses_shape() ==> shape.ensures(
                        (
                            draw53(xs_advance(old(self).rng@)),
                            old(self).config.min_size,
                            old(self).config.max_size,
                        ),
                        raw,
                    )
                    &&& trend_size(old(self).config, old(self).cur_block_size, old(self).rng@, raw)
                        == (r, final(self).rng@, final(self).cur_block_size)
                },
    {
        let ghost cfg = self.config;
        let ghost x0 = self.rng@;
        let min = self.config.min_size;
        let max = self.config.max_size;
        let jit = self.config.trend_jitter;
        let u = self.rng.uniform(0, jit * 2);
        let base = self.config.size_step + u;
        let step: usize = if base <= jit {
            1
        } else {
            base - jit
        };
        assert(step == jitter_step(cfg, x0));
        let cur = self.cur_block_size;
        match self.config.size_trend {
            Trend::Sampled => {
                let ghost x1 = self.rng@;
                let r = self.rng.next(min, max, self.config.distribution, shape);
                if self.config.distribution == Distribution::Uniform {
                    assert(trend_size(cfg, cur, x0, 0) == (r, self.rng@, self.cur_block_size));
                } else {
                    let ghost raw = choose|raw: usize|
                        shape.ensures((draw53(x1), min, max), raw) && r == clamp(
                            raw as int,
                            min as int,
                            max as int,
                        );
                    assert(trend_size(cfg, cur, x0, raw) == (r, self.rng@, self.cur_block_size));
                }
                r
            },
            Trend::Grow => {
                let next = if step > max - cur {
                    max
                } else {
                    cur + step
                };
                self.cur_block_size = clamp_size(next, min, max);
                assert(trend_size(cfg, cur, x0, 0) == (cur, self.rng@, self.cur_block_size));
                cur
            },
            Trend::Shrink => {
                let next = if step > cur {
                    min
                } else {
                    cur - step
                };
                self.cur_block_size = clamp_size(next, min, max);
                assert(trend_size(cfg, cur, x0, 0) == (cur, self.rng@, self.cur_block_size));
                cur
            },
            Trend::Saw => {
                let next = if step > max - cur {
                    min
                } else {
                    cur + step
                };
                self.cur_block_size = next;
                assert(trend_size(cfg, cur, x0, 0) == (cur, self.rng@, self.cur_block_size));
                cur
            },
        }
    }

    /// The element of `list` closest to `size`, the leftmost among equals;
    /// `size` itself when the list is empty.
    pub fn get_closest(list: &Vec<usize>, size: usize) -> (r: usize)
        ensures
            list@.len() == 0 ==> r == size,
            list@.len() > 0 ==> r == list@[closest_index(list@, size)],
            forall|j: int|
                0 <= j < list@.len() ==> abs_diff(r as int, size as int) <= abs_diff(
                    #[trigger] list@[j] as int,
                    size as int,
                ),
    {
        proof {
            if list@.len() > 0 {
                lemma_closest_is_leftmost_nearest(list@, size);
            }
        }
        if list.len() == 0 {
            return size;
        }
        let mut best: usize = 0;
        let mut best_diff: usize = abs_diff_exec(list[0], size);
        let mut i: usize = 1;
        while i < list.len()
            invariant
                1 <= i <= list@.len(),
                best == closest_index(list@.take(i as int), size),
                best < i,
                best_diff == abs_diff(list@[best as int] as int, size as int),
            decreases list@.len() - i,
        {
            proof {
                crate::pool::lemma_take_last(list@, i as int);
                lemma_closest_index_bounds(list@.take(i as int), size);
            }
            let d = abs_diff_exec(list[i], size);
            if d < best_diff {
                best = i;
                best_diff = d;
            }
            i = i + 1;
        }
        assert(list@.take(i as int) =~= list@);
        list[best]
    }

    fn get_block_size<F: Fn(u64, usize, usize) -> usize>(&mut self, shape: &F) -> (r: usize)
        requires
            old(self).config.wf(),
            cursor_ok(old(self).config, old(self).cur_block_size),
            forall|b: u64, lo: usize, hi: usize| shape.requires((b, lo, hi)),
        ensures
            final(self).pool == old(self).pool,
            final(self).config == old(self).config,
            cursor_ok(old(self).config, final(self).cur_block_size),
            exists|raw: usize|
                {
                    &&& old(self).config.uses_shape() ==> shape.ensures(
                        (
                            draw53(xs_advance(old(self).rng@)),
                            old(self).config.min_size,
                            old(self).config.max_size,
                        ),
                        raw,
                    )
                    &&& block_size(old(self).config, old(self).cur_block_size, old(self).rng@, raw)
                        == (r, final(self).rng@, final(self).cur_block_size)
                },
    {
        let ghost cfg = self.config;
        let ghost x0 = self.rng@;
        let ghost c0 = self.cur_block_size;
        if self.config.size_list.len() == 0 {
            let r = self.trend_block_size(shape);
            let ghost raw = choose|raw: usize|
                {
                    &&& cfg.uses_shape() ==> shape.ensures(
                        (draw53(xs_advance(x0)), cfg.min_size, cfg.max_size),
                        raw,
                    )
                    &&& trend_size(cfg, c0, x0, raw) == (r, self.rng@, self.cur_block_size)
                };
            assert(block_size(cfg, c0, x0, raw) == (r, self.rng@, self.cur_block_size));
            return r;
        }
        match self.config.size_mode {
            SizeMode::Exact => {
                let r = self.rng.wchoice(&self.config.size_list, &self.config.size_weights);
                assert(block_size(cfg, c0, x0, 0) == (r, self.rng@, self.cur_block_size));
                r
            },
            SizeMode::Nearest => {
                let t = self.trend_block_size(shape);
                let r = Self::get_closest(&self.config.size_list, t);
                let ghost raw = choose|raw: usize|
                    {
                        &&& cfg.uses_shape() ==> shape.ensures(
                            (draw53(xs_advance(x0)), cfg.min_size, cfg.max_size),
                            raw,
                        )
                        &&& trend_size(cfg, c0, x0, raw) == (t, self.rng@, self.cur_block_size)
                    };
                assert(block_size(cfg, c0, x0, raw) == (r, self.rng@, self.cur_block_size));
                r
            },
        }
    }

    fn get_block_ttl(&mut self) -> (r: isize)
        requires
            old(self).config.wf(),
        ensures
            final(self).pool == old(self).pool,
            final(self).config == old(self).config,
            final(self).cur_block_size == old(self).cur_block_size,
            block_ttl(old(self).config, old(self).rng@) == (r, final(self).rng@),
    {
        match self.config.ttl_mode {
            TTLMode::Off => -1,
            TTLMode::Fixed => self.config.ttl_fixed as isize,
            TTLMode::List => {
                proof {
                    lemma_wchoice_index_bounds(
                        self.config.ttl_list@.len() as int,
                        self.config.ttl_weights@,
                        self.rng@,
                    );
                    let k = wchoice_index(
                        self.config.ttl_list@.len() as int,
                        self.config.ttl_weights@,
                        self.rng@,
                    );
                    assert(self.config.ttl_list@[k] <= isize::MAX);
                }
                let v = self.rng.wchoice(&self.config.ttl_list, &self.config.ttl_weights);
                v as isize
            },
        }
    }
}

/// The snapped-to index lies in the list.
pub proof fn lemma_closest_index_bounds(l: Seq<usize>, v: usize)
    requires
        l.len() > 0,
    ensures
        0 <= closest_index(l, v) < l.len(),
    decreases l.len(),
{
    if l.len() > 1 {
        lemma_closest_index_bounds(l.drop_last(), v);
    }
}

/// The element that `Nearest` snaps to is at least as close as every other,
/// and strictly closer than every element before it.
pub proof fn lemma_closest_is_leftmost_nearest(l: Seq<usize>, v: usize)
    requires
        l.len() > 0,
    ensures
        forall|j: int|
            0 <= j < l.len() ==> abs_diff(l[closest_index(l, v)] as int, v as int) <= abs_diff(
                #[trigger] l[j] as int,
                v as int,
            ),
        forall|j: int|
            0 <= j < closest_index(l, v) ==> abs_diff(l[closest_index(l, v)] as int, v as int)
                < abs_diff(#[trigger] l[j] as int, v as int),
    decreases l.len(),
{
    lemma_closest_index_bounds(l, v);
    if l.len() > 1 {
        let t = l.drop_last();
        lemma_closest_is_leftmost_nearest(t, v);
        lemma_closest_index_bounds(t, v);
        assert(forall|j: int| 0 <= j < t.len() ==> t[j] == l[j]);
    }
}

fn abs_diff_exec(a: usize, b: usize) -> (r: usize)
    ensures
        r == abs_diff(a as int, b as int),
{
    if a >= b {
        a - b
    } else {
        b - a
    }
}

fn clamp_size(v: usize, lo: usize, hi: usize) -> (r: usize)
    requires
        lo <= hi,
    ensures
        r == clamp(v as int, lo as int, hi as int),
{
    if v < lo {
        lo
    } else if v > hi {
        hi
    } else {
        v
    }
}

} // verus!
