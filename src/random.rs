//! A seedable xorshift64* generator and the sampling primitives built on it.
use vstd::prelude::*;
use crate::options::Distribution;
use vstd::arithmetic::div_mod::lemma_multiply_divide_lt;
use vstd::wrapping::u64_specs::wrapping_add;
use vstd::wrapping::u64_specs::wrapping_mul;

verus! {

/// Register of a generator built by `Random::new`.
pub const DEFAULT_STATE: u64 = 0x853c49e6748fea9b;

/// Golden-ratio increment of the seed mixer; also the register used when
/// mixing a seed gives zero.
pub const GOLDEN_GAMMA: u64 = 0x9e3779b97f4a7c15;

/// First multiplier of the seed mixer.
pub const MIX_MULT_1: u64 = 0xbf58476d1ce4e5b9;

/// Second multiplier of the seed mixer.
pub const MIX_MULT_2: u64 = 0x94d049bb133111eb;

/// Output multiplier of xorshift64*.
pub const STAR_MULT: u64 = 2685821657736338717;

/// 2^53: one past the largest 53-bit draw.
pub const UNIT: u64 = 0x20_0000_0000_0000;

/// The splitmix64 finaliser applied to a seed.
pub open spec fn splitmix(x: u64) -> u64 {
    let z0 = wrapping_add(x, GOLDEN_GAMMA);
    let z1 = wrapping_mul(z0 ^ (z0 >> 30u64), MIX_MULT_1);
    let z2 = wrapping_mul(z1 ^ (z1 >> 27u64), MIX_MULT_2);
    z2 ^ (z2 >> 31u64)
}

/// The register of a generator seeded with a nonzero `seed`.
pub open spec fn seed_state(seed: u64) -> u64 {
    if splitmix(seed) == 0 {
        GOLDEN_GAMMA
    } else {
        splitmix(seed)
    }
}

/// One xorshift step of the register.
pub open spec fn xs_advance(x: u64) -> u64 {
    let a = x ^ (x >> 12u64);
    let b = a ^ (a << 25u64);
    b ^ (b >> 27u64)
}

/// The 64-bit output of one step taken from register `x`.
pub open spec fn xs_output(x: u64) -> u64 {
    wrapping_mul(xs_advance(x), STAR_MULT)
}

/// The top 53 bits of that output: the draw behind `uniform01`, which is
/// this value times 2^-53.
pub open spec fn draw53(x: u64) -> u64 {
    xs_output(x) >> 11u64
}

/// `lo + floor((hi - lo) * u)` where `u` is the unit-interval draw taken from
/// register `x`.
pub open spec fn uniform_value(lo: int, hi: int, x: u64) -> int {
    lo + (hi - lo) * draw53(x) / (UNIT as int)
}

/// `v` clamped into `[lo, hi]`.
pub open spec fn clamp(v: int, lo: int, hi: int) -> int {
    if v < lo {
        lo
    } else if v > hi {
        hi
    } else {
        v
    }
}

/// Sum of a sequence of weights.
pub open spec fn wsum(w: Seq<usize>) -> int
    decreases w.len(),
{
    if w.len() == 0 {
        0
    } else {
        wsum(w.drop_last()) + w.last()
    }
}

/// The first index at or after `i` whose cumulative weight `wsum(w.take(k + 1))`
/// is strictly greater than `vote`; 0 when there is none.
pub open spec fn first_exceeding(w: Seq<usize>, vote: int, i: int) -> int
    decreases w.len() - i,
{
    if i < 0 || i >= w.len() {
        0
    } else if vote < wsum(w.take(i + 1)) {
        i
    } else {
        first_exceeding(w, vote, i + 1)
    }
}

/// The index that a weighted choice over `len` elements picks from register
/// `x`: uniform without weights, else the first whose cumulative weight
/// exceeds a uniform draw in `[0, sum)`.
pub open spec fn wchoice_index(len: int, w: Seq<usize>, x: u64) -> int {
    if w.len() == 0 {
        uniform_value(0, len, x)
    } else {
        first_exceeding(w, uniform_value(0, wsum(w), x), 0)
    }
}

/// The element that a weighted choice over `l` picks from register `x`.
pub open spec fn wchoice_value(l: Seq<usize>, w: Seq<usize>, x: u64) -> usize {
    l[wchoice_index(l.len() as int, w, x)]
}

/// The weighted pick over non-empty weights is one of their indices.
pub proof fn lemma_first_exceeding_bounds(w: Seq<usize>, vote: int, i: int)
    requires
        w.len() > 0,
        i >= 0,
    ensures
        0 <= first_exceeding(w, vote, i) < w.len(),
    decreases w.len() - i,
{
    if i < w.len() && vote >= wsum(w.take(i + 1)) {
        lemma_first_exceeding_bounds(w, vote, i + 1);
    }
}

/// A weighted choice picks a valid index.
pub proof fn lemma_wchoice_index_bounds(len: int, w: Seq<usize>, x: u64)
    requires
        len > 0,
        w.len() == 0 || w.len() == len,
    ensures
        0 <= wchoice_index(len, w, x) < len,
{
    lemma_uniform_bounds(0, len, x);
    if w.len() > 0 {
        lemma_first_exceeding_bounds(w, uniform_value(0, wsum(w), x), 0);
    }
}

/// With weights that are zero but for the first, a weighted choice always
/// picks the first element, whatever the register.
pub proof fn lemma_wchoice_first_only(l: Seq<usize>, w: Seq<usize>, x: u64)
    requires
        l.len() > 0,
        w.len() == l.len(),
        w[0] > 0,
        forall|i: int| 1 <= i < w.len() ==> #[trigger] w[i] == 0,
    ensures
        wchoice_value(l, w, x) == l[0],
{
    lemma_wsum_nonneg(w);
    lemma_wsum_take_le(w, 1);
    lemma_wsum_take_step(w, 0);
    assert(w.take(0) =~= Seq::<usize>::empty());
    let vote = uniform_value(0, wsum(w), x);
    assert(wsum(w) == w[0]) by {
        lemma_wsum_only_first(w, w.len() as int);
        assert(w.take(w.len() as int) =~= w);
    }
    lemma_uniform_bounds(0, wsum(w), x);
    assert(vote < wsum(w.take(1)));
}

proof fn lemma_wsum_only_first(w: Seq<usize>, i: int)
    requires
        1 <= i <= w.len(),
        forall|k: int| 1 <= k < w.len() ==> #[trigger] w[k] == 0,
    ensures
        wsum(w.take(i)) == w[0],
    decreases i,
{
    lemma_wsum_take_step(w, i - 1);
    assert(w.take(0) =~= Seq::<usize>::empty());
    if i > 1 {
        lemma_wsum_only_first(w, i - 1);
    }
}

/// Without weights, a weighted choice is the uniform choice.
pub proof fn lemma_wchoice_unweighted(l: Seq<usize>, x: u64)
    ensures
        wchoice_value(l, Seq::<usize>::empty(), x) == l[uniform_value(0, l.len() as int, x)],
{
}

/// Extending a prefix by one element adds that element's weight.
pub proof fn lemma_wsum_take_step(w: Seq<usize>, i: int)
    requires
        0 <= i < w.len(),
    ensures
        wsum(w.take(i + 1)) == wsum(w.take(i)) + w[i],
{
    assert(w.take(i + 1).drop_last() =~= w.take(i));
}

/// A prefix weighs no more than the whole.
pub proof fn lemma_wsum_take_le(w: Seq<usize>, i: int)
    requires
        0 <= i <= w.len(),
    ensures
        0 <= wsum(w.take(i)) <= wsum(w),
    decreases w.len() - i,
{
    if i == w.len() {
        assert(w.take(i) =~= w);
        lemma_wsum_nonneg(w);
    } else {
        lemma_wsum_take_step(w, i);
        lemma_wsum_take_le(w, i + 1);
        lemma_wsum_nonneg(w.take(i));
    }
}

/// Weights sum to a non-negative total.
pub proof fn lemma_wsum_nonneg(w: Seq<usize>)
    ensures
        wsum(w) >= 0,
    decreases w.len(),
{
    if w.len() > 0 {
        lemma_wsum_nonneg(w.drop_last());
    }
}

/// Every 53-bit draw is below 2^53, so the unit-interval value is below 1.
pub proof fn lemma_draw53_below_unit(x: u64)
    ensures
        draw53(x) < UNIT,
{
    let o = xs_output(x);
    assert(o >> 11u64 < 0x20_0000_0000_0000u64) by (bit_vector);
}

/// A draw of `uniform(lo, hi)` lies in `[lo, hi)`, and is `lo` when the
/// bounds coincide.
pub proof fn lemma_uniform_bounds(lo: int, hi: int, x: u64)
    requires
        lo <= hi,
    ensures
        lo <= uniform_value(lo, hi, x),
        lo < hi ==> uniform_value(lo, hi, x) < hi,
        lo == hi ==> uniform_value(lo, hi, x) == lo,
{
    let span = hi - lo;
    let bits = draw53(x) as int;
    lemma_draw53_below_unit(x);
    assert(0 <= span * bits) by (nonlinear_arith)
        requires
            span >= 0,
            bits >= 0,
    ;
    if span > 0 {
        assert(span * bits < UNIT * span) by (nonlinear_arith)
            requires
                span > 0,
                0 <= bits < UNIT,
        ;
        lemma_multiply_divide_lt(span * bits, UNIT as int, span);
    } else {
        assert(span * bits == 0) by (nonlinear_arith)
            requires
                span == 0,
        ;
    }
}

/// A reproducible random source: one 64-bit register, advanced by every draw.
#[derive(Debug)]
pub struct Random(u64);

impl View for Random {
    type V = u64;

    closed spec fn view(&self) -> u64 {
        self.0
    }
}

impl Random {
    /// A generator with a fixed default register.
    pub fn new() -> (r: Self)
        ensures
            r@ == DEFAULT_STATE,
    {
        Random(DEFAULT_STATE)
    }

    /// A generator whose register is the mixed `seed`; a zero seed is
    /// replaced by one taken from the clock.
    pub fn seeded(seed: u64) -> (r: Self)
        ensures
            seed != 0 ==> r@ == seed_state(seed),
            r@ != 0,
    {
        let s = if seed == 0 {
            clock_seed()
        } else {
            seed
        };
        let mut state = Self::splitmix64(s);
        if state == 0 {
            state = GOLDEN_GAMMA;
        }
        Random(state)
    }

    fn splitmix64(x: u64) -> (r: u64)
        ensures
            r == splitmix(x),
    {
        let z = x.wrapping_add(GOLDEN_GAMMA);
        let z = (z ^ (z >> 30)).wrapping_mul(MIX_MULT_1);
        let z = (z ^ (z >> 27)).wrapping_mul(MIX_MULT_2);
        z ^ (z >> 31)
    }

    fn xs64star(&mut self) -> (r: u64)
        ensures
            final(self)@ == xs_advance(old(self)@),
            r == xs_output(old(self)@),
    {
        let mut x = self.0;
        x ^= x >> 12;
        x ^= x << 25;
        x ^= x >> 27;
        self.0 = x;
        x.wrapping_mul(STAR_MULT)
    }

    /// The 53-bit draw `k` behind the unit-interval value `k * 2^-53`.
    pub fn uniform01_bits(&mut self) -> (r: u64)
        ensures
            final(self)@ == xs_advance(old(self)@),
            r == draw53(old(self)@),
            r < UNIT,
    {
        let o = self.xs64star();
        assert(o >> 11u64 < 0x20_0000_0000_0000u64) by (bit_vector);
        o >> 11
    }

    /// An integer in `[min, max)`: `min + floor((max - min) * u)`.
    pub fn uniform(&mut self, min: usize, max: usize) -> (r: usize)
        requires
            min <= max,
        ensures
            r == uniform_value(min as int, max as int, old(self)@),
            final(self)@ == xs_advance(old(self)@),
            min <= r,
            min < max ==> r < max,
            min == max ==> r == min,
    {
        proof {
            lemma_uniform_bounds(min as int, max as int, self@);
        }
        let bits = self.uniform01_bits();
        let span = (max - min) as u128;
        assert(span * (bits as u128) <= 0xffff_ffff_ffff_ffffu128 * 0x20_0000_0000_0000u128)
            by (nonlinear_arith)
            requires
                span <= 0xffff_ffff_ffff_ffffu128,
                bits < 0x20_0000_0000_0000u64,
        ;
        let off = (span * (bits as u128)) / (UNIT as u128);
        min + off as usize
    }

    /// A fair coin: true iff `uniform(0, 2)` is odd.
    pub fn coin_flip(&mut self) -> (r: bool)
        ensures
            r == (uniform_value(0, 2, old(self)@) % 2 == 1),
            final(self)@ == xs_advance(old(self)@),
    {
        (self.uniform(0, 2) % 2) == 1
    }

    /// A size drawn between `min` and `max` by `distribution`. A uniform draw
    /// is `uniform(min, max)`. For the other two, `shape` maps the 53-bit draw
    /// and the bounds to the truncated inverse-CDF value, which is then
    /// clamped into `[min, max]`.
    pub fn next<F: Fn(u64, usize, usize) -> usize>(
        &mut self,
        min: usize,
        max: usize,
        distribution: Distribution,
        shape: &F,
    ) -> (r: usize)
        requires
            min <= max,
            forall|b: u64, lo: usize, hi: usize| shape.requires((b, lo, hi)),
        ensures
            final(self)@ == xs_advance(old(self)@),
            distribution == Distribution::Uniform ==> r == uniform_value(
                min as int,
                max as int,
                old(self)@,
            ),
            distribution != Distribution::Uniform ==> exists|raw: usize|
                shape.ensures((draw53(old(self)@), min, max), raw) && r == clamp(
                    raw as int,
                    min as int,
                    max as int,
                ),
            min <= r <= max,
    {
        match distribution {
            Distribution::Uniform => self.uniform(min, max),
            _ => {
                let bits = self.uniform01_bits();
                let raw = shape(bits, min, max);
                let r = if raw < min {
                    min
                } else if raw > max {
                    max
                } else {
                    raw
                };
                assert(shape.ensures((bits, min, max), raw) && r == clamp(
                    raw as int,
                    min as int,
                    max as int,
                ));
                r
            },
        }
    }

    /// A uniformly chosen element of `l`.
    pub fn choice(&mut self, l: &Vec<usize>) -> (r: usize)
        requires
            l.len() > 0,
        ensures
            r == l@[uniform_value(0, l.len() as int, old(self)@)],
            final(self)@ == xs_advance(old(self)@),
    {
        let idx = self.uniform(0, l.len());
        l[idx]
    }

    /// An element of `l` chosen with probability proportional to its weight;
    /// without weights, a uniform choice. The element picked is the first
    /// whose cumulative weight exceeds a uniform draw in `[0, sum)`.
    pub fn wchoice(&mut self, l: &Vec<usize>, weights: &Vec<usize>) -> (r: usize)
        requires
            l.len() > 0,
            weights.len() == 0 || weights.len() == l.len(),
            wsum(weights@) <= usize::MAX,
        ensures
            r == wchoice_value(l@, weights@, old(self)@),
            final(self)@ == xs_advance(old(self)@),
    {
        if weights.len() == 0 {
            return self.choice(l);
        }
        let total = sum_weights(weights);
        let vote = self.uniform(0, total);
        let mut acc: usize = 0;
        let mut idx: usize = 0;
        let mut i: usize = 0;
        let ghost w = weights@;
        while i < weights.len()
            invariant_except_break
                idx == 0,
                first_exceeding(w, vote as int, 0) == first_exceeding(w, vote as int, i as int),
                acc == wsum(w.take(i as int)),
            invariant
                w == weights@,
                w.len() == l.len(),
                w.len() > 0,
                total == wsum(w),
                wsum(w) <= usize::MAX,
                0 <= i <= w.len(),
            ensures
                idx < w.len(),
                idx == first_exceeding(w, vote as int, 0),
            decreases w.len() - i,
        {
            proof {
                lemma_wsum_take_step(w, i as int);
                lemma_wsum_take_le(w, i as int + 1);
            }
            acc = acc + weights[i];
            if vote < acc {
                idx = i;
                break;
            }
            i = i + 1;
        }
        l[idx]
    }
}

/// Sum of the weights.
fn sum_weights(w: &Vec<usize>) -> (r: usize)
    requires
        wsum(w@) <= usize::MAX,
    ensures
        r == wsum(w@),
{
    let mut acc: usize = 0;
    let mut i: usize = 0;
    while i < w.len()
        invariant
            wsum(w@) <= usize::MAX,
            0 <= i <= w.len(),
            acc == wsum(w@.take(i as int)),
        decreases w.len() - i,
    {
        proof {
            lemma_wsum_take_step(w@, i as int);
            lemma_wsum_take_le(w@, i as int + 1);
        }
        acc = acc + w[i];
        i = i + 1;
    }
    assert(w@.take(i as int) =~= w@);
    acc
}

/// Relies on `std::time::SystemTime::now`: whole seconds since the Unix
/// epoch, used only to seed a generator whose seed is zero.
#[verifier::external_body]
fn clock_seed() -> (r: u64) {
    std::time::SystemTime::now().duration_since(std::time::UNIX_EPOCH).map_or(0, |d| d.as_secs())
}

} // verus!
