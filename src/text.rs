//! Byte-level reading of short texts: whitespace, words and decimals.
use vstd::prelude::*;
use vstd::string::StringSliceAdditionalSpecFns;
use vstd::utf8::encode_utf8_decode_utf8;

verus! {

/// ASCII whitespace: space, tab, line feed, vertical tab, form feed and
/// carriage return.
pub open spec fn is_space(c: u8) -> bool {
    c == 32 || (9 <= c && c <= 13)
}

/// The first index at or after `i` that does not hold whitespace.
pub open spec fn skip_spaces(b: Seq<u8>, i: int) -> int
    decreases b.len() - i,
{
    if 0 <= i < b.len() && is_space(b[i]) {
        skip_spaces(b, i + 1)
    } else {
        i
    }
}

/// The first index at or after `i` that holds whitespace, or the length.
pub open spec fn skip_word(b: Seq<u8>, i: int) -> int
    decreases b.len() - i,
{
    if 0 <= i < b.len() && !is_space(b[i]) {
        skip_word(b, i + 1)
    } else {
        i
    }
}

/// The first whitespace-separated word of `b`; empty if there is none.
pub open spec fn first_word(b: Seq<u8>) -> Seq<u8> {
    b.subrange(skip_spaces(b, 0), skip_word(b, skip_spaces(b, 0)))
}

/// An ASCII decimal digit.
pub open spec fn is_digit(c: u8) -> bool {
    48 <= c && c <= 57
}

/// The number that a string of decimal digits denotes.
pub open spec fn digits_value(d: Seq<u8>) -> int
    decreases d.len(),
{
    if d.len() == 0 {
        0
    } else {
        digits_value(d.drop_last()) * 10 + (d.last() - 48)
    }
}

/// The digits of an unsigned decimal: the word without one leading `+`.
pub open spec fn unsigned_digits(w: Seq<u8>) -> Seq<u8> {
    if w.len() > 0 && w[0] == 43 {
        w.drop_first()
    } else {
        w
    }
}

/// One more digit multiplies the value so far by ten and adds the digit.
pub proof fn lemma_digits_step(d: Seq<u8>, k: int)
    requires
        0 <= k < d.len(),
    ensures
        digits_value(d.take(k + 1)) == digits_value(d.take(k)) * 10 + (d[k] - 48),
{
    assert(d.take(k + 1).drop_last() =~= d.take(k));
}

/// Over digits, a longer prefix never denotes less.
pub proof fn lemma_digits_monotone(d: Seq<u8>, j: int, k: int)
    requires
        0 <= j <= k <= d.len(),
        forall|i: int| 0 <= i < d.len() ==> is_digit(#[trigger] d[i]),
    ensures
        0 <= digits_value(d.take(j)) <= digits_value(d.take(k)),
    decreases k - j,
{
    if j == k {
        lemma_digits_nonneg(d, j);
    } else {
        lemma_digits_monotone(d, j, k - 1);
        lemma_digits_step(d, k - 1);
    }
}

/// Digits denote a non-negative value.
pub proof fn lemma_digits_nonneg(d: Seq<u8>, j: int)
    requires
        0 <= j <= d.len(),
        forall|i: int| 0 <= i < d.len() ==> is_digit(#[trigger] d[i]),
    ensures
        digits_value(d.take(j)) >= 0,
    decreases j,
{
    if j > 0 {
        lemma_digits_nonneg(d, j - 1);
        lemma_digits_step(d, j - 1);
    } else {
        assert(d.take(0) =~= Seq::<u8>::empty());
    }
}

/// Whether `c` is a whitespace byte.
pub fn is_space_byte(c: u8) -> (r: bool)
    ensures
        r == is_space(c),
{
    c == 32 || (9 <= c && c <= 13)
}

/// The value of `d` read as a decimal: one or more ASCII digits whose value
/// fits in a `usize`.
pub open spec fn decimal(d: Seq<u8>) -> Option<usize> {
    if d.len() > 0 && (forall|i: int| 0 <= i < d.len() ==> is_digit(#[trigger] d[i]))
        && digits_value(d) <= usize::MAX {
        Some(digits_value(d) as usize)
    } else {
        None
    }
}

/// `decimal` of `b[lo..hi]`.
pub fn decimal_at(b: &[u8], lo: usize, hi: usize) -> (r: Option<usize>)
    requires
        lo <= hi <= b@.len(),
    ensures
        r == decimal(b@.subrange(lo as int, hi as int)),
{
    let ghost d = b@.subrange(lo as int, hi as int);
    if lo == hi {
        return None;
    }
    let mut k: usize = lo;
    while k < hi
        invariant
            lo <= k <= hi <= b@.len(),
            d == b@.subrange(lo as int, hi as int),
            forall|i: int| 0 <= i < k - lo ==> is_digit(#[trigger] d[i]),
        decreases hi - k,
    {
        if !(48 <= b[k] && b[k] <= 57) {
            assert(!is_digit(d[k - lo]));
            return None;
        }
        k = k + 1;
    }
    let mut acc: usize = 0;
    let mut j: usize = lo;
    while j < hi
        invariant
            lo <= j <= hi <= b@.len(),
            d == b@.subrange(lo as int, hi as int),
            forall|i: int| 0 <= i < d.len() ==> is_digit(#[trigger] d[i]),
            acc == digits_value(d.take(j - lo)),
        decreases hi - j,
    {
        proof {
            lemma_digits_step(d, j - lo);
            lemma_digits_nonneg(d, j - lo);
        }
        let digit = (b[j] - 48) as usize;
        if acc > (usize::MAX - digit) / 10 {
            proof {
                lemma_digits_monotone(d, j - lo + 1, d.len() as int);
                assert(d.take(d.len() as int) =~= d);
            }
            return None;
        }
        acc = acc * 10 + digit;
        j = j + 1;
    }
    assert(d.take(d.len() as int) =~= d);
    Some(acc)
}

/// Whether `b[lo..hi]` holds exactly the bytes of `name`.
pub fn bytes_at_equal(b: &[u8], lo: usize, hi: usize, name: &str) -> (r: bool)
    requires
        lo <= hi <= b@.len(),
    ensures
        r == (b@.subrange(lo as int, hi as int) == name.spec_bytes()),
{
    let n = name.as_bytes();
    if hi - lo != n.len() {
        return false;
    }
    let mut i: usize = 0;
    while i < n.len()
        invariant
            n@ == name.spec_bytes(),
            lo <= hi <= b@.len(),
            hi - lo == n@.len(),
            0 <= i <= n@.len(),
            forall|k: int| 0 <= k < i ==> b@[lo + k] == n@[k],
        decreases n@.len() - i,
    {
        if b[lo + i] != n[i] {
            assert(b@.subrange(lo as int, hi as int)[i as int] != n@[i as int]);
            return false;
        }
        i = i + 1;
    }
    assert(b@.subrange(lo as int, hi as int) =~= n@);
    true
}

/// Whether two strings hold the same characters, compared byte by byte.
pub fn same_text(a: &str, b: &str) -> (r: bool)
    ensures
        r == (a@ == b@),
{
    let x = a.as_bytes();
    let y = b.as_bytes();
    proof {
        encode_utf8_decode_utf8(a@);
        encode_utf8_decode_utf8(b@);
    }
    if x.len() != y.len() {
        return false;
    }
    let mut i: usize = 0;
    while i < x.len()
        invariant
            x@ == a.spec_bytes(),
            y@ == b.spec_bytes(),
            x@.len() == y@.len(),
            0 <= i <= x@.len(),
            forall|k: int| 0 <= k < i ==> x@[k] == y@[k],
        decreases x@.len() - i,
    {
        if x[i] != y[i] {
            assert(a@ != b@) by {
                if a@ == b@ {
                    assert(x@ == a.spec_bytes());
                    assert(y@ == b.spec_bytes());
                    assert(a.spec_bytes() == b.spec_bytes());
                }
            }
            return false;
        }
        i = i + 1;
    }
    assert(x@ =~= y@);
    true
}

} // verus!
