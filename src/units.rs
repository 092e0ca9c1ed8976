//! Command-line quantities: plain integers, byte sizes with a unit and
//! durations with a unit.
use vstd::prelude::*;
use vstd::string::StringSliceAdditionalSpecFns;
use crate::text::{bytes_at_equal, decimal, decimal_at, is_digit, unsigned_digits};

verus! {

/// Why a quantity was refused.
#[derive(Debug, Clone, Copy, PartialEq, Eq, Structural)]
pub enum UnitError {
    /// The leading number is missing, malformed or too large.
    Number,
    /// The text after the number is no known unit.
    Unit,
    /// The number times its unit does not fit in a `usize`.
    Overflow,
}

/// The first index at or after `i` that is not an ASCII digit, or the length.
pub open spec fn digits_end(b: Seq<u8>, i: int) -> int
    decreases b.len() - i,
{
    if 0 <= i < b.len() && is_digit(b[i]) {
        digits_end(b, i + 1)
    } else {
        i
    }
}

/// Bytes per unit of a size: B, KB, KiB, MB, MiB, GB, GiB.
pub open spec fn size_factor(u: Seq<u8>) -> Option<usize> {
    if u == "B".spec_bytes() {
        Some(1)
    } else if u == "KB".spec_bytes() {
        Some(1_000)
    } else if u == "KiB".spec_bytes() {
        Some(1024)
    } else if u == "MB".spec_bytes() {
        Some(1_000_000)
    } else if u == "MiB".spec_bytes() {
        Some(1_048_576)
    } else if u == "GB".spec_bytes() {
        Some(1_000_000_000)
    } else if u == "GiB".spec_bytes() {
        Some(1_073_741_824)
    } else {
        None
    }
}

/// Seconds per unit of a duration: s, min.
pub open spec fn time_factor(u: Seq<u8>) -> Option<usize> {
    if u == "s".spec_bytes() {
        Some(1)
    } else if u == "min".spec_bytes() {
        Some(60)
    } else {
        None
    }
}

/// A number of digits, optionally followed by a unit whose factor `f` gives.
pub open spec fn with_unit(b: Seq<u8>, f: Option<usize>) -> Result<usize, UnitError> {
    let k = digits_end(b, 0);
    match decimal(b.subrange(0, k)) {
        None => Err(UnitError::Number),
        Some(v) => if k == b.len() {
            Ok(v)
        } else {
            match f {
                None => Err(UnitError::Unit),
                Some(m) => if v * m > usize::MAX {
                    Err(UnitError::Overflow)
                } else {
                    Ok((v * m) as usize)
                },
            }
        },
    }
}

/// A byte size such as `512`, `16KiB` or `2GB`.
pub open spec fn size_parsed(b: Seq<u8>) -> Result<usize, UnitError> {
    with_unit(b, size_factor(b.subrange(digits_end(b, 0), b.len() as int)))
}

/// A duration in seconds such as `30`, `30s` or `2min`.
pub open spec fn duration_parsed(b: Seq<u8>) -> Result<usize, UnitError> {
    with_unit(b, time_factor(b.subrange(digits_end(b, 0), b.len() as int)))
}

/// A plain unsigned integer: an optional `+`, then digits.
pub open spec fn int_parsed(b: Seq<u8>) -> Result<usize, UnitError> {
    match decimal(unsigned_digits(b)) {
        Some(v) => Ok(v),
        None => Err(UnitError::Number),
    }
}

fn digits_prefix(b: &[u8]) -> (k: usize)
    ensures
        k == digits_end(b@, 0),
        k <= b@.len(),
{
    let mut k: usize = 0;
    while k < b.len() && 48 <= b[k] && b[k] <= 57
        invariant
            0 <= k <= b@.len(),
            digits_end(b@, 0) == digits_end(b@, k as int),
        decreases b@.len() - k,
    {
        k = k + 1;
    }
    k
}

fn size_factor_at(b: &[u8], k: usize) -> (r: Option<usize>)
    requires
        k <= b@.len(),
    ensures
        r == size_factor(b@.subrange(k as int, b@.len() as int)),
{
    let n = b.len();
    if bytes_at_equal(b, k, n, "B") {
        Some(1)
    } else if bytes_at_equal(b, k, n, "KB") {
        Some(1_000)
    } else if bytes_at_equal(b, k, n, "KiB") {
        Some(1024)
    } else if bytes_at_equal(b, k, n, "MB") {
        Some(1_000_000)
    } else if bytes_at_equal(b, k, n, "MiB") {
        Some(1_048_576)
    } else if bytes_at_equal(b, k, n, "GB") {
        Some(1_000_000_000)
    } else if bytes_at_equal(b, k, n, "GiB") {
        Some(1_073_741_824)
    } else {
        None
    }
}

fn time_factor_at(b: &[u8], k: usize) -> (r: Option<usize>)
    requires
        k <= b@.len(),
    ensures
        r == time_factor(b@.subrange(k as int, b@.len() as int)),
{
    let n = b.len();
    if bytes_at_equal(b, k, n, "s") {
        Some(1)
    } else if bytes_at_equal(b, k, n, "min") {
        Some(60)
    } else {
        None
    }
}

fn apply_unit(b: &[u8], k: usize, f: Option<usize>) -> (r: Result<usize, UnitError>)
    requires
        k == digits_end(b@, 0),
        k <= b@.len(),
    ensures
        r == with_unit(b@, f),
{
    match decimal_at(b, 0, k) {
        None => Err(UnitError::Number),
        Some(v) => {
            if k == b.len() {
                Ok(v)
            } else {
                match f {
                    None => Err(UnitError::Unit),
                    Some(m) => match v.checked_mul(m) {
                        None => Err(UnitError::Overflow),
                        Some(p) => Ok(p),
                    },
                }
            }
        },
    }
}

/// Reads a byte size: digits, then optionally one of the units B, KB, KiB,
/// MB, MiB, GB or GiB.
pub fn parse_size(s: &str) -> (r: Result<usize, UnitError>)
    ensures
        r == size_parsed(s.spec_bytes()),
{
    let b = s.as_bytes();
    let k = digits_prefix(b);
    let f = size_factor_at(b, k);
    apply_unit(b, k, f)
}

/// Reads a duration in seconds: digits, then optionally `s` or `min`.
pub fn parse_duration(s: &str) -> (r: Result<usize, UnitError>)
    ensures
        r == duration_parsed(s.spec_bytes()),
{
    let b = s.as_bytes();
    let k = digits_prefix(b);
    let f = time_factor_at(b, k);
    apply_unit(b, k, f)
}

/// Reads a plain unsigned integer: an optional `+`, then digits.
pub fn parse_int(s: &str) -> (r: Result<usize, UnitError>)
    ensures
        r == int_parsed(s.spec_bytes()),
{
    let b = s.as_bytes();
    let lo: usize = if b.len() > 0 && b[0] == 43 {
        1
    } else {
        0
    };
    assert(b@.subrange(lo as int, b@.len() as int) =~= unsigned_digits(b@));
    match decimal_at(b, lo, b.len()) {
        Some(v) => Ok(v),
        None => Err(UnitError::Number),
    }
}

} // verus!
