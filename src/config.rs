use vstd::prelude::*;

use vstd::string::StringSliceAdditionalSpecFns;

use crate::error::SetupError;

verus! {

/// The ASCII code of `x`, the separator in a `WxH` resolution.
pub const SEPARATOR: u8 = 120;

/// The largest value an `i32` dimension can hold.
pub const DIMENSION_MAX: i32 = 2147483647;

pub open spec fn is_digit(b: u8) -> bool {
    48 <= b <= 57
}

/// A non-empty run of ASCII decimal digits.
pub open spec fn is_decimal(s: Seq<u8>) -> bool {
    s.len() > 0 && forall|i: int| 0 <= i < s.len() ==> is_digit(#[trigger] s[i])
}

/// The number that a run of decimal digits spells.
pub open spec fn decimal_value(s: Seq<u8>) -> int
    decreases s.len(),
{
    if s.len() == 0 {
        0
    } else {
        decimal_value(s.drop_last()) * 10 + (s.last() - 48)
    }
}

/// A positive dimension written in decimal that fits an `i32`.
pub open spec fn is_dimension(s: Seq<u8>, v: int) -> bool {
    is_decimal(s) && decimal_value(s) == v && 0 < v <= DIMENSION_MAX
}

/// `s` reads `WxH` with `w` and `h` positive decimal dimensions.
pub open spec fn is_resolution(s: Seq<u8>, w: int, h: int) -> bool {
    exists|k: int|
        0 <= k < s.len() && #[trigger] s[k] == SEPARATOR && is_dimension(s.take(k), w)
            && is_dimension(s.skip(k + 1), h)
}

/// A text spells at most one resolution.
pub proof fn lemma_resolution_unique(s: Seq<u8>, w1: int, h1: int, w2: int, h2: int)
    requires
        is_resolution(s, w1, h1),
        is_resolution(s, w2, h2),
    ensures
        w1 == w2 && h1 == h2,
{
    let k1 = choose|k: int| 0 <= k < s.len() && #[trigger] s[k] == SEPARATOR
        && is_dimension(s.take(k), w1) && is_dimension(s.skip(k + 1), h1);
    let k2 = choose|k: int| 0 <= k < s.len() && #[trigger] s[k] == SEPARATOR
        && is_dimension(s.take(k), w2) && is_dimension(s.skip(k + 1), h2);
    if k1 < k2 {
        assert(s.take(k2)[k1] == s[k1]);
    } else if k2 < k1 {
        assert(s.take(k1)[k2] == s[k2]);
    }
}

proof fn lemma_decimal_nonneg(s: Seq<u8>)
    requires
        forall|i: int| 0 <= i < s.len() ==> is_digit(#[trigger] s[i]),
    ensures
        decimal_value(s) >= 0,
    decreases s.len(),
{
    if s.len() > 0 {
        assert forall|i: int| 0 <= i < s.drop_last().len() implies is_digit(#[trigger] s.drop_last()[i]) by {
            assert(s.drop_last()[i] == s[i]);
        }
        lemma_decimal_nonneg(s.drop_last());
        assert(is_digit(s[s.len() - 1]));
    }
}

/// A prefix of a run of digits spells no larger a number than the whole run.
proof fn lemma_decimal_prefix_le(s: Seq<u8>, j: int)
    requires
        0 <= j <= s.len(),
        forall|i: int| 0 <= i < s.len() ==> is_digit(#[trigger] s[i]),
    ensures
        decimal_value(s.take(j)) <= decimal_value(s),
    decreases s.len(),
{
    if j < s.len() {
        let d = s.drop_last();
        assert forall|i: int| 0 <= i < d.len() implies is_digit(#[trigger] d[i]) by {
            assert(d[i] == s[i]);
        }
        lemma_decimal_prefix_le(d, j);
        assert(d.take(j) =~= s.take(j));
        lemma_decimal_nonneg(d);
        assert(is_digit(s[s.len() - 1]));
    } else {
        assert(s.take(j) =~= s);
    }
}

/// Reads `b[lo..hi]` as a positive decimal dimension.
fn parse_dimension(b: &[u8], lo: usize, hi: usize) -> (r: Option<i32>)
    requires
        lo <= hi <= b@.len(),
    ensures
        match r {
            Some(v) => is_dimension(b@.subrange(lo as int, hi as int), v as int),
            None => forall|v: int| !is_dimension(b@.subrange(lo as int, hi as int), v),
        },
{
    if lo == hi {
        return None;
    }
    let ghost s = b@.subrange(lo as int, hi as int);
    let mut acc: i32 = 0;
    let mut i: usize = lo;
    while i < hi
        invariant
            lo <= i <= hi <= b@.len(),
            s == b@.subrange(lo as int, hi as int),
            forall|k: int| lo <= k < i ==> is_digit(#[trigger] b@[k]),
            acc as int == decimal_value(b@.subrange(lo as int, i as int)),
            0 <= acc,
        decreases hi - i,
    {
        let c = b[i];
        proof {
            assert(b@.subrange(lo as int, i + 1).drop_last() =~= b@.subrange(lo as int, i as int));
        }
        if c < 48 || c > 57 {
            proof {
                assert(s[i - lo] == c);
            }
            return None;
        }
        let d: i32 = (c - 48) as i32;
        if acc > (DIMENSION_MAX - d) / 10 {
            proof {
                if is_decimal(s) {
                    lemma_decimal_prefix_le(s, i + 1 - lo);
                    assert(s.take(i + 1 - lo) =~= b@.subrange(lo as int, i + 1));
                }
            }
            return None;
        }
        acc = acc * 10 + d;
        i = i + 1;
    }
    proof {
        assert(b@.subrange(lo as int, i as int) =~= s);
        assert forall|k: int| 0 <= k < s.len() implies is_digit(#[trigger] s[k]) by {
            assert(s[k] == b@[lo + k]);
        }
    }
    if acc == 0 {
        return None;
    }
    Some(acc)
}

/// Parses a resolution written `WxH`, as in `800x600`. Anything else,
/// including a zero or an out-of-range dimension, is `MalformedConfig`.
pub fn parse_resolution(text: &str) -> (r: Result<(i32, i32), SetupError>)
    ensures
        match r {
            Ok((w, h)) => is_resolution(text.spec_bytes(), w as int, h as int),
            Err(e) => e == SetupError::MalformedConfig
                && forall|w: int, h: int| !is_resolution(text.spec_bytes(), w, h),
        },
{
    let b = text.as_bytes();
    let ghost s = b@;
    let mut k: usize = 0;
    while k < b.len() && b[k] != SEPARATOR
        invariant
            k <= b@.len(),
            forall|j: int| 0 <= j < k ==> b@[j] != SEPARATOR,
        decreases b@.len() - k,
    {
        k = k + 1;
    }
    if k == b.len() {
        proof {
            assert forall|w: int, h: int| !is_resolution(s, w, h) by {
                if is_resolution(s, w, h) {
                    let j = choose|j: int| 0 <= j < s.len() && #[trigger] s[j] == SEPARATOR
                        && is_dimension(s.take(j), w) && is_dimension(s.skip(j + 1), h);
                }
            }
        }
        return Err(SetupError::MalformedConfig);
    }
    proof {
        assert(b@.subrange(0, k as int) =~= s.take(k as int));
        assert(b@.subrange(k + 1, b@.len() as int) =~= s.skip(k + 1));
        assert forall|j: int|
            0 <= j < s.len() && #[trigger] s[j] == SEPARATOR && is_decimal(s.take(j)) implies j == k by {
            if j > k {
                assert(s.take(j)[k as int] == s[k as int]);
            }
        }
    }
    let w = parse_dimension(b, 0, k);
    let h = parse_dimension(b, k + 1, b.len());
    match (w, h) {
        (Some(w), Some(h)) => {
            proof {
                assert(s[k as int] == SEPARATOR);
            }
            Ok((w, h))
        },
        _ => {
            proof {
                assert forall|x: int, y: int| !is_resolution(s, x, y) by {
                    if is_resolution(s, x, y) {
                        let j = choose|j: int| 0 <= j < s.len() && #[trigger] s[j] == SEPARATOR
                            && is_dimension(s.take(j), x) && is_dimension(s.skip(j + 1), y);
                    }
                }
            }
            Err(SetupError::MalformedConfig)
        },
    }
}

/// The pause between two frames, in milliseconds, for a rate of `fps`
/// frames per second. A rate of zero is `MalformedConfig`.
pub fn delay_for_fps(fps: u64) -> (r: Result<u64, SetupError>)
    ensures
        fps == 0 ==> r == Err::<u64, SetupError>(SetupError::MalformedConfig),
        fps > 0 ==> r == Ok::<u64, SetupError>((1000int / fps as int) as u64),
{
    if fps == 0 {
        Err(SetupError::MalformedConfig)
    } else {
        Ok(1000 / fps)
    }
}

} // verus!
