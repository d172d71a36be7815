//! Machine words of one to eight bytes.

use vstd::prelude::*;

verus! {

/// How many values `size` bytes can hold; words have at most eight.
pub open spec fn span(size: u32) -> int {
    if size == 0 {
        1
    } else if size == 1 {
        0x100
    } else if size == 2 {
        0x1_0000
    } else if size == 3 {
        0x100_0000
    } else if size == 4 {
        0x1_0000_0000
    } else if size == 5 {
        0x100_0000_0000
    } else if size == 6 {
        0x1_0000_0000_0000
    } else if size == 7 {
        0x100_0000_0000_0000
    } else {
        0x1_0000_0000_0000_0000
    }
}

/// The low `size` bytes of a number.
pub open spec fn low(v: int, size: u32) -> u64 {
    (v % span(size)) as u64
}

/// The low `size` bytes of a number, read as a signed word.
pub open spec fn signed(v: int, size: u32) -> int {
    let m = v % span(size);
    if 2 * m >= span(size) && size > 0 {
        m - span(size)
    } else {
        m
    }
}

/// Division that rounds toward zero.
pub open spec fn truncated_div(x: int, y: int) -> int {
    let q = abs(x) / abs(y);
    if (x < 0) == (y < 0) {
        q
    } else {
        -q
    }
}

/// The remainder of division toward zero: it has the dividend's sign.
pub open spec fn truncated_rem(x: int, y: int) -> int {
    let r = abs(x) % abs(y);
    if x < 0 {
        -r
    } else {
        r
    }
}

pub open spec fn abs(x: int) -> int {
    if x < 0 {
        -x
    } else {
        x
    }
}

/// The span of a word narrower than eight bytes.
pub fn span_of(size: u32) -> (r: u64)
    requires
        size < 8,
    ensures
        r == span(size),
{
    if size == 0 {
        1
    } else if size == 1 {
        0x100
    } else if size == 2 {
        0x1_0000
    } else if size == 3 {
        0x100_0000
    } else if size == 4 {
        0x1_0000_0000
    } else if size == 5 {
        0x100_0000_0000
    } else if size == 6 {
        0x1_0000_0000_0000
    } else {
        0x100_0000_0000_0000
    }
}

/// Truncate `v` to the low `size` bytes.
pub fn mask(v: u64, size: u32) -> (r: u64)
    ensures
        r == low(v as int, size),
{
    if size >= 8 {
        v
    } else {
        v % span_of(size)
    }
}

/// Sign-extend the low `size` bytes of `v`.
pub fn sext(v: u64, size: u32) -> (r: i64)
    requires
        size > 0,
    ensures
        r == signed(v as int, size),
{
    if size >= 8 {
        if v < 0x8000_0000_0000_0000 {
            v as i64
        } else {
            -((u64::MAX - v) as i64) - 1
        }
    } else {
        let p = span_of(size);
        let m = v % p;
        if m >= p / 2 {
            m as i64 - p as i64
        } else {
            m as i64
        }
    }
}

/// The eight-byte two's complement of a signed number.
pub fn from_signed(x: i64) -> (r: u64)
    ensures
        r == low(x as int, 8),
{
    if x >= 0 {
        x as u64
    } else {
        u64::MAX - ((-(x + 1)) as u64)
    }
}

/// The distance of a signed number from zero.
pub fn magnitude(x: i64) -> (r: u64)
    ensures
        r == abs(x as int),
{
    if x >= 0 {
        x as u64
    } else {
        (-(x + 1)) as u64 + 1
    }
}

/// How many binary digits of a number are one.
pub open spec fn ones(x: nat) -> nat
    decreases x,
{
    if x == 0 {
        0
    } else {
        x % 2 + ones(x / 2)
    }
}

/// How many binary digits of a word are one.
pub fn count_ones(x: u64) -> (r: u64)
    ensures
        r == ones(x as nat),
        r <= 64,
{
    let mut rest: u64 = x;
    let mut n: u64 = 0;
    let ghost mut seen: nat = 0;
    assert(vstd::arithmetic::power2::pow2(64) == 0x1_0000_0000_0000_0000) by {
        vstd::arithmetic::power2::lemma2_to64();
    }
    while rest > 0
        invariant
            n + ones(rest as nat) == ones(x as nat),
            n <= seen <= 64,
            rest < vstd::arithmetic::power2::pow2((64 - seen) as nat),
        decreases rest,
    {
        proof {
            if seen == 64 {
                vstd::arithmetic::power2::lemma2_to64();
            } else {
                vstd::arithmetic::power2::lemma_pow2_unfold((64 - seen) as nat);
            }
            seen = seen + 1;
        }
        n = n + rest % 2;
        rest = rest / 2;
    }
    n
}

/// Truncating to a word and then to a narrower one is truncating to the narrower.
pub proof fn low_of_low(v: int, wide: u32, narrow: u32)
    requires
        narrow <= wide,
    ensures
        low(low(v, wide) as int, narrow) == low(v, narrow),
{
    lemma_span_divides(wide, narrow);
    let k = span(wide) / span(narrow);
    vstd::arithmetic::div_mod::lemma_mod_mod(v, span(narrow), k);
}

pub proof fn lemma_span_divides(wide: u32, narrow: u32)
    requires
        narrow <= wide,
    ensures
        span(wide) == span(narrow) * (span(wide) / span(narrow)),
        span(wide) / span(narrow) > 0,
{
}

} // verus!
