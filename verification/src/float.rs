//! Floating-point numbers as IEEE-754 bit patterns, handled with integer arithmetic.

use vstd::prelude::*;
use vstd::arithmetic::power2::*;

verus! {

/// The bit pattern of an infinity or of something that is not a number.
pub open spec fn single_special(b: u32) -> bool {
    b % 0x8000_0000u32 >= 0x7f80_0000u32
}

/// The bit pattern of an infinity or of something that is not a number.
pub open spec fn double_special(b: u64) -> bool {
    b % 0x8000_0000_0000_0000u64 >= 0x7ff0_0000_0000_0000u64
}

/// The magnitude of a finite single-precision number, in units of its smallest subnormal.
pub open spec fn single_magnitude(b: u32) -> int {
    let x = (b % 0x8000_0000u32) as int;
    let e = x / 0x80_0000;
    let m = x % 0x80_0000;
    if e == 0 {
        m
    } else {
        (m + 0x80_0000) * pow2((e - 1) as nat)
    }
}

/// The magnitude of a finite double-precision number, in units of its smallest subnormal.
pub open spec fn double_magnitude(b: u64) -> int {
    let x = (b % 0x8000_0000_0000_0000u64) as int;
    let e = x / 0x10_0000_0000_0000;
    let m = x % 0x10_0000_0000_0000;
    if e == 0 {
        m
    } else {
        (m + 0x10_0000_0000_0000) * pow2((e - 1) as nat)
    }
}

/// The two patterns stand for the same finite number: they agree in sign, and in magnitude
/// when brought to one unit.
pub open spec fn same_number(b: u32, d: u64) -> bool {
    &&& (b >= 0x8000_0000u32) == (d >= 0x8000_0000_0000_0000u64)
    &&& !double_special(d)
    &&& double_magnitude(d) == single_magnitude(b) * pow2(925)
}

/// Whether a single-precision pattern stands for a finite number.
pub fn finite_single(b: u32) -> (r: bool)
    ensures
        r == !single_special(b),
{
    b % 0x8000_0000u32 < 0x7f80_0000u32
}

/// Whether a double-precision pattern stands for a finite number.
pub fn finite_double(b: u64) -> (r: bool)
    ensures
        r == !double_special(b),
{
    b % 0x8000_0000_0000_0000u64 < 0x7ff0_0000_0000_0000u64
}

proof fn lemma_shift(x: int, a: nat, b: nat)
    ensures
        (x * pow2(a)) * pow2(b) == x * pow2(a + b),
{
    lemma_pow2_adds(a, b);
    let p = pow2(a) as int;
    let q = pow2(b) as int;
    assert((x * p) * q == x * (p * q)) by (nonlinear_arith);
}

/// The double-precision pattern of a finite single-precision number; no precision is lost.
fn widen_bits(b: u32) -> (d: u64)
    requires
        !single_special(b),
    ensures
        same_number(b, d),
{
    let sign: u64 = if b >= 0x8000_0000u32 {
        0x8000_0000_0000_0000u64
    } else {
        0
    };
    let x: u32 = b % 0x8000_0000u32;
    let e: u32 = x / 0x80_0000u32;
    let m: u32 = x % 0x80_0000u32;
    proof {
        lemma2_to64();
    }
    if e > 0 {
        let d: u64 = sign + (e as u64 + 896) * 0x10_0000_0000_0000u64 + m as u64
            * 0x2000_0000u64;
        proof {
            let n = m + 0x80_0000;
            assert((d % 0x8000_0000_0000_0000u64) / 0x10_0000_0000_0000 == e + 896);
            assert((d % 0x8000_0000_0000_0000u64) % 0x10_0000_0000_0000 == m * 0x2000_0000);
            assert(double_magnitude(d) == (n * pow2(29)) * pow2((e + 895) as nat));
            lemma_shift(n, 29, (e + 895) as nat);
            lemma_shift(n, (e - 1) as nat, 925);
            assert(29 + (e + 895) as nat == (e - 1) as nat + 925);
        }
        return d;
    }
    if m == 0 {
        assert(0 * pow2(925) == 0);
        return sign;
    }
    let mut frac: u32 = m;
    let mut k: u32 = 0;
    while frac < 0x80_0000u32
        invariant
            1 <= m < 0x80_0000,
            k <= 23,
            frac == m * pow2(k as nat),
            frac < 0x100_0000,
            pow2(23) == 0x80_0000,
        decreases 23 - k,
    {
        proof {
            assert(pow2(k as nat) <= m * pow2(k as nat)) by (nonlinear_arith)
                requires
                    m >= 1,
            ;
            lemma_pow2_unfold((k + 1) as nat);
            let p = pow2(k as nat) as int;
            assert(m * (2 * p) == 2 * (m * p)) by (nonlinear_arith);
        }
        frac = frac * 2;
        k = k + 1;
    }
    let d: u64 = sign + (897 - k) as u64 * 0x10_0000_0000_0000u64 + (frac - 0x80_0000u32) as u64
        * 0x2000_0000u64;
    proof {
        assert((d % 0x8000_0000_0000_0000u64) / 0x10_0000_0000_0000 == 897 - k);
        assert((d % 0x8000_0000_0000_0000u64) % 0x10_0000_0000_0000 == (frac - 0x80_0000)
            * 0x2000_0000);
        assert(double_magnitude(d) == (frac * pow2(29)) * pow2((896 - k) as nat));
        lemma_shift(frac as int, 29, (896 - k) as nat);
        lemma_shift(m as int, k as nat, (29 + (896 - k) as nat) as nat);
        assert(k as nat + (29 + (896 - k) as nat) == 925);
    }
    d
}

proof fn lemma_pow2_grows(a: nat, b: nat)
    requires
        a <= b,
    ensures
        0 < pow2(a) <= pow2(b),
    decreases b - a,
{
    lemma_pow2_pos(a);
    if a < b {
        lemma_pow2_grows(a, (b - 1) as nat);
        lemma_pow2_unfold(b);
    }
}

/// A larger pattern of one sign stands for a larger magnitude.
proof fn lemma_magnitude_grows(x: u64, y: u64)
    requires
        x < y < 0x8000_0000_0000_0000u64,
    ensures
        double_magnitude(x) < double_magnitude(y),
{
    let unit: int = 0x10_0000_0000_0000;
    let e = x as int / unit;
    let f = y as int / unit;
    let m = x as int % unit;
    let n = y as int % unit;
    if e == f {
        if e > 0 {
            lemma_pow2_pos((e - 1) as nat);
            let p = pow2((e - 1) as nat) as int;
            assert((m + unit) * p < (n + unit) * p) by (nonlinear_arith)
                requires
                    m < n,
                    p > 0,
            ;
        }
    } else {
        let q = pow2((f - 1) as nat) as int;
        lemma_pow2_grows(0, (f - 1) as nat);
        lemma2_to64();
        assert((n + unit) * q >= unit * q) by (nonlinear_arith)
            requires
                n >= 0,
                q > 0,
        ;
        if e == 0 {
            assert(unit * q >= unit) by (nonlinear_arith)
                requires
                    q >= 1,
                    unit > 0,
            ;
        } else {
            let p = pow2((e - 1) as nat) as int;
            lemma_pow2_grows(e as nat, (f - 1) as nat);
            lemma_pow2_unfold(e as nat);
            lemma_pow2_pos((e - 1) as nat);
            assert((m + unit) * p < unit * q) by (nonlinear_arith)
                requires
                    m < unit,
                    p > 0,
                    q >= 2 * p,
                    unit > 0,
            ;
        }
    }
}

/// At most one double-precision pattern stands for the number of a single-precision one.
proof fn lemma_same_number_unique(b: u32, c: u64, d: u64)
    requires
        same_number(b, c),
        same_number(b, d),
    ensures
        c == d,
{
    let x: u64 = c % 0x8000_0000_0000_0000u64;
    let y: u64 = d % 0x8000_0000_0000_0000u64;
    if x < y {
        lemma_magnitude_grows(x, y);
    } else if y < x {
        lemma_magnitude_grows(y, x);
    }
}

/// The double-precision pattern of a finite single-precision number.
pub open spec fn widened(b: u32) -> u64 {
    choose|d: u64| same_number(b, d)
}

/// The double-precision pattern of an integer beyond the signed 64-bit range.
pub open spec fn wide_double(u: u64) -> u64 {
    choose|d: u64| is_wide_double(u, d)
}

/// `d` is a non-negative number, `u` rounded to what a pattern can hold.
pub open spec fn is_wide_double(u: u64, d: u64) -> bool {
    d < 0x8000_0000_0000_0000u64 && !double_special(d) && double_magnitude(d) == nearest_even(
        u as int,
        2048,
    ) * pow2(1074)
}

proof fn lemma_wide_double_unique(u: u64, d: u64)
    requires
        is_wide_double(u, d),
    ensures
        wide_double(u) == d,
{
    let c = wide_double(u);
    assert(is_wide_double(u, c));
    if c < d {
        lemma_magnitude_grows(c, d);
    } else if d < c {
        lemma_magnitude_grows(d, c);
    }
}

/// The double-precision pattern of a finite single-precision number: the only pattern that
/// stands for the same number.
pub fn widen(b: u32) -> (d: u64)
    requires
        !single_special(b),
    ensures
        same_number(b, d),
        d == widened(b),
{
    let d = widen_bits(b);
    proof {
        lemma_same_number_unique(b, d, widened(b));
    }
    d
}

/// `n` rounded to a multiple of `unit`, halves to the even multiple.
pub open spec fn nearest_even(n: int, unit: int) -> int {
    let q = n / unit;
    let r = n % unit;
    if 2 * r < unit || (2 * r == unit && q % 2 == 0) {
        q * unit
    } else {
        (q + 1) * unit
    }
}

/// The double-precision pattern of an integer beyond the signed 64-bit range. Such a pattern
/// holds 53 of the 64 bits, so the number is rounded to a multiple of 2048.
pub fn double_of_wide(u: u64) -> (d: u64)
    requires
        u >= 0x8000_0000_0000_0000u64,
    ensures
        d < 0x8000_0000_0000_0000u64,
        !double_special(d),
        double_magnitude(d) == nearest_even(u as int, 2048) * pow2(1074),
        d == wide_double(u),
{
    let q: u64 = (u - 0x8000_0000_0000_0000u64) / 2048;
    let r: u64 = u % 2048;
    let m: u64 = if r < 1024 || (r == 1024 && q % 2 == 0) {
        q
    } else {
        q + 1
    };
    let d: u64 = 1086u64 * 0x10_0000_0000_0000u64 + m;
    proof {
        lemma2_to64();
        lemma2_to64_rest();
        let n = m + 0x10_0000_0000_0000;
        assert(u as int / 2048 == q + 0x10_0000_0000_0000);
        assert(nearest_even(u as int, 2048) == n * 2048);
        lemma_shift(n, 11, 1074);
        if m < 0x10_0000_0000_0000 {
            assert(double_magnitude(d) == n * pow2(1085));
        } else {
            assert(d as int / 0x10_0000_0000_0000 == 1087);
            assert(double_magnitude(d) == 0x10_0000_0000_0000 * pow2(1086));
            lemma_shift(0x10_0000_0000_0000, 1, 1085);
        }
        lemma_wide_double_unique(u, d);
    }
    d
}

/// A pattern is infinite or no number exactly when its exponent is all ones.
pub proof fn law_special_patterns(b: u32, d: u64)
    ensures
        single_special(b) <==> (b as int / 0x80_0000) % 0x100 == 0xff,
        double_special(d) <==> (d as int / 0x10_0000_0000_0000) % 0x800 == 0x7ff,
{
}

/// The nearest multiple of a unit is one, lies no further than half a unit away, and of two
/// that are as near it is the even one.
pub proof fn law_the_nearest_multiple_is_near(n: int, unit: int)
    requires
        unit > 0,
    ensures
        ({
            let r = nearest_even(n, unit);
            &&& exists|q: int|
                #![trigger q * unit]
                r == q * unit && (2 * (n - r) == unit || 2 * (r - n) == unit ==> q % 2 == 0)
            &&& 2 * (n - r) <= unit
            &&& 2 * (r - n) <= unit
        }),
{
    let q = n / unit;
    let m = n % unit;
    assert(n == q * unit + m && 0 <= m < unit) by (nonlinear_arith)
        requires
            unit > 0,
            q == n / unit,
            m == n % unit,
    ;
    let r = nearest_even(n, unit);
    assert((q + 1) * unit == q * unit + unit) by (nonlinear_arith);
    if 2 * m < unit || (2 * m == unit && q % 2 == 0) {
        assert(r == q * unit);
    } else {
        assert(r == (q + 1) * unit);
    }
}

} // verus!
