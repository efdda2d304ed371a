//! Exact decimals, bounded by `rust_decimal`, and their big-endian wire form.

use vstd::arithmetic::power::pow;
use vstd::prelude::*;
use crate::text;

verus! {

/// The largest mantissa: 96 bits of ones.
pub open spec fn max_mantissa() -> int {
    0xFFFF_FFFF_FFFF_FFFF_FFFF_FFFFint
}

/// The decimals that can be represented: a 96-bit mantissa and at most 28 decimal places.
pub open spec fn decimal_valid(mantissa: int, scale: int) -> bool {
    -max_mantissa() <= mantissa <= max_mantissa() && 0 <= scale <= 28
}

/// Why a decimal cannot be represented.
pub open spec fn decimal_error(mantissa: int, scale: int) -> Seq<char> {
    if scale > 28 {
        "Scale exceeds the maximum precision allowed: "@ + text::decimal(scale) + " > 28"@
    } else if mantissa > 0 {
        "Number exceeds maximum value that can be represented."@
    } else {
        "Number less than minimum value that can be represented."@
    }
}

/// `rust_decimal::Decimal::try_from_i128_with_scale` makes the decimal with exactly this
/// mantissa and scale (as `mantissa` and `scale` read them back) when it can be represented,
/// and otherwise says whether the scale or the mantissa is out of range.
#[verifier::external_body]
fn bounded(mantissa: i128, scale: u32) -> (r: Result<(i128, u32), String>)
    ensures
        match r {
            Ok(d) => decimal_valid(mantissa as int, scale as int) && d == (mantissa, scale),
            Err(e) => !decimal_valid(mantissa as int, scale as int) && e@ == decimal_error(
                mantissa as int,
                scale as int,
            ),
        },
{
    match rust_decimal::Decimal::try_from_i128_with_scale(mantissa, scale) {
        Ok(d) => Ok((d.mantissa(), d.scale())),
        Err(e) => Err(e.to_string()),
    }
}

/// An exact decimal: `mantissa * 10^-scale`. Equal decimals stand for the same number, whatever
/// their scales.
#[derive(Debug, Clone, Copy, Eq)]
pub struct Decimal {
    mantissa: i128,
    scale: u32,
}

/// `a * 10^-m` and `b * 10^-n` are the same number.
pub open spec fn same_number(a: int, m: nat, b: int, n: nat) -> bool {
    a * pow(10, n) == b * pow(10, m)
}

/// A number that is `10^d` times another ends in a zero, and without it is `10^(d-1)` times it.
proof fn lemma_last_place(a: int, b: int, d: nat)
    requires
        d > 0,
    ensures
        (a == b * pow(10, d)) == (a % 10 == 0 && a / 10 == b * pow(10, (d - 1) as nat)),
{
    let p = pow(10, (d - 1) as nat);
    vstd::arithmetic::power::lemma_pow1(10);
    vstd::arithmetic::power::lemma_pow_adds(10, 1, (d - 1) as nat);
    assert(pow(10, d) == 10 * p);
    assert(b * (10 * p) == 10 * (b * p)) by (nonlinear_arith);
    let q = b * p;
    assert(a == 10 * q ==> a % 10 == 0 && a / 10 == q);
    assert(a % 10 == 0 && a / 10 == q ==> a == 10 * q);
}

/// Two scales apart by `d` leave the mantissas `10^d` apart.
proof fn lemma_scales_apart(a: int, m: nat, b: int, n: nat)
    requires
        n <= m,
    ensures
        same_number(a, m, b, n) == (a == b * pow(10, (m - n) as nat)),
{
    let d = (m - n) as nat;
    let p = pow(10, n);
    let q = pow(10, d);
    vstd::arithmetic::power::lemma_pow_adds(10, n, d);
    vstd::arithmetic::power::lemma_pow_positive(10, n);
    assert(pow(10, m) == p * q);
    assert((a * p == b * (p * q)) == (a == b * q)) by (nonlinear_arith)
        requires
            p > 0,
    ;
}

/// Whether `a` is `10^d` times `b`.
fn shifted(a: u128, b: u128, d: u32) -> (r: bool)
    ensures
        r == (a == b * pow(10, d as nat)),
{
    let mut rest = a;
    let mut left = d;
    while left > 0
        invariant
            left <= d,
            (a == b * pow(10, d as nat)) == (rest == b * pow(10, left as nat)),
        decreases left,
    {
        proof {
            lemma_last_place(rest as int, b as int, left as nat);
        }
        if rest % 10 != 0 {
            return false;
        }
        rest = rest / 10;
        left = left - 1;
    }
    proof {
        vstd::arithmetic::power::lemma_pow0(10);
    }
    rest == b
}

/// Whether two decimals stand for the same number.
fn equal_numbers(a: i128, m: u32, b: i128, n: u32) -> (r: bool)
    requires
        decimal_valid(a as int, m as int),
        decimal_valid(b as int, n as int),
    ensures
        r == same_number(a as int, m as nat, b as int, n as nat),
    decreases (if n > m { 1int } else { 0int }),
{
    if n > m {
        return equal_numbers(b, n, a, m);
    }
    proof {
        lemma_scales_apart(a as int, m as nat, b as int, n as nat);
        vstd::arithmetic::power::lemma_pow_positive(10, (m - n) as nat);
    }
    let ghost q = pow(10, (m - n) as nat);
    if (a < 0) != (b < 0) {
        proof {
            if b < 0 {
                assert(b * q < 0) by (nonlinear_arith)
                    requires
                        b < 0,
                        q > 0,
                ;
            } else {
                assert(b * q >= 0) by (nonlinear_arith)
                    requires
                        b >= 0,
                        q > 0,
                ;
            }
        }
        return false;
    }
    if a < 0 {
        assert((-a) == (-b) * q <==> a == b * q) by (nonlinear_arith);
        shifted((-a) as u128, (-b) as u128, m - n)
    } else {
        shifted(a as u128, b as u128, m - n)
    }
}

impl PartialEq for Decimal {
    fn eq(&self, other: &Self) -> (r: bool) {
        proof {
            use_type_invariant(self);
            use_type_invariant(other);
        }
        equal_numbers(self.mantissa, self.scale, other.mantissa, other.scale)
    }
}

impl vstd::std_specs::cmp::PartialEqSpecImpl for Decimal {
    open spec fn obeys_eq_spec() -> bool {
        true
    }

    open spec fn eq_spec(&self, other: &Self) -> bool {
        same_number(
            self.digits() as int,
            self.places() as nat,
            other.digits() as int,
            other.places() as nat,
        )
    }
}

impl Decimal {
    #[verifier::type_invariant]
    spec fn inv(&self) -> bool {
        decimal_valid(self.mantissa as int, self.scale as int)
    }

    pub closed spec fn digits(&self) -> i128 {
        self.mantissa
    }

    pub closed spec fn places(&self) -> u32 {
        self.scale
    }

    /// The decimal with this mantissa and scale, or why there is none.
    pub fn try_from_i128_with_scale(mantissa: i128, scale: u32) -> (r: Result<Self, String>)
        ensures
            match r {
                Ok(d) => decimal_valid(mantissa as int, scale as int) && d.digits() == mantissa
                    && d.places() == scale,
                Err(e) => !decimal_valid(mantissa as int, scale as int) && e@ == decimal_error(
                    mantissa as int,
                    scale as int,
                ),
            },
    {
        match bounded(mantissa, scale) {
            Ok((mantissa, scale)) => Ok(Decimal { mantissa, scale }),
            Err(e) => Err(e),
        }
    }

    /// The whole number `n`.
    pub fn from_integer(n: i64) -> (d: Self)
        ensures
            d.digits() == n,
            d.places() == 0,
    {
        Decimal { mantissa: n as i128, scale: 0 }
    }

    pub fn mantissa(&self) -> (r: i128)
        ensures
            r == self.digits(),
            decimal_valid(r as int, self.places() as int),
    {
        proof {
            use_type_invariant(self);
        }
        self.mantissa
    }

    pub fn scale(&self) -> (r: u32)
        ensures
            r == self.places(),
            r <= 28,
    {
        proof {
            use_type_invariant(self);
        }
        self.scale
    }
}

// ---------------------------------------------------------------------------
// Big-endian two's complement
// ---------------------------------------------------------------------------

/// The number of values of `n` bytes.
pub open spec fn span(n: nat) -> int
    decreases n,
{
    if n == 0 {
        1
    } else {
        span((n - 1) as nat) * 256
    }
}

/// The unsigned big-endian value of `b`.
pub open spec fn unsigned_be(b: Seq<u8>) -> int
    decreases b.len(),
{
    if b.len() == 0 {
        0
    } else {
        unsigned_be(b.drop_last()) * 256 + b.last()
    }
}

/// The big-endian two's-complement value of `b`.
pub open spec fn signed_be(b: Seq<u8>) -> int {
    if b.len() > 0 && b[0] >= 0x80 {
        unsigned_be(b) - span(b.len())
    } else {
        unsigned_be(b)
    }
}

proof fn lemma_span_sixteen()
    ensures
        span(15) == 0x1_0000_0000_0000_0000_0000_0000_0000_00int,
        span(16) == 0x1_0000_0000_0000_0000_0000_0000_0000_0000int,
{
    reveal_with_fuel(span, 17);
}

proof fn lemma_span_grows(n: nat, m: nat)
    requires
        n <= m,
    ensures
        0 < span(n) <= span(m),
    decreases m,
{
    if n < m {
        lemma_span_grows(n, (m - 1) as nat);
    } else if n > 0 {
        lemma_span_grows((n - 1) as nat, (n - 1) as nat);
    }
}

/// The leading byte bounds the value of the whole.
proof fn lemma_leading_byte(b: Seq<u8>)
    requires
        b.len() > 0,
    ensures
        b[0] * span((b.len() - 1) as nat) <= unsigned_be(b),
        unsigned_be(b) < (b[0] + 1) * span((b.len() - 1) as nat),
    decreases b.len(),
{
    reveal_with_fuel(unsigned_be, 2);
    if b.len() > 1 {
        let c = b.drop_last();
        lemma_leading_byte(c);
        let s = span((c.len() - 1) as nat);
        let first = b[0] as int;
        assert(span((b.len() - 1) as nat) == s * 256);
        assert(first * (s * 256) == (first * s) * 256) by (nonlinear_arith);
        assert((first + 1) * (s * 256) == ((first + 1) * s) * 256) by (nonlinear_arith);
    }
}

/// The value of big-endian two's-complement bytes, at most sixteen of them.
pub fn from_be_signed(b: &Vec<u8>) -> (r: i128)
    requires
        b.len() <= 16,
    ensures
        r == signed_be(b@),
{
    let negative = b.len() > 0 && b[0] >= 0x80;
    let mut acc: i128 = if negative {
        -1
    } else {
        0
    };
    assert(b@.take(0) =~= Seq::empty());
    for i in 0..b.len()
        invariant
            b.len() <= 16,
            negative == (b.len() > 0 && b@[0] >= 0x80),
            acc == unsigned_be(b@.take(i as int)) - (if negative {
                span(i as nat)
            } else {
                0
            }),
            i > 0 ==> -span((i - 1) as nat) * 128 <= acc < span((i - 1) as nat) * 128,
    {
        let ghost head = b@.take(i + 1);
        assert(head.drop_last() =~= b@.take(i as int));
        assert(head.last() == b@[i as int]);
        proof {
            lemma_span_sixteen();
            if i > 0 {
                lemma_span_grows((i - 1) as nat, 14);
                lemma_leading_byte(head);
                let s = span(i as nat);
                let first = head[0] as int;
                assert(first == b@[0]);
                assert(span((i + 1) as nat) == s * 256);
                if negative {
                    assert(first * s >= 128 * s) by (nonlinear_arith)
                        requires
                            first >= 128,
                            s > 0,
                    ;
                    assert((first + 1) * s <= 256 * s) by (nonlinear_arith)
                        requires
                            first <= 255,
                            s > 0,
                    ;
                } else {
                    assert((first + 1) * s <= 128 * s) by (nonlinear_arith)
                        requires
                            first <= 127,
                            s > 0,
                    ;
                    assert(0 <= first * s) by (nonlinear_arith)
                        requires
                            first >= 0,
                            s > 0,
                    ;
                }
            } else {
                reveal_with_fuel(span, 3);
                reveal_with_fuel(unsigned_be, 3);
            }
        }
        acc = acc * 256 + b[i] as i128;
    }
    assert(b@.take(b.len() as int) =~= b@);
    acc
}

/// The `n` big-endian bytes of `u`.
pub open spec fn be_bytes(u: int, n: nat) -> Seq<u8>
    decreases n,
{
    if n == 0 {
        Seq::empty()
    } else {
        be_bytes(u / 256, (n - 1) as nat).push((u % 256) as u8)
    }
}

proof fn lemma_be_bytes(u: int, n: nat)
    requires
        0 <= u < span(n),
    ensures
        be_bytes(u, n).len() == n,
        unsigned_be(be_bytes(u, n)) == u,
    decreases n,
{
    if n > 0 {
        lemma_be_bytes(u / 256, (n - 1) as nat);
        assert(be_bytes(u, n).drop_last() =~= be_bytes(u / 256, (n - 1) as nat));
    }
}

fn push_be(out: &mut Vec<u8>, u: u128, n: usize)
    ensures
        final(out)@ == old(out)@ + be_bytes(u as int, n as nat),
    decreases n,
{
    if n > 0 {
        push_be(out, u / 256, n - 1);
        out.push((u % 256) as u8);
    }
    assert(out@ =~= old(out)@ + be_bytes(u as int, n as nat));
}

/// The sixteen big-endian two's-complement bytes of `m`.
pub open spec fn wide_bytes(m: int) -> Seq<u8> {
    be_bytes(
        if m < 0 {
            m + span(16)
        } else {
            m
        },
        16,
    )
}

/// The sixteen bytes of a 128-bit number read back as the number.
pub proof fn law_wide_bytes_read_back(m: int)
    requires
        i128::MIN <= m <= i128::MAX,
    ensures
        wide_bytes(m).len() == 16,
        signed_be(wide_bytes(m)) == m,
{
    let u = if m < 0 {
        m + span(16)
    } else {
        m
    };
    lemma_span_sixteen();
    lemma_be_bytes(u, 16);
    lemma_leading_byte(wide_bytes(m));
}

/// The sixteen big-endian two's-complement bytes of `m`.
pub fn to_be_signed(m: i128) -> (b: Vec<u8>)
    ensures
        b@ == wide_bytes(m as int),
        b.len() == 16,
        signed_be(b@) == m,
{
    let u: u128 = if m < 0 {
        (m + i128::MAX + 1) as u128 + 0x8000_0000_0000_0000_0000_0000_0000_0000u128
    } else {
        m as u128
    };
    let mut out: Vec<u8> = Vec::new();
    push_be(&mut out, u, 16);
    proof {
        lemma_span_sixteen();
        assert(out@ =~= be_bytes(u as int, 16));
        law_wide_bytes_read_back(m as int);
    }
    out
}

/// Reading the bytes of a number gives the number, and sixteen bytes that read as a number
/// are the bytes of that number: the wire form and the number determine each other.
pub proof fn law_be_bytes_determine_the_number(a: Seq<u8>, b: Seq<u8>)
    requires
        a.len() == b.len(),
        signed_be(a) == signed_be(b),
    ensures
        a == b,
    decreases a.len(),
{
    if a.len() > 0 {
        lemma_leading_byte(a);
        lemma_leading_byte(b);
        lemma_span_grows(0, (a.len() - 1) as nat);
        let s = span((a.len() - 1) as nat);
        let x = a[0] as int;
        let y = b[0] as int;
        assert(span(a.len()) == s * 256);
        let p = if x >= 128 { x - 256 } else { x };
        let q = if y >= 128 { y - 256 } else { y };
        assert(p * s == x * s - (if x >= 128 { s * 256 } else { 0 })) by (nonlinear_arith)
            requires
                p == (if x >= 128 { x - 256 } else { x }),
        ;
        assert(q * s == y * s - (if y >= 128 { s * 256 } else { 0 })) by (nonlinear_arith)
            requires
                q == (if y >= 128 { y - 256 } else { y }),
        ;
        assert((x + 1) * s == x * s + s) by (nonlinear_arith);
        assert((y + 1) * s == y * s + s) by (nonlinear_arith);
        assert(p == q) by (nonlinear_arith)
            requires
                s > 0,
                p * s < q * s + s,
                q * s < p * s + s,
        ;
        assert(unsigned_be(a) == unsigned_be(b));
        lemma_unsigned_determines(a, b);
    }
    assert(a =~= b);
}

proof fn lemma_unsigned_determines(a: Seq<u8>, b: Seq<u8>)
    requires
        a.len() == b.len(),
        unsigned_be(a) == unsigned_be(b),
    ensures
        a == b,
    decreases a.len(),
{
    if a.len() > 0 {
        assert(a.last() == b.last());
        lemma_unsigned_determines(a.drop_last(), b.drop_last());
        assert(a =~= a.drop_last().push(a.last()));
        assert(b =~= b.drop_last().push(b.last()));
    }
    assert(a =~= b);
}

/// A decimal has up to 28 places and digits that fit 96 bits, of either sign.
pub proof fn law_decimals_fit_ninety_six_bits(mantissa: int, scale: int)
    ensures
        decimal_valid(mantissa, scale) <==> -0x1_0000_0000_0000_0000_0000_0000int < mantissa
            < 0x1_0000_0000_0000_0000_0000_0000int && 0 <= scale <= 28,
{
}

/// Big-endian bytes are read from the highest to the lowest; signed ones as two's complement,
/// which differs by the span of their width where the first bit is set.
pub proof fn law_bytes_are_read_big_endian(b: Seq<u8>, x: u8)
    ensures
        unsigned_be(Seq::empty()) == 0,
        unsigned_be(b.push(x)) == unsigned_be(b) * 256 + x,
        signed_be(b) == if b.len() > 0 && b[0] >= 128 {
            unsigned_be(b) - pow(256, b.len())
        } else {
            unsigned_be(b)
        },
{
    assert(b.push(x).drop_last() =~= b);
    lemma_span_is_a_power(b.len());
}

proof fn lemma_span_is_a_power(n: nat)
    ensures
        span(n) == pow(256, n),
    decreases n,
{
    vstd::arithmetic::power::lemma_pow0(256);
    if n > 0 {
        lemma_span_is_a_power((n - 1) as nat);
        assert(pow(256, n) == 256 * pow(256, (n - 1) as nat)) by {
            reveal(pow);
        }
    }
}

/// Two decimals are equal exactly when they are the same number: with trailing zeros or
/// without.
pub proof fn law_trailing_zeros_do_not_matter(a: int, m: nat, k: nat)
    ensures
        same_number(a, m, a * pow(10, k), m + k),
{
    vstd::arithmetic::power::lemma_pow_adds(10, m, k);
    assert(a * pow(10, m + k) == (a * pow(10, k)) * pow(10, m)) by (nonlinear_arith)
        requires
            pow(10, m + k) == pow(10, m) * pow(10, k),
    ;
}

} // verus!
