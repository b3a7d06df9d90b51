//! A portion of an amount, the portion being a double: what double arithmetic
//! makes of their product, to the nearest whole amount.
use crate::json::{Json, JsonView};
use crate::numeric::INFINITY_BITS;
use crate::ratio;
use crate::ratio::{
    round_quotient, to_double, two_to, NEGATIVE_INFINITY_BITS, NEGATIVE_ZERO_BITS, ONE_BITS, TWO_52,
    TWO_53,
};
use crate::text;
use vstd::arithmetic::power2::*;
use vstd::prelude::*;

verus! {

/// The integer and the power of two whose product is the double of these bits,
/// for a finite double that is not negative.
pub open spec fn double_parts(bits: u64) -> (nat, int) {
    if bits < TWO_52 {
        (bits as nat, -1074)
    } else {
        ((TWO_52 + bits % TWO_52) as nat, bits / TWO_52 - 1075)
    }
}

/// `mantissa * 2^exponent` to the nearest integer, upwards from halfway.
pub open spec fn rounded_up(mantissa: nat, exponent: int) -> nat {
    if exponent >= 0 {
        mantissa * pow2(exponent as nat)
    } else {
        (mantissa + pow2((-exponent - 1) as nat)) / pow2((-exponent) as nat)
    }
}

/// The double of these bits times an amount, as a double, to the nearest whole
/// amount. What is negative or no number gives zero, and what is beyond all
/// amounts the greatest one.
pub open spec fn portion(bits: u64, amount: u64) -> u64 {
    if bits > INFINITY_BITS || amount == 0 {
        0
    } else if bits == INFINITY_BITS {
        u64::MAX
    } else {
        let (mantissa, exponent) = double_parts(bits);
        let product = ratio::nearest_double(mantissa * ratio::nearest_double(amount as nat));
        if rounded_up(product, exponent) > u64::MAX {
            u64::MAX
        } else {
            rounded_up(product, exponent) as u64
        }
    }
}

/// 2^118.
const TWO_118: u128 = 0x40_0000_0000_0000_0000_0000_0000_0000;

proof fn lemma_two_118()
    ensures
        pow2(118) == TWO_118,
{
    lemma2_to64();
    lemma2_to64_rest();
    lemma_pow2_adds(59, 59);
    assert(0x800_0000_0000_0000 * 0x800_0000_0000_0000
        == 0x40_0000_0000_0000_0000_0000_0000_0000) by (nonlinear_arith);
}

/// `x` rounded to the nearest double.
fn nearest_double_of(x: u128) -> (r: u128)
    requires
        x < TWO_118,
    ensures
        r == ratio::nearest_double(x as nat),
        r <= TWO_118,
{
    let mut scale: u128 = 1;
    let mut shift: u64 = 0;
    let mut rest: u128 = x;
    proof {
        lemma2_to64();
        lemma_two_118();
        assert(x * 1 == x);
    }
    while rest >= TWO_53 as u128
        invariant
            ratio::excess_bits(x as nat) == shift + ratio::excess_bits(rest as nat),
            scale == pow2(shift as nat),
            rest as int * scale as int <= x,
            x < (rest + 1) * scale,
            shift <= 65,
            rest < pow2((118 - shift) as nat),
        decreases rest,
    {
        proof {
            lemma_pow2_unfold((shift + 1) as nat);
            lemma_pow2_unfold((118 - shift) as nat);
            lemma2_to64();
            lemma2_to64_rest();
            if shift == 65 {
                assert(false);
            }
            let half = rest / 2;
            assert(half * (2 * scale) <= x && x < (half + 1) * (2 * scale)) by (nonlinear_arith)
                requires
                    rest as int * scale as int <= x,
                    x < (rest + 1) * scale,
                    half == rest / 2,
            ;
            lemma_pow2_strictly_increases(shift as nat, 66);
            lemma_pow2_adds(64, 2);
        }
        rest = rest / 2;
        scale = scale * 2;
        shift = shift + 1;
    }
    proof {
        lemma_pow2_pos(shift as nat);
        if shift < 65 {
            lemma_pow2_strictly_increases(shift as nat, 65);
        }
        lemma2_to64();
        lemma_pow2_adds(64, 1);
    }
    let q: u128 = round_quotient(x, scale);
    proof {
        assert(ratio::excess_bits(rest as nat) == 0);
        assert(q <= rest + 1) by (nonlinear_arith)
            requires
                q == ratio::nearest(x as nat, scale as nat),
                x < (rest + 1) * scale,
                scale > 0,
        ;
        lemma_pow2_adds((118 - shift) as nat, shift as nat);
        lemma_two_118();
        let room = pow2((118 - shift) as nat) as int;
        assert(q * scale <= room * scale) by (nonlinear_arith)
            requires
                q <= room,
                scale > 0,
        ;
    }
    q * scale
}

fn round_up(mantissa: u128, exponent: i64) -> (r: u64)
    requires
        mantissa <= TWO_118,
        -1074 <= exponent <= 971,
    ensures
        r == (if rounded_up(mantissa as nat, exponent as int) > u64::MAX {
            u64::MAX
        } else {
            rounded_up(mantissa as nat, exponent as int) as u64
        }),
{
    proof {
        lemma2_to64();
        lemma2_to64_rest();
        lemma_two_118();
    }
    if exponent >= 0 {
        if mantissa == 0 {
            assert(0 * pow2(exponent as nat) == 0);
            return 0;
        }
        let ghost p = pow2(exponent as nat);
        proof {
            lemma_pow2_pos(exponent as nat);
        }
        if mantissa > 0xFFFF_FFFF_FFFF_FFFF {
            assert(mantissa as nat * p >= mantissa) by (nonlinear_arith)
                requires
                    p >= 1,
            ;
            return u64::MAX;
        }
        if exponent >= 64 {
            proof {
                if exponent > 64 {
                    lemma_pow2_strictly_increases(64, exponent as nat);
                }
                assert(mantissa as nat * p >= p) by (nonlinear_arith)
                    requires
                        mantissa >= 1,
                ;
            }
            return u64::MAX;
        }
        let scale: u128 = two_to(exponent as u64);
        proof {
            lemma_pow2_strictly_increases(exponent as nat, 64);
            assert(mantissa * scale <= 0xFFFF_FFFF_FFFF_FFFF * 0xFFFF_FFFF_FFFF_FFFF) by (
            nonlinear_arith)
                requires
                    mantissa <= 0xFFFF_FFFF_FFFF_FFFF,
                    scale <= 0xFFFF_FFFF_FFFF_FFFF,
            ;
        }
        let whole: u128 = mantissa * scale;
        if whole > 0xFFFF_FFFF_FFFF_FFFF {
            u64::MAX
        } else {
            whole as u64
        }
    } else {
        let k: u64 = (-exponent) as u64;
        proof {
            lemma_pow2_unfold(k as nat);
            lemma_pow2_pos(k as nat);
        }
        if k > 120 {
            proof {
                lemma_pow2_strictly_increases(118, (k - 1) as nat);
                let half = pow2((k - 1) as nat);
                let p = pow2(k as nat);
                assert((mantissa as nat + half) / p == 0) by (nonlinear_arith)
                    requires
                        mantissa < half,
                        p == 2 * half,
                        half > 0,
                ;
            }
            return 0;
        }
        let half: u128 = two_to(k - 1);
        let scale: u128 = two_to(k);
        let whole: u128 = (mantissa + half) / scale;
        if whole > 0xFFFF_FFFF_FFFF_FFFF {
            u64::MAX
        } else {
            whole as u64
        }
    }
}

fn to_double_parts(bits: u64) -> (r: (u64, i64))
    requires
        bits < INFINITY_BITS,
    ensures
        r.0 == double_parts(bits).0,
        r.1 == double_parts(bits).1,
        r.0 < 0x20_0000_0000_0000,
        -1074 <= r.1 <= 971,
{
    if bits < TWO_52 {
        (bits, -1074)
    } else {
        (TWO_52 + bits % TWO_52, (bits / TWO_52) as i64 - 1075)
    }
}

/// The double of these bits times an amount, to the nearest whole amount.
pub fn portion_of(bits: u64, amount: u64) -> (r: u64)
    ensures
        r == portion(bits, amount),
{
    if bits > INFINITY_BITS || amount == 0 {
        return 0;
    }
    if bits == INFINITY_BITS {
        return u64::MAX;
    }
    let (mantissa, exponent) = to_double_parts(bits);
    let double: u128 = to_double(amount);
    assert(mantissa as u128 * double <= 0x1F_FFFF_FFFF_FFFF * 0x1_0000_0000_0000_0000) by (
    nonlinear_arith)
        requires
            mantissa as u128 <= 0x1F_FFFF_FFFF_FFFF,
            double <= 0x1_0000_0000_0000_0000,
    ;
    round_up(nearest_double_of(mantissa as u128 * double), exponent)
}

/// Whether the bits are those of no number.
pub open spec fn no_number(bits: u64) -> bool {
    INFINITY_BITS < bits < NEGATIVE_ZERO_BITS || bits > NEGATIVE_INFINITY_BITS
}

/// A double brought into the range from 0 to 1. What is no number stays so.
pub open spec fn clamped_bits(bits: u64) -> u64 {
    if no_number(bits) || bits == NEGATIVE_ZERO_BITS {
        bits
    } else if bits > NEGATIVE_ZERO_BITS {
        0
    } else if bits > ONE_BITS {
        ONE_BITS
    } else {
        bits
    }
}

/// A double brought into the range from 0 to 1.
pub fn clamp_bits(bits: u64) -> (r: u64)
    ensures
        r == clamped_bits(bits),
{
    if (INFINITY_BITS < bits && bits < NEGATIVE_ZERO_BITS) || bits > NEGATIVE_INFINITY_BITS {
        bits
    } else if bits == NEGATIVE_ZERO_BITS {
        bits
    } else if bits > NEGATIVE_ZERO_BITS {
        0
    } else if bits > ONE_BITS {
        ONE_BITS
    } else {
        bits
    }
}

/// A JSON number as a double brought into the range from 0 to 1.
pub open spec fn clamped_number(v: JsonView) -> Option<u64> {
    match v {
        JsonView::Unsigned(n) => Some(
            if n == 0 {
                0
            } else {
                ONE_BITS
            },
        ),
        JsonView::Negative(_) => Some(0),
        JsonView::Real { bits, text } => Some(clamped_bits(bits)),
        _ => None,
    }
}

impl Json {
    /// A JSON number as a double brought into the range from 0 to 1.
    pub fn to_clamped_bits(&self) -> (r: Option<u64>)
        ensures
            r == clamped_number(self.deep_view()),
    {
        match self {
            Json::Unsigned(n) => Some(
                if *n == 0 {
                    0
                } else {
                    ONE_BITS
                },
            ),
            Json::Negative(_) => Some(0),
            Json::Real { bits, text: _ } => Some(clamp_bits(*bits)),
            _ => None,
        }
    }
}

/// A hundred times a double of 0 to 1, itself taken as a double, without
/// decimals.
pub open spec fn whole_percent(bits: u64) -> Seq<char> {
    if no_number(bits) {
        "NaN"@
    } else if bits == NEGATIVE_ZERO_BITS {
        "-0"@
    } else {
        let (mantissa, exponent) = double_parts(bits);
        text::decimal(
            ratio::nearest(ratio::nearest_double(mantissa * 100), pow2((-exponent) as nat)),
        )
    }
}

/// A hundred times a double of 0 to 1 without decimals.
pub fn whole_percent_text(bits: u64) -> (r: String)
    requires
        clamped_bits(bits) == bits,
    ensures
        r@ == whole_percent(bits),
{
    if (INFINITY_BITS < bits && bits < NEGATIVE_ZERO_BITS) || bits > NEGATIVE_INFINITY_BITS {
        return "NaN".to_owned();
    }
    if bits == NEGATIVE_ZERO_BITS {
        return "-0".to_owned();
    }
    let (mantissa, exponent) = to_double_parts(bits);
    let k: u64 = (-exponent) as u64;
    let hundredfold: u128 = to_double(mantissa * 100);
    proof {
        lemma2_to64();
        lemma2_to64_rest();
    }
    if k > 126 {
        proof {
            lemma_pow2_strictly_increases(66, k as nat);
            lemma_pow2_adds(64, 2);
            let p = pow2(k as nat);
            assert(hundredfold as nat / p == 0 && hundredfold as nat % p == hundredfold) by (
            nonlinear_arith)
                requires
                    0 <= hundredfold < p,
            ;
        }
        return text::u64_text(0);
    }
    let scale: u128 = two_to(k);
    let q: u128 = round_quotient(hundredfold, scale);
    proof {
        lemma_pow2_pos(k as nat);
        if k > 52 {
            lemma_pow2_strictly_increases(52, k as nat);
        }
        assert(q <= 0x1_0000) by (nonlinear_arith)
            requires
                q == ratio::nearest(hundredfold as nat, scale as nat),
                hundredfold <= 0x1_0000_0000_0000_0000,
                scale >= 0x10_0000_0000_0000,
        ;
    }
    text::u64_text(q as u64)
}

/// The whole of an amount that a double holds exactly is the amount itself.
pub proof fn lemma_whole_portion(amount: u64)
    requires
        amount < TWO_53,
    ensures
        portion(ONE_BITS, amount) == amount,
        portion(0, amount) == 0,
{
    lemma2_to64();
    lemma2_to64_rest();
    if amount > 0 {
        let a = amount as nat;
        assert(ratio::excess_bits(a) == 0);
        assert(ratio::nearest_double(a) == a);
        assert(double_parts(ONE_BITS) == (TWO_52 as nat, -52int));
        lemma_shifted_is_exact(a, 52);
        assert(TWO_52 as nat * a == a * pow2(52));
        let product = a * pow2(52);
        let half = pow2(51);
        assert((product + half) / pow2(52) == a) by (nonlinear_arith)
            requires
                product == a * 0x10_0000_0000_0000,
                half == 0x8_0000_0000_0000,
                pow2(52) == 0x10_0000_0000_0000,
        ;
        assert(double_parts(0) == (0nat, -1074int));
        assert(0 * ratio::nearest_double(a) == 0);
        assert(ratio::excess_bits(0) == 0);
        assert(ratio::nearest_double(0) == 0);
        lemma_pow2_unfold(1074);
        lemma_pow2_pos(1073);
        let h = pow2(1073);
        let p = pow2(1074);
        assert((0 + h) / p == 0) by (nonlinear_arith)
            requires
                p == 2 * h,
                h > 0,
        ;
    }
}

proof fn lemma_shifted_is_exact(a: nat, k: nat)
    requires
        0 < a < TWO_53,
    ensures
        ratio::nearest_double(a * pow2(k)) == a * pow2(k),
{
    lemma_excess_at_most(a, k);
    let x = a * pow2(k);
    let e = ratio::excess_bits(x);
    lemma_pow2_pos(e);
    lemma_pow2_adds(e, (k - e) as nat);
    let d = pow2(e) as int;
    let rest = pow2((k - e) as nat) as int;
    assert(x == (a * rest) * d) by (nonlinear_arith)
        requires
            x == a * pow2(k),
            pow2(k) == d * rest,
    ;
    assert(x as int / d == a * rest && x as int % d == 0) by (nonlinear_arith)
        requires
            x == (a * rest) * d,
            d > 0,
    ;
}

proof fn lemma_excess_at_most(a: nat, k: nat)
    requires
        a < TWO_53,
    ensures
        ratio::excess_bits(a * pow2(k)) <= k,
    decreases k,
{
    if k == 0 {
        lemma2_to64();
        assert(a * pow2(0) == a);
    } else {
        lemma_pow2_unfold(k);
        lemma_excess_at_most(a, (k - 1) as nat);
        let x = a * pow2(k);
        assert(x / 2 == a * pow2((k - 1) as nat)) by (nonlinear_arith)
            requires
                x == a * pow2(k),
                pow2(k) == 2 * pow2((k - 1) as nat),
        ;
    }
}

/// Half of an amount that a double holds exactly is half of it, rounded upwards
/// from halfway.
pub proof fn lemma_half_portion(amount: u64)
    requires
        amount < TWO_53,
    ensures
        portion(ratio::HALF_BITS, amount) == (amount + 1) / 2,
{
    lemma2_to64();
    lemma2_to64_rest();
    if amount > 0 {
        let a = amount as nat;
        ratio::lemma_doubles_are_near(a);
        assert(double_parts(ratio::HALF_BITS) == (TWO_52 as nat, -53int));
        lemma_shifted_is_exact(a, 52);
        assert(TWO_52 as nat * a == a * pow2(52));
        let product = a * pow2(52);
        assert((product + pow2(52)) / pow2(53) == (a + 1) / 2) by {
            assert(product == a * 0x10_0000_0000_0000);
            assert((a * 0x10_0000_0000_0000 + 0x10_0000_0000_0000) / 0x20_0000_0000_0000 == (a
                + 1) / 2);
        }
    }
}

/// A portion of a larger amount is no smaller.
pub proof fn lemma_portions_grow(bits: u64, amount: u64, more: u64)
    requires
        amount <= more,
    ensures
        portion(bits, amount) <= portion(bits, more),
{
    if bits < INFINITY_BITS && amount > 0 {
        let (m, e) = double_parts(bits);
        let a = ratio::nearest_double(amount as nat);
        let b = ratio::nearest_double(more as nat);
        ratio::lemma_nearest_double_monotone(amount as nat, more as nat);
        assert(m * a <= m * b) by (nonlinear_arith)
            requires
                a <= b,
        ;
        ratio::lemma_nearest_double_monotone(m * a, m * b);
        let x = ratio::nearest_double(m * a);
        let y = ratio::nearest_double(m * b);
        if e >= 0 {
            let p = pow2(e as nat);
            assert(x * p <= y * p) by (nonlinear_arith)
                requires
                    x <= y,
            ;
        } else {
            let p = pow2((-e) as nat);
            let h = pow2((-e - 1) as nat);
            lemma_pow2_pos((-e) as nat);
            assert((x + h) / p <= (y + h) / p) by (nonlinear_arith)
                requires
                    x <= y,
                    p > 0,
            ;
        }
    }
}

/// A portion from nought to one is off the product by one at most, for amounts
/// up to 2^52, and the amount is not exceeded by more than that.
pub proof fn lemma_portions_are_near(bits: u64, amount: u64)
    requires
        TWO_52 <= bits <= ONE_BITS,
        0 < amount <= TWO_52,
    ensures
        ({
            let down = 1075 - bits / 0x10_0000_0000_0000;
            let significand = 0x10_0000_0000_0000 + bits % 0x10_0000_0000_0000;
            let scale = pow2(down as nat);
            &&& portion(bits, amount) * scale - significand * amount <= scale
            &&& significand * amount - portion(bits, amount) * scale <= scale
        }),
{
    lemma2_to64();
    lemma2_to64_rest();
    let (m, e) = double_parts(bits);
    let k = (-e) as nat;
    let a = amount as nat;
    let p = pow2(k);
    let h = pow2((k - 1) as nat);
    lemma_pow2_unfold(k);
    lemma_pow2_pos((k - 1) as nat);
    if bits < ONE_BITS {
        assert(k >= 53);
        if k > 53 {
            lemma_pow2_strictly_increases(53, k);
        }
    }
    assert(m <= p);
    ratio::lemma_doubles_are_near(a);
    ratio::lemma_doubles_are_near(m * a);
    let exact = m * a;
    assert(exact <= p * 0x10_0000_0000_0000) by (nonlinear_arith)
        requires
            exact == m * a,
            m <= p,
            a <= 0x10_0000_0000_0000,
    ;
    let product = ratio::nearest_double(exact);
    let r = (product + h) / p;
    assert(r * p <= product + h && product + h < r * p + p) by (nonlinear_arith)
        requires
            r == (product + h) / p,
            p > 0,
    ;
    assert(r <= u64::MAX) by (nonlinear_arith)
        requires
            r * p <= product + h,
            product <= p * 0x10_0000_0000_0000 + p,
            h <= p,
            p > 0,
    ;
    assert(portion(bits, amount) == r);
}

/// What is brought into the range from 0 to 1 lies there, and what lay there
/// stays. Below it lies nothing but nought, above it nothing but one; what is no
/// number stays none.
pub proof fn lemma_clamping_stays_in_range(bits: u64)
    ensures
        !no_number(bits) ==> ratio::unit_range(clamped_bits(bits) as nat),
        bits <= ONE_BITS || no_number(bits) ==> clamped_bits(bits) == bits,
        ONE_BITS < bits <= INFINITY_BITS ==> clamped_bits(bits) == ONE_BITS,
        NEGATIVE_ZERO_BITS < bits <= NEGATIVE_INFINITY_BITS ==> clamped_bits(bits) == 0,
        clamped_bits(clamped_bits(bits)) == clamped_bits(bits),
{
}

/// A whole number is nought or, brought into the range, one; a negative one is
/// nought; what is no number gives nothing.
pub proof fn lemma_clamped_whole_numbers(v: JsonView)
    ensures
        clamped_number(v) is Some <==> v is Unsigned || v is Negative || v is Real,
        v is Unsigned && v->Unsigned_0 > 0 ==> clamped_number(v) == Some(ONE_BITS),
        v is Unsigned && v->Unsigned_0 == 0 || v is Negative ==> clamped_number(v) == Some(0u64),
{
}

/// A percentage without decimals is a whole number, off a hundred times the value
/// by half a unit at most, and by what a double loses on the hundredfold.
pub proof fn lemma_percentages_are_near(bits: u64)
    requires
        TWO_52 <= bits <= ONE_BITS,
    ensures
        exists|n: nat|
            {
                let down = 1075 - bits / 0x10_0000_0000_0000;
                let hundredfold = 100 * (0x10_0000_0000_0000 + bits % 0x10_0000_0000_0000);
                let scale = pow2(down as nat);
                &&& whole_percent(bits) == #[trigger] text::decimal(n)
                &&& 0x40_0000_0000_0000 * (n * scale - hundredfold) <= 0x20_0000_0000_0000 * scale
                    + 2 * hundredfold
                &&& 0x40_0000_0000_0000 * (hundredfold - n * scale) <= 0x20_0000_0000_0000 * scale
                    + 2 * hundredfold
            },
{
    let (m, e) = double_parts(bits);
    let k = (-e) as nat;
    lemma_pow2_pos(k);
    let p = pow2(k);
    let h = ratio::nearest_double(m * 100);
    let n = ratio::nearest(h, p);
    ratio::lemma_doubles_are_near(m * 100);
    ratio::lemma_rounding_is_to_the_nearest(h, p);
    assert(whole_percent(bits) == text::decimal(n));
    let exact = m * 100;
    let np = n * p;
    assert(0x40_0000_0000_0000 * (np - exact) <= 0x20_0000_0000_0000 * p + 2 * exact);
    assert(0x40_0000_0000_0000 * (exact - np) <= 0x20_0000_0000_0000 * p + 2 * exact);
}

} // verus!
