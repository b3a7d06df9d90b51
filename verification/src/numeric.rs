//! What a JSON number denotes as a double: the tests that evidence must pass,
//! and the decimal forms in which it is quoted.
use crate::json::{Json, JsonView};
use crate::ratio;
use crate::ratio::{round_quotient, to_double, two_to, NEGATIVE_ZERO_BITS, ONE_BITS, TWO_52};
use crate::text;
use vstd::arithmetic::power2::*;
use vstd::prelude::*;

verus! {

/// The bits of infinity; below it lie the finite numbers that are not negative.
pub const INFINITY_BITS: u64 = 0x7FF0_0000_0000_0000;

/// Whether the value is a number from 0 to 1.
pub open spec fn unit_number(v: JsonView) -> bool {
    match v {
        JsonView::Unsigned(n) => n <= 1,
        JsonView::Real { bits, text } => ratio::unit_range(bits as nat),
        _ => false,
    }
}

/// Whether the value is a finite number that is not below zero.
pub open spec fn non_negative_number(v: JsonView) -> bool {
    match v {
        JsonView::Unsigned(n) => true,
        JsonView::Real { bits, text } => bits < INFINITY_BITS || bits == NEGATIVE_ZERO_BITS,
        _ => false,
    }
}

/// Whether the value is a finite number above zero.
pub open spec fn positive_number(v: JsonView) -> bool {
    match v {
        JsonView::Unsigned(n) => n > 0,
        JsonView::Real { bits, text } => 0 < bits < INFINITY_BITS,
        _ => false,
    }
}

/// The integer and the power of two whose product is the value of a finite
/// number that is not negative.
pub open spec fn parts(v: JsonView) -> (nat, int) {
    match v {
        JsonView::Unsigned(n) => (ratio::nearest_double(n as nat), 0),
        JsonView::Real { bits, text } => if bits == NEGATIVE_ZERO_BITS {
            (0, 0)
        } else if bits < TWO_52 {
            (bits as nat, -1074)
        } else {
            ((TWO_52 + bits % TWO_52) as nat, bits / TWO_52 - 1075)
        },
        _ => (0, 0),
    }
}

/// `mantissa * 2^exponent` without its fraction.
pub open spec fn whole_part(mantissa: nat, exponent: int) -> nat {
    if exponent >= 0 {
        mantissa * pow2(exponent as nat)
    } else {
        mantissa / pow2((-exponent) as nat)
    }
}

/// Whether `mantissa * 2^exponent` is an integer.
pub open spec fn integral(mantissa: nat, exponent: int) -> bool {
    exponent >= 0 || mantissa % pow2((-exponent) as nat) == 0
}

/// The value as an integer of 64 bits: its whole part, or the greatest such
/// integer where it is beyond all of them.
pub open spec fn truncated(v: JsonView) -> u64 {
    let (mantissa, exponent) = parts(v);
    if whole_part(mantissa, exponent) > u64::MAX {
        u64::MAX
    } else {
        whole_part(mantissa, exponent) as u64
    }
}

/// The value of a positive integer below 2^64.
pub open spec fn positive_integer(v: JsonView) -> Option<u64> {
    let (mantissa, exponent) = parts(v);
    if positive_number(v) && integral(mantissa, exponent) && whole_part(mantissa, exponent)
        <= u64::MAX {
        Some(whole_part(mantissa, exponent) as u64)
    } else {
        None
    }
}

impl Json {
    /// Whether the value is a number from 0 to 1.
    pub fn is_unit_number(&self) -> (r: bool)
        ensures
            r == unit_number(self.deep_view()),
    {
        match self {
            Json::Unsigned(n) => *n <= 1,
            Json::Real { bits, text: _ } => *bits <= ONE_BITS || *bits == NEGATIVE_ZERO_BITS,
            _ => false,
        }
    }

    /// Whether the value is a finite number that is not below zero.
    pub fn is_non_negative_number(&self) -> (r: bool)
        ensures
            r == non_negative_number(self.deep_view()),
    {
        match self {
            Json::Unsigned(_) => true,
            Json::Real { bits, text: _ } => *bits < INFINITY_BITS || *bits == NEGATIVE_ZERO_BITS,
            _ => false,
        }
    }

    /// Whether the value is a finite number above zero.
    pub fn is_positive_number(&self) -> (r: bool)
        ensures
            r == positive_number(self.deep_view()),
    {
        match self {
            Json::Unsigned(n) => *n > 0,
            Json::Real { bits, text: _ } => 0 < *bits && *bits < INFINITY_BITS,
            _ => false,
        }
    }

    /// The integer and the power of two whose product is the value.
    fn to_parts(&self) -> (r: (u128, i64))
        requires
            non_negative_number(self.deep_view()),
        ensures
            r.0 == parts(self.deep_view()).0,
            r.1 == parts(self.deep_view()).1,
            r.0 <= 0x1_0000_0000_0000_0000,
            r.1 > 0 ==> r.0 < 0x20_0000_0000_0000,
            r.1 < 0 ==> r.0 < 0x20_0000_0000_0000,
            -1074 <= r.1 <= 971,
    {
        match self {
            Json::Unsigned(n) => (to_double(*n), 0),
            Json::Real { bits, text: _ } => if *bits == NEGATIVE_ZERO_BITS {
                (0, 0)
            } else if *bits < TWO_52 {
                (*bits as u128, -1074)
            } else {
                ((TWO_52 + *bits % TWO_52) as u128, (*bits / TWO_52) as i64 - 1075)
            },
            _ => (0, 0),
        }
    }

    /// The value as an integer of 64 bits.
    pub fn to_truncated(&self) -> (r: u64)
        requires
            non_negative_number(self.deep_view()),
        ensures
            r == truncated(self.deep_view()),
    {
        let (mantissa, exponent) = self.to_parts();
        let whole: u128 = whole_of(mantissa, exponent);
        if whole > 0xFFFF_FFFF_FFFF_FFFF {
            u64::MAX
        } else {
            whole as u64
        }
    }

    /// The value of a positive integer below 2^64.
    pub fn to_positive_integer(&self) -> (r: Option<u64>)
        ensures
            r == positive_integer(self.deep_view()),
    {
        if !self.is_positive_number() {
            return None;
        }
        let (mantissa, exponent) = self.to_parts();
        if !is_integral(mantissa, exponent) {
            return None;
        }
        let whole: u128 = whole_of(mantissa, exponent);
        if whole > 0xFFFF_FFFF_FFFF_FFFF {
            None
        } else {
            Some(whole as u64)
        }
    }
}

/// The whole part of `mantissa * 2^exponent`, or any number beyond 64 bits where
/// it is beyond them.
fn whole_of(mantissa: u128, exponent: i64) -> (r: u128)
    requires
        mantissa <= 0x1_0000_0000_0000_0000,
        exponent > 0 ==> mantissa < 0x20_0000_0000_0000,
        -1074 <= exponent <= 971,
    ensures
        r <= u64::MAX ==> r == whole_part(mantissa as nat, exponent as int),
        r > u64::MAX ==> whole_part(mantissa as nat, exponent as int) > u64::MAX,
{
    proof {
        lemma2_to64();
        lemma2_to64_rest();
    }
    if exponent >= 0 {
        if mantissa == 0 {
            return 0;
        }
        if exponent >= 64 {
            proof {
                if exponent > 64 {
                    lemma_pow2_strictly_increases(64, exponent as nat);
                }
                let p = pow2(exponent as nat);
                assert(mantissa as nat * p >= p) by (nonlinear_arith)
                    requires
                        mantissa >= 1,
                ;
            }
            return 0x1_0000_0000_0000_0000;
        }
        let scale: u128 = two_to(exponent as u64);
        proof {
            if exponent == 0 {
                assert(mantissa * scale == mantissa) by (nonlinear_arith)
                    requires
                        scale == 1,
                ;
            } else {
                lemma_pow2_strictly_increases(exponent as nat, 64);
                assert(mantissa * scale <= 0x20_0000_0000_0000 * 0x1_0000_0000_0000_0000) by (
                nonlinear_arith)
                    requires
                        mantissa < 0x20_0000_0000_0000,
                        scale <= 0x1_0000_0000_0000_0000,
                ;
            }
        }
        mantissa * scale
    } else {
        let k: u64 = (-exponent) as u64;
        if k > 126 {
            proof {
                lemma_pow2_strictly_increases(64, k as nat);
                lemma_pow2_strictly_increases(65, k as nat);
                lemma_pow2_unfold(65);
                let p = pow2(k as nat);
                assert(mantissa as nat / p == 0) by (nonlinear_arith)
                    requires
                        0 <= mantissa < p,
                ;
            }
            return 0;
        }
        let scale: u128 = two_to(k);
        mantissa / scale
    }
}

fn is_integral(mantissa: u128, exponent: i64) -> (r: bool)
    requires
        mantissa <= 0x1_0000_0000_0000_0000,
        -1074 <= exponent <= 971,
    ensures
        r == integral(mantissa as nat, exponent as int),
{
    if exponent >= 0 {
        return true;
    }
    let k: u64 = (-exponent) as u64;
    if k > 126 {
        proof {
            lemma2_to64();
            lemma_pow2_strictly_increases(65, k as nat);
            lemma_pow2_unfold(65);
            let p = pow2(k as nat);
            assert(mantissa as nat % p == mantissa) by (nonlinear_arith)
                requires
                    0 <= mantissa < p,
            ;
        }
        return mantissa == 0;
    }
    let scale: u128 = two_to(k);
    mantissa % scale == 0
}

/// `num / 2^k` to the nearest integer, ties to even.
fn round_binary(num: u128, k: u64) -> (r: u128)
    requires
        num <= 0x1_0000_0000_0000_0000_0000_0000,
    ensures
        r == ratio::nearest(num as nat, pow2(k as nat)),
        r <= num,
{
    if k > 126 {
        proof {
            lemma2_to64();
            lemma_pow2_strictly_increases(98, k as nat);
            lemma_pow2_adds(64, 34);
            lemma2_to64_rest();
            let p = pow2(k as nat);
            assert(num as nat / p == 0 && num as nat % p == num) by (nonlinear_arith)
                requires
                    0 <= num < p,
            ;
        }
        return 0;
    }
    let scale: u128 = two_to(k);
    let r: u128 = round_quotient(num, scale);
    assert(r <= num) by (nonlinear_arith)
        requires
            r == ratio::nearest(num as nat, scale as nat),
            scale >= 1,
            num >= 0,
    ;
    r
}

/// A number of 0 to 1 in ten-thousandths, to the nearest, ties to even.
pub open spec fn ten_thousandths(v: JsonView) -> nat {
    let (mantissa, exponent) = parts(v);
    ratio::nearest(mantissa * 10000, pow2((-exponent) as nat))
}

/// A hundred times a number of 0 to 1, itself taken as a double, in tenths.
pub open spec fn percent_tenths(v: JsonView) -> nat {
    let (mantissa, exponent) = parts(v);
    ratio::nearest(
        ratio::nearest_double(mantissa * 100) * 10,
        pow2((-exponent) as nat),
    )
}

/// `n` ten-thousandths with four decimals.
pub open spec fn fixed_4(n: nat) -> Seq<char> {
    text::decimal(n / 10000) + seq![
        '.',
        text::digit_char(n / 1000 % 10),
        text::digit_char(n / 100 % 10),
        text::digit_char(n / 10 % 10),
        text::digit_char(n % 10),
    ]
}

/// `n` tenths with one decimal.
pub open spec fn fixed_1(n: nat) -> Seq<char> {
    text::decimal(n / 10) + seq!['.', text::digit_char(n % 10)]
}

/// The sign of a number that is not below zero: zero may have one.
pub open spec fn zero_sign(v: JsonView) -> Seq<char> {
    match v {
        JsonView::Real { bits, text } => if bits == NEGATIVE_ZERO_BITS {
            seq!['-']
        } else {
            seq![]
        },
        _ => seq![],
    }
}

/// A number of 0 to 1 with four decimals.
pub open spec fn four_decimals(v: JsonView) -> Seq<char> {
    zero_sign(v) + fixed_4(ten_thousandths(v))
}

/// A hundred times a number of 0 to 1, with one decimal.
pub open spec fn percent(v: JsonView) -> Seq<char> {
    zero_sign(v) + fixed_1(percent_tenths(v))
}

fn digit(n: u64) -> (r: char)
    requires
        n < 10,
    ensures
        r == text::digit_char(n as nat),
{
    (48u8 + n as u8) as char
}

proof fn lemma_unit_parts(v: JsonView)
    requires
        unit_number(v),
    ensures
        parts(v).1 <= 0,
        parts(v).0 <= pow2((-parts(v).1) as nat),
        parts(v).0 < 0x20_0000_0000_0000,
{
    lemma2_to64();
    lemma2_to64_rest();
    match v {
        JsonView::Unsigned(n) => {
            ratio::lemma_nearest_double_bound(n as nat);
            assert(ratio::excess_bits(n as nat) == 0);
            let unit = pow2(0);
            let one = ratio::nearest(n as nat, unit);
            assert(one == n);
            assert(one * unit == n) by (nonlinear_arith)
                requires
                    one == n,
                    unit == 1,
            ;
        },
        JsonView::Real { bits, text } => {
            let k = (-parts(v).1) as nat;
            if bits == ONE_BITS {
                assert(parts(v).1 == -52);
            } else if bits == NEGATIVE_ZERO_BITS {
                lemma_pow2_pos(k);
            } else if k > 53 {
                lemma_pow2_strictly_increases(53, k);
            }
        },
        _ => {},
    }
}

proof fn lemma_rounds_below(num: nat, den: nat, bound: nat)
    requires
        num <= bound * den,
        den > 0,
    ensures
        ratio::nearest(num, den) <= bound,
{
    ratio::lemma_nearest_monotone(num, bound * den, den);
    assert((bound * den) / den == bound && (bound * den) % den == 0) by (nonlinear_arith)
        requires
            den > 0,
    ;
}

impl Json {
    fn to_zero_sign(&self) -> (r: String)
        ensures
            r@ == zero_sign(self.deep_view()),
    {
        let mut out = String::new();
        if let Json::Real { bits, text: _ } = self {
            if *bits == NEGATIVE_ZERO_BITS {
                out.push('-');
            }
        }
        assert(out@ =~= zero_sign(self.deep_view()));
        out
    }

    /// A number of 0 to 1 with four decimals.
    pub fn fixed_4_text(&self) -> (r: String)
        requires
            unit_number(self.deep_view()),
        ensures
            r@ == four_decimals(self.deep_view()),
    {
        let (mantissa, exponent) = self.to_parts();
        proof {
            lemma_unit_parts(self.deep_view());
            lemma_pow2_pos((-exponent) as nat);
            lemma_rounds_below(mantissa as nat * 10000, pow2((-exponent) as nat), 10000);
        }
        let q: u64 = round_binary(mantissa * 10000, (-exponent) as u64) as u64;
        let mut out = self.to_zero_sign().concat(text::u64_text(q / 10000).as_str());
        out.push('.');
        out.push(digit(q / 1000 % 10));
        out.push(digit(q / 100 % 10));
        out.push(digit(q / 10 % 10));
        out.push(digit(q % 10));
        assert(out@ =~= zero_sign(self.deep_view()) + fixed_4(q as nat));
        out
    }

    /// A hundred times a number of 0 to 1, with one decimal.
    pub fn percent_text(&self) -> (r: String)
        requires
            unit_number(self.deep_view()),
        ensures
            r@ == percent(self.deep_view()),
    {
        let (mantissa, exponent) = self.to_parts();
        proof {
            lemma_unit_parts(self.deep_view());
        }
        let hundredfold: u128 = to_double((mantissa * 100) as u64);
        proof {
            ratio::lemma_nearest_double_bound(mantissa as nat * 100);
            lemma_pow2_pos((-exponent) as nat);
            lemma_rounds_below(hundredfold as nat * 10, pow2((-exponent) as nat), 2000);
        }
        let q: u64 = round_binary(hundredfold * 10, (-exponent) as u64) as u64;
        let mut out = self.to_zero_sign().concat(text::u64_text(q / 10).as_str());
        out.push('.');
        out.push(digit(q % 10));
        assert(out@ =~= zero_sign(self.deep_view()) + fixed_1(q as nat));
        out
    }
}

/// A whole number below 2^53 is its own whole part, and, if it is some, the
/// positive integer that it is.
pub proof fn lemma_whole_numbers_stay_whole(n: u64)
    requires
        n < 0x20_0000_0000_0000,
    ensures
        truncated(JsonView::Unsigned(n)) == n,
        n > 0 ==> positive_integer(JsonView::Unsigned(n)) == Some(n),
        n == 0 ==> positive_integer(JsonView::Unsigned(n)) is None,
{
    lemma2_to64();
    ratio::lemma_doubles_are_near(n as nat);
    assert(n * 1 == n);
}

/// The whole part of a double below 2^53 is the greatest integer that does not
/// exceed it. The double is a positive integer exactly if it is its own whole
/// part.
pub proof fn lemma_fractions_are_cut_off(bits: u64, text: Seq<char>)
    requires
        TWO_52 <= bits < 1075 * TWO_52,
    ensures
        ({
            let v = JsonView::Real { bits, text };
            let down = 1075 - bits / 0x10_0000_0000_0000;
            let significand = 0x10_0000_0000_0000 + bits % 0x10_0000_0000_0000;
            let scale = pow2(down as nat);
            &&& truncated(v) * scale <= significand < truncated(v) * scale + scale
            &&& positive_integer(v) is Some <==> truncated(v) * scale == significand
            &&& positive_integer(v) is Some ==> positive_integer(v) == Some(truncated(v))
        }),
{
    let v = JsonView::Real { bits, text };
    let (m, e) = parts(v);
    let k = (-e) as nat;
    lemma_pow2_pos(k);
    let p = pow2(k);
    let q = m / p;
    let r = m % p;
    assert(m == q * p + r && 0 <= r < p && q <= m) by (nonlinear_arith)
        requires
            p > 0,
            q == m / p,
            r == m % p,
    ;
}

/// Ten thousandths are off the value by half a unit at most.
pub proof fn lemma_ten_thousandths_are_near(bits: u64, text: Seq<char>)
    requires
        TWO_52 <= bits <= ONE_BITS,
    ensures
        ({
            let n = ten_thousandths(JsonView::Real { bits, text });
            let down = 1075 - bits / 0x10_0000_0000_0000;
            let value = 10_000 * (0x10_0000_0000_0000 + bits % 0x10_0000_0000_0000);
            let scale = pow2(down as nat);
            &&& 2 * (n * scale - value) <= scale
            &&& 2 * (value - n * scale) <= scale
        }),
{
    let (m, e) = parts(JsonView::Real { bits, text });
    lemma_pow2_pos((-e) as nat);
    ratio::lemma_rounding_is_to_the_nearest(m * 10000, pow2((-e) as nat));
}

/// Tenths of a percent are off the value by half a unit at most, and by what a
/// double loses on the hundredfold.
pub proof fn lemma_percent_tenths_are_near(bits: u64, text: Seq<char>)
    requires
        TWO_52 <= bits <= ONE_BITS,
    ensures
        ({
            let n = percent_tenths(JsonView::Real { bits, text });
            let down = 1075 - bits / 0x10_0000_0000_0000;
            let value = 1000 * (0x10_0000_0000_0000 + bits % 0x10_0000_0000_0000);
            let scale = pow2(down as nat);
            &&& 0x40_0000_0000_0000 * (n * scale - value) <= 0x20_0000_0000_0000 * scale + 2
                * value
            &&& 0x40_0000_0000_0000 * (value - n * scale) <= 0x20_0000_0000_0000 * scale + 2
                * value
        }),
{
    let (m, e) = parts(JsonView::Real { bits, text });
    let k = (-e) as nat;
    lemma_pow2_pos(k);
    let p = pow2(k);
    let h = ratio::nearest_double(m * 100);
    let n = ratio::nearest(h * 10, p);
    ratio::lemma_doubles_are_near(m * 100);
    ratio::lemma_rounding_is_to_the_nearest(h * 10, p);
    let exact = m * 100;
    let np = n * p;
    assert(0x40_0000_0000_0000 * (np - 10 * exact) <= 0x20_0000_0000_0000 * p + 20 * exact);
    assert(0x40_0000_0000_0000 * (10 * exact - np) <= 0x20_0000_0000_0000 * p + 20 * exact);
}

proof fn lemma_last_four_digits(n: nat)
    ensures
        n / 1000 % 10 * 1000 + n / 100 % 10 * 100 + n / 10 % 10 * 10 + n % 10 == n % 10_000,
{
    assert(n / 100 == (n / 10) / 10);
    assert(n / 1000 == (n / 100) / 10);
    assert(n / 10_000 == (n / 1000) / 10);
}

/// With four decimals a number of ten thousandths reads as it is: what stands
/// before the point counts ten thousand, and the four digits behind it count
/// what is left.
pub proof fn lemma_four_decimals_read_back(n: nat)
    ensures
        ({
            let s = fixed_4(n);
            let k = s.len() - 5;
            &&& k > 0 && s[k] == '.'
            &&& text::numeral_value(s.take(k), 10) == n / 10_000
            &&& (s[k + 1] as int - 48) * 1000 + (s[k + 2] as int - 48) * 100 + (s[k + 3] as int
                - 48) * 10 + (s[k + 4] as int - 48) == n % 10_000
            &&& forall|i: int| k < i < s.len() ==> '0' <= #[trigger] s[i] <= '9'
        }),
{
    let whole = text::decimal(n / 10_000);
    text::lemma_decimal_reads_back(n / 10_000);
    text::lemma_decimal_has_digits_only(n / 10_000);
    lemma_last_four_digits(n);
    let s = fixed_4(n);
    let k = whole.len() as int;
    assert(s.len() == k + 5);
    assert(s.take(k) =~= whole);
    assert(s[k] == '.');
    assert(s[k + 1] == text::digit_char(n / 1000 % 10));
    assert(s[k + 2] == text::digit_char(n / 100 % 10));
    assert(s[k + 3] == text::digit_char(n / 10 % 10));
    assert(s[k + 4] == text::digit_char(n % 10));
}

/// With one decimal a number of tenths reads as it is.
pub proof fn lemma_one_decimal_reads_back(n: nat)
    ensures
        ({
            let s = fixed_1(n);
            let k = s.len() - 2;
            &&& k > 0 && s[k] == '.'
            &&& text::numeral_value(s.take(k), 10) == n / 10
            &&& s[k + 1] as int - 48 == n % 10
        }),
{
    let whole = text::decimal(n / 10);
    text::lemma_decimal_reads_back(n / 10);
    text::lemma_decimal_has_digits_only(n / 10);
    assert(fixed_1(n).take(fixed_1(n).len() - 2) =~= whole);
}

/// Which numbers are from nought to one, not negative, or positive: of whole
/// numbers by what they are, of doubles by the bits of nought, one and infinity.
/// Nothing else is a number.
pub proof fn lemma_which_numbers_are_what(v: JsonView)
    ensures
        unit_number(v) ==> non_negative_number(v),
        positive_number(v) ==> non_negative_number(v),
        v is Unsigned ==> non_negative_number(v) && (positive_number(v) <==> v->Unsigned_0 > 0) && (
        unit_number(v) <==> v->Unsigned_0 == 0 || v->Unsigned_0 == 1),
        v is Negative || v is Null || v is Bool || v is Text || v is Compound
            ==> !non_negative_number(v),
        non_negative_number(v) && !positive_number(v) ==> v == JsonView::Unsigned(0) || (v is Real
            && (v->bits == 0 || v->bits == NEGATIVE_ZERO_BITS)),
{
}

} // verus!
