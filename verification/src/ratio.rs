//! Quotients of two amounts in the IEEE 754 double format, held as the 64 bits
//! of the double. Division rounds to the nearest double, ties to even.
use vstd::arithmetic::power2::*;
use vstd::prelude::*;

verus! {

/// 2^52, the weight of one step of a double's exponent field.
pub const TWO_52: u64 = 0x10_0000_0000_0000;

/// 2^53: one more than the greatest integer below which all integers are doubles.
pub const TWO_53: u64 = 0x20_0000_0000_0000;

/// The bits of 1.0.
pub const ONE_BITS: u64 = 0x3FF0_0000_0000_0000;

/// The bits of 0.5.
pub const HALF_BITS: u64 = 0x3FE0_0000_0000_0000;

/// The bits of -0.0, which is also the weight of the sign bit.
pub const NEGATIVE_ZERO_BITS: u64 = 0x8000_0000_0000_0000;

/// The bits of negative infinity; above it lie only values that are no number.
pub const NEGATIVE_INFINITY_BITS: u64 = 0xFFF0_0000_0000_0000;

/// A double-precision value, as its bits.
#[derive(Debug, Clone, Copy, PartialEq, Eq, Structural)]
pub struct Ratio {
    pub bits: u64,
}

impl DeepView for Ratio {
    type V = Ratio;

    open spec fn deep_view(&self) -> Ratio {
        *self
    }
}

/// The integer nearest to `num / den`, the even one of two equally near.
pub open spec fn nearest(num: nat, den: nat) -> nat {
    let q = num / den;
    let r = num % den;
    if 2 * r > den || (2 * r == den && q % 2 == 1) {
        q + 1
    } else {
        q
    }
}

/// How many low bits of `x` a double has no room for.
pub open spec fn excess_bits(x: nat) -> nat
    decreases x,
{
    if x < TWO_53 {
        0
    } else {
        1 + excess_bits(x / 2)
    }
}

/// The double nearest to the integer `x`.
pub open spec fn nearest_double(x: nat) -> nat {
    nearest(x, pow2(excess_bits(x))) * pow2(excess_bits(x))
}

/// How often `num` must be doubled before it reaches 2^52 times `den`.
pub open spec fn doublings(num: nat, den: nat) -> nat
    decreases
            (if num < den * TWO_52 {
                den * TWO_52 - num
            } else {
                0
            }),
    when num > 0
{
    if num >= den * TWO_52 {
        0
    } else {
        1 + doublings(2 * num, den)
    }
}

/// How often `den` must be doubled before 2^53 times `den` exceeds `num`.
pub open spec fn halvings(num: nat, den: nat) -> nat
    decreases
            (if num >= den * TWO_53 {
                num + 1 - den * TWO_53
            } else {
                0
            }),
    when den > 0
{
    if num < den * TWO_53 {
        0
    } else {
        1 + halvings(num, 2 * den)
    }
}

/// The bits of the double nearest to `num / den`, for positive integers whose
/// quotient lies well within the range of doubles.
pub open spec fn quotient_bits(num: nat, den: nat) -> int {
    let up = doublings(num, den);
    let down = halvings(num, den);
    (1074 - up + down) * TWO_52 + nearest(num * pow2(up), den * pow2(down))
}

/// The bits of `part as double / whole as double`; zero where either is zero.
pub open spec fn ratio_bits(part: nat, whole: nat) -> int {
    if part == 0 || whole == 0 {
        0
    } else {
        quotient_bits(nearest_double(part), nearest_double(whole))
    }
}

/// The value of a double from 0 to 1 in units of 2^-117, rounded down.
pub open spec fn ratio_units(bits: nat) -> nat {
    let exponent = bits / TWO_52 as nat;
    let fraction = bits % TWO_52 as nat;
    if bits == NEGATIVE_ZERO_BITS || exponent == 0 {
        0
    } else if exponent >= 958 {
        (TWO_52 + fraction) as nat * pow2((exponent - 958) as nat)
    } else {
        (TWO_52 + fraction) as nat / pow2((958 - exponent) as nat)
    }
}

/// Whether two doubles from 0 to 1 differ by more than 2^-50 once their
/// difference is itself rounded to a double. Halfway to the next double above
/// 2^-50 is 2^-50 + 2^-103, which is 2^67 + 2^14 of the units above.
pub open spec fn ratios_differ(a: nat, b: nat) -> bool {
    let x = ratio_units(a) as int;
    let y = ratio_units(b) as int;
    x - y > 0x8_0000_0000_0000_4000int || y - x > 0x8_0000_0000_0000_4000int
}

/// Whether the bits are those of a number from 0 to 1.
pub open spec fn unit_range(bits: nat) -> bool {
    bits <= ONE_BITS || bits == NEGATIVE_ZERO_BITS
}

/// The integer nearest to `num / den`, the even one of two equally near.
pub(crate) fn round_quotient(num: u128, den: u128) -> (r: u128)
    requires
        0 < den <= 0x7fff_ffff_ffff_ffff_ffff_ffff_ffff_ffff,
        num < 0x7fff_ffff_ffff_ffff_ffff_ffff_ffff_ffff,
    ensures
        r == nearest(num as nat, den as nat),
{
    let q: u128 = num / den;
    let r: u128 = num % den;
    assert(q <= num) by (nonlinear_arith)
        requires
            q == num / den,
            den > 0,
    ;
    if 2 * r > den || (2 * r == den && q % 2 == 1) {
        q + 1
    } else {
        q
    }
}

/// 2 to the power of `k`.
pub fn two_to(k: u64) -> (r: u128)
    requires
        k <= 126,
    ensures
        r == pow2(k as nat),
        0 < r <= 0x4000_0000_0000_0000_0000_0000_0000_0000,
{
    let mut r: u128 = 1;
    let mut i: u64 = 0;
    proof {
        lemma2_to64();
        lemma_two_to_126();
    }
    while i < k
        invariant
            i <= k <= 126,
            r == pow2(i as nat),
            pow2(126) == 0x4000_0000_0000_0000_0000_0000_0000_0000,
        decreases k - i,
    {
        proof {
            lemma_pow2_unfold((i + 1) as nat);
            if i + 1 < 126 {
                lemma_pow2_strictly_increases((i + 1) as nat, 126);
            }
        }
        r = r * 2;
        i = i + 1;
    }
    proof {
        lemma_pow2_pos(k as nat);
        if k < 126 {
            lemma_pow2_strictly_increases(k as nat, 126);
        }
    }
    r
}

proof fn lemma_two_to_126()
    ensures
        pow2(126) == 0x4000_0000_0000_0000_0000_0000_0000_0000,
{
    lemma2_to64();
    lemma2_to64_rest();
    lemma_pow2_adds(63, 63);
    assert(0x8000_0000_0000_0000 * 0x8000_0000_0000_0000
        == 0x4000_0000_0000_0000_0000_0000_0000_0000) by (nonlinear_arith);
}

/// `x` rounded to the nearest double, which for these numbers is an integer.
pub(crate) fn to_double(x: u64) -> (r: u128)
    ensures
        r == nearest_double(x as nat),
        r <= 0x1_0000_0000_0000_0000,
        x > 0 ==> r > 0,
{
    let mut scale: u128 = 1;
    let mut shift: u64 = 0;
    let mut rest: u64 = x;
    proof {
        lemma2_to64();
    }
    while rest >= TWO_53
        invariant
            excess_bits(x as nat) == shift + excess_bits(rest as nat),
            scale == pow2(shift as nat),
            rest as int * scale as int <= x,
            x < (rest + 1) * scale,
            shift <= 11,
            x > 0 ==> rest > 0,
            shift > 0 ==> rest < pow2((64 - shift) as nat),
        decreases rest,
    {
        proof {
            lemma_pow2_unfold((shift + 1) as nat);
            lemma_pow2_unfold((64 - shift) as nat);
            lemma2_to64();
            lemma2_to64_rest();
            if shift > 0 {
                lemma_pow2_strictly_increases(53, 64);
            }
            if shift == 11 {
                assert(false);
            }
            let half = rest / 2;
            assert(half * (2 * scale) <= x && x < (half + 1) * (2 * scale)) by (nonlinear_arith)
                requires
                    rest as int * scale as int <= x,
                    x < (rest + 1) * scale,
                    half == rest / 2,
            ;
        }
        rest = rest / 2;
        scale = scale * 2;
        shift = shift + 1;
    }
    let q: u128 = round_quotient(x as u128, scale);
    proof {
        lemma2_to64();
        lemma2_to64_rest();
        assert(excess_bits(rest as nat) == 0);
        assert(q <= rest + 1 && (x > 0 && rest > 0 ==> q > 0)) by (nonlinear_arith)
            requires
                q == nearest(x as nat, scale as nat),
                rest as int * scale as int <= x,
                x < (rest + 1) * scale,
                scale > 0,
        ;
        if shift > 0 {
            lemma_pow2_adds((64 - shift) as nat, shift as nat);
        }
        let room = pow2((64 - shift) as nat) as int;
        assert(shift > 0 ==> rest + 1 <= room);
        assert(shift > 0 ==> room * scale == 0x1_0000_0000_0000_0000);
        assert(q * scale <= 0x1_0000_0000_0000_0000 && (q > 0 ==> q * scale > 0)) by (
        nonlinear_arith)
            requires
                q <= rest + 1,
                rest < 0x20_0000_0000_0000,
                shift == 0 ==> scale == 1,
                shift > 0 ==> rest + 1 <= room,
                shift > 0 ==> room * scale == 0x1_0000_0000_0000_0000,
                scale > 0,
        ;
    }
    q * scale
}

proof fn lemma_exponent_below(e: nat, bound: nat)
    requires
        pow2(e) < pow2(bound),
    ensures
        e < bound,
{
    if e > bound {
        lemma_pow2_strictly_increases(bound, e);
    }
}

/// The bits of the double nearest to `a / b`.
fn divide(a: u128, b: u128) -> (r: u64)
    requires
        0 < a <= 0x1_0000_0000_0000_0000,
        0 < b <= 0x1_0000_0000_0000_0000,
    ensures
        r == quotient_bits(a as nat, b as nat),
{
    let mut num: u128 = a;
    let mut up: u64 = 0;
    proof {
        lemma2_to64();
    }
    while num < b * 0x10_0000_0000_0000
        invariant
            0 < a <= 0x1_0000_0000_0000_0000,
            0 < b <= 0x1_0000_0000_0000_0000,
            a <= num,
            doublings(a as nat, b as nat) == up + doublings(num as nat, b as nat),
            num == a * pow2(up as nat),
            up <= 116,
            up > 0 ==> num < b * TWO_53,
            up > 0 ==> a < b * TWO_52,
        decreases 117 - up,
    {
        proof {
            lemma_pow2_unfold((up + 1) as nat);
            assert(pow2(up as nat) <= num) by (nonlinear_arith)
                requires
                    num == a * pow2(up as nat),
                    a >= 1,
            ;
            lemma2_to64();
            lemma2_to64_rest();
            lemma_pow2_adds(64, 52);
            lemma_exponent_below(up as nat, 116);
            assert(a * pow2((up + 1) as nat) == 2 * num) by (nonlinear_arith)
                requires
                    num == a * pow2(up as nat),
                    pow2((up + 1) as nat) == 2 * pow2(up as nat),
            ;
        }
        num = num * 2;
        up = up + 1;
    }
    let mut den: u128 = b;
    let mut down: u64 = 0;
    proof {
        lemma2_to64();
    }
    while a >= den * 0x20_0000_0000_0000
        invariant
            0 < a <= 0x1_0000_0000_0000_0000,
            0 < b <= den <= 0x1_0000_0000_0000_0000,
            halvings(a as nat, b as nat) == down + halvings(a as nat, den as nat),
            den == b * pow2(down as nat),
            down <= 64,
            down > 0 ==> a >= b * TWO_53,
        decreases 65 - down,
    {
        proof {
            lemma_pow2_unfold((down + 1) as nat);
            assert(pow2(down as nat) <= den) by (nonlinear_arith)
                requires
                    den == b * pow2(down as nat),
                    b >= 1,
            ;
            lemma2_to64();
            lemma2_to64_rest();
            lemma_exponent_below(down as nat, 64);
            assert(b * pow2((down + 1) as nat) == 2 * den) by (nonlinear_arith)
                requires
                    den == b * pow2(down as nat),
                    pow2((down + 1) as nat) == 2 * pow2(down as nat),
            ;
        }
        den = den * 2;
        down = down + 1;
    }
    assert(num < den * TWO_53);
    let m: u128 = round_quotient(num, den);
    assert(m <= TWO_53) by (nonlinear_arith)
        requires
            m == nearest(num as nat, den as nat),
            num < den * TWO_53,
            den > 0,
    ;
    (1074 - up + down) * TWO_52 + m as u64
}

impl Ratio {
    /// The double `part / whole`; zero where either amount is zero.
    pub fn of(part: u64, whole: u64) -> (r: Ratio)
        ensures
            r.bits == ratio_bits(part as nat, whole as nat),
    {
        if part == 0 || whole == 0 {
            return Ratio { bits: 0 };
        }
        Ratio { bits: divide(to_double(part), to_double(whole)) }
    }

    /// Whether this is a number from 0 to 1.
    pub fn in_unit_range(&self) -> (r: bool)
        ensures
            r == unit_range(self.bits as nat),
    {
        self.bits <= ONE_BITS || self.bits == NEGATIVE_ZERO_BITS
    }

    /// Whether the value is less than one half.
    pub open spec fn below_half(self) -> bool {
        self.bits < HALF_BITS || NEGATIVE_ZERO_BITS <= self.bits <= NEGATIVE_INFINITY_BITS
    }

    /// Whether the value is less than one half.
    pub fn is_below_half(&self) -> (r: bool)
        ensures
            r == self.below_half(),
    {
        self.bits < HALF_BITS || (NEGATIVE_ZERO_BITS <= self.bits && self.bits
            <= NEGATIVE_INFINITY_BITS)
    }

    /// The value in units of 2^-117, rounded down.
    fn units(&self) -> (r: u128)
        requires
            unit_range(self.bits as nat),
        ensures
            r == ratio_units(self.bits as nat),
            r <= 0x20_0000_0000_0000_0000_0000_0000_0000,
    {
        let exponent: u64 = self.bits / TWO_52;
        let fraction: u64 = self.bits % TWO_52;
        if self.bits == NEGATIVE_ZERO_BITS || exponent == 0 {
            return 0;
        }
        let mantissa: u128 = TWO_52 as u128 + fraction as u128;
        proof {
            lemma2_to64();
            lemma2_to64_rest();
        }
        if exponent >= 958 {
            let n: u64 = exponent - 958;
            let scale: u128 = two_to(n);
            proof {
                if exponent == 1023 {
                    assert(fraction == 0);
                    assert(mantissa == TWO_52);
                    lemma_pow2_unfold(65);
                    assert(mantissa * scale == 0x10_0000_0000_0000 * 0x2_0000_0000_0000_0000) by (
                    nonlinear_arith)
                        requires
                            mantissa == 0x10_0000_0000_0000,
                            scale == 0x2_0000_0000_0000_0000,
                    ;
                } else {
                    if n < 64 {
                        lemma_pow2_strictly_increases(n as nat, 64);
                    }
                    assert(mantissa * scale <= 0x20_0000_0000_0000 * 0x1_0000_0000_0000_0000) by (
                    nonlinear_arith)
                        requires
                            mantissa <= 0x20_0000_0000_0000,
                            scale <= 0x1_0000_0000_0000_0000,
                    ;
                }
            }
            mantissa * scale
        } else {
            let n: u64 = 958 - exponent;
            if n > 60 {
                proof {
                    if n > 61 {
                        lemma_pow2_strictly_increases(61, n as nat);
                    }
                    assert(mantissa as nat / pow2(n as nat) == 0) by (nonlinear_arith)
                        requires
                            0 <= mantissa < pow2(n as nat),
                    ;
                }
                return 0;
            }
            let scale: u128 = two_to(n);
            let r: u128 = mantissa / scale;
            assert(r <= mantissa) by (nonlinear_arith)
                requires
                    r == mantissa / scale,
                    scale > 0,
            ;
            r
        }
    }

    /// Whether two numbers from 0 to 1 differ by more than 2^-50, their
    /// difference taken as a double.
    pub fn differs_from(&self, other: &Ratio) -> (r: bool)
        requires
            unit_range(self.bits as nat),
            unit_range(other.bits as nat),
        ensures
            r == ratios_differ(self.bits as nat, other.bits as nat),
    {
        let x: u128 = self.units();
        let y: u128 = other.units();
        if x >= y {
            x - y > 0x8_0000_0000_0000_4000
        } else {
            y - x > 0x8_0000_0000_0000_4000
        }
    }
}

pub(crate) proof fn lemma_nearest_monotone(a: nat, b: nat, den: nat)
    requires
        a <= b,
        den > 0,
    ensures
        nearest(a, den) <= nearest(b, den),
{
    let (qa, ra) = (a / den, a % den);
    let (qb, rb) = (b / den, b % den);
    assert(a == den * qa + ra && b == den * qb + rb && 0 <= ra < den && 0 <= rb < den) by (
    nonlinear_arith)
        requires
            den > 0,
            qa == a / den,
            ra == a % den,
            qb == b / den,
            rb == b % den,
    ;
    assert(qa <= qb) by (nonlinear_arith)
        requires
            a <= b,
            den > 0,
            a == den * qa + ra,
            b == den * qb + rb,
            0 <= ra,
            rb < den,
    ;
    if qa == qb {
        assert(ra <= rb);
    }
}

proof fn lemma_excess(x: nat)
    ensures
        x < pow2(53 + excess_bits(x)),
        excess_bits(x) > 0 ==> pow2(52 + excess_bits(x)) <= x,
    decreases x,
{
    lemma2_to64();
    lemma2_to64_rest();
    if x >= TWO_53 {
        lemma_excess(x / 2);
        lemma_pow2_unfold(53 + excess_bits(x));
        lemma_pow2_unfold(52 + excess_bits(x));
        if excess_bits(x / 2) == 0 {
            lemma2_to64();
    lemma2_to64_rest();
        }
    }
}

pub(crate) proof fn lemma_nearest_double_monotone(a: nat, b: nat)
    requires
        a <= b,
    ensures
        nearest_double(a) <= nearest_double(b),
{
    let sa = excess_bits(a);
    let sb = excess_bits(b);
    lemma_excess(a);
    lemma_excess(b);
    lemma_pow2_pos(sa);
    lemma_pow2_pos(sb);
    if sa == sb {
        lemma_nearest_monotone(a, b, pow2(sa));
        assert(nearest(a, pow2(sa)) * pow2(sa) <= nearest(b, pow2(sb)) * pow2(sb)) by (
        nonlinear_arith)
            requires
                nearest(a, pow2(sa)) <= nearest(b, pow2(sb)),
                sa == sb,
        ;
    } else {
        if sa > sb {
            if 53 + sb < 52 + sa {
                lemma_pow2_strictly_increases(53 + sb, 52 + sa);
            }
            assert(false);
        }
        lemma_pow2_adds(53, sa);
        lemma_pow2_adds(52, sb);
        lemma2_to64();
    lemma2_to64_rest();
        let (pa, pb) = (pow2(sa), pow2(sb));
        let na = nearest(a, pa);
        let nb = nearest(b, pb);
        assert(na * pa <= TWO_53 * pa) by (nonlinear_arith)
            requires
                na == nearest(a, pa),
                a < TWO_53 * pa,
                pa > 0,
        ;
        assert(nb * pb >= TWO_52 * pb) by (nonlinear_arith)
            requires
                nb == nearest(b, pb),
                b >= TWO_52 * pb,
                pb > 0,
        ;
        if 53 + sa < 52 + sb {
            lemma_pow2_strictly_increases(53 + sa, 52 + sb);
        }
    }
}

/// Rounding to a double moves no integer beyond its double.
pub(crate) proof fn lemma_nearest_double_bound(x: nat)
    ensures
        nearest_double(x) <= 2 * x,
{
    lemma_excess(x);
    let scale = pow2(excess_bits(x));
    lemma_pow2_pos(excess_bits(x));
    lemma_pow2_adds(52, excess_bits(x));
    lemma2_to64();
    lemma2_to64_rest();
    let d = nearest_double(x);
    if excess_bits(x) == 0 {
        assert(d <= 2 * x) by (nonlinear_arith)
            requires
                d == nearest(x, scale) * scale,
                scale == 1,
        ;
    } else {
        assert(d <= 2 * x) by (nonlinear_arith)
            requires
                d == nearest(x, scale) * scale,
                0 < scale <= x,
        ;
    }
}

proof fn lemma_doublings(num: nat, den: nat)
    requires
        num > 0,
    ensures
        num * pow2(doublings(num, den)) >= den * TWO_52,
        doublings(num, den) > 0 ==> num * pow2(doublings(num, den)) < den * TWO_53,
    decreases
            (if num < den * TWO_52 {
                den * TWO_52 - num
            } else {
                0
            }),
{
    lemma2_to64();
    assert(forall|n: nat| #[trigger] (n * pow2(0)) == n) by (nonlinear_arith)
        requires
            pow2(0) == 1,
    ;
    if num < den * TWO_52 {
        lemma_doublings(2 * num, den);
        let k = doublings(2 * num, den);
        lemma_pow2_unfold(k + 1);
        assert(num * pow2(k + 1) == (2 * num) * pow2(k)) by (nonlinear_arith)
            requires
                pow2(k + 1) == 2 * pow2(k),
        ;
        assert(doublings(num, den) == k + 1);
    } else {
        assert(doublings(num, den) == 0);
        assert(num * pow2(0) == num);
    }
}

/// The double `part / whole` lies from 0 to 1 where the part is at most the whole.
pub proof fn lemma_part_of_whole_in_unit_range(part: u64, whole: u64)
    requires
        part <= whole,
    ensures
        0 <= ratio_bits(part as nat, whole as nat),
        unit_range(ratio_bits(part as nat, whole as nat) as nat),
{
    if part > 0 {
        let a = nearest_double(part as nat);
        let b = nearest_double(whole as nat);
        lemma_nearest_double_monotone(part as nat, whole as nat);
        lemma_nearest_double_monotone(1, part as nat);
        lemma2_to64();
    lemma2_to64_rest();
        assert(nearest_double(1) == 1) by {
            assert(excess_bits(1) == 0);
            let unit = pow2(0);
            let one = nearest(1, unit);
            assert(one == 1);
            assert(one * unit == 1) by (nonlinear_arith)
                requires
                    one == 1,
                    unit == 1,
            ;
        }
        lemma_nearest_double_bound(whole as nat);
        lemma_doublings(a, b);
        let up = doublings(a, b);
        if up < 52 {
            lemma_pow2_strictly_increases(up, 52);
            let p = pow2(up);
            assert(a * p < b * TWO_52) by (nonlinear_arith)
                requires
                    0 < a <= b,
                    0 <= p < TWO_52,
            ;
        }
        let m = nearest(a * pow2(up), b * pow2(0));
        let num = a * pow2(up);
        if up == 52 {
            assert(a == b) by (nonlinear_arith)
                requires
                    a <= b,
                    a * pow2(up) >= b * TWO_52,
                    pow2(up) == TWO_52,
            ;
            assert(nearest(a * TWO_52 as nat, a) == TWO_52) by (nonlinear_arith)
                requires
                    a > 0,
            ;
        } else {
            assert(m <= TWO_53) by (nonlinear_arith)
                requires
                    m == nearest(num, b),
                    num < b * TWO_53,
                    b > 0,
            ;
            let p = pow2(up);
            lemma_pow2_adds(64, 54);
            assert(p < pow2(118)) by (nonlinear_arith)
                requires
                    num == a * p,
                    a >= 1,
                    num < b * TWO_53,
                    b <= 2 * whole,
                    pow2(118) == 0x1_0000_0000_0000_0000 * 0x40_0000_0000_0000,
            ;
            lemma_exponent_below(up, 118);
        }
    }
}

/// A rounded quotient is at most half a unit off, and even where it is half a
/// unit off.
pub proof fn lemma_rounding_is_to_the_nearest(num: nat, den: nat)
    requires
        den > 0,
    ensures
        2 * (nearest(num, den) * den - num) <= den,
        2 * (num - nearest(num, den) * den) <= den,
        2 * (nearest(num, den) * den - num) == den || 2 * (num - nearest(num, den) * den) == den
            ==> nearest(num, den) % 2 == 0,
{
    let q = num / den;
    let r = num % den;
    assert(num == q * den + r && 0 <= r < den && (q + 1) * den == q * den + den) by (
    nonlinear_arith)
        requires
            den > 0,
            q == num / den,
            r == num % den,
    ;
}

/// The integers below 2^53 are doubles. Every integer is off its double by no
/// more than one part in 2^53.
pub proof fn lemma_doubles_are_near(x: nat)
    ensures
        x < 0x20_0000_0000_0000 ==> nearest_double(x) == x,
        0x20_0000_0000_0000 * (nearest_double(x) - x) <= x,
        0x20_0000_0000_0000 * (x - nearest_double(x)) <= x,
{
    let e = excess_bits(x);
    let p = pow2(e);
    lemma_excess(x);
    lemma_pow2_pos(e);
    lemma2_to64();
    lemma2_to64_rest();
    lemma_pow2_adds(52, e);
    lemma_rounding_is_to_the_nearest(x, p);
    if e == 0 {
        assert(nearest(x, 1) == x);
        assert(x * 1 == x);
    }
}

/// The ratio of a part to a whole is the double nearest to it: its significand
/// of 53 bits is at most half a unit off. Nothing of a whole, and anything of
/// nothing, is nought.
pub proof fn lemma_ratios_are_nearest(part: u64, whole: u64)
    requires
        part <= whole < 0x20_0000_0000_0000,
    ensures
        ratio_bits(0, whole as nat) == 0,
        ratio_bits(part as nat, 0) == 0,
        part > 0 ==> {
            let bits = ratio_bits(part as nat, whole as nat);
            let down = 1075 - bits / 0x10_0000_0000_0000;
            let significand = 0x10_0000_0000_0000 + bits % 0x10_0000_0000_0000;
            &&& down >= 0
            &&& 2 * (significand * whole - part * pow2(down as nat)) <= whole
            &&& 2 * (part * pow2(down as nat) - significand * whole) <= whole
        },
{
    if part > 0 {
        let a = part as nat;
        let b = whole as nat;
        lemma_doubles_are_near(a);
        lemma_doubles_are_near(b);
        lemma_doublings(a, b);
        lemma2_to64();
        lemma2_to64_rest();
        let up = doublings(a, b);
        let num = a * pow2(up);
        if up == 0 {
            assert(a * 1 == a);
        }
        assert(halvings(a, b) == 0);
        assert(b * pow2(0) == b) by (nonlinear_arith)
            requires
                pow2(0) == 1,
        ;
        let m = nearest(num, b);
        lemma_rounding_is_to_the_nearest(num, b);
        assert(TWO_52 <= m <= TWO_53) by (nonlinear_arith)
            requires
                m == nearest(num, b),
                b * TWO_52 <= num < b * TWO_53,
                b > 0,
        ;
        let bits = ratio_bits(a, b);
        assert(bits == (1074 - up) * TWO_52 + m);
        if m < TWO_53 {
            assert(bits / 0x10_0000_0000_0000 == 1075 - up);
            assert(bits % 0x10_0000_0000_0000 == m - TWO_52);
        } else {
            assert(bits / 0x10_0000_0000_0000 == 1076 - up);
            assert(bits % 0x10_0000_0000_0000 == 0);
            lemma_pow2_unfold(up);
            let half = pow2((up - 1) as nat);
            assert(num == 2 * (a * half)) by (nonlinear_arith)
                requires
                    num == a * pow2(up),
                    pow2(up) == 2 * half,
            ;
            assert(m * b == 0x20_0000_0000_0000 * b) by (nonlinear_arith)
                requires
                    m == 0x20_0000_0000_0000,
            ;
        }
    }
}

/// No ratio differs from itself, and two differ either way round. Of two ratios
/// from a half up to one, which are doubles of one exponent, it takes more than
/// eight steps between them.
pub proof fn lemma_when_ratios_differ(a: nat, b: nat)
    ensures
        !ratios_differ(a, a),
        ratios_differ(a, b) == ratios_differ(b, a),
        HALF_BITS <= a < ONE_BITS && HALF_BITS <= b < ONE_BITS ==> (ratios_differ(a, b) <==> a > b
            + 8 || b > a + 8),
{
    if HALF_BITS <= a < ONE_BITS && HALF_BITS <= b < ONE_BITS {
        lemma2_to64();
        assert(a / TWO_52 as nat == 1022);
        assert(b / TWO_52 as nat == 1022);
        assert(ratio_units(a) == (TWO_52 + a % TWO_52 as nat) * 0x1_0000_0000_0000_0000);
        assert(ratio_units(b) == (TWO_52 + b % TWO_52 as nat) * 0x1_0000_0000_0000_0000);
        assert(a % TWO_52 as nat == a - HALF_BITS);
        assert(b % TWO_52 as nat == b - HALF_BITS);
    }
}

/// A double from nought to one is below a half exactly if its exponent is below
/// that of a half.
pub proof fn lemma_below_half_goes_by_the_bits(r: Ratio)
    requires
        r.bits <= ONE_BITS,
    ensures
        r.below_half() <==> r.bits / 0x10_0000_0000_0000 < 1022,
{
}

} // verus!
