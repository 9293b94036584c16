//! Swap weights: binary64 numbers held as their bit patterns, and the amount that
//! a weight makes of a number of kilobytes.
//!
//! Scaling rounds as IEEE 754 binary64 arithmetic does: the amount is converted to
//! binary64, multiplied by the weight, and the product is cut down to an unsigned
//! 64-bit integer. All of it is done here on integers.

use vstd::arithmetic::div_mod::{
    lemma_div_denominator, lemma_div_is_ordered, lemma_div_is_ordered_by_denominator,
    lemma_fundamental_div_mod, lemma_fundamental_div_mod_converse, lemma_mod_bound,
};
use vstd::arithmetic::power2::{
    lemma2_to64, lemma_pow2_adds, lemma_pow2_pos, lemma_pow2_strictly_increases,
    lemma_pow2_unfold, pow2,
};
use vstd::prelude::*;

verus! {

/// Number of distinct fraction fields: two to the power of 52.
pub const FRACTIONS: u64 = 0x10_0000_0000_0000;

/// First integer whose successor is no binary64 number: two to the power of 53.
pub const EXACT_LIMIT: u64 = 0x20_0000_0000_0000;

/// Sign bit of a bit pattern.
pub const SIGN_BIT: u64 = 0x8000_0000_0000_0000;

/// Bit pattern of the number one.
pub const ONE_BITS: u64 = 0x3ff0_0000_0000_0000;

/// A multiplier for used swap, as the bit pattern of a binary64 number.
/// Zero ignores a swap area entirely, one counts it in full.
#[derive(Debug, Clone, Copy, PartialEq, Eq, Structural)]
pub struct Weight {
    pub bits: u64,
}

impl Weight {
    pub open spec fn has_sign(self) -> bool {
        self.bits >= SIGN_BIT
    }

    pub open spec fn exponent_field(self) -> int {
        (self.bits as int / FRACTIONS as int) % 2048
    }

    pub open spec fn fraction_field(self) -> int {
        self.bits as int % FRACTIONS as int
    }

    /// Neither infinite nor a NaN.
    pub open spec fn finite(self) -> bool {
        self.exponent_field() != 2047
    }

    pub open spec fn nan(self) -> bool {
        self.exponent_field() == 2047 && self.fraction_field() != 0
    }

    /// The integer `m` of the absolute value `m * 2^(scale - 1075)` of a finite weight.
    pub open spec fn significand(self) -> nat {
        if self.exponent_field() == 0 {
            self.fraction_field() as nat
        } else {
            (FRACTIONS + self.fraction_field()) as nat
        }
    }

    /// The integer `scale` of the absolute value `m * 2^(scale - 1075)` of a finite weight.
    pub open spec fn scale(self) -> nat {
        if self.exponent_field() == 0 {
            1
        } else {
            self.exponent_field() as nat
        }
    }

    /// Whether the weight is below zero.
    pub open spec fn negative(self) -> bool {
        self.has_sign() && !self.nan() && !(self.finite() && self.significand() == 0)
    }

    /// Whether the weight is usable: finite and not below zero.
    pub open spec fn valid(self) -> bool {
        self.finite() && !self.negative()
    }

    /// Whether the weight is at most one.
    pub open spec fn at_most_one(self) -> bool {
        self.valid() && (self.scale() < 1023 || self == one_weight())
    }
}

/// The weight one.
pub open spec fn one_weight() -> Weight {
    Weight { bits: ONE_BITS }
}

/// Distance between neighbouring binary64 numbers around the integer `a`.
pub open spec fn spacing(a: nat) -> nat
    decreases a,
{
    if a < EXACT_LIMIT {
        1
    } else {
        2 * spacing(a / 2)
    }
}

/// `a / unit`, rounded to the nearest integer, ties to the even one.
pub open spec fn round_ties_even(a: nat, unit: nat) -> nat {
    let q = a / unit;
    let r = a % unit;
    if 2 * r > unit || (2 * r == unit && q % 2 == 1) {
        q + 1
    } else {
        q
    }
}

/// The binary64 number nearest to the integer `a`, ties to the even significand.
pub open spec fn nearest(a: nat) -> nat {
    round_ties_even(a, spacing(a)) * spacing(a)
}

/// `a`, or the largest unsigned 64-bit integer where `a` exceeds it.
pub open spec fn saturated(a: nat) -> u64 {
    if a > u64::MAX {
        u64::MAX
    } else {
        a as u64
    }
}

/// The whole kilobytes that a finite weight without a sign makes of `used_kb`.
///
/// The limited exponent range of binary64 plays no part in this: a product too small for
/// it is no whole kilobyte, and one too large for it does not fit in 64 bits.
pub open spec fn whole_product(used_kb: u64, w: Weight) -> nat {
    let product = nearest(nearest(used_kb as nat) * w.significand());
    if w.scale() >= 1075 {
        product * pow2((w.scale() - 1075) as nat)
    } else {
        product / pow2((1075 - w.scale()) as nat)
    }
}

/// The part of `used_kb` that counts under the weight `w`: the binary64 product of
/// the two, cut down to an integer and held within 64 bits. A product that is below
/// zero or no number counts as nothing.
pub open spec fn weighted(used_kb: u64, w: Weight) -> u64 {
    if w.nan() || w.has_sign() {
        0
    } else if !w.finite() {
        if used_kb == 0 {
            0
        } else {
            u64::MAX
        }
    } else {
        saturated(whole_product(used_kb, w))
    }
}

proof fn lemma_spacing(a: nat)
    ensures
        spacing(a) > 0,
        spacing(a) <= a || spacing(a) == 1,
        a / spacing(a) < EXACT_LIMIT,
        a >= EXACT_LIMIT ==> a / spacing(a) >= FRACTIONS,
        a < EXACT_LIMIT <==> spacing(a) == 1,
    decreases a,
{
    if a >= EXACT_LIMIT {
        let h = a / 2;
        lemma_spacing(h);
        lemma_div_denominator(a as int, 2, spacing(h) as int);
        assert(a / spacing(a) == h / spacing(h));
        if h < EXACT_LIMIT {
            assert(h / spacing(h) == h) by (nonlinear_arith)
                requires
                    spacing(h) == 1,
            ;
        }
    } else {
        assert(a / spacing(a) == a) by (nonlinear_arith)
            requires
                spacing(a) == 1,
        ;
    }
}

/// Rounding moves a number by at most half a spacing.
proof fn lemma_nearest_bound(a: nat)
    ensures
        nearest(a) <= 2 * a,
        a < EXACT_LIMIT ==> nearest(a) == a,
        round_ties_even(a, spacing(a)) <= EXACT_LIMIT,
{
    lemma_spacing(a);
    let u = spacing(a);
    let q = a / u;
    let r = a % u;
    lemma_fundamental_div_mod(a as int, u as int);
    lemma_mod_bound(a as int, u as int);
    assert((q + 1) * u == q * u + u) by (nonlinear_arith);
    assert(u * q == q * u) by (nonlinear_arith);
    if a < EXACT_LIMIT {
        assert(q == a && r == 0) by (nonlinear_arith)
            requires
                u == 1,
                q == a / u,
                r == a % u,
        ;
        assert(q * u == q) by (nonlinear_arith)
            requires
                u == 1,
        ;
    }
}

/// Doubling a number doubles its rounding.
proof fn lemma_nearest_double(a: nat)
    ensures
        nearest(2 * a) == 2 * nearest(a),
{
    lemma_nearest_bound(a);
    lemma_nearest_bound(2 * a);
    lemma_spacing(a);
    let u = spacing(a);
    if 2 * a >= EXACT_LIMIT {
        assert((2 * a) / 2 == a);
        assert(spacing(2 * a) == 2 * u);
        let q = a / u;
        let r = a % u;
        lemma_fundamental_div_mod(a as int, u as int);
        lemma_mod_bound(a as int, u as int);
        assert(2 * a == q * (2 * u) + 2 * r) by (nonlinear_arith)
            requires
                a == u * q + r,
        ;
        lemma_fundamental_div_mod_converse((2 * a) as int, (2 * u) as int, q as int, (2 * r) as int);
        let n = round_ties_even(a, u);
        assert(round_ties_even(2 * a, 2 * u) == n);
        assert(n * (2 * u) == 2 * (n * u)) by (nonlinear_arith);
    }
}

/// Scaling by a power of two commutes with rounding.
proof fn lemma_nearest_scaled(a: nat, k: nat)
    ensures
        nearest(a * pow2(k)) == nearest(a) * pow2(k),
    decreases k,
{
    if k == 0 {
        lemma2_to64();
        assert(a * pow2(0) == a) by (nonlinear_arith)
            requires
                pow2(0) == 1,
        ;
        assert(nearest(a) * pow2(0) == nearest(a)) by (nonlinear_arith)
            requires
                pow2(0) == 1,
        ;
    } else {
        let h = pow2((k - 1) as nat);
        lemma_pow2_unfold(k);
        lemma_nearest_scaled(a, (k - 1) as nat);
        lemma_nearest_double(a * h);
        assert(a * (2 * h) == 2 * (a * h)) by (nonlinear_arith);
        assert(nearest(a) * (2 * h) == 2 * (nearest(a) * h)) by (nonlinear_arith);
    }
}

/// A spacing is a power of two.
proof fn lemma_spacing_power(a: nat) -> (k: nat)
    ensures
        spacing(a) == pow2(k),
    decreases a,
{
    if a < EXACT_LIMIT {
        lemma2_to64();
        0
    } else {
        let k = lemma_spacing_power(a / 2);
        lemma_pow2_unfold(k + 1);
        k + 1
    }
}

/// Rounding a rounded number changes nothing.
pub proof fn rounding_is_idempotent(a: nat)
    ensures
        nearest(nearest(a)) == nearest(a),
{
    let k = lemma_spacing_power(a);
    let n = round_ties_even(a, spacing(a));
    lemma_nearest_bound(a);
    lemma_nearest_scaled(n, k);
    lemma_nearest_bound(n);
    if n == EXACT_LIMIT {
        lemma_nearest_bound(FRACTIONS as nat);
        lemma_nearest_double(FRACTIONS as nat);
    }
}

proof fn lemma_round_ordered(a: nat, b: nat, unit: nat)
    requires
        a <= b,
        unit > 0,
    ensures
        round_ties_even(a, unit) <= round_ties_even(b, unit),
{
    lemma_div_is_ordered(a as int, b as int, unit as int);
    lemma_fundamental_div_mod(a as int, unit as int);
    lemma_fundamental_div_mod(b as int, unit as int);
}

proof fn lemma_spacing_ordered(a: nat, b: nat)
    requires
        a <= b,
    ensures
        spacing(a) == spacing(b) || 2 * spacing(a) <= spacing(b),
    decreases b,
{
    if a >= EXACT_LIMIT {
        lemma_spacing_ordered(a / 2, b / 2);
    } else if b >= EXACT_LIMIT {
        lemma_spacing(b / 2);
    }
}

/// Rounding keeps the order of numbers.
pub proof fn rounding_is_monotone(a: nat, b: nat)
    requires
        a <= b,
    ensures
        nearest(a) <= nearest(b),
{
    let u = spacing(a);
    let v = spacing(b);
    lemma_spacing(a);
    lemma_spacing(b);
    lemma_spacing_ordered(a, b);
    let m = round_ties_even(a, u);
    let n = round_ties_even(b, v);
    if u == v {
        lemma_round_ordered(a, b, u);
        assert(m * u <= n * u) by (nonlinear_arith)
            requires
                m <= n,
        ;
    } else {
        lemma_nearest_bound(a);
        assert(m * u <= n * v) by (nonlinear_arith)
            requires
                m <= EXACT_LIMIT,
                n >= FRACTIONS,
                2 * u <= v,
                EXACT_LIMIT == 2 * FRACTIONS,
        ;
    }
}

proof fn lemma_fields_of_one()
    ensures
        !one_weight().has_sign(),
        one_weight().finite(),
        one_weight().significand() == FRACTIONS,
        one_weight().scale() == 1023,
        pow2(52) == FRACTIONS,
        pow2(53) == EXACT_LIMIT,
{
    lemma2_to64();
    lemma_pow2_adds(32, 20);
    lemma_pow2_adds(32, 21);
    assert(0x1_0000_0000nat * 0x10_0000 == FRACTIONS);
    assert(0x1_0000_0000nat * 0x20_0000 == EXACT_LIMIT);
}

/// The weight one is usable.
pub proof fn one_is_valid()
    ensures
        one_weight().valid(),
{
    lemma_fields_of_one();
}

/// Weight zero, with or without a sign, ignores a swap area entirely.
pub proof fn zero_weight_counts_nothing(used_kb: u64, w: Weight)
    requires
        w.finite(),
        w.significand() == 0,
    ensures
        w.valid(),
        weighted(used_kb, w) == 0,
{
    let n = nearest(used_kb as nat);
    assert(n * 0 == 0);
    lemma_nearest_bound(0);
    if w.scale() >= 1075 {
        assert(0 * pow2((w.scale() - 1075) as nat) == 0);
    } else {
        lemma_pow2_pos((1075 - w.scale()) as nat);
        assert(0nat / pow2((1075 - w.scale()) as nat) == 0) by (nonlinear_arith)
            requires
                pow2((1075 - w.scale()) as nat) > 0,
        ;
    }
}

/// Weight one counts the binary64 number nearest to the amount, which up to two to
/// the power of 53 is the amount itself.
pub proof fn unit_weight_counts_in_full(used_kb: u64)
    ensures
        weighted(used_kb, one_weight()) == saturated(nearest(used_kb as nat)),
        used_kb <= EXACT_LIMIT ==> nearest(used_kb as nat) == used_kb,
{
    lemma_fields_of_one();
    let n = nearest(used_kb as nat);
    lemma_nearest_scaled(n, 52);
    rounding_is_idempotent(used_kb as nat);
    assert(n * pow2(52) / pow2(52) == n) by (nonlinear_arith)
        requires
            pow2(52) > 0,
    ;
    lemma_nearest_bound(used_kb as nat);
    if used_kb == EXACT_LIMIT {
        lemma_nearest_bound(FRACTIONS as nat);
        lemma_nearest_double(FRACTIONS as nat);
    }
}

/// Under a usable weight, more used swap never counts for less.
pub proof fn weighting_is_monotone(a: u64, b: u64, w: Weight)
    requires
        a <= b,
        w.valid(),
    ensures
        weighted(a, w) <= weighted(b, w),
{
    rounding_is_monotone(a as nat, b as nat);
    let m = w.significand();
    let x = nearest(a as nat);
    let y = nearest(b as nat);
    assert(x * m <= y * m) by (nonlinear_arith)
        requires
            x <= y,
    ;
    rounding_is_monotone(x * m, y * m);
    let p = nearest(x * m);
    let q = nearest(y * m);
    if w.scale() >= 1075 {
        let f = pow2((w.scale() - 1075) as nat);
        assert(p * f <= q * f) by (nonlinear_arith)
            requires
                p <= q,
        ;
    } else {
        let f = pow2((1075 - w.scale()) as nat);
        lemma_pow2_pos((1075 - w.scale()) as nat);
        lemma_div_is_ordered(p as int, q as int, f as int);
    }
}

/// A usable weight of at most one never counts more than weight one does.
pub proof fn small_weight_counts_at_most_in_full(used_kb: u64, w: Weight)
    requires
        w.at_most_one(),
    ensures
        weighted(used_kb, w) <= weighted(used_kb, one_weight()),
{
    lemma_fields_of_one();
    unit_weight_counts_in_full(used_kb);
    if w != one_weight() && !w.has_sign() {
        let n = nearest(used_kb as nat);
        let m = w.significand();
        let d = (1075 - w.scale()) as nat;
        assert(n * m <= n * pow2(53)) by (nonlinear_arith)
            requires
                m <= pow2(53),
        ;
        rounding_is_monotone(n * m, n * pow2(53));
        lemma_nearest_scaled(n, 53);
        rounding_is_idempotent(used_kb as nat);
        let p = nearest(n * m);
        assert(p <= n * pow2(53));
        lemma_pow2_pos(53);
        lemma_pow2_pos(d);
        if d > 53 {
            lemma_pow2_strictly_increases(53, d);
        }
        lemma_div_is_ordered_by_denominator(p as int, pow2(53) as int, pow2(d) as int);
        lemma_div_is_ordered(p as int, (n * pow2(53)) as int, pow2(53) as int);
        assert(n * pow2(53) / pow2(53) == n) by (nonlinear_arith)
            requires
                pow2(53) > 0,
        ;
    }
}

/// The binary64 number nearest to `a`.
fn round_to_nearest(a: u128) -> (r: u128)
    requires
        a <= 0x100_0000_0000_0000_0000_0000_0000_0000,
    ensures
        r == nearest(a as nat),
{
    let mut unit: u128 = 1;
    let mut q: u128 = a;
    assert(a as nat / 1 == a);
    while q >= EXACT_LIMIT as u128
        invariant
            0 < unit,
            q == a as nat / unit as nat,
            unit * spacing(q as nat) == spacing(a as nat),
            unit <= a || unit == 1,
            a <= 0x100_0000_0000_0000_0000_0000_0000_0000,
        decreases q,
    {
        proof {
            lemma_div_denominator(a as int, unit as int, 2);
            let h = spacing((q / 2) as nat);
            assert(unit * (2 * h) == (unit * 2) * h) by (nonlinear_arith);
            lemma_fundamental_div_mod(a as int, unit as int);
            lemma_mod_bound(a as int, unit as int);
            assert(unit * q >= 2 * unit) by (nonlinear_arith)
                requires
                    q >= 2,
            ;
        }
        q = q / 2;
        unit = unit * 2;
    }
    proof {
        lemma_nearest_bound(a as nat);
        lemma_fundamental_div_mod(a as int, unit as int);
        lemma_mod_bound(a as int, unit as int);
        assert(unit * spacing(q as nat) == unit) by (nonlinear_arith)
            requires
                spacing(q as nat) == 1,
        ;
    }
    let r: u128 = a % unit;
    let rounded: u128 = if 2 * r > unit || (2 * r == unit && q % 2 == 1) {
        q + 1
    } else {
        q
    };
    assert(rounded * unit == nearest(a as nat));
    rounded * unit
}

/// `p` times two to the power of `k`, held within 64 bits.
fn scaled_up(p: u128, k: u64) -> (r: u64)
    ensures
        r == saturated(p as nat * pow2(k as nat)),
{
    let mut x: u128 = p;
    let mut left: u64 = k;
    while left > 0
        invariant
            left <= k,
            x as nat * pow2(left as nat) == p as nat * pow2(k as nat),
        decreases left,
    {
        proof {
            lemma_pow2_pos(left as nat);
            if x > u64::MAX as u128 {
                assert(x as nat * pow2(left as nat) >= x) by (nonlinear_arith)
                    requires
                        pow2(left as nat) > 0,
                ;
            }
        }
        if x > u64::MAX as u128 {
            return u64::MAX;
        }
        proof {
            lemma_pow2_unfold(left as nat);
            let h = pow2((left - 1) as nat);
            assert(x as nat * (2 * h) == (x * 2) as nat * h) by (nonlinear_arith);
        }
        x = x * 2;
        left = left - 1;
    }
    proof {
        lemma2_to64();
        assert(x as nat * pow2(0) == x) by (nonlinear_arith)
            requires
                pow2(0) == 1,
        ;
    }
    if x > u64::MAX as u128 {
        u64::MAX
    } else {
        x as u64
    }
}

/// `p` divided by two to the power of `k`, held within 64 bits.
fn scaled_down(p: u128, k: u64) -> (r: u64)
    ensures
        r == saturated(p as nat / pow2(k as nat)),
{
    let mut x: u128 = p;
    let mut left: u64 = k;
    while left > 0
        invariant
            left <= k,
            x as nat / pow2(left as nat) == p as nat / pow2(k as nat),
        decreases left,
    {
        proof {
            lemma_pow2_unfold(left as nat);
            lemma_pow2_pos((left - 1) as nat);
            lemma_div_denominator(x as int, 2, pow2((left - 1) as nat) as int);
        }
        x = x / 2;
        left = left - 1;
    }
    proof {
        lemma2_to64();
        assert(x as nat / pow2(0) == x) by (nonlinear_arith)
            requires
                pow2(0) == 1,
        ;
    }
    if x > u64::MAX as u128 {
        u64::MAX
    } else {
        x as u64
    }
}

impl Weight {
    /// The weight with the given bit pattern.
    pub fn from_bits(bits: u64) -> (r: Weight)
        ensures
            r == (Weight { bits }),
    {
        Weight { bits }
    }

    /// The bit pattern of the weight.
    pub fn to_bits(self) -> (r: u64)
        ensures
            r == self.bits,
    {
        self.bits
    }

    /// The weight that counts a swap area in full.
    pub fn one() -> (r: Weight)
        ensures
            r == one_weight(),
    {
        Weight { bits: ONE_BITS }
    }

    /// Whether the weight is finite and not below zero.
    pub fn is_valid(self) -> (r: bool)
        ensures
            r == self.valid(),
    {
        let exponent: u64 = (self.bits / FRACTIONS) % 2048;
        let fraction: u64 = self.bits % FRACTIONS;
        exponent != 2047 && (self.bits < SIGN_BIT || (exponent == 0 && fraction == 0))
    }

    /// The part of `used_kb` that counts under this weight.
    pub fn apply(self, used_kb: u64) -> (r: u64)
        ensures
            r == weighted(used_kb, self),
    {
        let exponent: u64 = (self.bits / FRACTIONS) % 2048;
        let fraction: u64 = self.bits % FRACTIONS;
        if self.bits >= SIGN_BIT {
            return 0;
        }
        if exponent == 2047 {
            return if fraction != 0 || used_kb == 0 {
                0
            } else {
                u64::MAX
            };
        }
        let significand: u64 = if exponent == 0 {
            fraction
        } else {
            FRACTIONS + fraction
        };
        let scale: u64 = if exponent == 0 {
            1
        } else {
            exponent
        };
        let amount = round_to_nearest(used_kb as u128);
        proof {
            lemma_nearest_bound(used_kb as nat);
            assert(amount * significand <= 0x2_0000_0000_0000_0000 * 0x20_0000_0000_0000)
                by (nonlinear_arith)
                requires
                    amount <= 0x2_0000_0000_0000_0000,
                    significand <= 0x20_0000_0000_0000,
            ;
        }
        let product = round_to_nearest(amount * (significand as u128));
        if scale >= 1075 {
            scaled_up(product, scale - 1075)
        } else {
            scaled_down(product, 1075 - scale)
        }
    }
}

/// A bit pattern is its sign, its exponent field and its fraction field, side by side.
pub proof fn bits_are_sign_exponent_and_fraction(w: Weight)
    ensures
        0 <= w.exponent_field() < 2048,
        0 <= w.fraction_field() < 0x10_0000_0000_0000,
        w.bits == (if w.has_sign() {
            0x8000_0000_0000_0000int
        } else {
            0
        }) + w.exponent_field() * 0x10_0000_0000_0000 + w.fraction_field(),
{
}

/// The bit patterns that are usable weights, and those of weights of at most one.
pub proof fn usable_bit_patterns(w: Weight)
    ensures
        w.valid() <==> w.bits < 0x7ff0_0000_0000_0000 || w.bits == 0x8000_0000_0000_0000,
        w.at_most_one() <==> w.bits <= 0x3ff0_0000_0000_0000 || w.bits == 0x8000_0000_0000_0000,
        w.nan() <==> (0x7ff0_0000_0000_0000 < w.bits < 0x8000_0000_0000_0000 || w.bits
            > 0xfff0_0000_0000_0000),
        w.finite() <==> (w.bits < 0x7ff0_0000_0000_0000 || 0x8000_0000_0000_0000 <= w.bits
            < 0xfff0_0000_0000_0000),
        one_weight().bits == 0x3ff0_0000_0000_0000,
{
    bits_are_sign_exponent_and_fraction(w);
}

/// The significand and scale of a weight: without the leading one bit, and with the lowest
/// scale, where the exponent field is zero; with them elsewhere.
pub proof fn significand_and_scale(w: Weight)
    ensures
        w.exponent_field() == 0 ==> w.significand() == w.fraction_field() && w.scale() == 1,
        w.exponent_field() != 0 ==> w.significand() == 0x10_0000_0000_0000 + w.fraction_field()
            && w.scale() == w.exponent_field(),
{
}

/// A rounded number has a significand of at most two to the power of 53: it is the first
/// result times two to the power of the second.
pub proof fn rounded_number_is_representable(a: nat) -> (r: (nat, nat))
    ensures
        r.0 <= 0x20_0000_0000_0000,
        nearest(a) == r.0 * pow2(r.1),
{
    let k = lemma_spacing_power(a);
    lemma_nearest_bound(a);
    (round_ties_even(a, spacing(a)), k)
}

/// No number with a significand of at most two to the power of 53 is closer to `a` than
/// the one that `a` rounds to.
pub proof fn rounded_number_is_closest(a: nat, m: nat, k: nat)
    requires
        m <= 0x20_0000_0000_0000,
    ensures
        nearest(a) - a <= m * pow2(k) - a || nearest(a) - a <= a - m * pow2(k),
        a - nearest(a) <= m * pow2(k) - a || a - nearest(a) <= a - m * pow2(k),
{
    lemma_nearest_bound(a);
    if a >= EXACT_LIMIT {
        lemma_spacing(a);
        let s = lemma_spacing_power(a);
        let u = spacing(a);
        let q = a / u;
        let r = a % u;
        let x = m * pow2(k);
        lemma_fundamental_div_mod(a as int, u as int);
        lemma_mod_bound(a as int, u as int);
        assert(a == q * u + r) by (nonlinear_arith)
            requires
                a == u * q + r,
        ;
        assert((q + 1) * u == q * u + u) by (nonlinear_arith);
        if k >= s {
            let d = (k - s) as nat;
            lemma_pow2_adds(d, s);
            let t = m * pow2(d);
            assert(x == t * u) by (nonlinear_arith)
                requires
                    x == m * (pow2(d) * u),
                    t == m * pow2(d),
            ;
            if t <= q {
                assert(t * u <= q * u) by (nonlinear_arith)
                    requires
                        t <= q,
                ;
            } else {
                assert(t * u >= (q + 1) * u) by (nonlinear_arith)
                    requires
                        t >= q + 1,
                ;
            }
        } else {
            let e = (s - 1) as nat;
            lemma_pow2_unfold(s);
            if k < e {
                lemma_pow2_strictly_increases(k, e);
            }
            assert(x <= q * u) by (nonlinear_arith)
                requires
                    x == m * pow2(k),
                    m <= 0x20_0000_0000_0000,
                    pow2(k) <= pow2(e),
                    u == 2 * pow2(e),
                    q >= 0x10_0000_0000_0000,
            ;
        }
    }
}

/// Half-way between two neighbours the one with the even significand is taken.
pub proof fn ties_go_to_the_even_significand(q: nat, k: nat)
    requires
        0x10_0000_0000_0000 <= q < 0x20_0000_0000_0000,
    ensures
        q % 2 == 0 ==> nearest((2 * q + 1) * pow2(k)) == (2 * q) * pow2(k),
        q % 2 == 1 ==> nearest((2 * q + 1) * pow2(k)) == (2 * q + 2) * pow2(k),
{
    let a = 2 * q + 1;
    lemma_nearest_scaled(a, k);
    assert(a / 2 == q);
    lemma_spacing(q);
    assert(spacing(a) == 2);
    assert(a % 2 == 1);
}

/// What a weight makes of an amount, in numbers. The product of the rounded amount and the
/// significand is rounded; the result is the whole part of it at the weight's scale, or
/// the largest 64-bit number where that is larger.
pub proof fn weighted_amount_is_the_cut_product(used_kb: u64, w: Weight)
    requires
        w.bits < 0x7ff0_0000_0000_0000,
    ensures
        ({
            let product = nearest(nearest(used_kb as nat) * w.significand());
            let r = weighted(used_kb, w);
            &&& w.scale() < 1075 ==> {
                let unit = pow2((1075 - w.scale()) as nat);
                &&& r * unit <= product
                &&& product < (r + 1) * unit || r == 18_446_744_073_709_551_615
            }
            &&& w.scale() >= 1075 ==> {
                let unit = pow2((w.scale() - 1075) as nat);
                &&& r == product * unit || (r == 18_446_744_073_709_551_615 && r <= product * unit)
            }
        }),
{
    usable_bit_patterns(w);
    let product = nearest(nearest(used_kb as nat) * w.significand());
    let r = weighted(used_kb, w);
    assert(!w.has_sign());
    if w.scale() < 1075 {
        let unit = pow2((1075 - w.scale()) as nat);
        lemma_pow2_pos((1075 - w.scale()) as nat);
        let q = product / unit;
        lemma_fundamental_div_mod(product as int, unit as int);
        lemma_mod_bound(product as int, unit as int);
        assert(unit * q == q * unit) by (nonlinear_arith);
        assert(r * unit <= q * unit) by (nonlinear_arith)
            requires
                r <= q,
        ;
        assert((q + 1) * unit == q * unit + unit) by (nonlinear_arith);
    }
}

/// Weights that are no usable number: with a sign, or as a NaN, they count nothing; an
/// infinite one counts as much as there is room for, unless nothing is used.
pub proof fn unusable_weights_count_nothing_or_all(used_kb: u64, w: Weight)
    ensures
        w.bits >= 0x8000_0000_0000_0000 ==> weighted(used_kb, w) == 0,
        w.bits > 0x7ff0_0000_0000_0000 ==> weighted(used_kb, w) == 0,
        w.bits == 0x7ff0_0000_0000_0000 && used_kb == 0 ==> weighted(used_kb, w) == 0,
        w.bits == 0x7ff0_0000_0000_0000 && used_kb != 0 ==> weighted(used_kb, w)
            == 18_446_744_073_709_551_615,
{
    usable_bit_patterns(w);
}

} // verus!
