//! Exact fixed-point amounts: a signed 96-bit mantissa and a decimal scale.
//!
//! An amount stands for `mantissa * 10^-scale`. Arithmetic is carried out by
//! `rust_decimal`; before each operation the library checks that the exact
//! result fits, so no operation ever rounds.

use rust_decimal::Decimal;
use vstd::prelude::*;

verus! {

/// One more than the largest mantissa magnitude: mantissas hold 96 bits.
pub const MANTISSA_LIMIT: i128 = 79228162514264337593543950336;

/// The largest number of fractional digits an amount may carry.
pub const MAX_SCALE: u32 = 28;

/// The number of fractional digits amounts are rounded to for display.
pub const DISPLAY_SCALE: u32 = 4;

/// `10^n`.
pub open spec fn pow10(n: nat) -> int
    decreases n,
{
    if n == 0 {
        1
    } else {
        10 * pow10((n - 1) as nat)
    }
}

/// Whether `m` can be held as a mantissa.
pub open spec fn fits_mantissa(m: int) -> bool {
    -MANTISSA_LIMIT < m < MANTISSA_LIMIT
}

/// Powers of ten are positive.
pub proof fn lemma_pow10_positive(n: nat)
    ensures
        pow10(n) >= 1,
    decreases n,
{
    if n > 0 {
        lemma_pow10_positive((n - 1) as nat);
    }
}

/// `10^(a + b) == 10^a * 10^b`.
pub proof fn lemma_pow10_add(a: nat, b: nat)
    ensures
        pow10(a + b) == pow10(a) * pow10(b),
    decreases a,
{
    if a > 0 {
        lemma_pow10_add((a - 1) as nat, b);
        assert(pow10(a + b) == 10 * pow10((a - 1 + b) as nat));
        assert(10 * (pow10((a - 1) as nat) * pow10(b)) == (10 * pow10((a - 1) as nat)) * pow10(b))
            by (nonlinear_arith);
    }
}

/// A decimal amount worth `mantissa * 10^-scale`.
#[derive(Clone, Copy, Debug)]
pub struct Amount {
    mantissa: i128,
    scale: u32,
}

impl Amount {
    /// The mantissa, as an integer.
    pub closed spec fn spec_mantissa(self) -> int {
        self.mantissa as int
    }

    /// The scale: the number of fractional digits.
    pub closed spec fn spec_scale(self) -> nat {
        self.scale as nat
    }

    /// The mantissa fits in 96 bits and the scale is at most 28.
    #[verifier::type_invariant]
    pub open spec fn wf(self) -> bool {
        fits_mantissa(self.spec_mantissa()) && self.spec_scale() <= MAX_SCALE
    }

    /// The value, counted in units of `10^-28`.
    pub open spec fn value(self) -> int {
        self.spec_mantissa() * pow10((MAX_SCALE - self.spec_scale()) as nat)
    }

    /// The mantissa that stands for the same value at scale `s`.
    pub open spec fn mantissa_at(self, s: nat) -> int {
        self.spec_mantissa() * pow10((s - self.spec_scale()) as nat)
    }

    /// The amount `mantissa * 10^-scale`, where the mantissa fits in 96 bits and
    /// the scale is at most 28; `None` otherwise.
    pub fn from_parts(mantissa: i128, scale: u32) -> (r: Option<Amount>)
        ensures
            r is Some <==> (fits_mantissa(mantissa as int) && scale <= MAX_SCALE),
            r matches Some(a) ==> a.spec_mantissa() == mantissa && a.spec_scale() == scale,
    {
        if -MANTISSA_LIMIT < mantissa && mantissa < MANTISSA_LIMIT && scale <= MAX_SCALE {
            Some(Amount { mantissa, scale })
        } else {
            None
        }
    }

    /// The amount `num * 10^-scale`.
    pub fn new(num: i64, scale: u32) -> (r: Amount)
        requires
            scale <= MAX_SCALE,
        ensures
            r.spec_mantissa() == num,
            r.spec_scale() == scale,
    {
        Amount { mantissa: num as i128, scale }
    }

    /// Zero, with no fractional digits.
    pub fn zero() -> (r: Amount)
        ensures
            r == whole(0),
    {
        Amount { mantissa: 0, scale: 0 }
    }

    /// The mantissa.
    pub fn mantissa(&self) -> (r: i128)
        ensures
            r == self.spec_mantissa(),
    {
        self.mantissa
    }

    /// The scale: the number of fractional digits.
    pub fn scale(&self) -> (r: u32)
        ensures
            r == self.spec_scale(),
    {
        self.scale
    }
}

/// The amount with mantissa `m` and scale `s`.
pub closed spec fn amount_of(m: int, s: nat) -> Amount {
    Amount { mantissa: m as i128, scale: s as u32 }
}

/// An amount built from parts in range has those parts.
pub broadcast proof fn lemma_amount_of(m: int, s: nat)
    requires
        fits_mantissa(m),
        s <= MAX_SCALE,
    ensures
        #[trigger] amount_of(m, s).spec_mantissa() == m,
        amount_of(m, s).spec_scale() == s,
{
}

/// The finer of the two scales: where `rust_decimal` aligns two operands.
pub open spec fn common_scale(a: Amount, b: Amount) -> nat {
    if a.spec_scale() >= b.spec_scale() {
        a.spec_scale()
    } else {
        b.spec_scale()
    }
}

/// Whether `a + b` (or `a - b`, when `negate`) can be computed exactly: either
/// operand is zero, or both operands and the result fit at the common scale.
pub open spec fn sum_fits(a: Amount, b: Amount, negate: bool) -> bool {
    let s = common_scale(a, b);
    let bm = if negate {
        -b.mantissa_at(s)
    } else {
        b.mantissa_at(s)
    };
    ||| a.spec_mantissa() == 0
    ||| b.spec_mantissa() == 0
    ||| fits_mantissa(a.mantissa_at(s)) && fits_mantissa(bm) && fits_mantissa(a.mantissa_at(s) + bm)
}

/// What `rust_decimal` returns for `a + b` (or `a - b`, when `negate`) where
/// the result fits: a zero operand yields the other one (negated, for a zero
/// minuend), and otherwise the operands are aligned at the common scale.
pub open spec fn spec_sum(a: Amount, b: Amount, negate: bool) -> Amount {
    let s = common_scale(a, b);
    let bm = if negate {
        -b.mantissa_at(s)
    } else {
        b.mantissa_at(s)
    };
    if a.spec_mantissa() == 0 {
        if negate {
            amount_of(-b.spec_mantissa(), b.spec_scale())
        } else {
            b
        }
    } else if b.spec_mantissa() == 0 {
        a
    } else {
        amount_of(a.mantissa_at(s) + bm, s)
    }
}

/// Rescaling a mantissa keeps the value.
proof fn lemma_mantissa_at(a: Amount, s: nat)
    requires
        a.scale <= s <= MAX_SCALE,
    ensures
        a.mantissa_at(s) * pow10((MAX_SCALE - s) as nat) == a.value(),
{
    let k = (s - a.scale) as nat;
    let r = (MAX_SCALE - s) as nat;
    lemma_pow10_add(k, r);
    assert(k + r == (MAX_SCALE - a.scale) as nat);
    assert(a.mantissa * pow10(k) * pow10(r) == a.mantissa * (pow10(k) * pow10(r)))
        by (nonlinear_arith);
}

/// An exact sum is worth the sum (or difference) of the values, and is well formed.
pub proof fn lemma_sum_value(a: Amount, b: Amount, negate: bool)
    requires
        a.wf(),
        b.wf(),
        sum_fits(a, b, negate),
    ensures
        spec_sum(a, b, negate).wf(),
        spec_sum(a, b, negate).value() == if negate {
            a.value() - b.value()
        } else {
            a.value() + b.value()
        },
{
    let s = common_scale(a, b);
    let r = (MAX_SCALE - s) as nat;
    lemma_mantissa_at(a, s);
    lemma_mantissa_at(b, s);
    lemma_pow10_positive((MAX_SCALE - a.scale) as nat);
    lemma_pow10_positive((MAX_SCALE - b.scale) as nat);
    let am = a.mantissa_at(s);
    let bm = b.mantissa_at(s);
    let p = pow10(r);
    assert((am + bm) * p == am * p + bm * p) by (nonlinear_arith);
    assert((am - bm) * p == am * p - bm * p) by (nonlinear_arith);
    let bmant = b.mantissa as int;
    let pb = pow10((MAX_SCALE - b.scale) as nat);
    assert((-bmant) * pb == -(bmant * pb)) by (nonlinear_arith);
    assert(0 * pow10((MAX_SCALE - a.scale) as nat) == 0);
    assert(0 * pow10((MAX_SCALE - b.scale) as nat) == 0);
}

/// Taking `d` away from `a` and adding it back fits, and gives back `a`'s worth.
pub proof fn lemma_sub_then_add(a: Amount, d: Amount)
    requires
        a.wf(),
        d.wf(),
        sum_fits(a, d, true),
    ensures
        sum_fits(spec_sum(a, d, true), d, false),
        spec_sum(spec_sum(a, d, true), d, false).value() == a.value(),
{
    lemma_sum_value(a, d, true);
    let m = spec_sum(a, d, true);
    assert(pow10(0) == 1);
    lemma_sum_value(m, d, false);
}

/// Adding `d` to `h` and taking it away again fits, and gives back `h`'s worth.
pub proof fn lemma_add_then_sub(h: Amount, d: Amount)
    requires
        h.wf(),
        d.wf(),
        sum_fits(h, d, false),
    ensures
        sum_fits(spec_sum(h, d, false), d, true),
        spec_sum(spec_sum(h, d, false), d, true).value() == h.value(),
{
    lemma_sum_value(h, d, false);
    let m = spec_sum(h, d, false);
    assert(pow10(0) == 1);
    if h.mantissa != 0 && d.mantissa != 0 && m.mantissa != 0 {
        let s = common_scale(h, d);
        assert(m.scale == s);
        assert(common_scale(m, d) == s);
        assert(m.mantissa_at(s) == m.mantissa * pow10(0));
        assert(m.mantissa_at(s) == m.mantissa);
        assert(m.mantissa_at(s) - d.mantissa_at(s) == h.mantissa_at(s));
    }
    lemma_sum_value(m, d, true);
}

/// `10^n` as a machine integer.
fn pow10_exec(n: u32) -> (r: i128)
    requires
        n <= MAX_SCALE,
    ensures
        r == pow10(n as nat),
{
    let mut r: i128 = 1;
    let mut i: u32 = 0;
    while i < n
        invariant
            i <= n <= MAX_SCALE,
            r == pow10(i as nat),
        decreases n - i,
    {
        proof {
            lemma_pow10_monotonic(i as nat, 27);
            reveal_with_fuel(pow10, 28);
            assert(pow10(27) == 1000000000000000000000000000);
        }
        r = r * 10;
        i = i + 1;
    }
    r
}

/// Powers of ten grow with the exponent.
proof fn lemma_pow10_monotonic(n: nat, m: nat)
    requires
        n <= m,
    ensures
        pow10(n) <= pow10(m),
    decreases m - n,
{
    if n < m {
        lemma_pow10_monotonic(n, (m - 1) as nat);
        lemma_pow10_positive((m - 1) as nat);
    }
}

/// The mantissa of `a` at scale `s`, if it fits in 96 bits.
fn mantissa_at_exec(a: Amount, s: u32) -> (r: Option<i128>)
    requires
        a.scale <= s <= MAX_SCALE,
    ensures
        r is Some <==> fits_mantissa(a.mantissa_at(s as nat)),
        r matches Some(m) ==> m == a.mantissa_at(s as nat),
{
    let p = pow10_exec(s - a.scale);
    match a.mantissa.checked_mul(p) {
        Some(m) => {
            if -MANTISSA_LIMIT < m && m < MANTISSA_LIMIT {
                Some(m)
            } else {
                None
            }
        },
        None => None,
    }
}

/// Whether `a + b` (or `a - b`, when `negate`) can be computed exactly.
fn sum_fits_exec(a: Amount, b: Amount, negate: bool) -> (r: bool)
    ensures
        r == sum_fits(a, b, negate),
{
    proof {
        use_type_invariant(&a);
        use_type_invariant(&b);
    }
    if a.mantissa == 0 || b.mantissa == 0 {
        return true;
    }
    let s = if a.scale >= b.scale {
        a.scale
    } else {
        b.scale
    };
    match (mantissa_at_exec(a, s), mantissa_at_exec(b, s)) {
        (Some(am), Some(bm)) => {
            let sum = if negate {
                am - bm
            } else {
                am + bm
            };
            -MANTISSA_LIMIT < sum && sum < MANTISSA_LIMIT
        },
        _ => false,
    }
}

/// Relies on `Decimal`'s `+` (rust_decimal `ops::add::add_impl`): a zero
/// operand yields the other one, and otherwise the operands are aligned at the
/// finer scale and added; with no overflow there, the sum is exact and `+`
/// does not panic. An amount's invariant keeps `from_i128_with_scale` from
/// panicking, here and in the wrappers below.
#[verifier::external_body]
fn decimal_add(a: Amount, b: Amount) -> (r: Amount)
    requires
        sum_fits(a, b, false),
    ensures
        r == spec_sum(a, b, false),
{
    let d = Decimal::from_i128_with_scale(a.mantissa, a.scale) + Decimal::from_i128_with_scale(
        b.mantissa,
        b.scale,
    );
    Amount { mantissa: d.mantissa(), scale: d.scale() }
}

/// Relies on `Decimal`'s `-` (rust_decimal `ops::add::sub_impl`): a zero
/// subtrahend yields the minuend, a zero minuend yields the negated subtrahend,
/// and otherwise the operands are aligned at the finer scale and subtracted;
/// with no overflow there, the difference is exact.
#[verifier::external_body]
fn decimal_sub(a: Amount, b: Amount) -> (r: Amount)
    requires
        sum_fits(a, b, true),
    ensures
        r == spec_sum(a, b, true),
{
    let d = Decimal::from_i128_with_scale(a.mantissa, a.scale) - Decimal::from_i128_with_scale(
        b.mantissa,
        b.scale,
    );
    Amount { mantissa: d.mantissa(), scale: d.scale() }
}

/// Relies on `Decimal`'s `>=` (rust_decimal `ops::cmp::cmp_impl`), which
/// compares values regardless of scale.
#[verifier::external_body]
fn decimal_ge(a: Amount, b: Amount) -> (r: bool)
    ensures
        r == (a.value() >= b.value()),
{
    Decimal::from_i128_with_scale(a.mantissa, a.scale) >= Decimal::from_i128_with_scale(
        b.mantissa,
        b.scale,
    )
}

impl Amount {
    /// `self + other`, exactly; `None` where the exact sum does not fit.
    pub fn checked_add(self, other: Amount) -> (r: Option<Amount>)
        ensures
            r is Some <==> sum_fits(self, other, false),
            r matches Some(s) ==> s == spec_sum(self, other, false) && s.value() == self.value()
                + other.value(),
    {
        proof {
            use_type_invariant(&self);
            use_type_invariant(&other);
        }
        if sum_fits_exec(self, other, false) {
            proof {
                lemma_sum_value(self, other, false);
            }
            Some(decimal_add(self, other))
        } else {
            None
        }
    }

    /// `self - other`, exactly; `None` where the exact difference does not fit.
    pub fn checked_sub(self, other: Amount) -> (r: Option<Amount>)
        ensures
            r is Some <==> sum_fits(self, other, true),
            r matches Some(s) ==> s == spec_sum(self, other, true) && s.value() == self.value()
                - other.value(),
    {
        proof {
            use_type_invariant(&self);
            use_type_invariant(&other);
        }
        if sum_fits_exec(self, other, true) {
            proof {
                lemma_sum_value(self, other, true);
            }
            Some(decimal_sub(self, other))
        } else {
            None
        }
    }

    /// Whether `self` is worth at least `other`.
    pub fn at_least(self, other: Amount) -> (r: bool)
        ensures
            r == (self.value() >= other.value()),
    {
        decimal_ge(self, other)
    }
}

/// `mag / d` rounded to the nearest integer, ties to the even neighbour.
pub open spec fn round_half_even(mag: int, d: int) -> int {
    let q = mag / d;
    let rem = mag % d;
    if 2 * rem > d || (2 * rem == d && q % 2 == 1) {
        q + 1
    } else {
        q
    }
}

/// What `rust_decimal`'s `round_dp(dp)` returns: an amount with at most `dp`
/// fractional digits is kept as it is; otherwise the magnitude is rounded to
/// `dp` digits, ties to even, and the sign kept.
pub open spec fn spec_round_dp(a: Amount, dp: nat) -> Amount {
    if a.spec_scale() <= dp {
        a
    } else {
        let d = pow10((a.spec_scale() - dp) as nat);
        let m = a.spec_mantissa();
        let q = round_half_even(if m < 0 {
            -m
        } else {
            m
        }, d);
        amount_of(
            if m < 0 {
                -q
            } else {
                q
            },
            dp,
        )
    }
}

/// `|x|`.
pub open spec fn abs(x: int) -> int {
    if x < 0 {
        -x
    } else {
        x
    }
}

/// Rounding to `dp` fractional digits moves a value by at most half a unit of
/// the last digit kept, and yields a well-formed amount.
pub proof fn lemma_round_dp_close(a: Amount, dp: nat)
    requires
        a.wf(),
        dp <= MAX_SCALE,
    ensures
        spec_round_dp(a, dp).wf(),
        2 * abs(spec_round_dp(a, dp).value() - a.value()) <= pow10((MAX_SCALE - dp) as nat),
{
    lemma_pow10_positive((MAX_SCALE - dp) as nat);
    if a.spec_scale() > dp {
        let s = a.spec_scale();
        let k = (s - dp) as nat;
        let d = pow10(k);
        let p = pow10((MAX_SCALE - s) as nat);
        lemma_pow10_add(k, (MAX_SCALE - s) as nat);
        assert(k + (MAX_SCALE - s) == (MAX_SCALE - dp) as nat);
        lemma_pow10_positive((MAX_SCALE - s) as nat);
        lemma_pow10_monotonic(1, k);
        reveal_with_fuel(pow10, 2);
        assert(pow10(1) == 10);
        let m = a.spec_mantissa();
        let mag = abs(m);
        let q = mag / d;
        let rem = mag % d;
        vstd::arithmetic::div_mod::lemma_fundamental_div_mod(mag, d);
        vstd::arithmetic::div_mod::lemma_mod_pos_bound(mag, d);
        let q2 = round_half_even(mag, d);
        assert(0 <= q && 10 * q <= mag) by (nonlinear_arith)
            requires
                mag == d * q + rem,
                0 <= rem < d,
                d >= 10,
                mag >= 0,
        ;
        assert(q2 * d - mag == (if q2 == q {
            -rem
        } else {
            d - rem
        })) by (nonlinear_arith)
            requires
                mag == d * q + rem,
                q2 == q || q2 == q + 1,
        ;
        assert(2 * abs(q2 * d - mag) <= d);
        let r = if m < 0 {
            -q2
        } else {
            q2
        };
        assert(fits_mantissa(r));
        let rounded = spec_round_dp(a, dp);
        assert(rounded.spec_mantissa() == r);
        assert(rounded.value() == r * pow10((MAX_SCALE - dp) as nat));
        assert(rounded.value() - a.value() == (r * d - m) * p) by (nonlinear_arith)
            requires
                rounded.value() == r * pow10((MAX_SCALE - dp) as nat),
                pow10((MAX_SCALE - dp) as nat) == d * p,
                a.value() == m * p,
        ;
        assert(abs(r * d - m) == abs(q2 * d - mag)) by (nonlinear_arith)
            requires
                r == (if m < 0 {
                    -q2
                } else {
                    q2
                }),
                mag == (if m < 0 {
                    -m
                } else {
                    m
                }),
        ;
        assert(2 * abs((r * d - m) * p) <= d * p) by (nonlinear_arith)
            requires
                2 * abs(r * d - m) <= d,
                p >= 1,
        ;
    }
}

/// Relies on rust_decimal `Decimal::round_dp`: banker's rounding of the
/// magnitude to `dp` fractional digits, the sign kept, and no change to an
/// amount that already has at most `dp` of them.
#[verifier::external_body]
fn decimal_round_dp(a: Amount, dp: u32) -> (r: Amount)
    ensures
        r == spec_round_dp(a, dp as nat),
{
    let d = Decimal::from_i128_with_scale(a.mantissa, a.scale).round_dp(dp);
    Amount { mantissa: d.mantissa(), scale: d.scale() }
}

impl Amount {
    /// `self` rounded to `dp` fractional digits, ties to even.
    pub fn round_dp(self, dp: u32) -> (r: Amount)
        ensures
            r == spec_round_dp(self, dp as nat),
    {
        decimal_round_dp(self, dp)
    }
}

impl PartialEq for Amount {
    /// Amounts are equal when they are worth the same, whatever their scales.
    fn eq(&self, other: &Amount) -> (r: bool) {
        self.at_least(*other) && other.at_least(*self)
    }
}

impl vstd::std_specs::cmp::PartialEqSpecImpl for Amount {
    open spec fn obeys_eq_spec() -> bool {
        true
    }

    open spec fn eq_spec(&self, other: &Amount) -> bool {
        self.value() == other.value()
    }
}

/// The whole number `v`, with no fractional digits.
pub open spec fn whole(v: int) -> Amount {
    amount_of(v, 0)
}

/// Zero is a well-formed amount worth nothing.
pub proof fn lemma_zero()
    ensures
        whole(0).wf(),
        whole(0).value() == 0,
        whole(0).spec_mantissa() == 0,
{
}

impl From<i32> for Amount {
    /// The whole number `v`, with no fractional digits.
    fn from(v: i32) -> (r: Amount) {
        Amount { mantissa: v as i128, scale: 0 }
    }
}

impl vstd::std_specs::convert::FromSpecImpl<i32> for Amount {
    open spec fn obeys_from_spec() -> bool {
        true
    }

    open spec fn from_spec(v: i32) -> Amount {
        whole(v as int)
    }
}

} // verus!
