//! Fixed-point decimal numbers and the two directed roundings the price rules need.

use vstd::prelude::*;
use vstd::std_specs::cmp::PartialEqSpecImpl;

verus! {

/// Largest magnitude a mantissa may have: 2^96 - 1.
pub const MAX_MANTISSA: i128 = 0xFFFF_FFFF_FFFF_FFFF_FFFF_FFFF;

/// Largest number of fractional digits.
pub const MAX_SCALE: u32 = 28;

/// Mathematical content of a [`Decimal`]: the number `mantissa / 10^scale`.
pub struct DecimalView {
    pub mantissa: int,
    pub scale: nat,
}

/// A decimal number `mantissa / 10^scale` with a 96-bit magnitude and at most 28
/// fractional digits. Two decimals are equal when they are the same number,
/// however many trailing zeros each is written with.
#[derive(Clone, Copy, Debug)]
pub struct Decimal {
    mantissa: i128,
    scale: u32,
}

/// Direction of a rounding that drops fractional digits.
#[derive(Clone, Copy, Debug, PartialEq, Eq, Structural)]
pub enum Rounding {
    /// Drop the digits: the magnitude never grows.
    TowardZero,
    /// Drop the digits and, if any of them was not zero, add one unit in the
    /// last kept place: the magnitude never shrinks.
    AwayFromZero,
}

/// `10^e`.
pub open spec fn pow10(e: nat) -> nat
    decreases e,
{
    if e == 0 {
        1
    } else {
        10 * pow10((e - 1) as nat)
    }
}

/// The magnitude `mag` with its last `drop` digits removed in direction `mode`.
pub open spec fn round_magnitude(mag: nat, drop: nat, mode: Rounding) -> nat {
    let kept = mag / pow10(drop);
    if mode == Rounding::AwayFromZero && mag % pow10(drop) != 0 {
        kept + 1
    } else {
        kept
    }
}

/// `d` rounded to at most `dp` fractional digits in direction `mode`. A number
/// that already has no more than `dp` digits is left as it is, scale included.
pub open spec fn rounded(d: DecimalView, dp: nat, mode: Rounding) -> DecimalView {
    if d.scale <= dp {
        d
    } else {
        let mag = round_magnitude(vstd::math::abs(d.mantissa) as nat, (d.scale - dp) as nat, mode);
        DecimalView { mantissa: if d.mantissa < 0 { -(mag as int) } else { mag as int }, scale: dp }
    }
}

impl DecimalView {
    /// Whether the number fits a [`Decimal`]: a magnitude below 2^96 and at most
    /// 28 fractional digits.
    pub open spec fn representable(self) -> bool {
        -MAX_MANTISSA <= self.mantissa <= MAX_MANTISSA && self.scale <= MAX_SCALE
    }

    /// Numerator of the number over `10^digits`, for `digits >= self.scale`.
    pub open spec fn numerator_at(self, digits: nat) -> int {
        self.mantissa * pow10((digits - self.scale) as nat)
    }
}

/// `d` written without trailing zeros after the decimal point.
pub open spec fn normal_form(d: DecimalView) -> DecimalView
    decreases d.scale,
{
    if d.scale > 0 && d.mantissa % 10 == 0 {
        normal_form(DecimalView { mantissa: d.mantissa / 10, scale: (d.scale - 1) as nat })
    } else {
        d
    }
}

/// Number of digits that rounding a number of `scale` digits to `dp` digits drops.
pub open spec fn dropped_digits(scale: nat, dp: nat) -> nat {
    if scale > dp {
        (scale - dp) as nat
    } else {
        0
    }
}

/// The number that `serde_json::from_value` reads as a `rust_decimal::Decimal`
/// from the JSON string whose characters are `text`, or `None` where it
/// reports an error.
pub uninterp spec fn decimal_of_text(text: Seq<char>) -> Option<DecimalView>;

/// The number that `serde_json::from_str` reads as a `rust_decimal::Decimal`
/// from the JSON text `literal`, or `None` where it reports an error.
pub uninterp spec fn decimal_of_number(literal: Seq<char>) -> Option<DecimalView>;

/// Wraps `r` for a contract: the view of the number, if there is one.
pub open spec fn decimal_view(r: Option<Decimal>) -> Option<DecimalView> {
    match r {
        Some(d) => Some(d@),
        None => None,
    }
}

impl PartialEq for Decimal {
    fn eq(&self, other: &Decimal) -> (equal: bool) {
        self.same_number(other)
    }
}

impl Eq for Decimal {

}

impl PartialEqSpecImpl for Decimal {
    open spec fn obeys_eq_spec() -> bool {
        true
    }

    open spec fn eq_spec(&self, other: &Decimal) -> bool {
        normal_form(self@) == normal_form(other@)
    }
}

impl View for Decimal {
    type V = DecimalView;

    closed spec fn view(&self) -> DecimalView {
        DecimalView { mantissa: self.mantissa as int, scale: self.scale as nat }
    }
}

impl Decimal {
    #[verifier::type_invariant]
    spec fn in_range(self) -> bool {
        -MAX_MANTISSA <= self.mantissa <= MAX_MANTISSA && self.scale <= MAX_SCALE
    }

    /// The number `num / 10^scale`.
    pub fn new(num: i64, scale: u32) -> (d: Decimal)
        requires
            scale <= MAX_SCALE,
        ensures
            d@ == (DecimalView { mantissa: num as int, scale: scale as nat }),
    {
        Decimal { mantissa: num as i128, scale }
    }

    /// The number `num / 10^scale`, where a [`Decimal`] can hold it.
    pub fn try_new(num: i64, scale: u32) -> (r: Option<Decimal>)
        ensures
            scale <= MAX_SCALE ==> decimal_view(r) == Some(
                DecimalView { mantissa: num as int, scale: scale as nat },
            ),
            scale > MAX_SCALE ==> r is None,
    {
        if scale <= MAX_SCALE {
            Some(Decimal { mantissa: num as i128, scale })
        } else {
            None
        }
    }

    /// The number `num / 10^scale`, where a [`Decimal`] can hold it: `None` for
    /// a magnitude of 2^96 or more, or for more than 28 fractional digits.
    pub fn try_from_i128_with_scale(num: i128, scale: u32) -> (r: Option<Decimal>)
        ensures
            decimal_view(r) == if (DecimalView {
                mantissa: num as int,
                scale: scale as nat,
            }).representable() {
                Some(DecimalView { mantissa: num as int, scale: scale as nat })
            } else {
                None
            },
    {
        if scale <= MAX_SCALE && -MAX_MANTISSA <= num && num <= MAX_MANTISSA {
            Some(Decimal { mantissa: num, scale })
        } else {
            None
        }
    }

    /// The same number without trailing zeros after the decimal point.
    pub fn normalize(&self) -> (r: Decimal)
        ensures
            r@ == normal_form(self@),
    {
        proof {
            use_type_invariant(self);
        }
        let mut mantissa = self.mantissa;
        let mut scale = self.scale;
        while scale > 0 && mantissa % 10 == 0
            invariant
                -MAX_MANTISSA <= mantissa <= MAX_MANTISSA,
                scale <= MAX_SCALE,
                normal_form(self@) == normal_form(
                    DecimalView { mantissa: mantissa as int, scale: scale as nat },
                ),
            decreases scale,
        {
            mantissa = mantissa / 10;
            scale = scale - 1;
        }
        Decimal { mantissa, scale }
    }

    /// Numerator of the number over `10^scale`.
    pub fn mantissa(&self) -> (m: i128)
        ensures
            m == self@.mantissa,
            self@.representable(),
    {
        proof {
            use_type_invariant(self);
        }
        self.mantissa
    }

    /// Number of fractional digits.
    pub fn scale(&self) -> (s: u32)
        ensures
            s == self@.scale,
            self@.representable(),
    {
        proof {
            use_type_invariant(self);
        }
        self.scale
    }

    /// Whether `self` and `other` are the same number.
    pub fn same_number(&self, other: &Decimal) -> (same: bool)
        ensures
            same == (normal_form(self@) == normal_form(other@)),
    {
        let a = self.normalize();
        let b = other.normalize();
        a.mantissa == b.mantissa && a.scale == b.scale
    }

    /// Reads a number from the characters of a JSON string, by handing
    /// `serde_json::from_value` a string value to deserialize as a
    /// `rust_decimal::Decimal`. Trusted: the outcome is a function of the
    /// characters alone, and a number that comes out is within the bounds that
    /// `rust_decimal` documents for its type.
    #[verifier::external_body]
    pub(crate) fn from_json_text(text: &str) -> (r: Option<Decimal>)
        ensures
            decimal_view(r) == decimal_of_text(text@),
            r matches Some(d) ==> d@.representable(),
    {
        serde_json::from_value::<rust_decimal::Decimal>(serde_json::Value::String(text.to_owned()))
            .ok()
            .map(|d| Decimal { mantissa: d.mantissa(), scale: d.scale() })
    }

    /// Reads a number from the literal of a JSON number, by handing the
    /// literal to `serde_json::from_str` to deserialize as a
    /// `rust_decimal::Decimal`. Trusted: the outcome is a function of the
    /// literal alone, and a number that comes out is within the bounds that
    /// `rust_decimal` documents for its type.
    #[verifier::external_body]
    pub(crate) fn from_json_number(literal: &str) -> (r: Option<Decimal>)
        ensures
            decimal_view(r) == decimal_of_number(literal@),
            r matches Some(d) ==> d@.representable(),
    {
        serde_json::from_str::<rust_decimal::Decimal>(literal).ok().map(
            |d| Decimal { mantissa: d.mantissa(), scale: d.scale() },
        )
    }

    /// Rounds to at most `dp` fractional digits with `rust_decimal`'s
    /// `Decimal::round_dp_with_strategy`, under its strategies `ToZero` and
    /// `AwayFromZero`. Trusted: a number with no more than `dp` digits comes
    /// back unchanged; otherwise the magnitude is divided by the power of ten
    /// of the dropped digits, one is added under `AwayFromZero` when the
    /// remainder is not zero, the sign is kept and the scale becomes `dp`.
    #[verifier::external_body]
    pub(crate) fn round_dp_with_strategy(&self, dp: u32, mode: Rounding) -> (r: Decimal)
        ensures
            r@ == rounded(self@, dp as nat, mode),
    {
        let strategy = match mode {
            Rounding::TowardZero => rust_decimal::RoundingStrategy::ToZero,
            Rounding::AwayFromZero => rust_decimal::RoundingStrategy::AwayFromZero,
        };
        let d = rust_decimal::Decimal::from_i128_with_scale(self.mantissa, self.scale)
            .round_dp_with_strategy(dp, strategy);
        Decimal { mantissa: d.mantissa(), scale: d.scale() }
    }
}

impl DecimalView {
    /// Whether `self` and `other` are the same number: the same fraction,
    /// compared by cross-multiplication.
    pub open spec fn same_value(self, other: DecimalView) -> bool {
        self.mantissa * pow10(other.scale) == other.mantissa * pow10(self.scale)
    }

    /// Whether the number is written without trailing zeros after the point.
    pub open spec fn is_normal(self) -> bool {
        self.scale == 0 || self.mantissa % 10 != 0
    }
}

/// Every power of ten is positive.
pub proof fn lemma_pow10_positive(e: nat)
    ensures
        pow10(e) >= 1,
        e >= 1 ==> pow10(e) >= 10,
    decreases e,
{
    if e > 0 {
        lemma_pow10_positive((e - 1) as nat);
    }
}

/// Rounding leaves at most `dp` fractional digits, never adds digits, and does
/// nothing to a number that has no more than `dp` of them.
pub proof fn lemma_rounded_digits(d: DecimalView, dp: nat, mode: Rounding)
    ensures
        rounded(d, dp, mode).scale <= dp,
        rounded(d, dp, mode).scale <= d.scale,
        d.scale <= dp ==> rounded(d, dp, mode) == d,
{
}

/// Rounding a rounded number again, in either direction, changes nothing.
pub proof fn lemma_rounded_idempotent(d: DecimalView, dp: nat, first: Rounding, second: Rounding)
    ensures
        rounded(rounded(d, dp, first), dp, second) == rounded(d, dp, first),
{
}

/// What is left of a magnitude after dropping digits, against the magnitude:
/// toward zero it is the largest multiple of the dropped power of ten not above
/// it, away from zero the smallest one not below it.
pub proof fn lemma_round_magnitude(mag: nat, drop: nat, mode: Rounding)
    ensures
        mode == Rounding::TowardZero ==> mag - pow10(drop) < round_magnitude(mag, drop, mode)
            * pow10(drop) <= mag,
        mode == Rounding::AwayFromZero ==> mag <= round_magnitude(mag, drop, mode) * pow10(drop)
            < mag + pow10(drop),
{
    let p = pow10(drop) as int;
    let q = mag as int / p;
    let rem = mag as int % p;
    lemma_pow10_positive(drop);
    vstd::arithmetic::div_mod::lemma_fundamental_div_mod(mag as int, p);
    vstd::arithmetic::div_mod::lemma_mod_pos_bound(mag as int, p);
    vstd::arithmetic::div_mod::lemma_div_pos_is_pos(mag as int, p);
    assert(p * q == q * p) by (nonlinear_arith);
    assert((q + 1) * p == q * p + p) by (nonlinear_arith);
}

/// A rounded number differs from the number given by less than one unit of the
/// last digit kept. Toward zero it lies between zero and the number given;
/// away from zero the number given lies between zero and it. Both are
/// compared as numerators over the power of ten of the number given.
pub proof fn lemma_rounded_direction(d: DecimalView, dp: nat, mode: Rounding)
    ensures
        ({
            let n = rounded(d, dp, mode).numerator_at(d.scale);
            let unit = pow10(dropped_digits(d.scale, dp));
            &&& mode == Rounding::TowardZero && d.mantissa >= 0 ==> d.mantissa - unit < n
                <= d.mantissa
            &&& mode == Rounding::TowardZero && d.mantissa <= 0 ==> d.mantissa <= n < d.mantissa
                + unit
            &&& mode == Rounding::AwayFromZero && d.mantissa >= 0 ==> d.mantissa <= n < d.mantissa
                + unit
            &&& mode == Rounding::AwayFromZero && d.mantissa <= 0 ==> d.mantissa - unit < n
                <= d.mantissa
        }),
{
    let r = rounded(d, dp, mode);
    if d.scale <= dp {
        assert(pow10(0) == 1);
        assert(r.numerator_at(d.scale) == d.mantissa * pow10(0));
    } else {
        let drop = (d.scale - dp) as nat;
        let mag = vstd::math::abs(d.mantissa) as nat;
        let kept = round_magnitude(mag, drop, mode);
        let p = pow10(drop) as int;
        lemma_round_magnitude(mag, drop, mode);
        if d.mantissa < 0 {
            assert((-(kept as int)) * p == -(kept * p)) by (nonlinear_arith);
        } else if d.mantissa == 0 {
            lemma_pow10_positive(drop);
            vstd::arithmetic::div_mod::lemma_basic_div(0, p);
            vstd::arithmetic::div_mod::lemma_small_mod(0, p as nat);
            assert(r.mantissa * p == 0) by (nonlinear_arith)
                requires
                    r.mantissa == 0,
            ;
        }
    }
}

/// Rounding keeps a number within what a [`Decimal`] can hold.
pub proof fn lemma_rounded_representable(d: DecimalView, dp: nat, mode: Rounding)
    requires
        d.representable(),
    ensures
        rounded(d, dp, mode).representable(),
{
    if d.scale > dp {
        let drop = (d.scale - dp) as nat;
        let mag = vstd::math::abs(d.mantissa) as nat;
        let p = pow10(drop) as int;
        let q = mag as int / p;
        lemma_pow10_positive(drop);
        vstd::arithmetic::div_mod::lemma_fundamental_div_mod(mag as int, p);
        vstd::arithmetic::div_mod::lemma_mod_pos_bound(mag as int, p);
        vstd::arithmetic::div_mod::lemma_div_pos_is_pos(mag as int, p);
        assert(q * 10 <= mag) by (nonlinear_arith)
            requires
                mag == p * q + (mag as int % p),
                0 <= mag as int % p,
                p >= 10,
                q >= 0,
        ;
    }
}

/// Powers of ten multiply as their exponents add.
pub proof fn lemma_pow10_adds(a: nat, b: nat)
    ensures
        pow10(a + b) == pow10(a) * pow10(b),
    decreases a,
{
    if a == 0 {
        assert(pow10(a) * pow10(b) == pow10(b)) by (nonlinear_arith)
            requires
                pow10(a) == 1,
        ;
    } else {
        lemma_pow10_adds((a - 1) as nat, b);
        assert(10 * (pow10((a - 1) as nat) * pow10(b)) == (10 * pow10((a - 1) as nat)) * pow10(b))
            by (nonlinear_arith);
    }
}

/// The normal form is the same number, written with no more digits, and
/// without trailing zeros after the point.
pub proof fn lemma_normal_form_keeps_value(d: DecimalView)
    ensures
        normal_form(d).is_normal(),
        normal_form(d).scale <= d.scale,
        normal_form(d).same_value(d),
        d.is_normal() ==> normal_form(d) == d,
        d.representable() ==> normal_form(d).representable(),
    decreases d.scale,
{
    let n = normal_form(d);
    if d.scale > 0 && d.mantissa % 10 == 0 {
        let shorter = DecimalView { mantissa: d.mantissa / 10, scale: (d.scale - 1) as nat };
        lemma_normal_form_keeps_value(shorter);
        assert(n.mantissa * pow10(d.scale) == d.mantissa * pow10(n.scale)) by (nonlinear_arith)
            requires
                n.mantissa * pow10(shorter.scale) == shorter.mantissa * pow10(n.scale),
                d.mantissa == 10 * shorter.mantissa,
                pow10(d.scale) == 10 * pow10(shorter.scale),
        ;
    }
}

/// Being the same number is transitive.
pub proof fn lemma_same_value_chain(a: DecimalView, b: DecimalView, c: DecimalView)
    requires
        a.same_value(b),
        b.same_value(c),
    ensures
        a.same_value(c),
{
    let (pa, pb, pc) = (pow10(a.scale) as int, pow10(b.scale) as int, pow10(c.scale) as int);
    lemma_pow10_positive(b.scale);
    assert((a.mantissa * pc) * pb == (c.mantissa * pa) * pb) by (nonlinear_arith)
        requires
            a.mantissa * pb == b.mantissa * pa,
            b.mantissa * pc == c.mantissa * pb,
    ;
    assert(a.mantissa * pc == c.mantissa * pa) by (nonlinear_arith)
        requires
            (a.mantissa * pc) * pb == (c.mantissa * pa) * pb,
            pb > 0,
    ;
}

/// Of two normal forms of one number, the first has no fewer digits than the
/// second.
proof fn lemma_normal_digits(a: DecimalView, b: DecimalView)
    requires
        a.is_normal(),
        b.is_normal(),
        a.same_value(b),
    ensures
        a.scale >= b.scale,
{
    if a.scale < b.scale {
        let more = (b.scale - a.scale) as nat;
        let pa = pow10(a.scale) as int;
        let rest = pow10((more - 1) as nat) as int;
        lemma_pow10_positive(a.scale);
        lemma_pow10_adds(a.scale, more);
        assert(b.mantissa == (a.mantissa * rest) * 10) by (nonlinear_arith)
            requires
                a.mantissa * (pa * (10 * rest)) == b.mantissa * pa,
                pa > 0,
        ;
        vstd::arithmetic::div_mod::lemma_mod_multiples_basic(a.mantissa * rest, 10);
    }
}

/// Two decimals have the same normal form exactly when they are the same
/// number.
pub proof fn lemma_normal_form_decides_equality(a: DecimalView, b: DecimalView)
    ensures
        normal_form(a) == normal_form(b) <==> a.same_value(b),
{
    let (na, nb) = (normal_form(a), normal_form(b));
    lemma_normal_form_keeps_value(a);
    lemma_normal_form_keeps_value(b);
    if na == nb {
        lemma_same_value_chain(a, na, b);
    }
    if a.same_value(b) {
        lemma_same_value_chain(na, a, b);
        lemma_same_value_chain(na, b, nb);
        lemma_normal_digits(na, nb);
        lemma_normal_digits(nb, na);
        lemma_pow10_positive(na.scale);
        assert(na.mantissa == nb.mantissa) by (nonlinear_arith)
            requires
                na.mantissa * pow10(na.scale) == nb.mantissa * pow10(na.scale),
                pow10(na.scale) > 0,
        ;
    }
}

/// A rounded number is the same number as the one given exactly when nothing
/// but zeros was dropped.
pub proof fn lemma_rounded_is_exact(d: DecimalView, dp: nat, mode: Rounding)
    ensures
        rounded(d, dp, mode).same_value(d) <==> vstd::math::abs(d.mantissa) % pow10(
            dropped_digits(d.scale, dp),
        ) == 0,
{
    let r = rounded(d, dp, mode);
    let drop = dropped_digits(d.scale, dp);
    let p = pow10(drop) as int;
    let mag = vstd::math::abs(d.mantissa) as int;
    lemma_pow10_positive(drop);
    lemma_pow10_positive(r.scale);
    vstd::arithmetic::div_mod::lemma_fundamental_div_mod(mag, p);
    vstd::arithmetic::div_mod::lemma_mod_pos_bound(mag, p);
    if d.scale <= dp {
        vstd::arithmetic::div_mod::lemma_mod_multiples_basic(mag, 1);
    } else {
        let kept = round_magnitude(mag as nat, drop, mode) as int;
        let pr = pow10(r.scale) as int;
        lemma_pow10_adds(r.scale, drop);
        lemma_round_magnitude(mag as nat, drop, mode);
        let signed_kept = if d.mantissa < 0 {
            -kept
        } else {
            kept
        };
        assert(signed_kept * (pr * p) == d.mantissa * pr <==> signed_kept * p == d.mantissa)
            by (nonlinear_arith)
            requires
                pr > 0,
        ;
        assert(signed_kept * p == d.mantissa <==> kept * p == mag) by (nonlinear_arith)
            requires
                signed_kept == if d.mantissa < 0 {
                    -kept
                } else {
                    kept
                },
                mag == if d.mantissa < 0 {
                    -d.mantissa
                } else {
                    d.mantissa
                },
        ;
        assert((mag / p) * p == p * (mag / p)) by (nonlinear_arith);
        assert((mag / p + 1) * p == p * (mag / p) + p) by (nonlinear_arith);
    }
}

} // verus!
