//! Money amounts: fixed-precision decimals `mantissa / 10^scale`.
//!
//! The arithmetic itself is `rust_decimal`'s. Every result that it hands back
//! is checked here against the exact sum or difference before it is accepted,
//! so the balances that are built from amounts never drift.

use rust_decimal::Decimal;
use std::str::FromStr;
use vstd::prelude::*;

verus! {

/// The largest number of fractional digits that an amount can carry.
pub const MAX_SCALE: u32 = 28;

/// The largest magnitude of a mantissa: `2^96 - 1`.
pub const MAX_MANTISSA: i128 = 79_228_162_514_264_337_593_543_950_335;

/// `10^28`: how many units (see [`AmountView::units`]) make up one whole.
pub const UNITS_PER_WHOLE: i128 = 10_000_000_000_000_000_000_000_000_000;

/// `10^n`.
pub open spec fn pow10(n: nat) -> int
    decreases n,
{
    if n == 0 {
        1
    } else {
        10 * pow10((n - 1) as nat)
    }
}

/// The mathematical value of an amount: the number `mantissa / 10^scale`,
/// together with the number of fractional digits that it is written with.
pub struct AmountView {
    pub mantissa: int,
    pub scale: nat,
}

impl AmountView {
    /// The amounts that a decimal can hold.
    pub open spec fn in_range(self) -> bool {
        &&& -MAX_MANTISSA <= self.mantissa <= MAX_MANTISSA
        &&& self.scale <= MAX_SCALE
    }

    /// The value, counted in units of `10^-28`. Two amounts denote the same
    /// number exactly when their units agree, whatever their scales.
    pub open spec fn units(self) -> int {
        self.mantissa * pow10((MAX_SCALE - self.scale) as nat)
    }

    /// Zero, written without fractional digits.
    pub open spec fn zero() -> AmountView {
        AmountView { mantissa: 0, scale: 0 }
    }

    /// What a decimal operation handed back, where that is a decimal whose
    /// value is exactly `units`; nothing otherwise.
    pub open spec fn exactly(outcome: Option<(int, nat)>, units: int) -> Option<AmountView> {
        match outcome {
            Some((mantissa, scale)) => {
                let candidate = AmountView { mantissa, scale };
                if candidate.in_range() && candidate.units() == units {
                    Some(candidate)
                } else {
                    None
                }
            },
            None => None,
        }
    }

    /// The sum of two amounts: the decimal that decimal addition gives,
    /// provided that it is the exact sum. `None` where the sum overflows or
    /// could only be had by rounding.
    pub open spec fn plus(self, other: AmountView) -> Option<AmountView> {
        Self::exactly(
            decimal_sum(self.mantissa, self.scale, other.mantissa, other.scale),
            self.units() + other.units(),
        )
    }

    /// The difference of two amounts: the decimal that decimal subtraction
    /// gives, provided that it is the exact difference.
    pub open spec fn minus(self, other: AmountView) -> Option<AmountView> {
        Self::exactly(
            decimal_difference(self.mantissa, self.scale, other.mantissa, other.scale),
            self.units() - other.units(),
        )
    }

    /// The amount that a text denotes, if it denotes one.
    pub open spec fn parse(text: Seq<char>) -> Option<AmountView> {
        match decimal_parsed(text) {
            Some((mantissa, scale)) => Some(AmountView { mantissa, scale }),
            None => None,
        }
    }

    /// The text that the amount is printed as.
    pub open spec fn text(self) -> Seq<char> {
        decimal_text(self.mantissa, self.scale)
    }
}

/// What `Decimal::checked_add` returns for the decimals `a_mantissa / 10^a_scale`
/// and `b_mantissa / 10^b_scale`, as mantissa and scale.
pub uninterp spec fn decimal_sum(a_mantissa: int, a_scale: nat, b_mantissa: int, b_scale: nat)
    -> Option<(int, nat)>;

/// What `Decimal::checked_sub` returns for the decimals `a_mantissa / 10^a_scale`
/// and `b_mantissa / 10^b_scale`, as mantissa and scale.
pub uninterp spec fn decimal_difference(
    a_mantissa: int,
    a_scale: nat,
    b_mantissa: int,
    b_scale: nat,
) -> Option<(int, nat)>;

/// What `Decimal::from_str` makes of a text, as mantissa and scale.
pub uninterp spec fn decimal_parsed(text: Seq<char>) -> Option<(int, nat)>;

/// What `Decimal`'s `Display` prints for the decimal `mantissa / 10^scale`.
pub uninterp spec fn decimal_text(mantissa: int, scale: nat) -> Seq<char>;

/// A fixed-precision decimal amount of money. It may be negative.
#[derive(Debug, Clone, Copy)]
pub struct Amount {
    mantissa: i128,
    scale: u32,
}

impl View for Amount {
    type V = AmountView;

    closed spec fn view(&self) -> AmountView {
        AmountView { mantissa: self.mantissa as int, scale: self.scale as nat }
    }
}

impl Amount {
    /// Every amount is one that a decimal can hold.
    #[verifier::type_invariant]
    closed spec fn well_formed(self) -> bool {
        self@.in_range()
    }
}

/// The views of an optional amount.
pub open spec fn view_of(amount: Option<Amount>) -> Option<AmountView> {
    match amount {
        Some(amount) => Some(amount@),
        None => None,
    }
}

/// Mantissa and scale of an optional amount.
pub open spec fn parts_of(amount: Option<Amount>) -> Option<(int, nat)> {
    match amount {
        Some(amount) => Some((amount@.mantissa, amount@.scale)),
        None => None,
    }
}

/// Mantissa and scale of a parsed amount.
pub open spec fn parsed_parts_of(outcome: Result<Amount, rust_decimal::Error>) -> Option<
    (int, nat),
> {
    match outcome {
        Ok(amount) => Some((amount@.mantissa, amount@.scale)),
        Err(_) => None,
    }
}

/// The error that `rust_decimal` reports for a text that is no decimal.
#[verifier::external_type_specification]
#[verifier::external_body]
pub struct ExDecimalError(rust_decimal::Error);

/// Calls `rust_decimal::Decimal::checked_add` on the two amounts as decimals.
/// Claimed of it: the outcome is a function of the operands alone, named
/// `decimal_sum`, and a decimal that comes back has a mantissa below `2^96`
/// in magnitude and a scale of at most 28. Nothing is claimed of its value.
#[verifier::external_body]
fn decimal_checked_add(a: Amount, b: Amount) -> (outcome: Option<Amount>)
    requires
        a@.in_range(),
        b@.in_range(),
    ensures
        parts_of(outcome) == decimal_sum(a@.mantissa, a@.scale, b@.mantissa, b@.scale),
        outcome matches Some(sum) ==> sum@.in_range(),
{
    let lhs = Decimal::from_i128_with_scale(a.mantissa, a.scale);
    let rhs = Decimal::from_i128_with_scale(b.mantissa, b.scale);
    lhs.checked_add(rhs).map(|d| Amount { mantissa: d.mantissa(), scale: d.scale() })
}

/// Calls `rust_decimal::Decimal::checked_sub` on the two amounts as decimals.
/// Claimed of it: the outcome is a function of the operands alone, named
/// `decimal_difference`, and a decimal that comes back has a mantissa below
/// `2^96` in magnitude and a scale of at most 28. Nothing is claimed of its
/// value.
#[verifier::external_body]
fn decimal_checked_sub(a: Amount, b: Amount) -> (outcome: Option<Amount>)
    requires
        a@.in_range(),
        b@.in_range(),
    ensures
        parts_of(outcome) == decimal_difference(a@.mantissa, a@.scale, b@.mantissa, b@.scale),
        outcome matches Some(difference) ==> difference@.in_range(),
{
    let lhs = Decimal::from_i128_with_scale(a.mantissa, a.scale);
    let rhs = Decimal::from_i128_with_scale(b.mantissa, b.scale);
    lhs.checked_sub(rhs).map(|d| Amount { mantissa: d.mantissa(), scale: d.scale() })
}

/// Compares the two amounts as decimals with `rust_decimal::Decimal`'s `<`.
/// Claimed of it: decimals are ordered by their numeric value, whatever
/// their scales.
#[verifier::external_body]
fn decimal_less_than(a: Amount, b: Amount) -> (less: bool)
    requires
        a@.in_range(),
        b@.in_range(),
    ensures
        less == (a@.units() < b@.units()),
{
    Decimal::from_i128_with_scale(a.mantissa, a.scale) < Decimal::from_i128_with_scale(
        b.mantissa,
        b.scale,
    )
}

/// Compares the two amounts as decimals with `rust_decimal::Decimal`'s `==`.
/// Claimed of it: two decimals are equal exactly when they denote the same
/// number, whatever their scales.
#[verifier::external_body]
fn decimal_equal(a: Amount, b: Amount) -> (equal: bool)
    requires
        a@.in_range(),
        b@.in_range(),
    ensures
        equal == (a@.units() == b@.units()),
{
    Decimal::from_i128_with_scale(a.mantissa, a.scale) == Decimal::from_i128_with_scale(
        b.mantissa,
        b.scale,
    )
}

/// Parses with `rust_decimal::Decimal`'s `from_str`. Claimed of it: whether
/// the text is accepted, and as which decimal, is a function of the text
/// alone, named `decimal_parsed`; a decimal that comes back has a mantissa
/// below `2^96` in magnitude and a scale of at most 28.
#[verifier::external_body]
fn decimal_from_str(text: &str) -> (outcome: Result<Amount, rust_decimal::Error>)
    ensures
        parsed_parts_of(outcome) == decimal_parsed(text@),
        outcome matches Ok(amount) ==> amount@.in_range(),
{
    Decimal::from_str(text).map(|d| Amount { mantissa: d.mantissa(), scale: d.scale() })
}

/// Prints the amount as a decimal with `rust_decimal::Decimal`'s `Display`.
/// Claimed of it: the text is a function of mantissa and scale alone, named
/// `decimal_text`.
#[verifier::external_body]
fn decimal_to_string(a: Amount) -> (text: String)
    requires
        a@.in_range(),
    ensures
        text@ == decimal_text(a@.mantissa, a@.scale),
{
    Decimal::from_i128_with_scale(a.mantissa, a.scale).to_string()
}

/// `pow10` never vanishes.
pub proof fn lemma_pow10_positive(n: nat)
    ensures
        pow10(n) > 0,
    decreases n,
{
    if n > 0 {
        lemma_pow10_positive((n - 1) as nat);
    }
}

/// `10^(a + b) == 10^a * 10^b`.
pub proof fn lemma_pow10_adds(a: nat, b: nat)
    ensures
        pow10(a + b) == pow10(a) * pow10(b),
    decreases a,
{
    if a > 0 {
        lemma_pow10_adds((a - 1) as nat, b);
        assert(pow10(a + b) == 10 * pow10((a + b - 1) as nat));
        assert(10 * (pow10((a - 1) as nat) * pow10(b)) == (10 * pow10((a - 1) as nat)) * pow10(b))
            by (nonlinear_arith);
    } else {
        assert(pow10(a) == 1);
        assert(1 * pow10(b) == pow10(b));
    }
}

/// `pow10` grows with its exponent.
pub proof fn lemma_pow10_monotonic(a: nat, b: nat)
    requires
        a <= b,
    ensures
        pow10(a) <= pow10(b),
    decreases b,
{
    if a < b {
        lemma_pow10_monotonic(a, (b - 1) as nat);
        lemma_pow10_positive((b - 1) as nat);
    }
}

/// The value of `10^28`.
pub proof fn lemma_pow10_max_scale()
    ensures
        pow10(MAX_SCALE as nat) == UNITS_PER_WHOLE,
{
    assert(pow10(7) == 10_000_000) by {
        reveal_with_fuel(pow10, 8);
    }
    lemma_pow10_adds(7, 7);
    lemma_pow10_adds(14, 14);
    assert(pow10(14) == 100_000_000_000_000) by (nonlinear_arith)
        requires
            pow10(14) == pow10(7) * pow10(7),
            pow10(7) == 10_000_000,
    ;
    assert(pow10(28) == 10_000_000_000_000_000_000_000_000_000) by (nonlinear_arith)
        requires
            pow10(28) == pow10(14) * pow10(14),
            pow10(14) == 100_000_000_000_000,
    ;
}

/// Zero is worth nothing.
pub proof fn lemma_zero_units()
    ensures
        AmountView::zero().units() == 0,
{
    assert(0 * pow10(MAX_SCALE as nat) == 0) by (nonlinear_arith);
}

/// `10^exponent`.
fn power_of_ten(exponent: u32) -> (power: u128)
    requires
        exponent <= MAX_SCALE,
    ensures
        power == pow10(exponent as nat),
        1 <= power <= UNITS_PER_WHOLE,
{
    let mut power: u128 = 1;
    let mut done: u32 = 0;
    proof {
        lemma_pow10_max_scale();
    }
    while done < exponent
        invariant
            done <= exponent <= MAX_SCALE,
            power == pow10(done as nat),
            pow10(MAX_SCALE as nat) == UNITS_PER_WHOLE,
        decreases exponent - done,
    {
        proof {
            lemma_pow10_monotonic((done + 1) as nat, MAX_SCALE as nat);
        }
        power = power * 10;
        done = done + 1;
    }
    proof {
        lemma_pow10_positive(exponent as nat);
        lemma_pow10_monotonic(exponent as nat, MAX_SCALE as nat);
    }
    power
}

/// Splits an amount into whole units and a fraction of one, both carrying
/// the amount's sign.
fn split(amount: Amount) -> (parts: (i128, i128))
    ensures
        amount@.units() == parts.0 * UNITS_PER_WHOLE + parts.1,
        -MAX_MANTISSA <= parts.0 <= MAX_MANTISSA,
        -UNITS_PER_WHOLE < parts.1 < UNITS_PER_WHOLE,
{
    proof {
        use_type_invariant(&amount);
    }
    let negative = amount.mantissa < 0;
    let magnitude: u128 = if negative {
        (-amount.mantissa) as u128
    } else {
        amount.mantissa as u128
    };
    let divisor: u128 = power_of_ten(amount.scale);
    let factor: u128 = power_of_ten(MAX_SCALE - amount.scale);
    let whole: u128 = magnitude / divisor;
    let rest: u128 = magnitude % divisor;
    proof {
        lemma_pow10_adds(amount.scale as nat, (MAX_SCALE - amount.scale) as nat);
        lemma_pow10_max_scale();
        assert(divisor * factor == UNITS_PER_WHOLE);
        assert(magnitude == whole * divisor + rest) by {
            vstd::arithmetic::div_mod::lemma_fundamental_div_mod(magnitude as int, divisor as int);
            assert((divisor as int) * (whole as int) == whole * divisor) by (nonlinear_arith);
        }
        assert(rest * factor < divisor * factor) by (nonlinear_arith)
            requires
                rest < divisor,
                factor > 0,
        ;
        assert(whole <= magnitude) by (nonlinear_arith)
            requires
                magnitude == whole * divisor + rest,
                divisor >= 1,
                rest >= 0,
                whole >= 0,
        ;
        assert(magnitude * factor == whole * (divisor * factor) + rest * factor)
            by (nonlinear_arith)
            requires
                magnitude == whole * divisor + rest,
        ;
    }
    let fraction: u128 = rest * factor;
    if negative {
        proof {
            assert(amount@.units() == -(magnitude * factor)) by (nonlinear_arith)
                requires
                    amount@.units() == amount@.mantissa * factor,
                    amount@.mantissa == -magnitude,
            ;
        }
        (-(whole as i128), -(fraction as i128))
    } else {
        (whole as i128, fraction as i128)
    }
}

/// Whether `sum` is exactly `a + b`.
fn is_sum(a: Amount, b: Amount, sum: Amount) -> (exact: bool)
    ensures
        exact == (sum@.units() == a@.units() + b@.units()),
{
    let (a_whole, a_fraction) = split(a);
    let (b_whole, b_fraction) = split(b);
    let (sum_whole, sum_fraction) = split(sum);
    let wholes: i128 = a_whole + b_whole - sum_whole;
    let fractions: i128 = a_fraction + b_fraction - sum_fraction;
    proof {
        assert(a@.units() + b@.units() - sum@.units() == wholes * UNITS_PER_WHOLE + fractions)
            by (nonlinear_arith)
            requires
                a@.units() == a_whole * UNITS_PER_WHOLE + a_fraction,
                b@.units() == b_whole * UNITS_PER_WHOLE + b_fraction,
                sum@.units() == sum_whole * UNITS_PER_WHOLE + sum_fraction,
                wholes == a_whole + b_whole - sum_whole,
                fractions == a_fraction + b_fraction - sum_fraction,
        ;
        if wholes >= 3 {
            assert(wholes * UNITS_PER_WHOLE >= 3 * UNITS_PER_WHOLE) by (nonlinear_arith)
                requires
                    wholes >= 3,
            ;
        }
        if wholes <= -3 {
            assert(wholes * UNITS_PER_WHOLE <= -3 * UNITS_PER_WHOLE) by (nonlinear_arith)
                requires
                    wholes <= -3,
            ;
        }
    }
    -2 <= wholes && wholes <= 2 && fractions == -wholes * UNITS_PER_WHOLE
}

impl Amount {
    /// The amount `mantissa / 10^scale`, where a decimal can hold it.
    pub fn new(mantissa: i128, scale: u32) -> (amount: Option<Amount>)
        ensures
            view_of(amount) == (if (AmountView { mantissa: mantissa as int, scale: scale as nat })
                .in_range() {
                Some(AmountView { mantissa: mantissa as int, scale: scale as nat })
            } else {
                None
            }),
    {
        if -MAX_MANTISSA <= mantissa && mantissa <= MAX_MANTISSA && scale <= MAX_SCALE {
            Some(Amount { mantissa, scale })
        } else {
            None
        }
    }

    /// Zero, written without fractional digits.
    pub fn zero() -> (amount: Amount)
        ensures
            amount@ == AmountView::zero(),
    {
        Amount { mantissa: 0, scale: 0 }
    }

    /// The integer that, divided by `10^scale`, gives the amount.
    pub fn mantissa(&self) -> (mantissa: i128)
        ensures
            mantissa == self@.mantissa,
            self@.in_range(),
    {
        proof {
            use_type_invariant(self);
        }
        self.mantissa
    }

    /// The number of fractional digits that the amount is written with.
    pub fn scale(&self) -> (scale: u32)
        ensures
            scale == self@.scale,
            self@.in_range(),
    {
        proof {
            use_type_invariant(self);
        }
        self.scale
    }

    /// Accepts what decimal addition gave for `a + b` where it is the exact
    /// sum, and nothing else.
    pub fn accept_sum(a: Amount, b: Amount, outcome: Option<Amount>) -> (sum: Option<Amount>)
        ensures
            view_of(sum) == AmountView::exactly(parts_of(outcome), a@.units() + b@.units()),
    {
        match outcome {
            Some(candidate) => {
                proof {
                    use_type_invariant(&candidate);
                }
                if is_sum(a, b, candidate) {
                    Some(candidate)
                } else {
                    None
                }
            },
            None => None,
        }
    }

    /// Accepts what decimal subtraction gave for `a - b` where it is the
    /// exact difference, and nothing else.
    pub fn accept_difference(a: Amount, b: Amount, outcome: Option<Amount>) -> (difference: Option<
        Amount,
    >)
        ensures
            view_of(difference) == AmountView::exactly(parts_of(outcome), a@.units() - b@.units()),
    {
        match outcome {
            Some(candidate) => {
                proof {
                    use_type_invariant(&candidate);
                }
                if is_sum(candidate, b, a) {
                    Some(candidate)
                } else {
                    None
                }
            },
            None => None,
        }
    }

    /// `self + other`, where a decimal holds the exact sum.
    pub fn checked_add(self, other: Amount) -> (sum: Option<Amount>)
        ensures
            view_of(sum) == self@.plus(other@),
    {
        proof {
            use_type_invariant(&self);
            use_type_invariant(&other);
        }
        Amount::accept_sum(self, other, decimal_checked_add(self, other))
    }

    /// `self - other`, where a decimal holds the exact difference.
    pub fn checked_sub(self, other: Amount) -> (difference: Option<Amount>)
        ensures
            view_of(difference) == self@.minus(other@),
    {
        proof {
            use_type_invariant(&self);
            use_type_invariant(&other);
        }
        Amount::accept_difference(self, other, decimal_checked_sub(self, other))
    }

    /// Whether `self` is the smaller number.
    pub fn less_than(self, other: Amount) -> (less: bool)
        ensures
            less == (self@.units() < other@.units()),
    {
        proof {
            use_type_invariant(&self);
            use_type_invariant(&other);
        }
        decimal_less_than(self, other)
    }

    /// Reads an amount from its decimal notation.
    pub fn parse(text: &str) -> (outcome: Result<Amount, rust_decimal::Error>)
        ensures
            outcome.is_ok() == AmountView::parse(text@).is_some(),
            outcome matches Ok(amount) ==> AmountView::parse(text@) == Some(amount@),
    {
        decimal_from_str(text)
    }

    /// The amount in decimal notation, with all its fractional digits.
    pub fn to_text(&self) -> (text: String)
        ensures
            text@ == self@.text(),
    {
        proof {
            use_type_invariant(self);
        }
        decimal_to_string(*self)
    }
}

impl Default for Amount {
    fn default() -> (amount: Amount)
        ensures
            amount@ == AmountView::zero(),
    {
        Amount::zero()
    }
}

impl FromStr for Amount {
    type Err = rust_decimal::Error;

    fn from_str(text: &str) -> (outcome: Result<Amount, rust_decimal::Error>)
        ensures
            outcome.is_ok() == AmountView::parse(text@).is_some(),
            outcome matches Ok(amount) ==> AmountView::parse(text@) == Some(amount@),
    {
        Amount::parse(text)
    }
}

/// Amounts are equal when they denote the same number: `1.50 == 1.5`.
impl PartialEq for Amount {
    fn eq(&self, other: &Amount) -> (equal: bool) {
        proof {
            use_type_invariant(self);
            use_type_invariant(other);
        }
        decimal_equal(*self, *other)
    }
}

impl vstd::std_specs::cmp::PartialEqSpecImpl for Amount {
    open spec fn obeys_eq_spec() -> bool {
        true
    }

    open spec fn eq_spec(&self, other: &Amount) -> bool {
        self@.units() == other@.units()
    }
}

} // verus!
