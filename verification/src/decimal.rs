//! Decimal numbers with at most 28 fractional digits and a 96-bit mantissa.
//!
//! A value is modelled as the integer number of units of `10^-28` it stands for. The arithmetic
//! itself is done by the `rust_decimal` crate.

use crate::text::{count_chars, digit_char};
use core::cmp::Ordering;
use vstd::pervasive::unreached;
use vstd::prelude::*;

verus! {

/// The number one, in units of `10^-28`.
pub open spec fn unit() -> int {
    10_000_000_000_000_000_000_000_000_000
}

/// One past the largest mantissa, `2^96`.
pub open spec fn mantissa_bound() -> int {
    79_228_162_514_264_337_593_543_950_336
}

/// The largest value.
pub open spec fn max_value() -> int {
    (mantissa_bound() - 1) * unit()
}

/// `10^k`.
pub open spec fn pow10(k: nat) -> int
    decreases k,
{
    if k == 0 {
        1
    } else {
        10 * pow10((k - 1) as nat)
    }
}

/// `v` is a 96-bit multiple of `10^k` units.
pub open spec fn on_grid(v: int, k: nat) -> bool {
    v % pow10(k) == 0 && -mantissa_bound() * pow10(k) < v < mantissa_bound() * pow10(k)
}

/// Some decimal has the value `v`.
pub open spec fn representable(v: int) -> bool {
    exists|k: nat| k <= 28 && #[trigger] on_grid(v, k)
}

/// `r` is the rational number `num / den` rounded to a neighbouring decimal: no decimal lies
/// strictly between the two. In particular `r` equals the rational number where that is a decimal.
pub open spec fn is_rounding(r: int, num: int, den: int) -> bool {
    &&& representable(r)
    &&& forall|b: int| #[trigger] representable(b) && num <= b * den ==> r <= b
    &&& forall|b: int| #[trigger] representable(b) && b * den <= num ==> b <= r
}

/// What `rust_decimal` makes of a sum; nothing where it is too large.
pub uninterp spec fn checked_sum(a: int, b: int) -> Option<int>;

/// What `rust_decimal` makes of a difference; nothing where it is too large.
pub uninterp spec fn checked_difference(a: int, b: int) -> Option<int>;

/// What `rust_decimal` makes of a product; nothing where it is too large.
pub uninterp spec fn checked_product(a: int, b: int) -> Option<int>;

/// What `rust_decimal` makes of a quotient; nothing where it is too large, or the divisor is zero.
pub uninterp spec fn checked_quotient(a: int, b: int) -> Option<int>;

/// The sum is not too large for a decimal.
pub open spec fn sum_fits(a: int, b: int) -> bool {
    -max_value() <= a + b <= max_value() || checked_sum(a, b) is Some
}

/// The difference is not too large for a decimal.
pub open spec fn difference_fits(a: int, b: int) -> bool {
    -max_value() <= a - b <= max_value() || checked_difference(a, b) is Some
}

/// The product is not too large for a decimal.
pub open spec fn product_fits(a: int, b: int) -> bool {
    -max_value() * unit() <= a * b <= max_value() * unit() || checked_product(a, b) is Some
}

/// The divisor is not zero and the quotient not too large for a decimal.
pub open spec fn quotient_fits(a: int, b: int) -> bool {
    b > 0 && -max_value() * b <= a * unit() <= max_value() * b || checked_quotient(a, b) is Some
}

/// The last `places` decimal digits of `n`.
pub open spec fn last_digits(n: int, places: nat) -> Seq<char>
    decreases places,
{
    if places == 0 {
        Seq::empty()
    } else {
        last_digits(n / 10, (places - 1) as nat).push(digit_char((n % 10) as nat))
    }
}

/// The number `digits * 10^-places` in writing: with that many places behind the point, and no
/// point where there are none.
pub open spec fn decimal_text(digits: int, places: int) -> Seq<char> {
    let n = abs_value(digits);
    let sign = if digits < 0 {
        seq!['-']
    } else {
        Seq::empty()
    };
    let whole = sign + count_chars((n / pow10(places as nat)) as nat);
    if places <= 0 {
        whole
    } else {
        whole + seq!['.'] + last_digits(n, places as nat)
    }
}

/// The value that `rust_decimal` reads from a text, if it can be read.
pub uninterp spec fn decimal_of_text(text: Seq<char>) -> Option<int>;

/// The value of a sum.
pub open spec fn sum(a: int, b: int) -> int {
    if representable(a + b) {
        a + b
    } else {
        checked_sum(a, b)->0
    }
}

/// The value of a difference.
pub open spec fn difference(a: int, b: int) -> int {
    if representable(a - b) {
        a - b
    } else {
        checked_difference(a, b)->0
    }
}

/// The value of a product.
pub open spec fn product(a: int, b: int) -> int {
    if (a * b) % unit() == 0 && representable((a * b) / unit()) {
        (a * b) / unit()
    } else {
        checked_product(a, b)->0
    }
}

/// The value of a quotient.
pub open spec fn quotient(a: int, b: int) -> int {
    if (a * unit()) % b == 0 && representable((a * unit()) / b) {
        (a * unit()) / b
    } else {
        checked_quotient(a, b)->0
    }
}

/// The largest whole number that is not above `v`.
pub open spec fn floor_value(v: int) -> int {
    (v / unit()) * unit()
}

/// The smallest whole number that is not below `v`.
pub open spec fn ceil_value(v: int) -> int {
    -floor_value(-v)
}

pub open spec fn abs_value(v: int) -> int {
    if v < 0 {
        -v
    } else {
        v
    }
}

pub open spec fn max_of(a: int, b: int) -> int {
    if a < b {
        b
    } else {
        a
    }
}

pub open spec fn min_of(a: int, b: int) -> int {
    if a <= b {
        a
    } else {
        b
    }
}

/// A decimal number.
#[derive(Clone, Copy, Debug)]
pub struct Decimal {
    mantissa: i128,
    scale: u32,
}

impl View for Decimal {
    type V = int;

    closed spec fn view(&self) -> int {
        self.mantissa * pow10((28 - self.scale) as nat)
    }
}

impl Decimal {
    #[verifier::type_invariant]
    pub closed spec fn inv(self) -> bool {
        &&& self.scale <= 28
        &&& -mantissa_bound() < self.mantissa < mantissa_bound()
    }

    pub closed spec fn digits(self) -> int {
        self.mantissa as int
    }

    pub closed spec fn places(self) -> int {
        self.scale as int
    }

    /// The number `num * 10^-scale`.
    pub fn new(num: i64, scale: u32) -> (r: Decimal)
        requires
            scale <= 28,
        ensures
            r@ == num * pow10((28 - scale) as nat),
    {
        Decimal { mantissa: num as i128, scale }
    }

    pub fn from_u64(num: u64) -> (r: Decimal)
        ensures
            r@ == num * unit(),
    {
        proof {
            lemma_pow10_28();
        }
        Decimal { mantissa: num as i128, scale: 0 }
    }

    pub fn zero() -> (r: Decimal)
        ensures
            r@ == 0,
            r.digits() == 0 && r.places() == 0,
    {
        Decimal { mantissa: 0, scale: 0 }
    }

    pub fn one() -> (r: Decimal)
        ensures
            r@ == unit(),
    {
        Decimal::from_u64(1)
    }

    /// The largest number.
    pub fn max_value() -> (r: Decimal)
        ensures
            r@ == max_value(),
    {
        proof {
            lemma_pow10_28();
        }
        Decimal { mantissa: 79_228_162_514_264_337_593_543_950_335, scale: 0 }
    }

    /// Whether a hundred times the number is no larger than the largest number.
    pub(crate) fn has_hundredfold(self) -> (r: bool)
        ensures
            r == (-max_value() <= self@ * 100 <= max_value()),
    {
        proof {
            lemma_pow10_28();
        }
        self.abs() <= Decimal { mantissa: 79_228_162_514_264_337_593_543_950_335, scale: 2 }
    }

    /// `rust_decimal`'s `checked_add`: the exact sum where some decimal equals it, a decimal
    /// next to it where none does. Nothing comes back only where the sum exceeds the largest
    /// value.
    #[verifier::external_body]
    pub(crate) fn checked_plus(self, other: Decimal) -> (r: Option<Decimal>)
        ensures
            value_of(r) == checked_sum(self@, other@),
            r is Some == sum_fits(self@, other@),
            r matches Some(d) ==> d@ == sum(self@, other@) && is_rounding(
                d@,
                self@ + other@,
                1,
            ),
    {
        let a = rust_decimal::Decimal::from_i128_with_scale(self.mantissa, self.scale);
        let b = rust_decimal::Decimal::from_i128_with_scale(other.mantissa, other.scale);
        match a.checked_add(b) {
            Some(r) => Some(Decimal { mantissa: r.mantissa(), scale: r.scale() }),
            None => None,
        }
    }

    /// `rust_decimal`'s `checked_sub`: the exact difference where some decimal equals it, a decimal
    /// next to it where none does. Nothing comes back only where the difference exceeds the largest
    /// value.
    #[verifier::external_body]
    pub(crate) fn checked_minus(self, other: Decimal) -> (r: Option<Decimal>)
        ensures
            value_of(r) == checked_difference(self@, other@),
            r is Some == difference_fits(self@, other@),
            r matches Some(d) ==> d@ == difference(self@, other@) && is_rounding(
                d@,
                self@ - other@,
                1,
            ),
    {
        let a = rust_decimal::Decimal::from_i128_with_scale(self.mantissa, self.scale);
        let b = rust_decimal::Decimal::from_i128_with_scale(other.mantissa, other.scale);
        match a.checked_sub(b) {
            Some(r) => Some(Decimal { mantissa: r.mantissa(), scale: r.scale() }),
            None => None,
        }
    }

    /// `rust_decimal`'s `checked_mul`: the exact product where some decimal equals it, a decimal
    /// next to it where none does. Nothing comes back only where the product exceeds the largest
    /// value.
    #[verifier::external_body]
    pub(crate) fn checked_times(self, other: Decimal) -> (r: Option<Decimal>)
        ensures
            value_of(r) == checked_product(self@, other@),
            r is Some == product_fits(self@, other@),
            r matches Some(d) ==> d@ == product(self@, other@) && is_rounding(
                d@,
                self@ * other@,
                unit(),
            ),
    {
        let a = rust_decimal::Decimal::from_i128_with_scale(self.mantissa, self.scale);
        let b = rust_decimal::Decimal::from_i128_with_scale(other.mantissa, other.scale);
        match a.checked_mul(b) {
            Some(r) => Some(Decimal { mantissa: r.mantissa(), scale: r.scale() }),
            None => None,
        }
    }

    /// `rust_decimal`'s `checked_div`: the exact quotient where some decimal equals it, a decimal next
    /// to it where none does (the latter is stated for a positive divisor). Nothing comes back for a
    /// zero divisor, and else only where the quotient exceeds the largest value.
    #[verifier::external_body]
    pub(crate) fn checked_over(self, other: Decimal) -> (r: Option<Decimal>)
        ensures
            value_of(r) == checked_quotient(self@, other@),
            other@ == 0 ==> r is None,
            r is Some == quotient_fits(self@, other@),
            r matches Some(d) ==> d@ == quotient(self@, other@) && (other@ > 0 ==> is_rounding(
                d@,
                self@ * unit(),
                other@,
            )),
    {
        let a = rust_decimal::Decimal::from_i128_with_scale(self.mantissa, self.scale);
        let b = rust_decimal::Decimal::from_i128_with_scale(other.mantissa, other.scale);
        match a.checked_div(b) {
            Some(r) => Some(Decimal { mantissa: r.mantissa(), scale: r.scale() }),
            None => None,
        }
    }

    /// The sum, which must not be too large.
    pub(crate) fn plus(self, other: Decimal) -> (r: Decimal)
        requires
            sum_fits(self@, other@),
        ensures
            r@ == sum(self@, other@),
            is_rounding(r@, self@ + other@, 1),
    {
        match self.checked_plus(other) {
            Some(r) => r,
            None => unreached(),
        }
    }

    /// The difference, which must not be too large.
    pub(crate) fn minus(self, other: Decimal) -> (r: Decimal)
        requires
            difference_fits(self@, other@),
        ensures
            r@ == difference(self@, other@),
            is_rounding(r@, self@ - other@, 1),
    {
        match self.checked_minus(other) {
            Some(r) => r,
            None => unreached(),
        }
    }

    /// The product, which must not be too large.
    pub(crate) fn times(self, other: Decimal) -> (r: Decimal)
        requires
            product_fits(self@, other@),
        ensures
            r@ == product(self@, other@),
            is_rounding(r@, self@ * other@, unit()),
    {
        match self.checked_times(other) {
            Some(r) => r,
            None => unreached(),
        }
    }

    /// The quotient by a positive divisor, which must not be too large.
    pub(crate) fn over(self, other: Decimal) -> (r: Decimal)
        requires
            other@ > 0,
            quotient_fits(self@, other@),
        ensures
            r@ == quotient(self@, other@),
            is_rounding(r@, self@ * unit(), other@),
    {
        match self.checked_over(other) {
            Some(r) => r,
            None => unreached(),
        }
    }

    /// A quotient by at least one is never too large.
    pub(crate) fn over_whole(self, other: Decimal) -> (r: Decimal)
        requires
            other@ >= unit(),
        ensures
            r@ == quotient(self@, other@),
            is_rounding(r@, self@ * unit(), other@),
    {
        proof {
            use_type_invariant(&self);
            lemma_inv_representable(self);
            let v = self@;
            let s = other@;
            assert(-max_value() * s <= v * unit() <= max_value() * s) by (nonlinear_arith)
                requires
                    -max_value() <= v <= max_value(),
                    s >= unit(),
            ;
        }
        self.over(other)
    }

    /// `rust_decimal`'s `floor`: the largest whole number not above this one.
    #[verifier::external_body]
    pub(crate) fn floor(self) -> (r: Decimal)
        ensures
            r@ == floor_value(self@),
    {
        let r = rust_decimal::Decimal::from_i128_with_scale(self.mantissa, self.scale).floor();
        Decimal { mantissa: r.mantissa(), scale: r.scale() }
    }

    /// `rust_decimal`'s `ceil`: the smallest whole number not below this one.
    #[verifier::external_body]
    pub(crate) fn ceil(self) -> (r: Decimal)
        ensures
            r@ == ceil_value(self@),
    {
        let r = rust_decimal::Decimal::from_i128_with_scale(self.mantissa, self.scale).ceil();
        Decimal { mantissa: r.mantissa(), scale: r.scale() }
    }

    /// `rust_decimal`'s comparison: by value, whatever the number of digits written.
    #[verifier::external_body]
    fn ranked_against(self, other: Decimal) -> (r: Ordering)
        ensures
            (r == Ordering::Less) == (self@ < other@),
            (r == Ordering::Equal) == (self@ == other@),
            (r == Ordering::Greater) == (self@ > other@),
    {
        let a = rust_decimal::Decimal::from_i128_with_scale(self.mantissa, self.scale);
        let b = rust_decimal::Decimal::from_i128_with_scale(other.mantissa, other.scale);
        a.cmp(&b)
    }

    /// `rust_decimal`'s text form: all digits of the mantissa, with the point where the scale puts
    /// it and a zero before it where there is no whole digit.
    #[verifier::external_body]
    fn display(self) -> (r: String)
        ensures
            r@ == decimal_text(self.digits(), self.places()),
    {
        rust_decimal::Decimal::from_i128_with_scale(self.mantissa, self.scale).to_string()
    }

    /// `rust_decimal`'s parser.
    #[verifier::external_body]
    fn read(text: &str) -> (r: Option<Decimal>)
        ensures
            (match r {
                Some(d) => Some(d@),
                None => None,
            }) == decimal_of_text(text@),
    {
        match text.parse::<rust_decimal::Decimal>() {
            Ok(r) => Some(Decimal { mantissa: r.mantissa(), scale: r.scale() }),
            Err(_) => None,
        }
    }

    pub open spec fn text_spec(self) -> Seq<char> {
        decimal_text(self.digits(), self.places())
    }

    /// The number as text.
    pub fn to_text(self) -> (r: String)
        ensures
            r@ == self.text_spec(),
    {
        self.display()
    }

    /// The number that `text` writes, if it writes one.
    pub fn parse(text: &str) -> (r: Option<Decimal>)
        ensures
            value_of(r) == decimal_of_text(text@),
    {
        Decimal::read(text)
    }

    pub fn abs(self) -> (r: Decimal)
        ensures
            r@ == abs_value(self@),
            r.digits() == abs_value(self.digits()),
            r.places() == self.places(),
    {
        proof {
            use_type_invariant(&self);
            lemma_pow10_positive((28 - self.scale) as nat);
            let p = pow10((28 - self.scale) as nat);
            let m = self.mantissa as int;
            assert(m < 0 ==> m * p < 0 && (-m) * p == -(m * p)) by (nonlinear_arith)
                requires
                    p > 0,
            ;
            assert(m >= 0 ==> m * p >= 0) by (nonlinear_arith)
                requires
                    p > 0,
            ;
        }
        if self.mantissa < 0 {
            Decimal { mantissa: -self.mantissa, scale: self.scale }
        } else {
            self
        }
    }

    /// The larger of two numbers.
    pub fn max(self, other: Decimal) -> (r: Decimal)
        ensures
            r@ == max_of(self@, other@),
    {
        if self < other {
            other
        } else {
            self
        }
    }

    /// The smaller of two numbers.
    pub fn min(self, other: Decimal) -> (r: Decimal)
        ensures
            r@ == min_of(self@, other@),
    {
        if self <= other {
            self
        } else {
            other
        }
    }
}

/// The value of an optional number.
pub open spec fn value_of(d: Option<Decimal>) -> Option<int> {
    match d {
        Some(d) => Some(d@),
        None => None,
    }
}

impl PartialEq for Decimal {
    fn eq(&self, other: &Decimal) -> (r: bool) {
        match self.ranked_against(*other) {
            Ordering::Equal => true,
            _ => false,
        }
    }
}

impl vstd::std_specs::cmp::PartialEqSpecImpl for Decimal {
    open spec fn obeys_eq_spec() -> bool {
        true
    }

    open spec fn eq_spec(&self, other: &Decimal) -> bool {
        self@ == other@
    }
}

impl Eq for Decimal {

}

impl PartialOrd for Decimal {
    fn partial_cmp(&self, other: &Decimal) -> (r: Option<Ordering>) {
        Some(self.ranked_against(*other))
    }
}

impl vstd::std_specs::cmp::PartialOrdSpecImpl for Decimal {
    open spec fn obeys_partial_cmp_spec() -> bool {
        true
    }

    open spec fn partial_cmp_spec(&self, other: &Decimal) -> Option<Ordering> {
        if self@ < other@ {
            Some(Ordering::Less)
        } else if self@ > other@ {
            Some(Ordering::Greater)
        } else {
            Some(Ordering::Equal)
        }
    }
}

/// A number of cents, cut, not rounded: `-1.239` gives `-1.23`.
pub open spec fn cents_chars(v: int) -> Seq<char> {
    let cents = abs_value(v) / cent();
    let sign = if v < 0 {
        seq!['-']
    } else {
        Seq::empty()
    };
    sign + count_chars((cents / 100) as nat) + seq![
        '.',
        digit_char((cents / 10 % 10) as nat),
        digit_char((cents % 10) as nat),
    ]
}

/// A number rounded to a whole one, to the even one where two are equally near.
pub open spec fn rounded_even(v: int) -> int {
    let below = v / unit();
    let rest = v % unit();
    if 2 * rest < unit() || 2 * rest == unit() && below % 2 == 0 {
        below * unit()
    } else {
        (below + 1) * unit()
    }
}

impl Decimal {
    /// `rust_decimal`'s text form with two places, as `{:.2}` asks for it: further places are cut
    /// off.
    #[verifier::external_body]
    fn display_cents(self) -> (r: String)
        ensures
            r@ == cents_chars(self@),
    {
        let d = rust_decimal::Decimal::from_i128_with_scale(self.mantissa, self.scale);
        format!("{:.2}", d)
    }

    /// The number with two places.
    pub fn to_cents_text(self) -> (r: String)
        ensures
            r@ == cents_chars(self@),
    {
        self.display_cents()
    }

    /// `rust_decimal`'s `round_dp` to no places: the nearest whole number, the even one where two
    /// are equally near.
    #[verifier::external_body]
    pub(crate) fn round_whole(self) -> (r: Decimal)
        ensures
            r@ == rounded_even(self@),
    {
        let r = rust_decimal::Decimal::from_i128_with_scale(self.mantissa, self.scale).round_dp(0);
        Decimal { mantissa: r.mantissa(), scale: r.scale() }
    }
}

/// Powers of ten multiply by adding their exponents.
pub proof fn lemma_pow10_split(a: nat, b: nat)
    ensures
        pow10(a + b) == pow10(a) * pow10(b),
    decreases b,
{
    if b > 0 {
        lemma_pow10_split(a, (b - 1) as nat);
        let x = pow10(a);
        let y = pow10((b - 1) as nat);
        assert(10 * (x * y) == x * (10 * y)) by (nonlinear_arith);
    } else {
        assert(pow10(a) * 1 == pow10(a));
    }
}

pub proof fn lemma_pow10_positive(k: nat)
    ensures
        pow10(k) > 0,
    decreases k,
{
    if k > 0 {
        lemma_pow10_positive((k - 1) as nat);
    }
}

/// One hundredth, in units of `10^-28`.
pub open spec fn cent() -> int {
    100_000_000_000_000_000_000_000_000
}

pub proof fn lemma_pow10_28()
    ensures
        pow10(28) == unit(),
        pow10(26) == cent(),
        pow10(18) == 1_000_000_000_000_000_000,
        pow10(0) == 1,
{
    reveal_with_fuel(pow10, 29);
}

/// Every decimal has a representable value.
pub proof fn lemma_inv_representable(d: Decimal)
    requires
        d.inv(),
    ensures
        representable(d@),
        -max_value() <= d@ <= max_value(),
{
    let k = (28 - d.scale) as nat;
    lemma_pow10_positive(k);
    lemma_pow10_28();
    lemma_pow10_monotone(k, 28);
    let p = pow10(k);
    let m = d.mantissa as int;
    assert((m * p) % p == 0) by (nonlinear_arith)
        requires
            p > 0,
    ;
    assert(-mantissa_bound() * p < m * p < mantissa_bound() * p) by (nonlinear_arith)
        requires
            p > 0,
            -mantissa_bound() < m < mantissa_bound(),
    ;
    assert(-max_value() <= m * p <= max_value()) by (nonlinear_arith)
        requires
            0 < p <= unit(),
            -mantissa_bound() < m < mantissa_bound(),
    ;
    assert(on_grid(d@, k));
}

pub proof fn lemma_pow10_monotone(a: nat, b: nat)
    requires
        a <= b,
    ensures
        pow10(a) <= pow10(b),
    decreases b,
{
    lemma_pow10_positive(a);
    if a < b {
        lemma_pow10_monotone(a, (b - 1) as nat);
        lemma_pow10_positive((b - 1) as nat);
    }
}

/// A whole number below `2^96` is a decimal.
pub proof fn lemma_whole(n: int)
    requires
        -mantissa_bound() < n < mantissa_bound(),
    ensures
        representable(n * unit()),
{
    lemma_pow10_28();
    assert(on_grid(n * unit(), 28)) by {
        assert((n * unit()) % unit() == 0) by (nonlinear_arith);
    }
}

/// No decimal is beyond the largest.
pub proof fn lemma_representable_bound(v: int)
    requires
        representable(v),
    ensures
        -max_value() <= v <= max_value(),
{
    let k = choose|k: nat| k <= 28 && #[trigger] on_grid(v, k);
    lemma_pow10_positive(k);
    lemma_pow10_28();
    lemma_pow10_monotone(k, 28);
    let p = pow10(k);
    let n = v / p;
    assert(v == n * p) by (nonlinear_arith)
        requires
            v % p == 0,
            n == v / p,
            p > 0,
    ;
    let m = mantissa_bound() - 1;
    let b = mantissa_bound();
    assert(-b < n < b) by (nonlinear_arith)
        requires
            -b * p < n * p < b * p,
            p > 0,
    ;
    assert(-m * p <= n * p <= m * p) by (nonlinear_arith)
        requires
            -m <= n <= m,
            p > 0,
    ;
    assert(m * p <= m * unit()) by (nonlinear_arith)
        requires
            0 < p <= unit(),
            m >= 0,
    ;
    assert(-m * p == -(m * p)) by (nonlinear_arith);
}

/// A product that some decimal equals is not too large.
pub proof fn lemma_exact_product_fits(a: int, b: int, p: int)
    requires
        a * b == p * unit(),
        representable(p),
    ensures
        product_fits(a, b),
{
    lemma_representable_bound(p);
    let m = max_value();
    assert(-m * unit() <= p * unit() <= m * unit()) by (nonlinear_arith)
        requires
            -m <= p <= m,
            unit() > 0,
    ;
}

/// A quotient that some decimal equals is not too large.
pub proof fn lemma_exact_quotient_fits(a: int, b: int, q: int)
    requires
        b > 0,
        a * unit() == q * b,
        representable(q),
    ensures
        quotient_fits(a, b),
{
    lemma_representable_bound(q);
    let m = max_value();
    assert(-m * b <= q * b <= m * b) by (nonlinear_arith)
        requires
            -m <= q <= m,
            b > 0,
    ;
}

/// Numbers of up to six places, none below zero.
pub open spec fn six_places(v: int) -> bool {
    v >= 0 && v % 10_000_000_000_000_000_000_000 == 0
}

proof fn lemma_pow10_16()
    ensures
        pow10(16) == 10_000_000_000_000_000,
{
    reveal_with_fuel(pow10, 17);
}

/// Numbers of up to six places multiply exactly, as far as decimals reach.
pub proof fn lemma_six_place_product(a: int, b: int)
    requires
        six_places(a) && six_places(b),
        a * b < mantissa_bound() * 10_000_000_000_000_000 * unit(),
    ensures
        product(a, b) * unit() == a * b,
        product(a, b) % 10_000_000_000_000_000 == 0,
        product(a, b) >= 0,
{
    let g = 10_000_000_000_000_000_000_000int;
    let h = 10_000_000_000_000_000int;
    let u = unit();
    let x = a / g;
    let y = b / g;
    let n = x * y;
    assert(a == x * g && b == y * g);
    assert(g * g == h * u);
    assert(a * b == (n * h) * u) by (nonlinear_arith)
        requires
            a == x * g,
            b == y * g,
            n == x * y,
            g * g == h * u,
    ;
    assert(0 <= n) by (nonlinear_arith)
        requires
            n == x * y,
            x >= 0,
            y >= 0,
    ;
    assert(n < mantissa_bound()) by (nonlinear_arith)
        requires
            (n * h) * u < mantissa_bound() * h * u,
            h > 0,
            u > 0,
    ;
    lemma_pow10_16();
    lemma_grid_point(n, 16);
    lemma_exact_product(a, b, n * h);
    vstd::arithmetic::div_mod::lemma_mod_multiples_basic(n, h);
}

/// Numbers of up to twelve places add up exactly, as far as decimals reach.
pub proof fn lemma_twelve_places_add_up(a: int, b: int)
    requires
        a >= 0 && b >= 0,
        a % 10_000_000_000_000_000 == 0,
        b % 10_000_000_000_000_000 == 0,
        a + b < mantissa_bound() * 10_000_000_000_000_000,
    ensures
        sum(a, b) == a + b,
        (a + b) % 10_000_000_000_000_000 == 0,
{
    let h = 10_000_000_000_000_000int;
    let x = a / h;
    let y = b / h;
    assert(a == x * h && b == y * h);
    assert(a + b == (x + y) * h) by (nonlinear_arith)
        requires
            a == x * h,
            b == y * h,
    ;
    vstd::arithmetic::div_mod::lemma_mod_multiples_basic(x + y, h);
    lemma_pow10_16();
    lemma_grid_point(x + y, 16);
}

/// Amounts of whole hundredths add up exactly to whole hundredths, as far as decimals reach.
pub proof fn lemma_cents_add_up(a: int, b: int)
    requires
        a >= 0 && b >= 0,
        a % 100_000_000_000_000_000_000_000_000 == 0,
        b % 100_000_000_000_000_000_000_000_000 == 0,
        a + b < mantissa_bound() * 100_000_000_000_000_000_000_000_000,
    ensures
        (a + b) % 100_000_000_000_000_000_000_000_000 == 0,
        sum(a, b) == a + b,
{
    let c = 100_000_000_000_000_000_000_000_000int;
    let x = a / c;
    let y = b / c;
    assert(a == x * c && b == y * c);
    assert(a + b == (x + y) * c) by (nonlinear_arith)
        requires
            a == x * c,
            b == y * c,
    ;
    assert(((x + y) * c) % c == 0) by {
        vstd::arithmetic::div_mod::lemma_mod_multiples_basic(x + y, c);
    }
    lemma_whole_cents(x + y);
}

/// A number of whole hundredths below `2^96` is a decimal.
pub proof fn lemma_whole_cents(n: int)
    requires
        -mantissa_bound() < n < mantissa_bound(),
    ensures
        representable(n * cent()),
{
    lemma_pow10_28();
    assert(on_grid(n * cent(), 26)) by {
        assert((n * cent()) % cent() == 0) by (nonlinear_arith);
    }
}

/// Rounding moves a number by less than the spacing of any grid on which it can be written.
pub proof fn lemma_rounding_error(r: int, x: int, k: nat)
    requires
        is_rounding(r, x, 1),
        k <= 28,
        -(mantissa_bound() - 1) * pow10(k) < x < (mantissa_bound() - 1) * pow10(k),
    ensures
        x - pow10(k) < r < x + pow10(k),
{
    lemma_ratio_rounding_error(r, x, 1, k);
}

/// Rounding moves a ratio by less than the spacing of any grid on which it can be written.
pub proof fn lemma_ratio_rounding_error(r: int, num: int, den: int, k: nat)
    requires
        den > 0,
        is_rounding(r, num, den),
        k <= 28,
        -(mantissa_bound() - 1) * pow10(k) * den < num < (mantissa_bound() - 1) * pow10(k) * den,
    ensures
        num - pow10(k) * den < r * den < num + pow10(k) * den,
{
    lemma_pow10_positive(k);
    let p = pow10(k);
    let q = num / (p * den);
    let lo = q * p;
    let hi = (q + 1) * p;
    assert(p * den > 0) by (nonlinear_arith)
        requires
            p > 0,
            den > 0,
    ;
    assert(q * (p * den) <= num < (q + 1) * (p * den)) by (nonlinear_arith)
        requires
            p * den > 0,
            q == num / (p * den),
    ;
    assert(lo * den == q * (p * den) && hi * den == (q + 1) * (p * den)) by (nonlinear_arith)
        requires
            lo == q * p,
            hi == (q + 1) * p,
    ;
    assert(hi * den == lo * den + p * den) by (nonlinear_arith)
        requires
            lo == q * p,
            hi == (q + 1) * p,
    ;
    assert(-mantissa_bound() < q && q + 1 < mantissa_bound()) by (nonlinear_arith)
        requires
            p * den > 0,
            q * (p * den) <= num < (q + 1) * (p * den),
            -(mantissa_bound() - 1) * p * den < num < (mantissa_bound() - 1) * p * den,
    ;
    lemma_grid_point(q, k);
    lemma_grid_point(q + 1, k);
    assert(lo <= r <= hi);
    assert(lo * den <= r * den <= hi * den) by (nonlinear_arith)
        requires
            lo <= r <= hi,
            den > 0,
    ;
    if num == lo * den {
        assert(r <= lo);
        assert(r * den <= lo * den) by (nonlinear_arith)
            requires
                r <= lo,
                den > 0,
        ;
    }
}

/// A product that some decimal equals is exact.
pub proof fn lemma_exact_product(a: int, b: int, p: int)
    requires
        a * b == p * unit(),
        representable(p),
    ensures
        product(a, b) == p,
{
    assert((p * unit()) % unit() == 0 && (p * unit()) / unit() == p) by (nonlinear_arith);
}

/// A quotient that some decimal equals is exact.
pub proof fn lemma_exact_quotient(a: int, b: int, q: int)
    requires
        b > 0,
        a * unit() == q * b,
        representable(q),
    ensures
        quotient(a, b) == q,
{
    assert((q * b) % b == 0 && (q * b) / b == q) by (nonlinear_arith)
        requires
            b > 0,
    ;
}

/// A 96-bit multiple of `10^k` units is a decimal.
pub proof fn lemma_grid_point(q: int, k: nat)
    requires
        k <= 28,
        -mantissa_bound() < q < mantissa_bound(),
    ensures
        representable(q * pow10(k)),
{
    lemma_pow10_positive(k);
    let p = pow10(k);
    assert((q * p) % p == 0) by (nonlinear_arith)
        requires
            p > 0,
    ;
    assert(-mantissa_bound() * p < q * p < mantissa_bound() * p) by (nonlinear_arith)
        requires
            p > 0,
            -mantissa_bound() < q < mantissa_bound(),
    ;
    assert(on_grid(q * p, k));
}

} // verus!
