//! Exact numbers held as plain data: integers as two's-complement bytes,
//! rationals in lowest terms, and complex numbers with rational parts.
//!
//! The arithmetic itself is done by the `num` crate. Each call into it stands
//! in a small function of this module whose contract is stated over the
//! mathematical values below and is believed, not proved.

use vstd::prelude::*;
use vstd::arithmetic::div_mod::lemma_small_mod;
use vstd::std_specs::cmp::PartialEqSpecImpl;
use num::{BigInt, BigRational, ToPrimitive};

verus! {

/// The integer that a byte string denotes when read as a little-endian
/// two's-complement number. The empty string denotes zero.
pub open spec fn signed_value(bytes: Seq<u8>) -> int
    decreases bytes.len(),
{
    if bytes.len() == 0 {
        0
    } else if bytes.len() == 1 {
        if bytes[0] < 128 {
            bytes[0] as int
        } else {
            bytes[0] - 256
        }
    } else {
        bytes[0] + 256 * signed_value(bytes.drop_first())
    }
}

/// `d` divides `n`.
pub open spec fn divides(d: int, n: int) -> bool {
    d != 0 && n % d == 0
}

/// No integer above one divides both `a` and `b`.
pub open spec fn coprime(a: int, b: int) -> bool {
    forall|d: int| d > 1 && #[trigger] divides(d, a) ==> !divides(d, b)
}

/// The quotient of `n` by a positive `d`, rounded towards zero.
pub open spec fn truncated_quotient(n: int, d: int) -> int {
    if n >= 0 {
        n / d
    } else {
        -((-n) / d)
    }
}

/// A rational number as a numerator and a denominator.
pub struct Fraction {
    pub numer: int,
    pub denom: int,
}

impl Fraction {
    /// In lowest terms, with a positive denominator. Every rational number
    /// has exactly one such form, so two well-formed fractions are equal as
    /// numbers exactly when they are equal as pairs.
    pub open spec fn wf(self) -> bool {
        self.denom > 0 && coprime(self.numer, self.denom)
    }

    /// The well-formed fraction that equals `numer / denom`, for a nonzero
    /// `denom`.
    pub open spec fn of(numer: int, denom: int) -> Fraction {
        choose|f: Fraction| f.wf() && f.numer * denom == numer * f.denom
    }

    pub open spec fn integer(n: int) -> Fraction {
        Fraction { numer: n, denom: 1 }
    }

    pub open spec fn is_zero(self) -> bool {
        self.numer == 0
    }

    pub open spec fn is_integer(self) -> bool {
        self.denom == 1
    }

    pub open spec fn negation(self) -> Fraction {
        Fraction { numer: -self.numer, denom: self.denom }
    }

    pub open spec fn sum(self, other: Fraction) -> Fraction {
        Fraction::of(
            self.numer * other.denom + other.numer * self.denom,
            self.denom * other.denom,
        )
    }

    pub open spec fn difference(self, other: Fraction) -> Fraction {
        Fraction::of(
            self.numer * other.denom - other.numer * self.denom,
            self.denom * other.denom,
        )
    }

    pub open spec fn product(self, other: Fraction) -> Fraction {
        Fraction::of(self.numer * other.numer, self.denom * other.denom)
    }

    /// `self / other`, for a nonzero `other`.
    pub open spec fn quotient(self, other: Fraction) -> Fraction {
        Fraction::of(self.numer * other.denom, self.denom * other.numer)
    }

    /// The integer part, rounded towards zero.
    pub open spec fn truncation(self) -> Fraction {
        Fraction::integer(truncated_quotient(self.numer, self.denom))
    }

    /// `self < other`, for positive denominators.
    pub open spec fn less_than(self, other: Fraction) -> bool {
        self.numer * other.denom < other.numer * self.denom
    }
}

/// A complex number with rational real and imaginary parts.
pub struct ComplexValue {
    pub re: Fraction,
    pub im: Fraction,
}

impl ComplexValue {
    pub open spec fn wf(self) -> bool {
        self.re.wf() && self.im.wf()
    }

    pub open spec fn from_fraction(re: Fraction) -> ComplexValue {
        ComplexValue { re, im: Fraction::integer(0) }
    }

    pub open spec fn one() -> ComplexValue {
        ComplexValue::from_fraction(Fraction::integer(1))
    }

    /// The imaginary unit.
    pub open spec fn i() -> ComplexValue {
        ComplexValue { re: Fraction::integer(0), im: Fraction::integer(1) }
    }

    pub open spec fn is_zero(self) -> bool {
        self.re.is_zero() && self.im.is_zero()
    }

    pub open spec fn is_real(self) -> bool {
        self.im.is_zero()
    }

    pub open spec fn negation(self) -> ComplexValue {
        ComplexValue { re: self.re.negation(), im: self.im.negation() }
    }

    pub open spec fn sum(self, other: ComplexValue) -> ComplexValue {
        ComplexValue { re: self.re.sum(other.re), im: self.im.sum(other.im) }
    }

    pub open spec fn difference(self, other: ComplexValue) -> ComplexValue {
        ComplexValue { re: self.re.difference(other.re), im: self.im.difference(other.im) }
    }

    pub open spec fn product(self, other: ComplexValue) -> ComplexValue {
        ComplexValue {
            re: self.re.product(other.re).difference(self.im.product(other.im)),
            im: self.re.product(other.im).sum(self.im.product(other.re)),
        }
    }

    /// The square of the absolute value.
    pub open spec fn norm_sqr(self) -> Fraction {
        self.re.product(self.re).sum(self.im.product(self.im))
    }

    /// `self / other`, for a nonzero `other`.
    pub open spec fn quotient(self, other: ComplexValue) -> ComplexValue {
        ComplexValue {
            re: self.re.product(other.re).sum(self.im.product(other.im)).quotient(
                other.norm_sqr(),
            ),
            im: self.im.product(other.re).difference(self.re.product(other.im)).quotient(
                other.norm_sqr(),
            ),
        }
    }

    /// Both parts rounded towards zero.
    pub open spec fn truncation(self) -> ComplexValue {
        ComplexValue { re: self.re.truncation(), im: self.im.truncation() }
    }

    /// What is left of `self` after taking out `other` as many whole times as
    /// the truncated quotient says: `self - trunc(self / other) * other`.
    pub open spec fn remainder(self, other: ComplexValue) -> ComplexValue {
        self.difference(other.product(self.quotient(other).truncation()))
    }

    /// `1 / self`, for a nonzero `self`.
    pub open spec fn reciprocal(self) -> ComplexValue {
        ComplexValue {
            re: self.re.quotient(self.norm_sqr()),
            im: self.im.negation().quotient(self.norm_sqr()),
        }
    }

    /// `self` multiplied by itself `exponent` times.
    pub open spec fn natural_power(self, exponent: nat) -> ComplexValue
        decreases exponent,
    {
        if exponent == 0 {
            ComplexValue::one()
        } else {
            self.product(self.natural_power((exponent - 1) as nat))
        }
    }

    /// `self` to an integer power; a negative power is the power of the
    /// reciprocal, for a nonzero `self`.
    pub open spec fn power(self, exponent: int) -> ComplexValue {
        if exponent >= 0 {
            self.natural_power(exponent as nat)
        } else {
            self.reciprocal().natural_power((-exponent) as nat)
        }
    }
}

/// An integer of arbitrary size, held as little-endian two's-complement
/// bytes. Every byte string is a valid integer; several may denote the same
/// value.
///
/// The bytes are what `num::BigInt::from_signed_bytes_le` reads and what
/// `num::BigInt::to_signed_bytes_le` writes. Every call into `num` below takes
/// its integers in through the first and hands them back through the second.
#[derive(Debug)]
pub struct Integer {
    pub bytes: Vec<u8>,
}

impl View for Integer {
    type V = int;

    open spec fn view(&self) -> int {
        signed_value(self.bytes@)
    }
}

/// A rational number in lowest terms with a positive denominator.
///
/// That form is an invariant of the type. The functions of this module that
/// build a rational from integers prove it; those that take one back from
/// `num` claim it in their contracts, where it is believed.
#[derive(Debug)]
pub struct Rational {
    numer: Integer,
    denom: Integer,
}

impl View for Rational {
    type V = Fraction;

    closed spec fn view(&self) -> Fraction {
        Fraction { numer: self.numer@, denom: self.denom@ }
    }
}

/// A complex number whose parts are rationals.
#[derive(Debug)]
pub struct Complex {
    pub re: Rational,
    pub im: Rational,
}

impl View for Complex {
    type V = ComplexValue;

    open spec fn view(&self) -> ComplexValue {
        ComplexValue { re: self.re@, im: self.im@ }
    }
}

/// Calls `==` of `num::BigInt` on the integers that the two byte strings
/// denote. Trusted: the answer is whether the two values are the same.
#[verifier::external_body]
pub(crate) fn integer_eq(a: &Integer, b: &Integer) -> (same: bool)
    ensures
        same == (a@ == b@),
{
    BigInt::from_signed_bytes_le(&a.bytes) == BigInt::from_signed_bytes_le(&b.bytes)
}

/// Calls `ToPrimitive::to_i32` of `num::BigInt`. Trusted: the value itself
/// where it lies in the range of `i32`, and nothing where it does not.
#[verifier::external_body]
pub(crate) fn integer_to_i32(a: &Integer) -> (small: Option<i32>)
    ensures
        small == (if i32::MIN <= a@ <= i32::MAX {
            Some(a@ as i32)
        } else {
            None
        }),
{
    BigInt::from_signed_bytes_le(&a.bytes).to_i32()
}

/// Calls `num::BigRational::new`, which divides both numbers by their
/// greatest common divisor and makes the denominator positive. Trusted: the
/// result is the fraction in lowest terms that equals `numer / denom`.
#[verifier::external_body]
pub(crate) fn rational_new(numer: &Integer, denom: &Integer) -> (q: Rational)
    requires
        denom@ != 0,
    ensures
        q@.wf(),
        q@ == Fraction::of(numer@, denom@),
{
    let q = BigRational::new(
        BigInt::from_signed_bytes_le(&numer.bytes),
        BigInt::from_signed_bytes_le(&denom.bytes),
    );
    Rational {
        numer: Integer { bytes: q.numer().to_signed_bytes_le() },
        denom: Integer { bytes: q.denom().to_signed_bytes_le() },
    }
}

/// Calls `<` of `num::BigRational`. Trusted: the answer is whether the first
/// number is the smaller one.
#[verifier::external_body]
pub(crate) fn rational_lt(a: &Rational, b: &Rational) -> (less: bool)
    requires
        a@.wf(),
        b@.wf(),
    ensures
        less == a@.less_than(b@),
{
    let big = |q: &Rational|
        BigRational::new_raw(
            BigInt::from_signed_bytes_le(&q.numer.bytes),
            BigInt::from_signed_bytes_le(&q.denom.bytes),
        );
    big(a) < big(b)
}

/// Calls the unary `-` of `num::Complex` over `num::BigRational`. Trusted:
/// both numerators change sign and the denominators stay.
#[verifier::external_body]
pub(crate) fn complex_neg(a: &Complex) -> (r: Complex)
    requires
        a@.wf(),
    ensures
        r@.wf(),
        r@ == a@.negation(),
{
    let big = |q: &Rational|
        BigRational::new_raw(
            BigInt::from_signed_bytes_le(&q.numer.bytes),
            BigInt::from_signed_bytes_le(&q.denom.bytes),
        );
    let z = -num::Complex::new(big(&a.re), big(&a.im));
    let plain = |q: &BigRational|
        Rational {
            numer: Integer { bytes: q.numer().to_signed_bytes_le() },
            denom: Integer { bytes: q.denom().to_signed_bytes_le() },
        };
    Complex { re: plain(&z.re), im: plain(&z.im) }
}

/// Calls `+` of `num::Complex` over `num::BigRational`. Trusted: the parts
/// of the result are the sums of the parts, in lowest terms.
#[verifier::external_body]
pub(crate) fn complex_add(a: &Complex, b: &Complex) -> (r: Complex)
    requires
        a@.wf(),
        b@.wf(),
    ensures
        r@.wf(),
        r@ == a@.sum(b@),
{
    let big = |q: &Rational|
        BigRational::new_raw(
            BigInt::from_signed_bytes_le(&q.numer.bytes),
            BigInt::from_signed_bytes_le(&q.denom.bytes),
        );
    let z = num::Complex::new(big(&a.re), big(&a.im)) + num::Complex::new(big(&b.re), big(&b.im));
    let plain = |q: &BigRational|
        Rational {
            numer: Integer { bytes: q.numer().to_signed_bytes_le() },
            denom: Integer { bytes: q.denom().to_signed_bytes_le() },
        };
    Complex { re: plain(&z.re), im: plain(&z.im) }
}

/// Calls the binary `-` of `num::Complex` over `num::BigRational`. Trusted:
/// the parts of the result are the differences of the parts, in lowest terms.
#[verifier::external_body]
pub(crate) fn complex_sub(a: &Complex, b: &Complex) -> (r: Complex)
    requires
        a@.wf(),
        b@.wf(),
    ensures
        r@.wf(),
        r@ == a@.difference(b@),
{
    let big = |q: &Rational|
        BigRational::new_raw(
            BigInt::from_signed_bytes_le(&q.numer.bytes),
            BigInt::from_signed_bytes_le(&q.denom.bytes),
        );
    let z = num::Complex::new(big(&a.re), big(&a.im)) - num::Complex::new(big(&b.re), big(&b.im));
    let plain = |q: &BigRational|
        Rational {
            numer: Integer { bytes: q.numer().to_signed_bytes_le() },
            denom: Integer { bytes: q.denom().to_signed_bytes_le() },
        };
    Complex { re: plain(&z.re), im: plain(&z.im) }
}

/// Calls `*` of `num::Complex` over `num::BigRational`. Trusted: the result
/// is the complex product, each part in lowest terms.
#[verifier::external_body]
pub(crate) fn complex_mul(a: &Complex, b: &Complex) -> (r: Complex)
    requires
        a@.wf(),
        b@.wf(),
    ensures
        r@.wf(),
        r@ == a@.product(b@),
{
    let big = |q: &Rational|
        BigRational::new_raw(
            BigInt::from_signed_bytes_le(&q.numer.bytes),
            BigInt::from_signed_bytes_le(&q.denom.bytes),
        );
    let z = num::Complex::new(big(&a.re), big(&a.im)) * num::Complex::new(big(&b.re), big(&b.im));
    let plain = |q: &BigRational|
        Rational {
            numer: Integer { bytes: q.numer().to_signed_bytes_le() },
            denom: Integer { bytes: q.denom().to_signed_bytes_le() },
        };
    Complex { re: plain(&z.re), im: plain(&z.im) }
}

/// Calls `/` of `num::Complex` over `num::BigRational`, which panics on a
/// zero divisor. Trusted: for a nonzero divisor the result is the complex
/// quotient, each part in lowest terms.
#[verifier::external_body]
pub(crate) fn complex_div(a: &Complex, b: &Complex) -> (r: Complex)
    requires
        a@.wf(),
        b@.wf(),
        !b@.is_zero(),
    ensures
        r@.wf(),
        r@ == a@.quotient(b@),
{
    let big = |q: &Rational|
        BigRational::new_raw(
            BigInt::from_signed_bytes_le(&q.numer.bytes),
            BigInt::from_signed_bytes_le(&q.denom.bytes),
        );
    let z = num::Complex::new(big(&a.re), big(&a.im)) / num::Complex::new(big(&b.re), big(&b.im));
    let plain = |q: &BigRational|
        Rational {
            numer: Integer { bytes: q.numer().to_signed_bytes_le() },
            denom: Integer { bytes: q.denom().to_signed_bytes_le() },
        };
    Complex { re: plain(&z.re), im: plain(&z.im) }
}

/// Calls `%` of `num::Complex` over `num::BigRational`, which divides, rounds
/// both parts of the quotient towards zero, and takes that many times the
/// divisor away from the dividend; it panics on a zero divisor. Trusted: for a
/// nonzero divisor the result is that remainder, each part in lowest terms.
#[verifier::external_body]
pub(crate) fn complex_rem(a: &Complex, b: &Complex) -> (r: Complex)
    requires
        a@.wf(),
        b@.wf(),
        !b@.is_zero(),
    ensures
        r@.wf(),
        r@ == a@.remainder(b@),
{
    let big = |q: &Rational|
        BigRational::new_raw(
            BigInt::from_signed_bytes_le(&q.numer.bytes),
            BigInt::from_signed_bytes_le(&q.denom.bytes),
        );
    let z = num::Complex::new(big(&a.re), big(&a.im)) % num::Complex::new(big(&b.re), big(&b.im));
    let plain = |q: &BigRational|
        Rational {
            numer: Integer { bytes: q.numer().to_signed_bytes_le() },
            denom: Integer { bytes: q.denom().to_signed_bytes_le() },
        };
    Complex { re: plain(&z.re), im: plain(&z.im) }
}

/// Calls `num::Complex::powi` over `num::BigRational`, which multiplies the
/// base, or for a negative exponent its reciprocal, by itself; it panics on
/// zero to a negative power. Trusted: otherwise the result is that power,
/// each part in lowest terms.
#[verifier::external_body]
pub(crate) fn complex_powi(a: &Complex, exponent: i32) -> (r: Complex)
    requires
        a@.wf(),
        exponent < 0 ==> !a@.is_zero(),
    ensures
        r@.wf(),
        r@ == a@.power(exponent as int),
{
    let big = |q: &Rational|
        BigRational::new_raw(
            BigInt::from_signed_bytes_le(&q.numer.bytes),
            BigInt::from_signed_bytes_le(&q.denom.bytes),
        );
    let z = num::Complex::new(big(&a.re), big(&a.im)).powi(exponent);
    let plain = |q: &BigRational|
        Rational {
            numer: Integer { bytes: q.numer().to_signed_bytes_le() },
            denom: Integer { bytes: q.denom().to_signed_bytes_le() },
        };
    Complex { re: plain(&z.re), im: plain(&z.im) }
}

impl Integer {
    pub fn zero() -> (zero: Integer)
        ensures
            zero@ == 0,
    {
        let mut bytes: Vec<u8> = Vec::new();
        bytes.push(0u8);
        Integer { bytes }
    }

    pub fn one() -> (one: Integer)
        ensures
            one@ == 1,
    {
        let mut bytes: Vec<u8> = Vec::new();
        bytes.push(1u8);
        Integer { bytes }
    }

    pub fn is_zero(&self) -> (zero: bool)
        ensures
            zero == (self@ == 0),
    {
        let zero = Integer::zero();
        integer_eq(self, &zero)
    }

    pub fn is_one(&self) -> (one: bool)
        ensures
            one == (self@ == 1),
    {
        let one = Integer::one();
        integer_eq(self, &one)
    }

    /// The value as an `i32`, where it is one.
    pub fn to_i32(&self) -> (small: Option<i32>)
        ensures
            small matches Some(n) ==> n == self@,
            small is Some <==> i32::MIN <= self@ <= i32::MAX,
    {
        integer_to_i32(self)
    }
}

impl Clone for Integer {
    fn clone(&self) -> (copy: Integer)
        ensures
            copy@ == self@,
    {
        let bytes = self.bytes.clone();
        assert(bytes@ =~= self.bytes@);
        Integer { bytes }
    }
}

impl PartialEq for Integer {
    fn eq(&self, other: &Integer) -> (same: bool) {
        integer_eq(self, other)
    }
}

impl PartialEqSpecImpl for Integer {
    open spec fn obeys_eq_spec() -> bool {
        true
    }

    open spec fn eq_spec(&self, other: &Integer) -> bool {
        self@ == other@
    }
}

impl Rational {
    /// Every rational is in lowest terms with a positive denominator.
    #[verifier::type_invariant]
    pub open spec fn lowest_terms(&self) -> bool {
        self@.wf()
    }

    /// The rational in lowest terms that equals `numer / denom`; nothing for a
    /// zero denominator.
    pub fn new(numer: Integer, denom: Integer) -> (made: Option<Rational>)
        ensures
            made is None <==> denom@ == 0,
            made matches Some(q) ==> q@.wf() && q@ == Fraction::of(numer@, denom@),
    {
        if denom.is_zero() {
            None
        } else {
            Some(rational_new(&numer, &denom))
        }
    }

    /// The integer `n` as a rational.
    pub fn from_integer(n: Integer) -> (q: Rational)
        ensures
            q@.wf(),
            q@ == Fraction::integer(n@),
    {
        proof {
            lemma_integer_fraction_wf(n@);
        }
        Rational { numer: n, denom: Integer::one() }
    }

    pub fn numer(&self) -> (numer: &Integer)
        ensures
            numer@ == self@.numer,
    {
        &self.numer
    }

    pub fn denom(&self) -> (denom: &Integer)
        ensures
            denom@ == self@.denom,
    {
        &self.denom
    }

    pub fn is_zero(&self) -> (zero: bool)
        ensures
            zero == self@.is_zero(),
    {
        self.numer.is_zero()
    }

    /// Whether the denominator is one.
    pub fn is_integer(&self) -> (whole: bool)
        ensures
            whole == self@.is_integer(),
    {
        self.denom.is_one()
    }

    /// Whether `self` is the smaller number.
    pub fn less_than(&self, other: &Rational) -> (less: bool)
        ensures
            less == self@.less_than(other@),
    {
        proof {
            use_type_invariant(self);
            use_type_invariant(other);
        }
        rational_lt(self, other)
    }
}

impl Clone for Rational {
    fn clone(&self) -> (copy: Rational)
        ensures
            copy@ == self@,
    {
        proof {
            use_type_invariant(self);
        }
        Rational { numer: self.numer.clone(), denom: self.denom.clone() }
    }
}

impl PartialEq for Rational {
    fn eq(&self, other: &Rational) -> (same: bool) {
        integer_eq(&self.numer, &other.numer) && integer_eq(&self.denom, &other.denom)
    }
}

impl PartialEqSpecImpl for Rational {
    open spec fn obeys_eq_spec() -> bool {
        true
    }

    open spec fn eq_spec(&self, other: &Rational) -> bool {
        self@ == other@
    }
}

impl Complex {
    /// The imaginary unit.
    pub fn i() -> (i: Complex)
        ensures
            i@.wf(),
            i@ == ComplexValue::i(),
    {
        Complex {
            re: Rational::from_integer(Integer::zero()),
            im: Rational::from_integer(Integer::one()),
        }
    }

    /// The rational `re` as a complex number.
    pub fn from_rational(re: Rational) -> (z: Complex)
        ensures
            z@.wf(),
            z@ == ComplexValue::from_fraction(re@),
    {
        proof {
            use_type_invariant(&re);
        }
        Complex { re, im: Rational::from_integer(Integer::zero()) }
    }

    pub fn is_zero(&self) -> (zero: bool)
        ensures
            zero == self@.is_zero(),
    {
        self.re.is_zero() && self.im.is_zero()
    }

    /// Whether the imaginary part is zero.
    pub fn is_real(&self) -> (is_real: bool)
        ensures
            is_real == self@.is_real(),
    {
        self.im.is_zero()
    }
}

impl Clone for Complex {
    fn clone(&self) -> (copy: Complex)
        ensures
            copy@ == self@,
    {
        Complex { re: self.re.clone(), im: self.im.clone() }
    }
}

impl PartialEq for Complex {
    fn eq(&self, other: &Complex) -> (same: bool) {
        self.re == other.re && self.im == other.im
    }
}

impl PartialEqSpecImpl for Complex {
    open spec fn obeys_eq_spec() -> bool {
        true
    }

    open spec fn eq_spec(&self, other: &Complex) -> bool {
        self@ == other@
    }
}

/// An integer over one is in lowest terms.
pub proof fn lemma_integer_fraction_wf(n: int)
    ensures
        Fraction::integer(n).wf(),
{
    assert forall|d: int| d > 1 && #[trigger] divides(d, n) implies !divides(d, 1) by {
        lemma_small_mod(1, d as nat);
    }
}

} // verus!
