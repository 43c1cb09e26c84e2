//! Every rational number has exactly one form in lowest terms with a
//! positive denominator. This is what makes two well-formed fractions equal
//! as numbers exactly when they are equal as pairs, and what makes
//! `Fraction::of` a definition.

use vstd::prelude::*;
use vstd::arithmetic::div_mod::{lemma_fundamental_div_mod, lemma_mod_multiples_basic};
use crate::number::{coprime, divides, Fraction};

verus! {

/// A positive number divides its multiples.
pub proof fn lemma_divides_multiple(d: int, k: int)
    requires
        d > 0,
    ensures
        divides(d, d * k),
        divides(d, k * d),
{
    lemma_mod_multiples_basic(k, d);
    assert(d * k == k * d) by (nonlinear_arith);
}

/// What a positive number divides is a multiple of it.
pub proof fn lemma_divides_witness(d: int, n: int)
    requires
        d > 0,
        divides(d, n),
    ensures
        n == d * (n / d),
{
    lemma_fundamental_div_mod(n, d);
}

/// A common divisor of two numbers that is a combination of them: the
/// result is `(x, y, g)` with `g == x * a + y * b`, and `g` divides both.
pub proof fn lemma_common_divisor(a: int, b: int) -> (r: (int, int, int))
    requires
        a >= 0,
        b >= 0,
        a + b > 0,
    ensures
        r.2 > 0,
        r.2 == r.0 * a + r.1 * b,
        divides(r.2, a),
        divides(r.2, b),
    decreases b,
{
    if b == 0 {
        lemma_divides_multiple(a, 1);
        lemma_divides_multiple(a, 0);
        assert(a * 1 == a && a * 0 == 0) by (nonlinear_arith);
        assert(1 * a + 0 * b == a) by (nonlinear_arith);
        (1, 0, a)
    } else {
        let q = a / b;
        let rest = a % b;
        lemma_fundamental_div_mod(a, b);
        vstd::arithmetic::div_mod::lemma_mod_pos_bound(a, b);
        let (x, y, g) = lemma_common_divisor(b, rest);
        lemma_divides_witness(g, b);
        lemma_divides_witness(g, rest);
        let kb = b / g;
        let kr = rest / g;
        assert(a == g * (kb * q + kr)) by (nonlinear_arith)
            requires
                a == b * q + rest,
                b == g * kb,
                rest == g * kr,
        ;
        lemma_divides_multiple(g, kb * q + kr);
        assert(g == y * a + (x - y * q) * b) by (nonlinear_arith)
            requires
                g == x * b + y * rest,
                a == b * q + rest,
        ;
        (y, x - y * q, g)
    }
}

/// A number that divides a product and has nothing in common with one
/// factor divides the other.
pub proof fn lemma_divides_other_factor(d: int, n: int, m: int)
    requires
        d > 0,
        coprime(n, d),
        divides(d, n * m),
    ensures
        divides(d, m),
{
    let a = if n >= 0 {
        n
    } else {
        -n
    };
    let (x, y, g) = lemma_common_divisor(a, d);
    assert(g == 1) by {
        if g > 1 {
            lemma_divides_witness(g, a);
            let k = a / g;
            if n >= 0 {
                assert(divides(g, n));
            } else {
                assert(n == g * (-k)) by (nonlinear_arith)
                    requires
                        -n == g * k,
                ;
                lemma_divides_multiple(g, -k);
            }
            assert(divides(g, n));
            assert(divides(g, d));
        }
    }
    lemma_divides_witness(d, n * m);
    let k = (n * m) / d;
    let s = if n >= 0 {
        k
    } else {
        -k
    };
    assert(a * m == d * s) by (nonlinear_arith)
        requires
            n * m == d * k,
            a == (if n >= 0 {
                n
            } else {
                -n
            }),
            s == (if n >= 0 {
                k
            } else {
                -k
            }),
    ;
    assert(m == d * (x * s + y * m)) by (nonlinear_arith)
        requires
            1 == x * a + y * d,
            a * m == d * s,
    ;
    lemma_divides_multiple(d, x * s + y * m);
}

/// Two positive numbers that divide each other are the same.
pub proof fn lemma_divide_each_other(a: int, b: int)
    requires
        a > 0,
        b > 0,
        divides(a, b),
        divides(b, a),
    ensures
        a == b,
{
    lemma_divides_witness(a, b);
    lemma_divides_witness(b, a);
    let k = b / a;
    let j = a / b;
    assert(a == b) by (nonlinear_arith)
        requires
            a > 0,
            b > 0,
            b == a * k,
            a == b * j,
    ;
}

/// Two fractions in lowest terms that are equal as numbers are the same
/// fraction.
pub proof fn lemma_lowest_terms_are_unique(a: Fraction, b: Fraction)
    requires
        a.wf(),
        b.wf(),
        a.numer * b.denom == b.numer * a.denom,
    ensures
        a == b,
{
    lemma_divides_multiple(a.denom, b.numer);
    lemma_divides_other_factor(a.denom, a.numer, b.denom);
    lemma_divides_multiple(b.denom, a.numer);
    lemma_divides_other_factor(b.denom, b.numer, a.denom);
    lemma_divide_each_other(a.denom, b.denom);
    assert(a.numer == b.numer) by (nonlinear_arith)
        requires
            a.denom > 0,
            a.numer * a.denom == b.numer * a.denom,
    ;
}

/// Every fraction with a nonzero denominator has a form in lowest terms.
pub proof fn lemma_lowest_terms_exist(numer: int, denom: int) -> (f: Fraction)
    requires
        denom != 0,
    ensures
        f.wf(),
        f.numer * denom == numer * f.denom,
{
    let n = if denom > 0 {
        numer
    } else {
        -numer
    };
    let d = if denom > 0 {
        denom
    } else {
        -denom
    };
    let a = if n >= 0 {
        n
    } else {
        -n
    };
    let (x, y, g) = lemma_common_divisor(a, d);
    lemma_divides_witness(g, a);
    lemma_divides_witness(g, d);
    let ka = a / g;
    let kd = d / g;
    let kn = if n >= 0 {
        ka
    } else {
        -ka
    };
    let f = Fraction { numer: kn, denom: kd };
    assert(n == g * kn) by (nonlinear_arith)
        requires
            a == g * ka,
            a == (if n >= 0 {
                n
            } else {
                -n
            }),
            kn == (if n >= 0 {
                ka
            } else {
                -ka
            }),
    ;
    assert(kd > 0) by (nonlinear_arith)
        requires
            d > 0,
            g > 0,
            d == g * kd,
    ;
    assert(f.numer * denom == numer * f.denom) by (nonlinear_arith)
        requires
            n == g * kn,
            d == g * kd,
            f.numer == kn,
            f.denom == kd,
            (denom > 0 && n == numer && d == denom) || (denom < 0 && n == -numer && d == -denom),
    ;
    assert forall|c: int| c > 1 && #[trigger] divides(c, kn) implies !divides(c, kd) by {
        if divides(c, kd) {
            lemma_divides_witness(c, kn);
            lemma_divides_witness(c, kd);
            let jn = kn / c;
            let jd = kd / c;
            let ja = if n >= 0 {
                jn
            } else {
                -jn
            };
            // g is a combination of a and d, which are both multiples of c * g
            let cg = c * g;
            assert(ka == c * ja) by (nonlinear_arith)
                requires
                    kn == c * jn,
                    (n >= 0 && kn == ka && ja == jn) || (n < 0 && kn == -ka && ja == -jn),
            ;
            assert(a == cg * ja) by (nonlinear_arith)
                requires
                    a == g * ka,
                    ka == c * ja,
                    cg == c * g,
            ;
            assert(d == cg * jd) by (nonlinear_arith)
                requires
                    d == g * kd,
                    kd == c * jd,
                    cg == c * g,
            ;
            assert(g == cg * (x * ja + y * jd)) by (nonlinear_arith)
                requires
                    g == x * a + y * d,
                    a == cg * ja,
                    d == cg * jd,
            ;
            let w = x * ja + y * jd;
            assert(false) by (nonlinear_arith)
                requires
                    g > 0,
                    c > 1,
                    cg == c * g,
                    g == cg * w,
            ;
        }
    }
    f
}

/// `Fraction::of` is the fraction in lowest terms that equals
/// `numer / denom`, and it is the only one.
pub proof fn law_fraction_of(numer: int, denom: int)
    requires
        denom != 0,
    ensures
        Fraction::of(numer, denom).wf(),
        Fraction::of(numer, denom).numer * denom == numer * Fraction::of(numer, denom).denom,
        forall|f: Fraction|
            f.wf() && f.numer * denom == numer * f.denom ==> f == Fraction::of(numer, denom),
{
    let witness = lemma_lowest_terms_exist(numer, denom);
    let chosen = Fraction::of(numer, denom);
    assert(chosen.wf() && chosen.numer * denom == numer * chosen.denom);
    assert forall|f: Fraction| f.wf() && f.numer * denom == numer * f.denom implies f
        == chosen by {
        assert(f.numer * chosen.denom == chosen.numer * f.denom) by (nonlinear_arith)
            requires
                denom != 0,
                f.numer * denom == numer * f.denom,
                chosen.numer * denom == numer * chosen.denom,
        ;
        lemma_lowest_terms_are_unique(f, chosen);
    }
}

} // verus!
