//! Exact rational numbers: the runtime numeric model of the language.
//! A value is `num / den` with `den >= 1`; results of arithmetic are kept
//! unreduced, and equality and order are decided by cross-multiplication,
//! so they are exact. An operation whose unreduced result does not fit the
//! fields reports that instead of wrapping.
use vstd::prelude::*;

use vstd::arithmetic::div_mod::lemma_add_mod_noop;
use vstd::arithmetic::div_mod::lemma_fundamental_div_mod;
use vstd::arithmetic::div_mod::lemma_mod_self_0;
use vstd::arithmetic::div_mod::lemma_mul_mod_noop_left;

verus! {

/// An exact rational number `num / den` with `den >= 1`.
#[derive(Clone, Copy, Debug, PartialEq, Eq, Structural)]
pub struct Rational {
    pub num: i64,
    pub den: u64,
}

/// Whether an (unreduced) numerator/denominator pair fits the fields of `Rational`.
pub open spec fn rat_fits(n: int, d: int) -> bool {
    i64::MIN <= n <= i64::MAX && 1 <= d <= u64::MAX
}

/// Numerator and denominator of the exact sum `a + b`, unreduced.
pub open spec fn add_parts(a: Rational, b: Rational) -> (int, int) {
    (a.n() * b.d() + b.n() * a.d(), a.d() * b.d())
}

/// Numerator and denominator of the exact difference `a - b`, unreduced.
pub open spec fn sub_parts(a: Rational, b: Rational) -> (int, int) {
    (a.n() * b.d() - b.n() * a.d(), a.d() * b.d())
}

/// Numerator and denominator of the exact product `a * b`, unreduced.
pub open spec fn mul_parts(a: Rational, b: Rational) -> (int, int) {
    (a.n() * b.n(), a.d() * b.d())
}

/// Numerator and denominator of the exact quotient `a / b`, unreduced,
/// with the sign moved to the numerator (meaningful only for `b.n() != 0`).
pub open spec fn div_parts(a: Rational, b: Rational) -> (int, int) {
    if b.n() >= 0 {
        (a.n() * b.d(), a.d() * b.n())
    } else {
        (-(a.n() * b.d()), a.d() * -b.n())
    }
}

/// `a < b` as rationals (denominators positive).
pub open spec fn rat_lt(a: Rational, b: Rational) -> bool {
    a.n() * b.d() < b.n() * a.d()
}

/// `a <= b` as rationals.
pub open spec fn rat_le(a: Rational, b: Rational) -> bool {
    a.n() * b.d() <= b.n() * a.d()
}

/// `a == b` as rationals (the represented values are equal).
pub open spec fn rat_eq(a: Rational, b: Rational) -> bool {
    a.n() * b.d() == b.n() * a.d()
}

proof fn lemma_i64_u64_prod_bounds(a: int, b: int)
    requires
        i64::MIN <= a <= i64::MAX,
        0 <= b <= u64::MAX,
    ensures
        i64::MIN * (u64::MAX as int) <= a * b <= i64::MAX * (u64::MAX as int),
{
    assert(i64::MIN * (u64::MAX as int) <= a * b <= i64::MAX * (u64::MAX as int))
        by (nonlinear_arith)
        requires
            i64::MIN <= a <= i64::MAX,
            0 <= b <= u64::MAX,
    ;
}

proof fn lemma_i64_i64_prod_bounds(a: int, b: int)
    requires
        i64::MIN <= a <= i64::MAX,
        i64::MIN <= b <= i64::MAX,
    ensures
        -(i64::MIN * i64::MIN) <= a * b <= i64::MIN * i64::MIN,
{
    assert(-(i64::MIN * i64::MIN) <= a * b <= i64::MIN * i64::MIN) by (nonlinear_arith)
        requires
            i64::MIN <= a <= i64::MAX,
            i64::MIN <= b <= i64::MAX,
    ;
}

proof fn lemma_u64_u64_prod_bounds(a: int, b: int)
    requires
        1 <= a <= u64::MAX,
        1 <= b <= u64::MAX,
    ensures
        1 <= a * b <= (u64::MAX as int) * (u64::MAX as int),
{
    assert(1 <= a * b <= (u64::MAX as int) * (u64::MAX as int)) by (nonlinear_arith)
        requires
            1 <= a <= u64::MAX,
            1 <= b <= u64::MAX,
    ;
}

/// The greatest common divisor, by Euclid's rule (`gcd(a, 0) == a`).
pub open spec fn gcd_nat(a: int, b: int) -> int
    recommends
        0 <= a,
        0 <= b,
    decreases b, when 0 <= b
{
    if b <= 0 {
        a
    } else {
        gcd_nat(b, a % b)
    }
}

pub proof fn lemma_gcd_pos(a: int, b: int)
    requires
        0 <= a,
        1 <= b,
    ensures
        1 <= gcd_nat(a, b),
    decreases b,
{
    if a % b == 0 {
        assert(gcd_nat(b, 0) == b);
    } else {
        lemma_gcd_pos(b, a % b);
    }
}

pub proof fn lemma_gcd_divides(a: int, b: int)
    requires
        0 <= a,
        1 <= b,
    ensures
        a % gcd_nat(a, b) == 0,
        b % gcd_nat(a, b) == 0,
    decreases b,
{
    lemma_gcd_pos(a, b);
    let g = gcd_nat(a, b);
    if a % b == 0 {
        assert(gcd_nat(b, 0) == b);
        assert(g == b);
        lemma_mod_self_0(b);
    } else {
        lemma_gcd_divides(b, a % b);
        let q = a / b;
        let r = a % b;
        assert(b % g == 0);
        assert(r % g == 0);
        lemma_fundamental_div_mod(a, b);
        assert(a == b * q + r);
        lemma_mul_mod_noop_left(b, q, g);
        assert((b % g) * q == 0) by (nonlinear_arith)
            requires
                b % g == 0,
        ;
        assert(0int % g == 0);
        assert((b * q) % g == 0);
        lemma_add_mod_noop(b * q, r, g);
        assert(a % g == 0);
    }
}

/// Euclid's rule, executable.
pub fn gcd_u64(a: u64, b: u64) -> (g: u64)
    ensures
        g as int == gcd_nat(a as int, b as int),
    decreases b,
{
    if b == 0 {
        a
    } else {
        gcd_u64(b, a % b)
    }
}

impl Rational {
    /// `den` is at least one.
    pub open spec fn wf(self) -> bool {
        1 <= self.den
    }

    /// The numerator as a mathematical integer.
    pub open spec fn n(self) -> int {
        self.num as int
    }

    /// The denominator as a mathematical integer.
    pub open spec fn d(self) -> int {
        self.den as int
    }

    /// Builds the rational `num / den`.
    pub fn new(num: i64, den: u64) -> (r: Rational)
        requires
            den >= 1,
        ensures
            r.wf(),
            r.num == num,
            r.den == den,
    {
        Rational { num, den }
    }

    /// Builds the rational `n / 1`.
    pub fn from_int(n: i64) -> (r: Rational)
        ensures
            r.wf(),
            r.num == n,
            r.den == 1,
    {
        Rational { num: n, den: 1 }
    }

    /// Exact sum; `None` exactly when the unreduced sum does not fit.
    pub fn add(&self, other: &Rational) -> (r: Option<Rational>)
        requires
            self.wf(),
            other.wf(),
        ensures
            match r {
                Some(q) => q.wf() && rat_fits(add_parts(*self, *other).0, add_parts(*self, *other).1)
                    && q.n() == add_parts(*self, *other).0 && q.d() == add_parts(*self, *other).1,
                None => !rat_fits(add_parts(*self, *other).0, add_parts(*self, *other).1),
            },
    {
        proof {
            lemma_i64_u64_prod_bounds(self.num as int, other.den as int);
            lemma_i64_u64_prod_bounds(other.num as int, self.den as int);
            lemma_u64_u64_prod_bounds(self.den as int, other.den as int);
        }
        let n1: i128 = (self.num as i128) * (other.den as i128);
        let n2: i128 = (other.num as i128) * (self.den as i128);
        if (n2 > 0 && n1 > i128::MAX - n2) || (n2 < 0 && n1 < i128::MIN - n2) {
            return None;
        }
        let n: i128 = n1 + n2;
        let d: u128 = (self.den as u128) * (other.den as u128);
        if n < i64::MIN as i128 || n > i64::MAX as i128 || d > u64::MAX as u128 {
            None
        } else {
            Some(Rational { num: n as i64, den: d as u64 })
        }
    }

    /// Exact difference; `None` exactly when the unreduced difference does not fit.
    pub fn sub(&self, other: &Rational) -> (r: Option<Rational>)
        requires
            self.wf(),
            other.wf(),
        ensures
            match r {
                Some(q) => q.wf() && rat_fits(sub_parts(*self, *other).0, sub_parts(*self, *other).1)
                    && q.n() == sub_parts(*self, *other).0 && q.d() == sub_parts(*self, *other).1,
                None => !rat_fits(sub_parts(*self, *other).0, sub_parts(*self, *other).1),
            },
    {
        proof {
            lemma_i64_u64_prod_bounds(self.num as int, other.den as int);
            lemma_i64_u64_prod_bounds(other.num as int, self.den as int);
            lemma_u64_u64_prod_bounds(self.den as int, other.den as int);
        }
        let n1: i128 = (self.num as i128) * (other.den as i128);
        let n2: i128 = (other.num as i128) * (self.den as i128);
        if (n2 < 0 && n1 > i128::MAX + n2) || (n2 > 0 && n1 < i128::MIN + n2) {
            return None;
        }
        let n: i128 = n1 - n2;
        let d: u128 = (self.den as u128) * (other.den as u128);
        if n < i64::MIN as i128 || n > i64::MAX as i128 || d > u64::MAX as u128 {
            None
        } else {
            Some(Rational { num: n as i64, den: d as u64 })
        }
    }

    /// Exact product; `None` exactly when the unreduced product does not fit.
    pub fn mul(&self, other: &Rational) -> (r: Option<Rational>)
        requires
            self.wf(),
            other.wf(),
        ensures
            match r {
                Some(q) => q.wf() && rat_fits(mul_parts(*self, *other).0, mul_parts(*self, *other).1)
                    && q.n() == mul_parts(*self, *other).0 && q.d() == mul_parts(*self, *other).1,
                None => !rat_fits(mul_parts(*self, *other).0, mul_parts(*self, *other).1),
            },
    {
        proof {
            lemma_i64_i64_prod_bounds(self.num as int, other.num as int);
            lemma_u64_u64_prod_bounds(self.den as int, other.den as int);
        }
        let n: i128 = (self.num as i128) * (other.num as i128);
        let d: u128 = (self.den as u128) * (other.den as u128);
        if n < i64::MIN as i128 || n > i64::MAX as i128 || d > u64::MAX as u128 {
            None
        } else {
            Some(Rational { num: n as i64, den: d as u64 })
        }
    }

    /// Exact quotient; `None` exactly when the unreduced quotient does not fit.
    /// The divisor must not be zero.
    pub fn div(&self, other: &Rational) -> (r: Option<Rational>)
        requires
            self.wf(),
            other.wf(),
            other.num != 0,
        ensures
            match r {
                Some(q) => q.wf() && rat_fits(div_parts(*self, *other).0, div_parts(*self, *other).1)
                    && q.n() == div_parts(*self, *other).0 && q.d() == div_parts(*self, *other).1,
                None => !rat_fits(div_parts(*self, *other).0, div_parts(*self, *other).1),
            },
    {
        proof {
            lemma_i64_u64_prod_bounds(self.num as int, other.den as int);
        }
        let n0: i128 = (self.num as i128) * (other.den as i128);
        if other.num >= 0 {
            proof {
                lemma_u64_u64_prod_bounds(self.den as int, other.num as int);
            }
            let d: u128 = (self.den as u128) * (other.num as u128);
            if n0 < i64::MIN as i128 || n0 > i64::MAX as i128 || d > u64::MAX as u128 {
                None
            } else {
                Some(Rational { num: n0 as i64, den: d as u64 })
            }
        } else {
            let mag: u128 = (-(other.num as i128)) as u128;
            proof {
                lemma_u64_u64_prod_bounds(self.den as int, mag as int);
            }
            let n: i128 = -n0;
            let d: u128 = (self.den as u128) * mag;
            if n < i64::MIN as i128 || n > i64::MAX as i128 || d > u64::MAX as u128 {
                None
            } else {
                Some(Rational { num: n as i64, den: d as u64 })
            }
        }
    }

    /// Exact negation; `None` exactly when `-num` does not fit an `i64`.
    pub fn neg(&self) -> (r: Option<Rational>)
        requires
            self.wf(),
        ensures
            match r {
                Some(q) => q.wf() && self.num != i64::MIN && q.n() == -self.n() && q.d() == self.d(),
                None => self.num == i64::MIN,
            },
    {
        if self.num == i64::MIN {
            None
        } else {
            Some(Rational { num: -self.num, den: self.den })
        }
    }

    /// `self < other` as rationals.
    pub fn lt(&self, other: &Rational) -> (r: bool)
        requires
            self.wf(),
            other.wf(),
        ensures
            r == rat_lt(*self, *other),
    {
        proof {
            lemma_i64_u64_prod_bounds(self.num as int, other.den as int);
            lemma_i64_u64_prod_bounds(other.num as int, self.den as int);
        }
        (self.num as i128) * (other.den as i128) < (other.num as i128) * (self.den as i128)
    }

    /// `self <= other` as rationals.
    pub fn le(&self, other: &Rational) -> (r: bool)
        requires
            self.wf(),
            other.wf(),
        ensures
            r == rat_le(*self, *other),
    {
        proof {
            lemma_i64_u64_prod_bounds(self.num as int, other.den as int);
            lemma_i64_u64_prod_bounds(other.num as int, self.den as int);
        }
        (self.num as i128) * (other.den as i128) <= (other.num as i128) * (self.den as i128)
    }

    /// `self == other` as rationals: the represented values are equal,
    /// whatever the representations.
    pub fn eq_value(&self, other: &Rational) -> (r: bool)
        requires
            self.wf(),
            other.wf(),
        ensures
            r == rat_eq(*self, *other),
    {
        proof {
            lemma_i64_u64_prod_bounds(self.num as int, other.den as int);
            lemma_i64_u64_prod_bounds(other.num as int, self.den as int);
        }
        (self.num as i128) * (other.den as i128) == (other.num as i128) * (self.den as i128)
    }
}

} // verus!
