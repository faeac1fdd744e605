//! Exact phase arithmetic.
//!
//! Every phase this library manipulates is a rational fraction of a full
//! turn: an `Angle` holds a numerator and a denominator with
//! `num / den` turns, kept reduced into `[0, 1)`.  Reducing a phase modulo
//! one turn here plays the role that reducing a trigonometric argument
//! modulo 2π plays for a floating-point implementation: the stored
//! numerator stays bounded by the denominator no matter how many samples
//! have passed.

use vstd::prelude::*;

verus! {

use vstd::arithmetic::div_mod::{
    lemma_add_mod_noop,
    lemma_mod_division_less_than_divisor,
    lemma_mod_twice,
    lemma_small_mod,
};

/// A phase angle of `num / den` of a full turn, with `0 <= num < den`.
#[derive(Clone, Copy, Debug, PartialEq, Eq, Structural)]
pub struct Angle {
    pub num: u64,
    pub den: u64,
}

/// A radial scale factor `num / den` with `0 <= num <= den`, i.e. a value
/// in `[0, 1]`.
#[derive(Clone, Copy, Debug, PartialEq, Eq, Structural)]
pub struct Ratio {
    pub num: u64,
    pub den: u64,
}

impl Angle {
    pub open spec fn wf(&self) -> bool {
        self.den >= 1 && self.num < self.den
    }

    /// The zero angle.
    pub fn zero() -> (a: Angle)
        ensures
            a.wf(),
            a.num == 0,
            a.den == 1,
    {
        Angle { num: 0, den: 1 }
    }

    /// An angle of `num / den` turns, reduced into `[0, 1)`.
    pub fn reduce(num: u64, den: u64) -> (a: Angle)
        requires
            den >= 1,
        ensures
            a.wf(),
            a.den == den,
            a.num == num as int % den as int,
    {
        Angle { num: num % den, den }
    }

    /// The negated angle `-self`, reduced into `[0, 1)`.
    pub fn negate(self) -> (a: Angle)
        requires
            self.wf(),
        ensures
            a.wf(),
            a.den == self.den,
            a.num as int == (0 - self.num as int) % (self.den as int),
    {
        proof {
            if self.num > 0 {
                vstd::arithmetic::div_mod::lemma_fundamental_div_mod_converse_mod(
                    0 - self.num as int,
                    self.den as int,
                    -1,
                    self.den - self.num,
                );
            } else {
                lemma_small_mod(0, self.den as nat);
            }
        }
        if self.num == 0 {
            self
        } else {
            Angle { num: self.den - self.num, den: self.den }
        }
    }
}

impl Ratio {
    pub open spec fn wf(&self) -> bool {
        self.den >= 1 && self.num <= self.den
    }

    /// A scale factor of `num / den`, which must not exceed one.
    pub fn new(num: u64, den: u64) -> (r: Ratio)
        requires
            den >= 1,
            num <= den,
        ensures
            r.wf(),
            r.num == num,
            r.den == den,
    {
        Ratio { num, den }
    }
}

/// `(a * b) % m`, computed without overflow.
pub fn mul_mod(a: u64, b: u64, m: u64) -> (r: u64)
    requires
        m >= 1,
    ensures
        r as int == (a as int * b as int) % (m as int),
        r < m,
{
    proof {
        assert((a as int) * (b as int) <= (u64::MAX as int) * (u64::MAX as int))
            by (nonlinear_arith)
            requires
                a as int <= u64::MAX as int,
                b as int <= u64::MAX as int,
        ;
    }
    let wide: u128 = (a as u128) * (b as u128);
    let rm: u128 = wide % (m as u128);
    proof {
        lemma_mod_division_less_than_divisor(wide as int, m as int);
    }
    rm as u64
}

/// `(a + b) % m`, computed without overflow.
pub fn add_mod(a: u64, b: u64, m: u64) -> (r: u64)
    requires
        m >= 1,
    ensures
        r as int == (a as int + b as int) % (m as int),
        r < m,
{
    let wide: u128 = (a as u128) + (b as u128);
    let rm: u128 = wide % (m as u128);
    proof {
        lemma_mod_division_less_than_divisor(wide as int, m as int);
    }
    rm as u64
}

/// The Euclidean remainder `a % m` of a signed value, in `[0, m)`.
pub fn signed_mod(a: i64, m: u64) -> (r: u64)
    requires
        m >= 1,
    ensures
        r as int == (a as int) % (m as int),
        r < m,
{
    if a >= 0 {
        (a as u64) % m
    } else {
        let neg: u128 = (-(a as i128)) as u128;
        let k: u128 = neg % (m as u128);
        proof {
            let mi = m as int;
            let ai = a as int;
            let n = neg as int;
            vstd::arithmetic::div_mod::lemma_fundamental_div_mod(n, mi);
            let q = n / mi;
            let kk = n % mi;
            lemma_mod_division_less_than_divisor(n, mi);
            if kk == 0 {
                assert(ai == (-q) * mi + 0) by (nonlinear_arith)
                    requires
                        ai == -n,
                        n == mi * q + kk,
                        kk == 0,
                ;
                vstd::arithmetic::div_mod::lemma_fundamental_div_mod_converse_mod(ai, mi, -q, 0);
            } else {
                assert(ai == (-q - 1) * mi + (mi - kk)) by (nonlinear_arith)
                    requires
                        ai == -n,
                        n == mi * q + kk,
                ;
                vstd::arithmetic::div_mod::lemma_fundamental_div_mod_converse_mod(
                    ai,
                    mi,
                    -q - 1,
                    mi - kk,
                );
            }
        }
        if k == 0 {
            0
        } else {
            (m as u128 - k) as u64
        }
    }
}

/// The reduced angle `(num / den) + other` of denominator `den * other.den`.
pub fn add_angle(num: u64, den: u64, other: Angle) -> (a: Angle)
    requires
        den >= 1,
        other.wf(),
        den as int * other.den as int <= u64::MAX,
    ensures
        a.wf(),
        a.den == den as int * other.den as int,
        a.num as int == (num as int * other.den as int + other.num as int * den as int) % (
        den as int * other.den as int),
{
    let d: u64 = den * other.den;
    proof {
        vstd::arithmetic::mul::lemma_mul_strictly_positive(den as int, other.den as int);
    }
    let n1: u64 = mul_mod(num, other.den, d);
    let n2: u64 = mul_mod(other.num, den, d);
    let r: u64 = add_mod(n1, n2, d);
    proof {
        lemma_add_mod_noop(
            num as int * other.den as int,
            other.num as int * den as int,
            d as int,
        );
        lemma_mod_twice(
            (num as int * other.den as int) % (d as int) + (other.num as int * den as int) % (
            d as int),
            d as int,
        );
    }
    Angle { num: r, den: d }
}

} // verus!
