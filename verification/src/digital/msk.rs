//! Minimum-shift keying: offset quadrature keying with a half-cosine ramp.

use vstd::prelude::*;

verus! {

use crate::angle::{Angle, Ratio};
use crate::digital::phasor::{DigitalPhasor, IqPoint};

/// Emits `I = A * s0 * cos(u)`, `Q = -A * s1 * sin(u)` with the ramp
/// `u = (π/2) * s / samples_per_bit`, i.e. `s / (4 * samples_per_bit)` of a
/// turn.  As a point: `s0 * e^(-2πi*u)` when the two bits agree and
/// `s0 * e^(2πi*u)` when they differ.  Pairs with an even/odd offset
/// source.
pub struct MSK {
    pub samples_per_bit: u64,
}

impl MSK {
    pub fn new(samples_per_symbol: u64) -> (p: MSK)
        requires
            samples_per_symbol % 2 == 0,
            2 <= samples_per_symbol <= u64::MAX / 2,
        ensures
            p.wf(),
            p.samples_per_bit == samples_per_symbol / 2,
    {
        MSK { samples_per_bit: samples_per_symbol / 2 }
    }

    /// The ramp denominator: one turn is `4 * samples_per_bit` samples.
    pub open spec fn spec_den(&self) -> int {
        4 * self.samples_per_bit
    }
}

impl DigitalPhasor for MSK {
    open spec fn wf(&self) -> bool {
        1 <= self.samples_per_bit <= u64::MAX as int / 4
    }

    open spec fn spec_bits_per_symbol(&self) -> nat {
        2
    }

    open spec fn spec_point(&self, s: u64, b: Seq<u8>) -> IqPoint {
        let u = s as int % self.spec_den();
        IqPoint {
            x: (2 * (b[0] & 1) - 1) as i64,
            y: 0,
            angle: Angle {
                num: (if (b[0] & 1) == (b[1] & 1) {
                    (self.spec_den() - u) % self.spec_den()
                } else {
                    u
                }) as u64,
                den: self.spec_den() as u64,
            },
            scale: Ratio { num: 1, den: 1 },
        }
    }

    open spec fn spec_update(&self, s: u64, b: Seq<u8>) -> Self {
        *self
    }

    fn bits_per_symbol(&self) -> usize {
        2
    }

    fn update(&mut self, s: u64, b: &[u8]) {
    }

    fn point(&self, s: u64, b: &[u8]) -> (p: IqPoint) {
        let den: u64 = 4 * self.samples_per_bit;
        let u: u64 = s % den;
        let b0: u8 = b[0] & 1;
        let b1: u8 = b[1] & 1;
        proof {
            let x: u8 = b[0];
            assert(x & 1 <= 1) by (bit_vector);
        }
        let num: u64 = if b0 == b1 {
            (den - u) % den
        } else {
            u
        };
        IqPoint {
            x: 2 * (b0 as i64) - 1,
            y: 0,
            angle: Angle { num, den },
            scale: Ratio { num: 1, den: 1 },
        }
    }
}

/// The point always lies on the unit circle: `I² + Q² == A²`.
pub proof fn lemma_msk_envelope(p: MSK, s: u64, b: Seq<u8>)
    requires
        p.wf(),
        b.len() == 2,
    ensures
        p.spec_point(s, b).norm2() == 1,
{
    let x0: u8 = b[0];
    assert(x0 & 1 <= 1) by (bit_vector);
    let pt = p.spec_point(s, b);
    assert(pt.x == -1 || pt.x == 1);
    assert(pt.x * pt.x == 1) by (nonlinear_arith)
        requires
            pt.x == -1 || pt.x == 1,
    ;
    assert(pt.y * pt.y == 0) by (nonlinear_arith)
        requires
            pt.y == 0,
    ;
}

} // verus!
