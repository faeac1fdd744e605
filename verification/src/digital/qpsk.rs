//! Quadrature phase-shift keying: two bits select one of four corners.

use vstd::prelude::*;

verus! {

use crate::angle::{Angle, Ratio};
use crate::digital::phasor::{DigitalPhasor, IqPoint};
use crate::digital::util::bit_to_sign;

/// Emits `(s0 + i*s1) * e^(2πi * phase)` with `sk = 2 * bk - 1`; the front
/// end scales by `A / sqrt(2)` so the corners sit on the amplitude circle.
pub struct QPSK {
    pub phase: Angle,
}

impl QPSK {
    pub fn new(phase: Angle) -> (p: QPSK)
        requires
            phase.wf(),
        ensures
            p.wf(),
            p.phase == phase,
    {
        QPSK { phase }
    }
}

impl DigitalPhasor for QPSK {
    open spec fn wf(&self) -> bool {
        self.phase.wf()
    }

    open spec fn spec_bits_per_symbol(&self) -> nat {
        2
    }

    open spec fn spec_point(&self, s: u64, b: Seq<u8>) -> IqPoint {
        IqPoint {
            x: (2 * b[0] - 1) as i64,
            y: (2 * b[1] - 1) as i64,
            angle: self.phase,
            scale: Ratio { num: 1, den: 1 },
        }
    }

    open spec fn spec_update(&self, s: u64, b: Seq<u8>) -> Self {
        *self
    }

    fn bits_per_symbol(&self) -> usize {
        2
    }

    fn update(&mut self, s: u64, b: &[u8]) {
    }

    fn point(&self, s: u64, b: &[u8]) -> (p: IqPoint) {
        IqPoint {
            x: bit_to_sign(b[0]) as i64,
            y: bit_to_sign(b[1]) as i64,
            angle: self.phase,
            scale: Ratio { num: 1, den: 1 },
        }
    }
}

/// The point does not depend on the sample index.
pub proof fn lemma_qpsk_time_invariant(p: QPSK, s1: u64, s2: u64, b: Seq<u8>)
    ensures
        p.spec_point(s1, b) == p.spec_point(s2, b),
{
}

/// For bit inputs the four corners satisfy `x² + y² == 2`, so with the
/// front end's `A / sqrt(2)` unit the envelope is exactly `A`.
pub proof fn lemma_qpsk_envelope(p: QPSK, s: u64, b: Seq<u8>)
    requires
        b.len() == 2,
        crate::digital::util::is_bits(b),
    ensures
        p.spec_point(s, b).norm2() == 2,
{
    assert(b[0] <= 1);
    assert(b[1] <= 1);
    let pt = p.spec_point(s, b);
    assert(pt.x == -1 || pt.x == 1);
    assert(pt.y == -1 || pt.y == 1);
    assert(pt.x * pt.x == 1) by (nonlinear_arith)
        requires
            pt.x == -1 || pt.x == 1,
    ;
    assert(pt.y * pt.y == 1) by (nonlinear_arith)
        requires
            pt.y == -1 || pt.y == 1,
    ;
}

} // verus!
