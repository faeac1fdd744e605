//! Binary phase-shift keying: one bit selects one of two antipodal points.

use vstd::prelude::*;

verus! {

use crate::angle::{Angle, Ratio};
use crate::digital::phasor::{DigitalPhasor, IqPoint};
use crate::digital::util::bit_to_sign;

/// Emits `s * e^(2πi * phase)` with `s = 2 * bit - 1`.
pub struct BPSK {
    pub phase: Angle,
}

impl BPSK {
    pub fn new(phase: Angle) -> (p: BPSK)
        requires
            phase.wf(),
        ensures
            p.wf(),
            p.phase == phase,
    {
        BPSK { phase }
    }
}

impl DigitalPhasor for BPSK {
    open spec fn wf(&self) -> bool {
        self.phase.wf()
    }

    open spec fn spec_bits_per_symbol(&self) -> nat {
        1
    }

    open spec fn spec_point(&self, s: u64, b: Seq<u8>) -> IqPoint {
        IqPoint {
            x: (2 * b[0] - 1) as i64,
            y: 0,
            angle: self.phase,
            scale: Ratio { num: 1, den: 1 },
        }
    }

    open spec fn spec_update(&self, s: u64, b: Seq<u8>) -> Self {
        *self
    }

    fn bits_per_symbol(&self) -> usize {
        1
    }

    fn update(&mut self, s: u64, b: &[u8]) {
    }

    fn point(&self, s: u64, b: &[u8]) -> (p: IqPoint) {
        IqPoint {
            x: bit_to_sign(b[0]) as i64,
            y: 0,
            angle: self.phase,
            scale: Ratio { num: 1, den: 1 },
        }
    }
}

/// The point does not depend on the sample index: the constellation is
/// constant within a symbol.
pub proof fn lemma_bpsk_time_invariant(p: BPSK, s1: u64, s2: u64, b: Seq<u8>)
    ensures
        p.spec_point(s1, b) == p.spec_point(s2, b),
{
}

/// For a bit input the point lies on the unit circle, so the emitted pair
/// is bounded by the amplitude: `I² + Q² == A²`.
pub proof fn lemma_bpsk_envelope(p: BPSK, s: u64, b: Seq<u8>)
    requires
        b.len() == 1,
        crate::digital::util::is_bits(b),
    ensures
        p.spec_point(s, b).norm2() == 1,
        p.spec_point(s, b).scale.num == p.spec_point(s, b).scale.den,
{
    assert(b[0] <= 1);
    let pt = p.spec_point(s, b);
    assert(pt.y == 0);
    assert(pt.y * pt.y == 0) by (nonlinear_arith)
        requires
            pt.y == 0,
    ;
    assert(pt.x == -1 || pt.x == 1);
    assert(pt.x * pt.x == 1) by (nonlinear_arith)
        requires
            pt.x == -1 || pt.x == 1,
    ;
}

} // verus!
