//! Binary amplitude-shift keying: on/off keying of the carrier.

use vstd::prelude::*;

verus! {

use crate::angle::{Angle, Ratio};
use crate::digital::phasor::{DigitalPhasor, IqPoint};

/// Emits `(bit, 0)`: carrier on for a 1 bit, off for a 0 bit.
pub struct BASK {
}

impl BASK {
    pub fn new() -> (p: BASK)
        ensures
            p.wf(),
    {
        BASK {  }
    }
}

impl DigitalPhasor for BASK {
    open spec fn wf(&self) -> bool {
        true
    }

    open spec fn spec_bits_per_symbol(&self) -> nat {
        1
    }

    open spec fn spec_point(&self, s: u64, b: Seq<u8>) -> IqPoint {
        IqPoint {
            x: b[0] as i64,
            y: 0,
            angle: Angle { num: 0, den: 1 },
            scale: Ratio { num: 1, den: 1 },
        }
    }

    open spec fn spec_update(&self, s: u64, b: Seq<u8>) -> Self {
        *self
    }

    fn bits_per_symbol(&self) -> usize {
        1
    }

    fn update(&mut self, s: u64, b: &[u8]) {
    }

    fn point(&self, s: u64, b: &[u8]) -> (p: IqPoint) {
        IqPoint {
            x: b[0] as i64,
            y: 0,
            angle: Angle { num: 0, den: 1 },
            scale: Ratio { num: 1, den: 1 },
        }
    }
}

/// The point does not depend on the sample index.
pub proof fn lemma_bask_time_invariant(p: BASK, s1: u64, s2: u64, b: Seq<u8>)
    ensures
        p.spec_point(s1, b) == p.spec_point(s2, b),
{
}

/// For a bit input the point stays within the unit circle: `I² + Q² <= A²`.
pub proof fn lemma_bask_envelope(p: BASK, s: u64, b: Seq<u8>)
    requires
        b.len() == 1,
        crate::digital::util::is_bits(b),
    ensures
        p.spec_point(s, b).norm2() <= 1,
{
    assert(b[0] <= 1);
    let pt = p.spec_point(s, b);
    assert(pt.y == 0);
    assert(pt.y * pt.y == 0) by (nonlinear_arith)
        requires
            pt.y == 0,
    ;
    assert(pt.x == 0 || pt.x == 1);
    assert(pt.x * pt.x <= 1) by (nonlinear_arith)
        requires
            pt.x == 0 || pt.x == 1,
    ;
}

} // verus!
