//! Offset QPSK: the QPSK corners, with the Q bit staggered half a symbol
//! by an even/odd offset data source.

use vstd::prelude::*;

verus! {

use crate::angle::{Angle, Ratio};
use crate::digital::phasor::{DigitalPhasor, IqPoint};
use crate::digital::util::bit_to_sign;

/// Emits `(s0, s1)` with `sk = 2 * bk - 1`; the front end scales by
/// `A / sqrt(2)`.  The half-symbol offset of the Q bit comes from feeding
/// this phasor through an `EvenOddOffset` source.
pub struct OQPSK {
}

impl OQPSK {
    pub fn new() -> (p: OQPSK)
        ensures
            p.wf(),
    {
        OQPSK {  }
    }
}

impl DigitalPhasor for OQPSK {
    open spec fn wf(&self) -> bool {
        true
    }

    open spec fn spec_bits_per_symbol(&self) -> nat {
        2
    }

    open spec fn spec_point(&self, s: u64, b: Seq<u8>) -> IqPoint {
        IqPoint {
            x: (2 * b[0] - 1) as i64,
            y: (2 * b[1] - 1) as i64,
            angle: Angle { num: 0, den: 1 },
            scale: Ratio { num: 1, den: 1 },
        }
    }

    open spec fn spec_update(&self, s: u64, b: Seq<u8>) -> Self {
        *self
    }

    fn bits_per_symbol(&self) -> usize {
        2
    }

    fn update(&mut self, s: u64, b: &[u8]) {
    }

    fn point(&self, s: u64, b: &[u8]) -> (p: IqPoint) {
        IqPoint {
            x: bit_to_sign(b[0]) as i64,
            y: bit_to_sign(b[1]) as i64,
            angle: Angle { num: 0, den: 1 },
            scale: Ratio { num: 1, den: 1 },
        }
    }
}

/// The point does not depend on the sample index.
pub proof fn lemma_oqpsk_time_invariant(p: OQPSK, s1: u64, s2: u64, b: Seq<u8>)
    ensures
        p.spec_point(s1, b) == p.spec_point(s2, b),
{
}

/// For bit inputs the corners satisfy `x² + y² == 2`.
pub proof fn lemma_oqpsk_envelope(p: OQPSK, s: u64, b: Seq<u8>)
    requires
        b.len() == 2,
        crate::digital::util::is_bits(b),
    ensures
        p.spec_point(s, b).norm2() == 2,
{
    assert(b[0] <= 1);
    assert(b[1] <= 1);
    let pt = p.spec_point(s, b);
    assert(pt.x == -1 || pt.x == 1);
    assert(pt.y == -1 || pt.y == 1);
    assert(pt.x * pt.x == 1) by (nonlinear_arith)
        requires
            pt.x == -1 || pt.x == 1,
    ;
    assert(pt.y * pt.y == 1) by (nonlinear_arith)
        requires
            pt.y == -1 || pt.y == 1,
    ;
}

} // verus!
