//! Dual-constellation QPSK (π/4-QPSK): the QPSK constellation is rotated
//! by an eighth of a turn on every other symbol, so the modulated signal
//! never passes through the origin.

use vstd::prelude::*;

verus! {

use crate::angle::{Angle, Ratio};
use crate::digital::phasor::{DigitalPhasor, IqPoint};
use crate::digital::util::{bytes_to_bits, lemma_symbol_value_bound, symbol_value};

/// Phase for each two-bit symbol value, in eighths of a turn:
/// the Gray-like map 0, 2, 6, 4 (i.e. 0, π/2, 3π/2, π).
pub open spec fn dcqpsk_map(v: nat) -> int {
    if v == 0 {
        0
    } else if v == 1 {
        2
    } else if v == 2 {
        6
    } else {
        4
    }
}

/// Emits `e^(2πi * t / 8)` with `t` the mapped symbol phase plus one
/// eighth on every other symbol; `update` flips the half-turn parity.
pub struct DCQPSK {
    pub even: bool,
}

impl DCQPSK {
    pub fn new() -> (p: DCQPSK)
        ensures
            p.wf(),
            p.even == false,
    {
        DCQPSK { even: false }
    }
}

impl DigitalPhasor for DCQPSK {
    open spec fn wf(&self) -> bool {
        true
    }

    open spec fn spec_bits_per_symbol(&self) -> nat {
        2
    }

    open spec fn spec_point(&self, s: u64, b: Seq<u8>) -> IqPoint {
        IqPoint {
            x: 1,
            y: 0,
            angle: Angle {
                num: (dcqpsk_map(symbol_value(b)) + if self.even {
                    1int
                } else {
                    0int
                }) as u64,
                den: 8,
            },
            scale: Ratio { num: 1, den: 1 },
        }
    }

    open spec fn spec_update(&self, s: u64, b: Seq<u8>) -> Self {
        DCQPSK { even: !self.even }
    }

    fn bits_per_symbol(&self) -> usize {
        2
    }

    fn update(&mut self, s: u64, b: &[u8]) {
        self.even = !self.even;
    }

    fn point(&self, s: u64, b: &[u8]) -> (p: IqPoint) {
        let v = bytes_to_bits(b);
        proof {
            lemma_symbol_value_bound(b@);
            vstd::arithmetic::power2::lemma2_to64();
        }
        let base: u64 = if v == 0 {
            0
        } else if v == 1 {
            2
        } else if v == 2 {
            6
        } else {
            4
        };
        let num: u64 = if self.even {
            base + 1
        } else {
            base
        };
        IqPoint {
            x: 1,
            y: 0,
            angle: Angle { num, den: 8 },
            scale: Ratio { num: 1, den: 1 },
        }
    }
}

/// The point does not depend on the sample index.
pub proof fn lemma_dcqpsk_time_invariant(p: DCQPSK, s1: u64, s2: u64, b: Seq<u8>)
    ensures
        p.spec_point(s1, b) == p.spec_point(s2, b),
{
}

/// The point always lies on the unit circle: `I² + Q² == A²`.
pub proof fn lemma_dcqpsk_envelope(p: DCQPSK, s: u64, b: Seq<u8>)
    ensures
        p.spec_point(s, b).norm2() == 1,
{
}

} // verus!
