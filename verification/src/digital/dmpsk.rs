//! Differential M-ary PSK: each symbol advances the phase by its value
//! times a fixed shift.
//!
//! The accumulator counts exact multiples of `1 / shift.den` turns modulo
//! one turn, so repeated updates cannot drift.

use vstd::prelude::*;

verus! {

use crate::angle::{add_mod, mul_mod, Angle, Ratio};
use crate::digital::phasor::{DigitalPhasor, IqPoint};
use crate::digital::util::{bytes_to_bits, symbol_value};
use vstd::arithmetic::div_mod::{lemma_add_mod_noop_right, lemma_small_mod};

/// Emits `e^(2πi * phase_num / shift.den)`; `update` adds the symbol value
/// times `shift` to the phase, modulo one turn.
pub struct DMPSK {
    pub bits_per_symbol: usize,
    /// Phase advance per symbol value unit, as a fraction of a turn.
    pub shift: Angle,
    /// Current phase in `1 / shift.den` turns, below `shift.den`.
    pub phase_num: u64,
}

impl DMPSK {
    pub fn new(bits_per_symbol: usize, shift: Angle, phase: Angle) -> (p: DMPSK)
        requires
            1 <= bits_per_symbol <= 8,
            shift.wf(),
            phase.wf(),
            phase.den == shift.den,
        ensures
            p.wf(),
            p.bits_per_symbol == bits_per_symbol,
            p.shift == shift,
            p.phase_num == phase.num,
    {
        DMPSK { bits_per_symbol, shift, phase_num: phase.num }
    }
}

impl DigitalPhasor for DMPSK {
    open spec fn wf(&self) -> bool {
        &&& 1 <= self.bits_per_symbol <= 8
        &&& self.shift.wf()
        &&& self.phase_num < self.shift.den
    }

    open spec fn spec_bits_per_symbol(&self) -> nat {
        self.bits_per_symbol as nat
    }

    open spec fn spec_point(&self, s: u64, b: Seq<u8>) -> IqPoint {
        IqPoint {
            x: 1,
            y: 0,
            angle: Angle { num: self.phase_num, den: self.shift.den },
            scale: Ratio { num: 1, den: 1 },
        }
    }

    open spec fn spec_update(&self, s: u64, b: Seq<u8>) -> Self {
        DMPSK {
            bits_per_symbol: self.bits_per_symbol,
            shift: self.shift,
            phase_num: ((self.phase_num + symbol_value(b) * self.shift.num) % (
            self.shift.den as int)) as u64,
        }
    }

    fn bits_per_symbol(&self) -> usize {
        self.bits_per_symbol
    }

    fn update(&mut self, s: u64, b: &[u8]) {
        let v = bytes_to_bits(b);
        let t = mul_mod(v as u64, self.shift.num, self.shift.den);
        proof {
            lemma_add_mod_noop_right(
                self.phase_num as int,
                symbol_value(b@) * self.shift.num,
                self.shift.den as int,
            );
        }
        self.phase_num = add_mod(self.phase_num, t, self.shift.den);
    }

    fn point(&self, s: u64, b: &[u8]) -> (p: IqPoint) {
        IqPoint {
            x: 1,
            y: 0,
            angle: Angle { num: self.phase_num, den: self.shift.den },
            scale: Ratio { num: 1, den: 1 },
        }
    }
}

/// The point does not depend on the sample index.
pub proof fn lemma_dmpsk_time_invariant(p: DMPSK, s1: u64, s2: u64, b: Seq<u8>)
    ensures
        p.spec_point(s1, b) == p.spec_point(s2, b),
{
}

/// The point always lies on the unit circle: `I² + Q² == A²`.
pub proof fn lemma_dmpsk_envelope(p: DMPSK, s: u64, b: Seq<u8>)
    ensures
        p.spec_point(s, b).norm2() == 1,
{
}

} // verus!
