//! M-ary phase-shift keying: `k` bits pick one of `2^k` evenly spaced
//! constellation angles.

use vstd::prelude::*;

verus! {

use crate::angle::{add_angle, Angle, Ratio};
use crate::digital::phasor::{DigitalPhasor, IqPoint};
use crate::digital::util::{bytes_to_bits, lemma_symbol_value_bound, symbol_value};
use vstd::arithmetic::power2::pow2;

/// Emits `e^(2πi * (v / 2^k + phase))` for symbol value `v`.
pub struct MPSK {
    pub bits_per_symbol: usize,
    pub phase: Angle,
}

impl MPSK {
    pub fn new(bits_per_symbol: usize, phase: Angle) -> (p: MPSK)
        requires
            1 <= bits_per_symbol <= 8,
            phase.wf(),
            phase.den <= u64::MAX / 256,
        ensures
            p.wf(),
            p.bits_per_symbol == bits_per_symbol,
            p.phase == phase,
    {
        MPSK { bits_per_symbol, phase }
    }

    /// Number of constellation points.
    pub open spec fn num_symbols(&self) -> int {
        pow2(self.bits_per_symbol as nat) as int
    }

    /// The constellation angle for symbol value `v`:
    /// `v / 2^k + phase`, over the denominator `2^k * phase.den`.
    pub open spec fn spec_angle(&self, v: int) -> Angle {
        Angle {
            num: ((v * self.phase.den + self.phase.num * self.num_symbols()) % (
            self.num_symbols() * self.phase.den)) as u64,
            den: (self.num_symbols() * self.phase.den) as u64,
        }
    }
}

impl DigitalPhasor for MPSK {
    open spec fn wf(&self) -> bool {
        &&& 1 <= self.bits_per_symbol <= 8
        &&& self.phase.wf()
        &&& self.phase.den <= u64::MAX as int / 256
    }

    open spec fn spec_bits_per_symbol(&self) -> nat {
        self.bits_per_symbol as nat
    }

    open spec fn spec_point(&self, s: u64, b: Seq<u8>) -> IqPoint {
        IqPoint {
            x: 1,
            y: 0,
            angle: self.spec_angle(symbol_value(b) as int),
            scale: Ratio { num: 1, den: 1 },
        }
    }

    open spec fn spec_update(&self, s: u64, b: Seq<u8>) -> Self {
        *self
    }

    fn bits_per_symbol(&self) -> usize {
        self.bits_per_symbol
    }

    fn update(&mut self, s: u64, b: &[u8]) {
    }

    fn point(&self, s: u64, b: &[u8]) -> (p: IqPoint) {
        let v = bytes_to_bits(b);
        proof {
            vstd::bits::lemma_u64_pow2_no_overflow(self.bits_per_symbol as nat);
            vstd::bits::lemma_u64_shl_is_mul(1, self.bits_per_symbol as u64);
            vstd::arithmetic::power2::lemma_pow2_pos(self.bits_per_symbol as nat);
            assert(pow2(8) == 256) by {
                vstd::arithmetic::power2::lemma_pow2_adds(4, 4);
                vstd::arithmetic::power2::lemma2_to64();
            }
            if self.bits_per_symbol < 8 {
                vstd::arithmetic::power2::lemma_pow2_strictly_increases(
                    self.bits_per_symbol as nat,
                    8,
                );
            }
            vstd::arithmetic::div_mod::lemma_fundamental_div_mod(u64::MAX as int, 256);
            vstd::arithmetic::mul::lemma_mul_inequality(
                self.phase.den as int,
                u64::MAX as int / 256,
                256,
            );
            vstd::arithmetic::mul::lemma_mul_inequality(
                pow2(self.bits_per_symbol as nat) as int,
                256,
                self.phase.den as int,
            );
            vstd::arithmetic::mul::lemma_mul_is_commutative(
                256,
                self.phase.den as int,
            );
            vstd::arithmetic::mul::lemma_mul_is_commutative(
                u64::MAX as int / 256,
                256,
            );
        }
        let n_sym: u64 = 1u64 << (self.bits_per_symbol as u64);
        let angle = add_angle(v as u64, n_sym, self.phase);
        IqPoint { x: 1, y: 0, angle, scale: Ratio { num: 1, den: 1 } }
    }
}

/// The point does not depend on the sample index.
pub proof fn lemma_mpsk_time_invariant(p: MPSK, s1: u64, s2: u64, b: Seq<u8>)
    ensures
        p.spec_point(s1, b) == p.spec_point(s2, b),
{
}

/// The point always lies on the unit circle: `I² + Q² == A²`.
pub proof fn lemma_mpsk_envelope(p: MPSK, s: u64, b: Seq<u8>)
    ensures
        p.spec_point(s, b).norm2() == 1,
{
}

} // verus!
