//! Quadrature amplitude modulation: the bit group is split into two
//! halves that pick the in-phase and quadrature levels of a square grid.

use vstd::prelude::*;

verus! {

use crate::angle::{Angle, Ratio};
use crate::digital::phasor::{DigitalPhasor, IqPoint};
use crate::digital::util::{
    bytes_to_bits,
    copy_range,
    lemma_symbol_value_bound,
    max_symbol,
    symbol_value,
};
use vstd::arithmetic::power2::pow2;

/// Emits `(p_m + i * p_l) * e^(2πi * phase)` where `p_m = 2 * v_msb - M`,
/// `p_l = 2 * v_lsb - M`, `M = 2^(k/2) - 1` for `k` bits per symbol; the
/// front end scales by `A / (2 * M)`.
pub struct QAM {
    pub bits_per_symbol: usize,
    /// Number of bits per carrier: half the group.
    pub carrier_size: usize,
    /// Largest level index: `2^carrier_size - 1`.
    pub max_symbol: u64,
    pub phase: Angle,
}

impl QAM {
    pub fn new(bits_per_symbol: usize, phase: Angle) -> (p: QAM)
        requires
            2 <= bits_per_symbol <= 16,
            phase.wf(),
        ensures
            p.wf(),
            p.bits_per_symbol == bits_per_symbol,
            p.carrier_size == bits_per_symbol / 2,
            p.max_symbol == pow2((bits_per_symbol / 2) as nat) - 1,
            p.phase == phase,
    {
        let cs = bits_per_symbol / 2;
        let ms = max_symbol(cs) as u64;
        proof {
            vstd::arithmetic::power2::lemma_pow2_pos((bits_per_symbol / 2) as nat);
        }
        QAM { bits_per_symbol, carrier_size: cs, max_symbol: ms, phase }
    }
}

impl DigitalPhasor for QAM {
    open spec fn wf(&self) -> bool {
        &&& 2 <= self.bits_per_symbol <= 16
        &&& self.carrier_size == self.bits_per_symbol / 2
        &&& self.max_symbol == pow2(self.carrier_size as nat) - 1
        &&& self.phase.wf()
    }

    open spec fn spec_bits_per_symbol(&self) -> nat {
        self.bits_per_symbol as nat
    }

    open spec fn spec_point(&self, s: u64, b: Seq<u8>) -> IqPoint {
        IqPoint {
            x: (2 * symbol_value(b.take(self.carrier_size as int)) - self.max_symbol) as i64,
            y: (2 * symbol_value(b.skip(self.carrier_size as int)) - self.max_symbol) as i64,
            angle: self.phase,
            scale: Ratio { num: 1, den: 1 },
        }
    }

    open spec fn spec_update(&self, s: u64, b: Seq<u8>) -> Self {
        *self
    }

    fn bits_per_symbol(&self) -> usize {
        self.bits_per_symbol
    }

    fn update(&mut self, s: u64, b: &[u8]) {
    }

    fn point(&self, s: u64, b: &[u8]) -> (p: IqPoint) {
        let msb = copy_range(b, 0, self.carrier_size);
        let lsb = copy_range(b, self.carrier_size, b.len());
        let vm = bytes_to_bits(msb.as_slice());
        let vl = bytes_to_bits(lsb.as_slice());
        proof {
            assert(msb@ =~= b@.take(self.carrier_size as int));
            assert(lsb@ =~= b@.skip(self.carrier_size as int));
            lemma_symbol_value_bound(msb@);
            lemma_symbol_value_bound(lsb@);
            vstd::arithmetic::power2::lemma2_to64();
            assert(pow2(8) == 256) by {
                vstd::arithmetic::power2::lemma_pow2_adds(4, 4);
                vstd::arithmetic::power2::lemma2_to64();
            }
            if msb@.len() < 8 {
                vstd::arithmetic::power2::lemma_pow2_strictly_increases(msb@.len(), 8);
            }
            if lsb@.len() < 8 {
                vstd::arithmetic::power2::lemma_pow2_strictly_increases(lsb@.len(), 8);
            }
        }
        IqPoint {
            x: 2 * (vm as i64) - (self.max_symbol as i64),
            y: 2 * (vl as i64) - (self.max_symbol as i64),
            angle: self.phase,
            scale: Ratio { num: 1, den: 1 },
        }
    }
}

/// The point does not depend on the sample index.
pub proof fn lemma_qam_time_invariant(p: QAM, s1: u64, s2: u64, b: Seq<u8>)
    ensures
        p.spec_point(s1, b) == p.spec_point(s2, b),
{
}

/// For an even group size the two levels lie in `[-M, M]`, so
/// `x² + y² <= 2 * M²`: with the front end's `A / (2M)` unit the envelope
/// stays within `A² / 2`.
pub proof fn lemma_qam_envelope(p: QAM, s: u64, b: Seq<u8>)
    requires
        p.wf(),
        p.bits_per_symbol % 2 == 0,
        b.len() == p.spec_bits_per_symbol(),
    ensures
        p.spec_point(s, b).norm2() <= 2 * (p.max_symbol * p.max_symbol),
{
    let cs = p.carrier_size as int;
    let m = p.max_symbol as int;
    lemma_symbol_value_bound(b.take(cs));
    lemma_symbol_value_bound(b.skip(cs));
    assert(b.take(cs).len() == cs);
    assert(b.skip(cs).len() == cs);
    let pt = p.spec_point(s, b);
    assert(-m <= pt.x <= m);
    assert(-m <= pt.y <= m);
    assert(pt.x * pt.x <= m * m) by (nonlinear_arith)
        requires
            -m <= pt.x <= m,
    ;
    assert(pt.y * pt.y <= m * m) by (nonlinear_arith)
        requires
            -m <= pt.y <= m,
    ;
}

} // verus!
