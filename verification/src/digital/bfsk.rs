//! Binary frequency-shift keying with a continuous-phase correction.

use vstd::prelude::*;

verus! {

use crate::angle::{add_mod, mul_mod, Angle, Ratio};
use crate::digital::phasor::{DigitalPhasor, IqPoint};
use crate::freq::Freq;
use vstd::arithmetic::div_mod::{
    lemma_add_mod_noop,
    lemma_add_mod_noop_right,
    lemma_mod_add_multiples_vanish,
    lemma_mod_division_less_than_divisor,
    lemma_mod_twice,
    lemma_mul_mod_noop_left,
    lemma_small_mod,
    lemma_sub_mod_noop_right,
};

/// Emits `e^(2πi * (b * dev * s / sr + phase))`: a 1 bit rides the
/// deviation frequency, a 0 bit sits still.  On each bit flip the phase
/// accumulator is adjusted so the output phase is continuous at the
/// boundary.
pub struct BFSK {
    /// Deviation frequency in cycles per second.
    pub dev_hz: u64,
    /// Samples per second, the denominator of every phase here.
    pub sr: u64,
    /// Phase accumulator in `1 / sr` turns.
    pub phase_num: u64,
    /// The bit of the previous symbol.
    pub prev: u8,
}

impl BFSK {
    pub fn new(d: Freq) -> (p: BFSK)
        requires
            d.wf(),
        ensures
            p.wf(),
            p.dev_hz == d.spec_hz(),
            p.sr == d.spec_sr(),
            p.phase_num == 0,
            p.prev == 0,
    {
        BFSK { dev_hz: d.hz(), sr: d.sr(), phase_num: 0, prev: 0 }
    }

    /// The output phase numerator at sample `s` for bit `bit`, over `sr`
    /// turns: `(bit * dev * s + phase) % sr`.
    pub open spec fn spec_angle_num(&self, s: u64, bit: u8) -> int {
        (bit * self.dev_hz * s + self.phase_num) % (self.sr as int)
    }
}

impl DigitalPhasor for BFSK {
    open spec fn wf(&self) -> bool {
        &&& self.sr >= 1
        &&& self.phase_num < self.sr
    }

    open spec fn spec_bits_per_symbol(&self) -> nat {
        1
    }

    open spec fn spec_point(&self, s: u64, b: Seq<u8>) -> IqPoint {
        IqPoint {
            x: 1,
            y: 0,
            angle: Angle { num: self.spec_angle_num(s, b[0]) as u64, den: self.sr },
            scale: Ratio { num: 1, den: 1 },
        }
    }

    open spec fn spec_update(&self, s: u64, b: Seq<u8>) -> Self {
        if b[0] == self.prev {
            *self
        } else {
            BFSK {
                dev_hz: self.dev_hz,
                sr: self.sr,
                phase_num: (if b[0] == 1 {
                    (self.phase_num - self.dev_hz * s) % (self.sr as int)
                } else {
                    (self.phase_num + self.dev_hz * (s - 1)) % (self.sr as int)
                }) as u64,
                prev: b[0],
            }
        }
    }

    fn bits_per_symbol(&self) -> usize {
        1
    }

    fn update(&mut self, s: u64, b: &[u8]) {
        if b[0] == self.prev {
            return ;
        }
        let m = self.sr;
        if b[0] == 1 {
            let t = mul_mod(self.dev_hz, s, m);
            proof {
                let mi = m as int;
                let phi = self.phase_num as int;
                let hs = self.dev_hz as int * s as int;
                lemma_sub_mod_noop_right(phi, hs, mi);
                lemma_mod_add_multiples_vanish(phi - (hs % mi), mi);
                lemma_mod_division_less_than_divisor(hs, mi);
            }
            self.phase_num = add_mod(self.phase_num, m - t, m);
        } else {
            let t = mul_mod(self.dev_hz, s - 1, m);
            proof {
                let mi = m as int;
                let phi = self.phase_num as int;
                let hs = self.dev_hz as int * (s - 1);
                lemma_add_mod_noop_right(phi, hs, mi);
            }
            self.phase_num = add_mod(self.phase_num, t, m);
        }
        self.prev = b[0];
    }

    fn point(&self, s: u64, b: &[u8]) -> (p: IqPoint) {
        let t1 = mul_mod(b[0] as u64, self.dev_hz, self.sr);
        let t2 = mul_mod(t1, s, self.sr);
        let num = add_mod(t2, self.phase_num, self.sr);
        proof {
            let m = self.sr as int;
            let bv = b@[0] as int;
            let h = self.dev_hz as int;
            lemma_mul_mod_noop_left(bv * h, s as int, m);
            lemma_add_mod_noop(bv * h * (s as int), self.phase_num as int, m);
            lemma_small_mod(self.phase_num as nat, self.sr as nat);
        }
        IqPoint {
            x: 1,
            y: 0,
            angle: Angle { num, den: self.sr },
            scale: Ratio { num: 1, den: 1 },
        }
    }
}

/// Phase continuity across a bit flip at sample `s`: switching 0 to 1, the
/// new phase at `s` equals the old one at `s`; switching 1 to 0, the new
/// phase matches the old one at the preceding sample `s - 1`, the last one
/// the outgoing frequency produced.
pub proof fn lemma_bfsk_phase_continuity(p: BFSK, s: u64, b: Seq<u8>)
    requires
        p.wf(),
        b.len() == 1,
        s >= 1,
        p.prev == 0 && b[0] == 1 || p.prev == 1 && b[0] == 0,
    ensures
        b[0] == 1 ==> p.spec_update(s, b).spec_angle_num(s, 1) == p.spec_angle_num(s, 0),
        b[0] == 0 ==> p.spec_update(s, b).spec_angle_num((s - 1) as u64, 0) == p.spec_angle_num(
            (s - 1) as u64,
            1,
        ),
{
    let m = p.sr as int;
    let h = p.dev_hz as int;
    let phi = p.phase_num as int;
    let q = p.spec_update(s, b);
    if b[0] == 1 {
        // new: (1*h*s + (phi - h*s) % m) % m == (h*s + phi - h*s) % m == phi
        lemma_mod_division_less_than_divisor(phi - h * s, m);
        lemma_add_mod_noop_right(h * (s as int), phi - h * s, m);
        assert(1 * h * (s as int) == h * (s as int)) by (nonlinear_arith);
        lemma_small_mod(p.phase_num as nat, p.sr as nat);
        assert(0 * h * (s as int) == 0) by (nonlinear_arith);
    } else {
        // new at s-1 with bit 0: ((phi + h*(s-1)) % m) % m; old with bit 1:
        // (h*(s-1) + phi) % m
        lemma_mod_division_less_than_divisor(phi + h * (s - 1), m);
        lemma_mod_twice(phi + h * (s - 1), m);
        let s1: int = s - 1;
        assert((s - 1) as u64 as int == s1);
        assert(0 * h * s1 == 0) by (nonlinear_arith);
        assert(1 * h * s1 == h * s1) by (nonlinear_arith);
        lemma_small_mod((q.phase_num) as nat, p.sr as nat);
    }
}

/// The point always lies on the unit circle: `I² + Q² == A²`.
pub proof fn lemma_bfsk_envelope(p: BFSK, s: u64, b: Seq<u8>)
    ensures
        p.spec_point(s, b).norm2() == 1,
{
}

} // verus!
