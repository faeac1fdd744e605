//! Continuous-phase frequency-shift keying with a deviation derived from
//! the baud rate.

use vstd::prelude::*;

verus! {

use crate::angle::{mul_mod, Angle, Ratio};
use crate::digital::phasor::{DigitalPhasor, IqPoint};
use crate::digital::util::{bytes_to_bits, symbol_value};
use crate::rates::Rates;
use vstd::arithmetic::div_mod::lemma_mul_mod_noop_left;

/// Emits `e^(2πi * 2v * f * s / sr)` for symbol value `v`, where the tone
/// spacing `f = deviation * baud / 2` in cycles per second keeps the phase
/// continuous at symbol boundaries.
pub struct CPFSK {
    pub bits_per_symbol: usize,
    /// Tone spacing in cycles per second.
    pub f_hz: u64,
    /// Samples per second, the denominator of every phase here.
    pub sr: u64,
}

impl CPFSK {
    pub fn new(bits_per_symbol: usize, rates: Rates, deviation: u64) -> (p: CPFSK)
        requires
            1 <= bits_per_symbol <= 8,
            rates.sample_rate >= 1,
            deviation as int * rates.baud_rate as int <= u64::MAX,
        ensures
            p.wf(),
            p.bits_per_symbol == bits_per_symbol,
            p.f_hz == (deviation * rates.baud_rate) as int / 2,
            p.sr == rates.sample_rate,
    {
        CPFSK { bits_per_symbol, f_hz: deviation * rates.baud_rate / 2, sr: rates.sample_rate }
    }

    /// The output phase numerator at sample `s` for symbol value `v`:
    /// `(2 * v * f * s) % sr`.
    pub open spec fn spec_angle_num(&self, s: u64, v: int) -> int {
        (2 * v * self.f_hz * s) % (self.sr as int)
    }
}

impl DigitalPhasor for CPFSK {
    open spec fn wf(&self) -> bool {
        &&& 1 <= self.bits_per_symbol <= 8
        &&& self.sr >= 1
    }

    open spec fn spec_bits_per_symbol(&self) -> nat {
        self.bits_per_symbol as nat
    }

    open spec fn spec_point(&self, s: u64, b: Seq<u8>) -> IqPoint {
        IqPoint {
            x: 1,
            y: 0,
            angle: Angle {
                num: self.spec_angle_num(s, symbol_value(b) as int) as u64,
                den: self.sr,
            },
            scale: Ratio { num: 1, den: 1 },
        }
    }

    open spec fn spec_update(&self, s: u64, b: Seq<u8>) -> Self {
        *self
    }

    fn bits_per_symbol(&self) -> usize {
        self.bits_per_symbol
    }

    fn update(&mut self, s: u64, b: &[u8]) {
    }

    fn point(&self, s: u64, b: &[u8]) -> (p: IqPoint) {
        let v = bytes_to_bits(b);
        let t1 = mul_mod(2 * (v as u64), self.f_hz, self.sr);
        let num = mul_mod(t1, s, self.sr);
        proof {
            let m = self.sr as int;
            let vv = symbol_value(b@) as int;
            lemma_mul_mod_noop_left(2 * vv * self.f_hz, s as int, m);
        }
        IqPoint {
            x: 1,
            y: 0,
            angle: Angle { num, den: self.sr },
            scale: Ratio { num: 1, den: 1 },
        }
    }
}

/// The point always lies on the unit circle: `I² + Q² == A²`.
pub proof fn lemma_cpfsk_envelope(p: CPFSK, s: u64, b: Seq<u8>)
    ensures
        p.spec_point(s, b).norm2() == 1,
{
}

} // verus!
