//! M-ary frequency-shift keying with a continuous-phase accumulator.

use vstd::prelude::*;

verus! {

use crate::angle::{add_mod, mul_mod, signed_mod, Angle, Ratio};
use crate::digital::phasor::{DigitalPhasor, IqPoint};
use crate::digital::util::{bytes_to_bits, max_symbol, symbol_value};
use vstd::arithmetic::div_mod::{
    lemma_add_mod_noop,
    lemma_add_mod_noop_right,
    lemma_mod_division_less_than_divisor,
    lemma_mul_mod_noop_left,
    lemma_small_mod,
};
use vstd::arithmetic::power2::pow2;

/// Maps a symbol value to the integer coefficient that multiplies the
/// deviation frequency.
pub trait SymbolMap: Sized {
    spec fn wf(&self) -> bool;

    spec fn spec_coef(&self, symbol: u8) -> int;

    /// Coefficients stay small: two times a byte-sized symbol at most.
    proof fn lemma_coef_bounded(&self, symbol: u8)
        requires
            self.wf(),
        ensures
            -1024 <= self.spec_coef(symbol) <= 1024,
    ;

    fn coef(&self, symbol: u8) -> (c: i64)
        requires
            self.wf(),
        ensures
            c == self.spec_coef(symbol),
    ;
}

/// Centers the coefficients on zero: `2 * v - (2^k - 1)`, an odd
/// coefficient for every symbol.
pub struct DefaultMap {
    pub max_symbol: i64,
}

impl DefaultMap {
    pub fn new(bits_per_symbol: usize) -> (m: DefaultMap)
        requires
            1 <= bits_per_symbol <= 8,
        ensures
            m.wf(),
            m.max_symbol == pow2(bits_per_symbol as nat) - 1,
    {
        proof {
            vstd::arithmetic::power2::lemma_pow2_pos(bits_per_symbol as nat);
            assert(pow2(8) == 256) by {
                vstd::arithmetic::power2::lemma_pow2_adds(4, 4);
                vstd::arithmetic::power2::lemma2_to64();
            }
            if bits_per_symbol < 8 {
                vstd::arithmetic::power2::lemma_pow2_strictly_increases(
                    bits_per_symbol as nat,
                    8,
                );
            }
        }
        DefaultMap { max_symbol: max_symbol(bits_per_symbol) as i64 }
    }
}

impl SymbolMap for DefaultMap {
    open spec fn wf(&self) -> bool {
        0 <= self.max_symbol <= 255
    }

    open spec fn spec_coef(&self, symbol: u8) -> int {
        2 * symbol - self.max_symbol
    }

    proof fn lemma_coef_bounded(&self, symbol: u8) {
    }

    fn coef(&self, symbol: u8) -> (c: i64) {
        2 * (symbol as i64) - self.max_symbol
    }
}

/// Nonnegative coefficients `2 * v`, shifting every symbol upward.
pub struct IncreaseMap;

impl SymbolMap for IncreaseMap {
    open spec fn wf(&self) -> bool {
        true
    }

    open spec fn spec_coef(&self, symbol: u8) -> int {
        2 * symbol
    }

    proof fn lemma_coef_bounded(&self, symbol: u8) {
    }

    fn coef(&self, symbol: u8) -> (c: i64) {
        2 * (symbol as i64)
    }
}

/// Emits `e^(2πi * (c * dev * s / sr + phase))` where `c` is the map's
/// coefficient for the current symbol; on each symbol change the phase
/// accumulator absorbs the frequency step so the output phase is
/// continuous across the boundary.
pub struct MFSK<M: SymbolMap> {
    pub bits_per_symbol: usize,
    /// Deviation frequency in cycles per second.
    pub dev_hz: u64,
    /// Samples per second, the denominator of every phase here.
    pub sr: u64,
    pub map: M,
    /// Phase accumulator in `1 / sr` turns.
    pub phase_num: u64,
    pub cur_coef: i64,
}

impl<M: SymbolMap> MFSK<M> {
    pub fn new(bits_per_symbol: usize, deviation: crate::freq::Freq, map: M) -> (p: MFSK<M>)
        requires
            1 <= bits_per_symbol <= 8,
            deviation.wf(),
            map.wf(),
        ensures
            p.wf(),
            p.bits_per_symbol == bits_per_symbol,
            p.dev_hz == deviation.spec_hz(),
            p.sr == deviation.spec_sr(),
            p.map == map,
            p.phase_num == 0,
            p.cur_coef == 0,
    {
        MFSK {
            bits_per_symbol,
            dev_hz: deviation.hz(),
            sr: deviation.sr(),
            map,
            phase_num: 0,
            cur_coef: 0,
        }
    }

    /// The output phase numerator at sample `s`, over `sr` turns:
    /// `(c * dev * s + phase) % sr`.
    pub open spec fn spec_angle_num(&self, s: u64) -> int {
        (self.cur_coef * self.dev_hz * s + self.phase_num) % (self.sr as int)
    }
}

impl<M: SymbolMap> DigitalPhasor for MFSK<M> {
    open spec fn wf(&self) -> bool {
        &&& 1 <= self.bits_per_symbol <= 8
        &&& self.sr >= 1
        &&& self.phase_num < self.sr
        &&& self.map.wf()
        &&& -1024 <= self.cur_coef <= 1024
    }

    open spec fn spec_bits_per_symbol(&self) -> nat {
        self.bits_per_symbol as nat
    }

    open spec fn spec_point(&self, s: u64, b: Seq<u8>) -> IqPoint {
        IqPoint {
            x: 1,
            y: 0,
            angle: Angle { num: self.spec_angle_num(s) as u64, den: self.sr },
            scale: Ratio { num: 1, den: 1 },
        }
    }

    open spec fn spec_update(&self, s: u64, b: Seq<u8>) -> Self {
        let next = self.map.spec_coef(symbol_value(b) as u8);
        MFSK {
            bits_per_symbol: self.bits_per_symbol,
            dev_hz: self.dev_hz,
            sr: self.sr,
            map: self.map,
            phase_num: (((self.cur_coef - next) * self.dev_hz * s + self.phase_num) % (
            self.sr as int)) as u64,
            cur_coef: next as i64,
        }
    }

    fn bits_per_symbol(&self) -> usize {
        self.bits_per_symbol
    }

    fn update(&mut self, s: u64, b: &[u8]) {
        let ghost old_self = *self;
        let v = bytes_to_bits(b);
        let next = self.map.coef(v);
        proof {
            self.map.lemma_coef_bounded(v);
        }
        let diff: i64 = self.cur_coef - next;
        let dm = signed_mod(diff, self.sr);
        let t1 = mul_mod(dm, self.dev_hz, self.sr);
        let t2 = mul_mod(t1, s, self.sr);
        proof {
            let m = self.sr as int;
            let d = diff as int;
            let h = self.dev_hz as int;
            lemma_mul_mod_noop_left(d, h, m);
            lemma_mul_mod_noop_left(d * h, s as int, m);
            lemma_add_mod_noop_right(self.phase_num as int, d * h * (s as int), m);
            lemma_small_mod(self.phase_num as nat, self.sr as nat);
            assert((self.phase_num + t2) % m == (d * h * s + self.phase_num) % m);
        }
        self.phase_num = add_mod(self.phase_num, t2, self.sr);
        self.cur_coef = next;
    }

    fn point(&self, s: u64, b: &[u8]) -> (p: IqPoint) {
        let cm = signed_mod(self.cur_coef, self.sr);
        let t1 = mul_mod(cm, self.dev_hz, self.sr);
        let t2 = mul_mod(t1, s, self.sr);
        let num = add_mod(t2, self.phase_num, self.sr);
        proof {
            let m = self.sr as int;
            let c = self.cur_coef as int;
            let h = self.dev_hz as int;
            lemma_mul_mod_noop_left(c, h, m);
            lemma_mul_mod_noop_left(c * h, s as int, m);
            lemma_add_mod_noop(c * h * (s as int), self.phase_num as int, m);
            lemma_small_mod(self.phase_num as nat, self.sr as nat);
        }
        IqPoint {
            x: 1,
            y: 0,
            angle: Angle { num, den: self.sr },
            scale: Ratio { num: 1, den: 1 },
        }
    }
}

/// Phase continuity across a symbol boundary: at the boundary sample `s`,
/// the phase computed with the outgoing coefficient equals the phase
/// computed with the incoming coefficient and the updated accumulator.
pub proof fn lemma_mfsk_phase_continuity<M: SymbolMap>(p: MFSK<M>, s: u64, b: Seq<u8>)
    requires
        p.wf(),
    ensures
        p.spec_update(s, b).spec_angle_num(s) == p.spec_angle_num(s),
{
    let m = p.sr as int;
    let c = p.cur_coef as int;
    let c2 = p.map.spec_coef(symbol_value(b) as u8);
    let h = p.dev_hz as int;
    let phi = p.phase_num as int;
    let q = p.spec_update(s, b);
    p.map.lemma_coef_bounded(symbol_value(b) as u8);
    lemma_mod_division_less_than_divisor((c - c2) * h * s + phi, m);
    lemma_add_mod_noop_right(c2 * h * (s as int), (c - c2) * h * s + phi, m);
    assert(c2 * h * (s as int) + ((c - c2) * h * s + phi) == c * h * s + phi)
        by (nonlinear_arith);
}

/// The point always lies on the unit circle: `I² + Q² == A²`.
pub proof fn lemma_mfsk_envelope<M: SymbolMap>(p: MFSK<M>, s: u64, b: Seq<u8>)
    ensures
        p.spec_point(s, b).norm2() == 1,
{
}

} // verus!
