//! Amplitude and phase-shift keying: symbols are grouped into concentric
//! rings; each ring has a radius and spreads its symbols evenly around the
//! circle with its own phase offset.

use vstd::prelude::*;

verus! {

use crate::angle::{add_angle, Angle, Ratio};
use crate::digital::phasor::{DigitalPhasor, IqPoint};
use crate::digital::util::{
    bytes_to_bits,
    lemma_symbol_value_bound,
    max_symbol,
    symbol_value,
};
use vstd::arithmetic::power2::pow2;

/// A single ring: the symbols `start..end`, a radius (a fraction of the
/// maximum amplitude), and a phase offset.
pub struct Ring {
    /// First symbol value in this ring.
    pub start: u8,
    /// One past the last symbol value in this ring.
    pub end: u8,
    /// Radius as a fraction of the maximum amplitude.
    pub radius: Ratio,
    /// Phase offset of the ring.
    pub phase: Angle,
}

impl Ring {
    pub open spec fn wf(&self) -> bool {
        &&& self.start < self.end
        &&& self.radius.wf()
        &&& self.phase.wf()
        &&& self.phase.den <= u64::MAX as int / 256
    }

    /// A ring over symbols `start..end` with the given radius and phase
    /// offset between symbols.
    pub fn new(start: u8, end: u8, radius: Ratio, phase: Angle) -> (r: Ring)
        requires
            start < end,
            radius.wf(),
            phase.wf(),
            phase.den <= u64::MAX / 256,
        ensures
            r.wf(),
            r.start == start,
            r.end == end,
            r.radius == radius,
            r.phase == phase,
    {
        Ring { start, end, radius, phase }
    }
}

/// The rings cover the symbol values `0 .. 2^bits_per_symbol` in order,
/// without gaps or overlaps, and each ring is well-formed.
pub open spec fn rings_tile(rings: Seq<Ring>, bits_per_symbol: nat) -> bool {
    &&& rings.len() > 0
    &&& rings[0].start == 0
    &&& (forall|i: int| 0 <= i < rings.len() ==> (#[trigger] rings[i]).wf())
    &&& (forall|i: int|
        #![trigger rings[i], rings[i + 1]]
        0 <= i < rings.len() - 1 ==> rings[i].end == rings[i + 1].start)
    &&& rings.last().end as int == pow2(bits_per_symbol)
}

/// Check that the rings tile the symbol space, as `APSK::new` requires.
#[verifier::rlimit(100)]
pub fn verify_rings(rings: &Vec<Ring>, bits_per_symbol: usize) -> (r: bool)
    requires
        bits_per_symbol <= 16,
    ensures
        r == rings_tile(rings@, bits_per_symbol as nat),
{
    if rings.len() == 0 {
        return false;
    }
    let mut prev: u8 = 0;
    let mut i: usize = 0;
    while i < rings.len()
        invariant
            0 <= i <= rings@.len(),
            forall|k: int| 0 <= k < i ==> (#[trigger] rings@[k]).wf(),
            forall|k: int|
                #![trigger rings@[k], rings@[k + 1]]
                0 <= k < i - 1 ==> rings@[k].end == rings@[k + 1].start,
            i > 0 ==> prev == rings@[i - 1].end,
            i > 0 ==> rings@[0].start == 0,
            i == 0 ==> prev == 0,
        decreases rings@.len() - i,
    {
        let ring = &rings[i];
        if ring.start != prev {
            proof {
                if i > 0 {
                    let k: int = i as int - 1;
                    assert(rings@[k].end == prev);
                    assert(rings@[k + 1] == rings@[i as int]);
                }
            }
            return false;
        }
        if !(ring.start < ring.end && ring.radius.num <= ring.radius.den && ring.radius.den >= 1
            && ring.phase.num < ring.phase.den && ring.phase.den <= u64::MAX / 256) {
            return false;
        }
        prev = ring.end;
        i = i + 1;
    }
    proof {
        vstd::arithmetic::power2::lemma2_to64();
        if bits_per_symbol < 16 {
            vstd::arithmetic::power2::lemma_pow2_strictly_increases(bits_per_symbol as nat, 16);
        }
    }
    let top = max_symbol(bits_per_symbol);
    prev as usize == top + 1
}

/// The index of the ring containing symbol value `v`.
pub open spec fn ring_index(rings: Seq<Ring>, v: u8) -> int {
    choose|k: int| 0 <= k < rings.len() && (#[trigger] rings[k]).start <= v < rings[k].end
}

/// Under a tiling, every symbol value below `2^bits_per_symbol` lies in
/// exactly one ring.
pub proof fn lemma_ring_exists(rings: Seq<Ring>, bits_per_symbol: nat, v: u8)
    requires
        rings_tile(rings, bits_per_symbol),
        (v as int) < pow2(bits_per_symbol),
    ensures
        0 <= ring_index(rings, v) < rings.len(),
        rings[ring_index(rings, v)].start <= v < rings[ring_index(rings, v)].end,
{
    lemma_ring_walk(rings, v, 0);
    let k = choose|k: int| 0 <= k < rings.len() && (#[trigger] rings[k]).start <= v < rings[k].end;
    assert(rings[k].start <= v < rings[k].end);
}

/// If `v` is at or past the start of ring `i` but below the last end,
/// some ring at or after `i` contains it.
#[verifier::rlimit(100)]
proof fn lemma_ring_walk(rings: Seq<Ring>, v: u8, i: int)
    requires
        0 <= i < rings.len(),
        forall|k: int| 0 <= k < rings.len() ==> (#[trigger] rings[k]).wf(),
        forall|k: int|
            #![trigger rings[k], rings[k + 1]]
            0 <= k < rings.len() - 1 ==> rings[k].end == rings[k + 1].start,
        rings[i].start <= v,
        (v as int) < rings.last().end as int,
    ensures
        exists|k: int| 0 <= k < rings.len() && (#[trigger] rings[k]).start <= v < rings[k].end,
    decreases rings.len() - i,
{
    if v < rings[i].end {
        assert(rings[i].start <= v < rings[i].end);
    } else {
        assert(i + 1 < rings.len()) by {
            if i + 1 == rings.len() {
                assert(rings.last() == rings[i]);
            }
        }
        assert(rings[i].end == rings[i + 1].start);
        lemma_ring_walk(rings, v, i + 1);
    }
}

/// Under a tiling the rings are pairwise disjoint, so the containing ring
/// is unique.
pub proof fn lemma_ring_unique(rings: Seq<Ring>, bits_per_symbol: nat, v: u8, k1: int, k2: int)
    requires
        rings_tile(rings, bits_per_symbol),
        0 <= k1 < rings.len(),
        0 <= k2 < rings.len(),
        rings[k1].start <= v < rings[k1].end,
        rings[k2].start <= v < rings[k2].end,
    ensures
        k1 == k2,
{
    if k1 < k2 {
        lemma_ring_monotone(rings, k1, k2);
        assert(false);
    } else if k2 < k1 {
        lemma_ring_monotone(rings, k2, k1);
        assert(false);
    }
}

/// For `i < j`, everything in ring `i` is below everything in ring `j`.
proof fn lemma_ring_monotone(rings: Seq<Ring>, i: int, j: int)
    requires
        forall|k: int| 0 <= k < rings.len() ==> (#[trigger] rings[k]).wf(),
        forall|k: int|
            #![trigger rings[k], rings[k + 1]]
            0 <= k < rings.len() - 1 ==> rings[k].end == rings[k + 1].start,
        0 <= i < j < rings.len(),
    ensures
        rings[i].end <= rings[j].start,
    decreases j - i,
{
    if i + 1 == j {
        assert(rings[i].end == rings[i + 1].start);
    } else {
        lemma_ring_monotone(rings, i, j - 1);
        assert(rings[j - 1].end == rings[j - 1 + 1].start);
        assert(rings[j - 1].start < rings[j - 1].end);
    }
}

/// Emits `radius * e^(2πi * ((v - start) / (end - start) + ring phase))`
/// for the ring containing symbol value `v`.
pub struct APSK {
    pub bits_per_symbol: usize,
    pub rings: Vec<Ring>,
}

impl APSK {
    /// The rings must be given in symbol order and cover all symbol values
    /// for the given group size, as `verify_rings` checks.
    pub fn new(bits_per_symbol: usize, rings: Vec<Ring>) -> (p: APSK)
        requires
            1 <= bits_per_symbol <= 8,
            rings_tile(rings@, bits_per_symbol as nat),
        ensures
            p.wf(),
            p.bits_per_symbol == bits_per_symbol,
            p.rings == rings,
    {
        APSK { bits_per_symbol, rings }
    }

    /// The point for symbol value `v`: position within its ring, rotated
    /// by the ring phase, scaled by the ring radius.
    pub open spec fn spec_symbol_point(&self, v: u8) -> IqPoint {
        let ring = self.rings@[ring_index(self.rings@, v)];
        let size = ring.end - ring.start;
        let pos = v - ring.start;
        IqPoint {
            x: 1,
            y: 0,
            angle: Angle {
                num: ((pos * ring.phase.den + ring.phase.num * size) % (size * ring.phase.den))
                    as u64,
                den: (size * ring.phase.den) as u64,
            },
            scale: ring.radius,
        }
    }
}

impl DigitalPhasor for APSK {
    open spec fn wf(&self) -> bool {
        &&& 1 <= self.bits_per_symbol <= 8
        &&& rings_tile(self.rings@, self.bits_per_symbol as nat)
    }

    open spec fn spec_bits_per_symbol(&self) -> nat {
        self.bits_per_symbol as nat
    }

    open spec fn spec_point(&self, s: u64, b: Seq<u8>) -> IqPoint {
        self.spec_symbol_point((symbol_value(b) % 256) as u8)
    }

    open spec fn spec_update(&self, s: u64, b: Seq<u8>) -> Self {
        *self
    }

    fn bits_per_symbol(&self) -> usize {
        self.bits_per_symbol
    }

    fn update(&mut self, s: u64, b: &[u8]) {
    }

    #[verifier::rlimit(100)]
    fn point(&self, s: u64, b: &[u8]) -> (p: IqPoint) {
        let v = bytes_to_bits(b);
        proof {
            lemma_symbol_value_bound(b@);
            assert(pow2(8) == 256) by {
                vstd::arithmetic::power2::lemma_pow2_adds(4, 4);
                vstd::arithmetic::power2::lemma2_to64();
            }
            if (b@.len() as nat) < 8 {
                vstd::arithmetic::power2::lemma_pow2_strictly_increases(b@.len() as nat, 8);
            }
            if self.bits_per_symbol < 8 {
                vstd::arithmetic::power2::lemma_pow2_strictly_increases(
                    self.bits_per_symbol as nat,
                    8,
                );
            }
            vstd::arithmetic::div_mod::lemma_small_mod(symbol_value(b@), 256);
            lemma_ring_exists(self.rings@, self.bits_per_symbol as nat, v);
        }
        let mut i: usize = 0;
        let n = self.rings.len();
        while i < n
            invariant
                0 <= i <= n,
                n == self.rings@.len(),
                self.wf(),
                (v as int) < pow2(self.bits_per_symbol as nat),
                v == symbol_value(b@),
                v == (symbol_value(b@) % 256) as u8,
                forall|k: int| 0 <= k < i ==> !((#[trigger] self.rings@[k]).start <= v
                    < self.rings@[k].end),
            decreases n - i,
        {
            let ring = &self.rings[i];
            if ring.start <= v && v < ring.end {
                proof {
                    lemma_ring_exists(self.rings@, self.bits_per_symbol as nat, v);
                    lemma_ring_unique(
                        self.rings@,
                        self.bits_per_symbol as nat,
                        v,
                        i as int,
                        ring_index(self.rings@, v),
                    );
                    vstd::arithmetic::div_mod::lemma_fundamental_div_mod(u64::MAX as int, 256);
                    vstd::arithmetic::mul::lemma_mul_inequality(
                        ring.phase.den as int,
                        u64::MAX as int / 256,
                        256,
                    );
                    vstd::arithmetic::mul::lemma_mul_inequality(
                        (ring.end - ring.start) as int,
                        256,
                        ring.phase.den as int,
                    );
                    vstd::arithmetic::mul::lemma_mul_is_commutative(256, ring.phase.den as int);
                    vstd::arithmetic::mul::lemma_mul_is_commutative(
                        u64::MAX as int / 256,
                        256,
                    );
                }
                let size: u64 = (ring.end - ring.start) as u64;
                let pos: u64 = (v - ring.start) as u64;
                let angle = add_angle(pos, size, ring.phase);
                return IqPoint { x: 1, y: 0, angle, scale: ring.radius };
            }
            i = i + 1;
        }
        proof {
            lemma_ring_exists(self.rings@, self.bits_per_symbol as nat, v);
            assert(false);
        }
        IqPoint { x: 1, y: 0, angle: Angle { num: 0, den: 1 }, scale: Ratio { num: 1, den: 1 } }
    }
}

/// The point does not depend on the sample index.
pub proof fn lemma_apsk_time_invariant(p: APSK, s1: u64, s2: u64, b: Seq<u8>)
    ensures
        p.spec_point(s1, b) == p.spec_point(s2, b),
{
}

/// The point stays within the amplitude circle: the coordinate is on the
/// unit circle and the ring radius never exceeds one.
pub proof fn lemma_apsk_envelope(p: APSK, s: u64, b: Seq<u8>)
    requires
        p.wf(),
        b.len() == p.spec_bits_per_symbol(),
    ensures
        p.spec_point(s, b).norm2() == 1,
        p.spec_point(s, b).scale.num <= p.spec_point(s, b).scale.den,
{
    lemma_symbol_value_bound(b);
    assert(pow2(8) == 256) by {
        vstd::arithmetic::power2::lemma_pow2_adds(4, 4);
        vstd::arithmetic::power2::lemma2_to64();
    }
    if (b.len() as nat) < 8 {
        vstd::arithmetic::power2::lemma_pow2_strictly_increases(b.len() as nat, 8);
    }
    vstd::arithmetic::div_mod::lemma_small_mod(symbol_value(b), 256);
    lemma_ring_exists(p.rings@, p.bits_per_symbol as nat, (symbol_value(b) % 256) as u8);
    let pt = p.spec_point(s, b);
    assert(pt.x == 1 && pt.y == 0);
    assert(pt.x * pt.x == 1) by (nonlinear_arith)
        requires
            pt.x == 1,
    ;
    assert(pt.y * pt.y == 0) by (nonlinear_arith)
        requires
            pt.y == 0,
    ;
}

} // verus!
