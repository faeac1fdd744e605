//! The common shape of a digital phasor.

use vstd::prelude::*;

verus! {

use crate::angle::{Angle, Ratio};

/// Discrete description of one (I, Q) sample of a digital phasor.
///
/// The pair it stands for is
/// `I + iQ = A * (num/den of scale) * (x + iy) * e^(2πi * angle)`,
/// where `A` is the amplitude the front end multiplies in.  All scheme
/// logic — symbol packing, constellation coordinates, phase accumulation —
/// is exact here; only the final trigonometric evaluation is left outside.
#[derive(Clone, Copy, Debug, PartialEq, Eq, Structural)]
pub struct IqPoint {
    /// In-phase integer coordinate.
    pub x: i64,
    /// Quadrature integer coordinate.
    pub y: i64,
    /// Rotation as a fraction of a full turn.
    pub angle: Angle,
    /// Radial scale in `[0, 1]`; one for every scheme without rings.
    pub scale: Ratio,
}

impl IqPoint {
    pub open spec fn wf(&self) -> bool {
        self.angle.wf() && self.scale.wf()
    }

    /// Squared length of the integer coordinate vector.
    pub open spec fn norm2(&self) -> int {
        self.x * self.x + self.y * self.y
    }
}

/// A digital phasor maps the bits of the current symbol (and the sample
/// index, for the frequency-keyed schemes) to an `IqPoint`, and is told
/// once per symbol boundary which bits now apply.
pub trait DigitalPhasor: Sized {
    spec fn wf(&self) -> bool;

    spec fn spec_bits_per_symbol(&self) -> nat;

    /// The point emitted at sample `s` for symbol bits `b`.
    spec fn spec_point(&self, s: u64, b: Seq<u8>) -> IqPoint;

    /// The state after the symbol-boundary update at sample `s` with
    /// bits `b`.
    spec fn spec_update(&self, s: u64, b: Seq<u8>) -> Self;

    fn bits_per_symbol(&self) -> (n: usize)
        requires
            self.wf(),
        ensures
            n == self.spec_bits_per_symbol(),
    ;

    fn update(&mut self, s: u64, b: &[u8])
        requires
            old(self).wf(),
            b@.len() == old(self).spec_bits_per_symbol(),
            s >= 1,
        ensures
            final(self).wf(),
            *final(self) == old(self).spec_update(s, b@),
            final(self).spec_bits_per_symbol() == old(self).spec_bits_per_symbol(),
    ;

    fn point(&self, s: u64, b: &[u8]) -> (p: IqPoint)
        requires
            self.wf(),
            b@.len() == self.spec_bits_per_symbol(),
        ensures
            p == self.spec_point(s, b@),
            p.wf(),
    ;
}

} // verus!
