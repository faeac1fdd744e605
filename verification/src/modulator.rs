//! The digital modulator: drives a carrier, a data source, and a digital
//! phasor in lock step, one sample per call.

use vstd::prelude::*;

verus! {

use crate::angle::Angle;
use crate::carrier::Carrier;
use crate::data::{Source, SourceUpdate, UpdateModel};
use crate::digital::phasor::{DigitalPhasor, IqPoint};

/// One output sample: the reduced carrier phase and the phasor's discrete
/// (I, Q) description.  The front end turns this into the passband value
/// `I * cos(2π * phase) - Q * sin(2π * phase)` (and its quadrature).
#[derive(Clone, Copy, Debug, PartialEq, Eq, Structural)]
pub struct ModSample {
    pub phase: Angle,
    pub point: IqPoint,
}

/// Couples a carrier, a digital phasor, and a data source.  Per sample it
/// advances the carrier, asks the source for the symbol bits, lets the
/// phasor update its state exactly at `Changed` boundaries, and emits the
/// phasor's point together with the carrier phase; the stream ends when
/// the source finishes.
pub struct DigitalModulator<P: DigitalPhasor, D: Source> {
    carrier: Carrier,
    phasor: P,
    data: D,
}

impl<P: DigitalPhasor, D: Source> DigitalModulator<P, D> {
    pub closed spec fn spec_carrier(&self) -> Carrier {
        self.carrier
    }

    pub closed spec fn spec_phasor(&self) -> P {
        self.phasor
    }

    pub closed spec fn spec_data(&self) -> D {
        self.data
    }

    pub open spec fn wf(&self) -> bool {
        &&& self.spec_carrier().wf()
        &&& self.spec_phasor().wf()
        &&& self.spec_data().wf()
        &&& self.spec_data().bps() == self.spec_phasor().spec_bits_per_symbol()
    }

    pub fn new(carrier: Carrier, phasor: P, data: D) -> (m: DigitalModulator<P, D>)
        requires
            carrier.wf(),
            phasor.wf(),
            data.wf(),
            data.bps() == phasor.spec_bits_per_symbol(),
        ensures
            m.wf(),
            m.spec_carrier() == carrier,
            m.spec_phasor() == phasor,
            m.spec_data() == data,
    {
        DigitalModulator { carrier, phasor, data }
    }

    /// Hand the carrier back, with its sample counter intact, so that a
    /// preamble and a payload can share one phase-continuous carrier.
    pub fn into_carrier(self) -> (c: Carrier)
        ensures
            c == self.spec_carrier(),
    {
        self.carrier
    }

    /// Produce the next sample, or `None` once the source has finished.
    /// The phase is the carrier's for this sample; the point is the
    /// phasor's for the carrier's post-advance sample index, after the
    /// phasor was updated if a new symbol starts here.
    pub fn next(&mut self) -> (r: Option<ModSample>)
        requires
            old(self).wf(),
            old(self).spec_carrier().spec_sample() < u64::MAX,
        ensures
            final(self).wf(),
            final(self).spec_carrier().spec_hz() == old(self).spec_carrier().spec_hz(),
            final(self).spec_carrier().spec_sr() == old(self).spec_carrier().spec_sr(),
            final(self).spec_carrier().spec_sample() == old(self).spec_carrier().spec_sample()
                + 1,
            final(self).spec_data().pos() == old(self).spec_data().pos() + 1,
            forall|j: nat| #[trigger] final(self).spec_data().timeline(j) == old(
                self,
            ).spec_data().timeline(j),
            (match old(self).spec_data().timeline(old(self).spec_data().pos()) {
                UpdateModel::Finished => {
                    &&& r is None
                    &&& final(self).spec_phasor() == old(self).spec_phasor()
                },
                UpdateModel::Changed(b) => {
                    let s = (old(self).spec_carrier().spec_sample() + 1) as u64;
                    &&& final(self).spec_phasor() == old(self).spec_phasor().spec_update(s, b)
                    &&& r == Some(ModSample {
                        phase: Angle {
                            num: old(self).spec_carrier().phase_at(
                                old(self).spec_carrier().spec_sample(),
                            ) as u64,
                            den: old(self).spec_carrier().spec_sr(),
                        },
                        point: final(self).spec_phasor().spec_point(s, b),
                    })
                },
                UpdateModel::Unchanged(b) => {
                    let s = (old(self).spec_carrier().spec_sample() + 1) as u64;
                    &&& final(self).spec_phasor() == old(self).spec_phasor()
                    &&& r == Some(ModSample {
                        phase: Angle {
                            num: old(self).spec_carrier().phase_at(
                                old(self).spec_carrier().spec_sample(),
                            ) as u64,
                            den: old(self).spec_carrier().spec_sr(),
                        },
                        point: old(self).spec_phasor().spec_point(s, b),
                    })
                },
            }),
    {
        let ghost d0: D = self.data;
        let phase = self.carrier.next();
        let upd = self.data.next();
        proof {
            d0.lemma_timeline_wf(d0.pos());
        }
        match upd {
            SourceUpdate::Finished => None,
            SourceUpdate::Changed(b) => {
                let s = self.carrier.sample();
                self.phasor.update(s, b.as_slice());
                let point = self.phasor.point(s, b.as_slice());
                Some(ModSample { phase, point })
            },
            SourceUpdate::Unchanged(b) => {
                let s = self.carrier.sample();
                let point = self.phasor.point(s, b.as_slice());
                Some(ModSample { phase, point })
            },
        }
    }
}

} // verus!
