use modem::angle::{add_mod, mul_mod, signed_mod, Angle, Ratio};
use modem::carrier::Carrier;
use modem::data::Bits;
use modem::digital::bpsk::BPSK;
use modem::digital::phasor::DigitalPhasor;
use modem::freq::Freq;
use modem::modulator::DigitalModulator;
use modem::rates::Rates;

#[test]
fn carrier_phase_sequence() {
    // 900 Hz at 10 kHz: the n-th sample has phase (900 * n) % 10000 over
    // 10000, i.e. the argument 2π * 900 * n / 10000 reduced modulo 2π.
    let mut c = Carrier::new(Freq::new(900, 10000));
    let a = c.next();
    assert_eq!((a.num, a.den), (0, 10000));
    let a = c.next();
    assert_eq!((a.num, a.den), (900, 10000));
    let a = c.next();
    assert_eq!((a.num, a.den), (1800, 10000));
    assert_eq!(c.sample(), 3);
}

#[test]
fn carrier_phase_wraps() {
    // 3 Hz at 4 samples per second wraps after two samples.
    let mut c = Carrier::new(Freq::new(3, 4));
    assert_eq!(c.next().num, 0);
    assert_eq!(c.next().num, 3);
    assert_eq!(c.next().num, 2);
    assert_eq!(c.next().num, 1);
    assert_eq!(c.next().num, 0);
}

#[test]
fn angle_arithmetic() {
    assert_eq!(mul_mod(7, 8, 5), 1);
    assert_eq!(add_mod(7, 8, 5), 0);
    assert_eq!(signed_mod(-3, 10), 7);
    assert_eq!(signed_mod(23, 10), 3);
    assert_eq!(signed_mod(-20, 10), 0);
    let a = Angle::reduce(25, 8);
    assert_eq!((a.num, a.den), (1, 8));
    let n = Angle { num: 3, den: 8 }.negate();
    assert_eq!((n.num, n.den), (5, 8));
    assert_eq!(Angle::zero().negate(), Angle::zero());
    let r = Ratio::new(1, 2);
    assert_eq!((r.num, r.den), (1, 2));
}

#[test]
fn rates_samples_per_symbol() {
    let r = Rates::new(220, 10000);
    assert_eq!(r.baud_rate, 220);
    assert_eq!(r.sample_rate, 10000);
    assert_eq!(r.samples_per_symbol, 45);
}

#[test]
fn freq_accessors() {
    let f = Freq::new(900, 10000);
    assert_eq!(f.hz(), 900);
    assert_eq!(f.sr(), 10000);
}

#[test]
fn modulator_stream() {
    // BPSK over bits [1, 0], two samples per symbol, carrier 1 kHz at
    // 10 kHz: four samples, then end of stream.
    let carrier = Carrier::new(Freq::new(1000, 10000));
    let phasor = BPSK::new(Angle { num: 0, den: 1 });
    let data = Bits::new(vec![1, 0], 2, 1);
    let mut m = DigitalModulator::new(carrier, phasor, data);

    let s = m.next().unwrap();
    assert_eq!((s.phase.num, s.phase.den), (0, 10000));
    assert_eq!(s.point.x, 1);

    let s = m.next().unwrap();
    assert_eq!((s.phase.num, s.phase.den), (1000, 10000));
    assert_eq!(s.point.x, 1);

    let s = m.next().unwrap();
    assert_eq!((s.phase.num, s.phase.den), (2000, 10000));
    assert_eq!(s.point.x, -1);

    let s = m.next().unwrap();
    assert_eq!((s.phase.num, s.phase.den), (3000, 10000));
    assert_eq!(s.point.x, -1);

    assert!(m.next().is_none());

    // The carrier comes back with its counter intact, so a preamble and a
    // payload can share it.
    let c = m.into_carrier();
    assert_eq!(c.sample(), 5);
}

#[test]
fn modulator_empty_source_finishes_immediately() {
    let carrier = Carrier::new(Freq::new(1000, 10000));
    let phasor = BPSK::new(Angle { num: 0, den: 1 });
    let data = Bits::new(Vec::new(), 2, 1);
    let mut m = DigitalModulator::new(carrier, phasor, data);
    assert!(m.next().is_none());
    assert!(m.next().is_none());
}
