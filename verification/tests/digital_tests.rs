use modem::angle::{Angle, Ratio};
use modem::digital::apsk::{verify_rings, Ring, APSK};
use modem::digital::bask::BASK;
use modem::digital::bfsk::BFSK;
use modem::digital::bpsk::BPSK;
use modem::digital::cpfsk::CPFSK;
use modem::digital::dcqpsk::DCQPSK;
use modem::digital::dmpsk::DMPSK;
use modem::digital::dqpsk::DQPSK;
use modem::digital::mfsk::{DefaultMap, IncreaseMap, SymbolMap, MFSK};
use modem::digital::mpsk::MPSK;
use modem::digital::msk::MSK;
use modem::digital::phasor::{DigitalPhasor, IqPoint};
use modem::digital::qam::QAM;
use modem::digital::qpsk::QPSK;
use modem::digital::util::{bit_to_sign, bytes_to_bits, max_symbol};
use modem::freq::Freq;
use modem::rates::Rates;

/// Evaluate a discrete point as the (I, Q) float pair it stands for, with
/// the given amplitude unit.
fn eval(p: &IqPoint, unit: f64) -> (f64, f64) {
    let t = 2.0 * std::f64::consts::PI * (p.angle.num as f64) / (p.angle.den as f64);
    let sc = unit * (p.scale.num as f64) / (p.scale.den as f64);
    let (x, y) = (p.x as f64, p.y as f64);
    (sc * (x * t.cos() - y * t.sin()), sc * (x * t.sin() + y * t.cos()))
}

fn zero() -> Angle {
    Angle { num: 0, den: 1 }
}

#[test]
fn digital_test_b2b() {
    assert_eq!(bytes_to_bits(&[0, 0, 0, 1]), 0b0001);
    assert_eq!(bytes_to_bits(&[0, 1, 0, 1]), 0b0101);
}

#[test]
fn util_test_b2b() {
    assert_eq!(bytes_to_bits(&[0, 0, 0, 1]), 0b0001);
    assert_eq!(bytes_to_bits(&[0, 1, 0, 1]), 0b0101);
}

#[test]
fn digital_test_max_symbol() {
    assert_eq!(max_symbol(1), 0b1);
    assert_eq!(max_symbol(2), 0b11);
    assert_eq!(max_symbol(4), 0b1111);
    assert_eq!(max_symbol(8), 0b11111111);
}

#[test]
fn util_test_max_symbol() {
    assert_eq!(max_symbol(1), 0b1);
    assert_eq!(max_symbol(2), 0b11);
    assert_eq!(max_symbol(4), 0b1111);
    assert_eq!(max_symbol(8), 0b11111111);
}

#[test]
fn digital_test_qam() {
    // QAM with 4 bits per symbol, zero phase, amplitude 6: the unit is
    // 6 / (2 * 3) == 1.
    let qam = QAM::new(4, zero());
    let unit = 6.0 / (2.0 * qam.max_symbol as f64);

    let (i, q) = eval(&qam.point(0, &[0, 0, 0, 0]), unit);
    assert_eq!(i, -3.0);
    assert_eq!(q, -3.0);

    let (i, q) = eval(&qam.point(0, &[0, 0, 0, 1]), unit);
    assert_eq!(i, -3.0);
    assert_eq!(q, -1.0);

    let (i, q) = eval(&qam.point(0, &[1, 0, 1, 1]), unit);
    assert_eq!(i, 1.0);
    assert_eq!(q, 3.0);

    let (i, q) = eval(&qam.point(0, &[1, 1, 1, 1]), unit);
    assert_eq!(i, 3.0);
    assert_eq!(q, 3.0);
}

#[test]
fn qam_test_qam() {
    let qam = QAM::new(4, zero());
    let unit = 6.0 / (2.0 * qam.max_symbol as f64);

    let (i, q) = eval(&qam.point(0, &[0, 0, 0, 0]), unit);
    assert_eq!(i, -3.0);
    assert_eq!(q, -3.0);

    let (i, q) = eval(&qam.point(0, &[0, 0, 0, 1]), unit);
    assert_eq!(i, -3.0);
    assert_eq!(q, -1.0);

    let (i, q) = eval(&qam.point(0, &[1, 0, 1, 1]), unit);
    assert_eq!(i, 1.0);
    assert_eq!(q, 3.0);

    let (i, q) = eval(&qam.point(0, &[1, 1, 1, 1]), unit);
    assert_eq!(i, 3.0);
    assert_eq!(q, 3.0);
}

#[test]
fn digital_test_mpsk() {
    let mpsk = MPSK::new(2, zero());

    let (i, q) = eval(&mpsk.point(0, &[0, 0]), 1.0);
    assert_eq!(i, 1.0);
    assert_eq!(q, 0.0);

    let (i, q) = eval(&mpsk.point(0, &[0, 1]), 1.0);
    assert!(i.abs() < 0.001);
    assert!((q - 1.0).abs() < 0.001);

    let (i, q) = eval(&mpsk.point(0, &[1, 0]), 1.0);
    assert_eq!(i, -1.0);
    assert!(q.abs() < 0.001);

    let (i, q) = eval(&mpsk.point(0, &[1, 1]), 1.0);
    assert!(i.abs() < 0.001);
    assert!((q - -1.0).abs() < 0.001);
}

#[test]
fn mpsk_test_mpsk() {
    let mpsk = MPSK::new(2, zero());

    let (i, q) = eval(&mpsk.point(0, &[0, 0]), 1.0);
    assert_eq!(i, 1.0);
    assert_eq!(q, 0.0);

    let (i, q) = eval(&mpsk.point(0, &[0, 1]), 1.0);
    assert!(i.abs() < 0.001);
    assert!((q - 1.0).abs() < 0.001);

    let (i, q) = eval(&mpsk.point(0, &[1, 0]), 1.0);
    assert_eq!(i, -1.0);
    assert!(q.abs() < 0.001);

    let (i, q) = eval(&mpsk.point(0, &[1, 1]), 1.0);
    assert!(i.abs() < 0.001);
    assert!((q - -1.0).abs() < 0.001);
}

#[test]
fn test_dqpsk() {
    let mut d = DQPSK::new(0);

    let close = |a: f64, b: f64| (a - b).abs() < 0.000001;

    let (i, q) = eval(&d.point(0, &[]), 1.0);
    assert!(close(i, 1.0) && close(q, 0.0));

    d.update(123, &[0, 0]);
    let (i, q) = eval(&d.point(0, &[]), 1.0);
    assert!(close(i, 1.0) && close(q, 0.0));

    d.update(123, &[0, 1]);
    let (i, q) = eval(&d.point(0, &[]), 1.0);
    assert!(close(i, 0.0) && close(q, 1.0));

    d.update(123, &[1, 0]);
    let (i, q) = eval(&d.point(0, &[]), 1.0);
    assert!(close(i, 0.0) && close(q, -1.0));

    d.update(123, &[1, 1]);
    let (i, q) = eval(&d.point(0, &[]), 1.0);
    assert!(close(i, -1.0) && close(q, 0.0));

    d.update(123, &[0, 0]);
    let (i, q) = eval(&d.point(0, &[]), 1.0);
    assert!(close(i, -1.0) && close(q, 0.0));

    d.update(123, &[0, 0]);
    let (i, q) = eval(&d.point(0, &[]), 1.0);
    assert!(close(i, -1.0) && close(q, 0.0));

    d.update(123, &[1, 1]);
    let (i, q) = eval(&d.point(0, &[]), 1.0);
    assert!(close(i, 0.0) && close(q, 1.0));
}

#[test]
fn test_dmpsk() {
    // Shift of a quarter turn (π/2), starting phase zero.
    let mut d = DMPSK::new(2, Angle { num: 1, den: 4 }, Angle { num: 0, den: 4 });

    let close = |a: f64, b: f64| (a - b).abs() < 0.000001;

    let (i, q) = eval(&d.point(0, &[]), 1.0);
    assert!(close(i, 1.0) && close(q, 0.0));

    d.update(123, &[0, 0]);
    let (i, q) = eval(&d.point(0, &[]), 1.0);
    assert!(close(i, 1.0) && close(q, 0.0));

    d.update(123, &[0, 1]);
    let (i, q) = eval(&d.point(0, &[]), 1.0);
    assert!(close(i, 0.0) && close(q, 1.0));

    d.update(123, &[1, 0]);
    let (i, q) = eval(&d.point(0, &[]), 1.0);
    assert!(close(i, 0.0) && close(q, -1.0));

    d.update(123, &[1, 1]);
    let (i, q) = eval(&d.point(0, &[]), 1.0);
    assert!(close(i, -1.0) && close(q, 0.0));

    d.update(123, &[0, 0]);
    let (i, q) = eval(&d.point(0, &[]), 1.0);
    assert!(close(i, -1.0) && close(q, 0.0));

    d.update(123, &[0, 0]);
    let (i, q) = eval(&d.point(0, &[]), 1.0);
    assert!(close(i, -1.0) && close(q, 0.0));

    d.update(123, &[1, 1]);
    let (i, q) = eval(&d.point(0, &[]), 1.0);
    assert!(close(i, 0.0) && close(q, 1.0));
}

#[test]
fn bpsk_antipodal_points() {
    let p = BPSK::new(zero());
    let (i, q) = eval(&p.point(0, &[0]), 1.0);
    assert_eq!((i, q), (-1.0, 0.0));
    let (i, q) = eval(&p.point(7, &[1]), 1.0);
    assert_eq!((i, q), (1.0, 0.0));
    assert_eq!(p.bits_per_symbol(), 1);
}

#[test]
fn bask_on_off_points() {
    let p = BASK::new();
    let (i, q) = eval(&p.point(0, &[0]), 2.0);
    assert_eq!((i, q), (0.0, 0.0));
    let (i, q) = eval(&p.point(0, &[1]), 2.0);
    assert_eq!((i, q), (2.0, 0.0));
}

#[test]
fn qpsk_corner_points() {
    let p = QPSK::new(zero());
    let unit = 1.0 / 2.0_f64.sqrt();
    let (i, q) = eval(&p.point(0, &[1, 0]), unit);
    assert!((i - unit).abs() < 1e-12);
    assert!((q - -unit).abs() < 1e-12);
    let (i, q) = eval(&p.point(0, &[1, 1]), unit);
    assert!((i - unit).abs() < 1e-12);
    assert!((q - unit).abs() < 1e-12);
}

#[test]
fn bit_sign_values() {
    assert_eq!(bit_to_sign(0), -1);
    assert_eq!(bit_to_sign(1), 1);
}

#[test]
fn bfsk_phase_continuity_at_boundaries() {
    // Deviation 200 Hz at 10 kHz.  Switching 0 -> 1 at sample 5 adjusts the
    // accumulator so the phase at sample 5 is unchanged.
    let mut p = BFSK::new(Freq::new(200, 10000));
    let before = p.point(5, &[0]).angle;
    p.update(5, &[1]);
    assert_eq!(p.phase_num, 9000);
    let after = p.point(5, &[1]).angle;
    assert_eq!(before, after);

    // Switching 1 -> 0 at sample 8 keeps the phase of sample 7, the last
    // sample the tone produced.
    let before = p.point(7, &[1]).angle;
    p.update(8, &[0]);
    let after = p.point(7, &[0]).angle;
    assert_eq!(before, after);
}

#[test]
fn mfsk_phase_continuity_at_boundary() {
    let mut p = MFSK::new(4, Freq::new(50, 10000), IncreaseMap);
    let before = p.point(40, &[0, 0, 1, 0]).angle;
    p.update(40, &[0, 0, 1, 0]);
    let after = p.point(40, &[0, 0, 1, 0]).angle;
    assert_eq!(before, after);
    assert_eq!(p.cur_coef, 4);
}

#[test]
fn mfsk_default_map_coefficients() {
    let m = DefaultMap::new(4);
    assert_eq!(m.coef(0), -15);
    assert_eq!(m.coef(15), 15);
    assert_eq!(IncreaseMap.coef(3), 6);
}

#[test]
fn msk_quarter_ramp() {
    // samples_per_symbol 4, so one turn is 8 samples.  Equal bits run the
    // ramp backwards.
    let p = MSK::new(4);
    let pt = p.point(1, &[1, 1]);
    assert_eq!(pt.angle.num, 7);
    assert_eq!(pt.angle.den, 8);
    let (i, q) = eval(&pt, 1.0);
    assert!((i - (std::f64::consts::FRAC_PI_4).cos()).abs() < 1e-9);
    assert!((q - -(std::f64::consts::FRAC_PI_4).sin()).abs() < 1e-9);
}

#[test]
fn cpfsk_tone_spacing() {
    // deviation 1, baud 220: tone spacing 110 Hz at 10 kHz.
    let p = CPFSK::new(4, Rates::new(220, 10000), 1);
    assert_eq!(p.f_hz, 110);
    let pt = p.point(1, &[0, 0, 0, 1]);
    assert_eq!(pt.angle.num, 220);
    assert_eq!(pt.angle.den, 10000);
}

#[test]
fn dcqpsk_alternating_offset() {
    let mut p = DCQPSK::new();
    assert_eq!(p.point(0, &[0, 1]).angle, Angle { num: 2, den: 8 });
    p.update(1, &[0, 1]);
    assert_eq!(p.point(0, &[0, 1]).angle, Angle { num: 3, den: 8 });
    p.update(2, &[0, 1]);
    assert_eq!(p.point(0, &[0, 1]).angle, Angle { num: 2, den: 8 });
}

#[test]
fn apsk_rings() {
    let rings = vec![
        Ring::new(0, 4, Ratio::new(1, 2), Angle { num: 1, den: 8 }),
        Ring::new(4, 16, Ratio::new(1, 1), Angle { num: 1, den: 24 }),
    ];
    assert!(verify_rings(&rings, 4));
    let p = APSK::new(4, rings);

    // Symbol 5 sits in the outer ring at position 1 of 12:
    // angle 1/12 + 1/24 == 1/8 of a turn, radius 1.
    let pt = p.point(0, &[0, 1, 0, 1]);
    let (i, q) = eval(&pt, 1.0);
    assert!((i - (std::f64::consts::FRAC_PI_4).cos()).abs() < 1e-9);
    assert!((q - (std::f64::consts::FRAC_PI_4).sin()).abs() < 1e-9);

    // Symbol 0 sits in the inner ring at radius 1/2, phase 1/8 turn.
    let pt = p.point(0, &[0, 0, 0, 0]);
    let (i, q) = eval(&pt, 1.0);
    assert!((i - 0.5 * (std::f64::consts::FRAC_PI_4).cos()).abs() < 1e-9);
    assert!((q - 0.5 * (std::f64::consts::FRAC_PI_4).sin()).abs() < 1e-9);
}

#[test]
fn apsk_rejects_bad_rings() {
    let gap = vec![
        Ring::new(0, 4, Ratio::new(1, 2), Angle { num: 0, den: 1 }),
        Ring::new(5, 16, Ratio::new(1, 1), Angle { num: 0, den: 1 }),
    ];
    assert!(!verify_rings(&gap, 4));

    let short = vec![Ring::new(0, 4, Ratio::new(1, 2), Angle { num: 0, den: 1 })];
    assert!(!verify_rings(&short, 4));
    assert!(!verify_rings(&Vec::new(), 4));
}

#[test]
fn qam256_corner() {
    let qam = QAM::new(8, zero());
    assert_eq!(qam.max_symbol, 15);
    let pt = qam.point(0, &[1, 1, 1, 1, 1, 1, 1, 1]);
    assert_eq!((pt.x, pt.y), (15, 15));
    let pt = qam.point(0, &[0, 0, 0, 0, 0, 0, 0, 0]);
    assert_eq!((pt.x, pt.y), (-15, -15));
}

#[test]
fn mpsk_with_phase_offset() {
    let mpsk = MPSK::new(2, Angle { num: 1, den: 8 });
    let pt = mpsk.point(0, &[0, 0]);
    assert_eq!(pt.angle.num * 8, pt.angle.den); // 1/8 of a turn
    let (i, q) = eval(&pt, 1.0);
    assert!((i - (std::f64::consts::FRAC_PI_4).cos()).abs() < 1e-9);
    assert!((q - (std::f64::consts::FRAC_PI_4).sin()).abs() < 1e-9);
}
