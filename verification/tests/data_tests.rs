use modem::data::{
    is_valid_ascii_stream, AsciiBits, Bits, EvenOddOffset, Source, SourceUpdate, SymbolClock,
};

#[test]
fn test_symbol_clock() {
    let mut bc = SymbolClock::new(5);

    assert!(bc.next());
    assert!(!bc.next());
    assert!(!bc.next());
    assert!(!bc.next());
    assert!(!bc.next());
    assert!(bc.next());
    assert!(!bc.next());
    assert!(!bc.next());
    assert!(!bc.next());
    assert!(!bc.next());
    assert!(bc.next());
}

#[test]
fn test_bits() {
    let mut ds = Bits::new(vec![1, 0, 1, 1], 3, 2);

    assert!(ds.next() == SourceUpdate::Changed(vec![1, 0]));
    assert!(ds.next() == SourceUpdate::Unchanged(vec![1, 0]));
    assert!(ds.next() == SourceUpdate::Unchanged(vec![1, 0]));
    assert!(ds.next() == SourceUpdate::Changed(vec![1, 1]));
    assert!(ds.next() == SourceUpdate::Unchanged(vec![1, 1]));
    assert!(ds.next() == SourceUpdate::Unchanged(vec![1, 1]));
    assert!(ds.next() == SourceUpdate::Finished);
}

#[test]
fn test_evenodd() {
    let ds = Bits::new(vec![1, 1, 1, 0, 0, 1], 4, 2);
    let mut eo = EvenOddOffset::new(ds, 4, 2);

    assert!(eo.next() == SourceUpdate::Changed(vec![1, 0]));
    assert!(eo.next() == SourceUpdate::Unchanged(vec![1, 0]));
    assert!(eo.next() == SourceUpdate::Changed(vec![1, 1]));
    assert!(eo.next() == SourceUpdate::Unchanged(vec![1, 1]));
    assert!(eo.next() == SourceUpdate::Changed(vec![1, 1]));
    assert!(eo.next() == SourceUpdate::Unchanged(vec![1, 1]));
    assert!(eo.next() == SourceUpdate::Changed(vec![1, 0]));
    assert!(eo.next() == SourceUpdate::Unchanged(vec![1, 0]));
    assert!(eo.next() == SourceUpdate::Changed(vec![0, 0]));
    assert!(eo.next() == SourceUpdate::Unchanged(vec![0, 0]));
    assert!(eo.next() == SourceUpdate::Changed(vec![0, 1]));
    assert!(eo.next() == SourceUpdate::Unchanged(vec![0, 1]));
    assert!(eo.next() == SourceUpdate::Finished);
}

#[test]
fn test_ascii() {
    let stream = b"000\n111\n101".to_vec();
    assert!(is_valid_ascii_stream(&stream));

    {
        let mut a = AsciiBits::new(stream.clone(), 1, 3);

        assert!(a.read_bits());
        assert!(a.read_bits());
        assert!(a.read_bits());
        assert!(!a.read_bits());
    }

    {
        let mut a = AsciiBits::new(stream, 2, 3);

        assert!(a.next() == SourceUpdate::Changed(vec![0, 0, 0]));
        assert!(a.next() == SourceUpdate::Unchanged(vec![0, 0, 0]));
        assert!(a.next() == SourceUpdate::Changed(vec![1, 1, 1]));
        assert!(a.next() == SourceUpdate::Unchanged(vec![1, 1, 1]));
        assert!(a.next() == SourceUpdate::Changed(vec![1, 0, 1]));
        assert!(a.next() == SourceUpdate::Unchanged(vec![1, 0, 1]));
        assert!(a.next() == SourceUpdate::Finished);
    }
}

#[test]
fn ascii_rejects_non_binary_bytes() {
    assert!(is_valid_ascii_stream(b"0 1\t1\r\n0"));
    assert!(!is_valid_ascii_stream(b"01x0"));
    assert!(!is_valid_ascii_stream(b"2"));
    assert!(is_valid_ascii_stream(b""));
}

#[test]
fn ascii_single_bit_groups() {
    let mut a = AsciiBits::new(b" 1 0 ".to_vec(), 1, 1);
    assert!(a.next() == SourceUpdate::Changed(vec![1]));
    assert!(a.next() == SourceUpdate::Changed(vec![0]));
    assert!(a.next() == SourceUpdate::Finished);
    assert!(a.next() == SourceUpdate::Finished);
}

#[test]
fn bits_partial_group_is_dropped() {
    let mut ds = Bits::new(vec![1, 0, 1], 1, 2);
    assert!(ds.next() == SourceUpdate::Changed(vec![1, 0]));
    assert!(ds.next() == SourceUpdate::Finished);
    assert!(ds.next() == SourceUpdate::Finished);
}

#[test]
fn clock_tick_ceiling() {
    // Over 7 calls of a period-3 clock, exactly ceil(7 / 3) == 3 ticks.
    let mut bc = SymbolClock::new(3);
    let mut ticks: usize = 0;
    for _ in 0..7 {
        if bc.next() {
            ticks += 1;
        }
    }
    assert_eq!(ticks, 3);
}

#[test]
fn evenodd_changed_spacing() {
    // 6 bits, samples_per_symbol 4 (m == 2): 6 Changed updates, at every
    // second sample, over 12 samples.
    let ds = Bits::new(vec![1, 1, 1, 0, 0, 1], 4, 2);
    let mut eo = EvenOddOffset::new(ds, 4, 2);
    let mut changed_at: Vec<usize> = Vec::new();
    for j in 0..12 {
        match eo.next() {
            SourceUpdate::Changed(_) => changed_at.push(j),
            SourceUpdate::Unchanged(_) => {}
            SourceUpdate::Finished => panic!("finished early"),
        }
    }
    assert_eq!(changed_at, vec![0, 2, 4, 6, 8, 10]);
    assert!(eo.next() == SourceUpdate::Finished);
}
