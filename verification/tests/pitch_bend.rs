use midi_io::PitchBend;
use midi_io::ValueError;

#[test]
fn pitch_bend_center_is_zero_signed() {
    let center = PitchBend::from_signed(0).unwrap();
    assert_eq!(center.raw(), 8192);
    assert_eq!(center.signed(), 0);
    assert_eq!(center.lsb(), 0);
    assert_eq!(center.msb(), 64);
}

#[test]
fn pitch_bend_signed_roundtrip() {
    for value in [-8192i16, -4096, -1, 0, 1, 4096, 8191] {
        assert_eq!(PitchBend::from_signed(value).unwrap().signed(), value);
    }
}

#[test]
fn pitch_bend_from_signed_rejects_out_of_range() {
    assert_eq!(
        PitchBend::from_signed(-8192).map(PitchBend::signed),
        Ok(-8192)
    );
    assert_eq!(
        PitchBend::from_signed(8191).map(PitchBend::signed),
        Ok(8191)
    );
    assert_eq!(
        PitchBend::from_signed(8192),
        Err(ValueError::PitchBend(8192))
    );
    assert_eq!(
        PitchBend::from_signed(-8193),
        Err(ValueError::PitchBend(-8193))
    );
    assert_eq!(
        PitchBend::from_signed(i16::MAX),
        Err(ValueError::PitchBend(32767))
    );
    assert_eq!(
        PitchBend::from_signed(i16::MIN),
        Err(ValueError::PitchBend(-32768))
    );
}

#[test]
fn pitch_bend_try_from_rejects_out_of_range() {
    assert_eq!(PitchBend::try_from(0).map(PitchBend::raw), Ok(0));
    assert_eq!(PitchBend::try_from(0x3FFF).map(PitchBend::raw), Ok(0x3FFF));
    assert_eq!(
        PitchBend::try_from(0x4000),
        Err(ValueError::PitchBend(0x4000))
    );
    assert_eq!(
        PitchBend::try_from(0xFFFF),
        Err(ValueError::PitchBend(0xFFFF))
    );
}

#[test]
fn pitch_bend_is_two_bytes() {
    assert_eq!(std::mem::size_of::<PitchBend>(), 2);
}

#[test]
fn pitch_bend_bytes_recombine() {
    let b = PitchBend::try_from(0x2A55).unwrap();
    assert_eq!(b.lsb(), 0x55);
    assert_eq!(b.msb(), 0x54);
    assert_eq!(((b.msb() as u16) << 7) | b.lsb() as u16, 0x2A55);
}

#[test]
fn pitch_bend_text_is_signed_value() {
    assert_eq!(PitchBend::from_signed(-8192).unwrap().to_string(), "-8192");
    assert_eq!(PitchBend::from_signed(0).unwrap().to_string(), "0");
    assert_eq!(PitchBend::from_signed(8191).unwrap().to_string(), "8191");
}
