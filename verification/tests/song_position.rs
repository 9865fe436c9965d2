use midi_io::SongPosition;
use midi_io::ValueError;

#[test]
fn song_position_splits_into_bytes() {
    let pos = SongPosition::try_from(256).unwrap();
    assert_eq!(pos.get(), 256);
    assert_eq!(pos.lsb(), 0);
    assert_eq!(pos.msb(), 2);
}

#[test]
fn song_position_try_from_rejects_out_of_range() {
    assert_eq!(SongPosition::try_from(0).map(SongPosition::get), Ok(0));
    assert_eq!(
        SongPosition::try_from(0x3FFF).map(SongPosition::get),
        Ok(0x3FFF)
    );
    assert_eq!(
        SongPosition::try_from(0x4000),
        Err(ValueError::SongPosition(0x4000))
    );
    assert_eq!(
        SongPosition::try_from(0xFFFF),
        Err(ValueError::SongPosition(0xFFFF))
    );
}

#[test]
fn song_position_text_is_value() {
    assert_eq!(SongPosition::try_from(16383).unwrap().to_string(), "16383");
}
