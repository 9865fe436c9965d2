use midi_io::DataByte;
use midi_io::ValueError;

#[test]
fn data_byte_try_from_rejects_high_bit() {
    assert_eq!(DataByte::try_from(0).map(DataByte::get), Ok(0));
    assert_eq!(DataByte::try_from(127).map(DataByte::get), Ok(127));
    assert_eq!(DataByte::try_from(128), Err(ValueError::DataByte(128)));
    assert_eq!(DataByte::try_from(0xFF), Err(ValueError::DataByte(0xFF)));
}

#[test]
fn data_byte_is_one_byte() {
    assert_eq!(std::mem::size_of::<DataByte>(), 1);
}

#[test]
fn data_byte_converts_back_to_u8() {
    let d = DataByte::try_from(99).unwrap();
    assert_eq!(u8::from(d), 99);
    assert_eq!(d.to_string(), "99");
}
