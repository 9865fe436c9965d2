use midi_io::name::Name;
use midi_io::NameError;

#[test]
fn try_from_rejects_interior_nul() {
    assert!(matches!(
        Name::try_from("bad\0name"),
        Err(NameError::ContainsNul { .. })
    ));
}

#[test]
fn try_from_rejects_leading_and_trailing_nul() {
    assert!(Name::try_from("\0name").is_err());
    assert!(Name::try_from("name\0").is_err());
}

#[test]
fn as_str_round_trips() {
    let name = Name::try_from("midi-io client").expect("valid name");
    assert_eq!(name.as_str(), "midi-io client");
}

#[test]
fn as_str_round_trips_non_ascii_utf8() {
    let name = Name::try_from("sinté 🎹").expect("valid name");
    assert_eq!(name.as_str(), "sinté 🎹");
}

#[test]
fn nul_position_is_byte_offset_of_first_nul() {
    assert_eq!(
        Name::try_from("bad\0na\0me").unwrap_err(),
        NameError::ContainsNul { position: 3 }
    );
    assert_eq!(
        Name::try_from("é\0").unwrap_err(),
        NameError::ContainsNul { position: 2 }
    );
}
