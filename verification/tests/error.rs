use midi_io::CodecError;
use midi_io::Error;
use midi_io::IoError;
use midi_io::MidiMessage;
use midi_io::NameError;
use midi_io::ParseError;
use midi_io::PlatformError;
use midi_io::RawMidiMessage;
use midi_io::SysExError;
use midi_io::ValueError;

fn nul_error() -> NameError {
    midi_io::name::Name::try_from("a\0b").unwrap_err()
}

#[test]
fn error_is_clone_and_partial_eq() {
    let s1: Error = CodecError::SysexTooLong { len: 100, max: 50 }.into();
    let s2: Error = CodecError::SysexTooLong { len: 100, max: 50 }.into();
    assert_eq!(s1.clone(), s2);

    let p1: Error = CodecError::Parse {
        reason: ParseError::Empty,
        bytes: vec![],
    }
    .into();
    let p2: Error = CodecError::Parse {
        reason: ParseError::Empty,
        bytes: vec![],
    }
    .into();
    assert_eq!(p1.clone(), p2);

    let u1: Error = CodecError::Unparseable(RawMidiMessage::from_slice(&[0xF4])).into();
    let u2: Error = CodecError::Unparseable(RawMidiMessage::from_slice(&[0xF4])).into();
    assert_eq!(u1.clone(), u2);

    let e1: Error = IoError::InvalidName(nul_error()).into();
    let e2: Error = IoError::InvalidName(nul_error()).into();
    assert_eq!(e1.clone(), e2);

    let c1: Error = IoError::Platform(PlatformError::Send(-1)).into();
    let c2: Error = IoError::Platform(PlatformError::Send(-1)).into();
    assert_eq!(c1.clone(), c2);
}

#[test]
fn name_error_display() {
    assert_eq!(nul_error().to_string(), "name contains NUL byte");
}

#[test]
fn error_display() {
    let sysex: Error = CodecError::SysexTooLong { len: 100, max: 50 }.into();
    assert_eq!(sysex.to_string(), "sysex too long: 100 bytes (max 50)");

    let parse: Error = CodecError::Parse {
        reason: ParseError::Empty,
        bytes: vec![],
    }
    .into();
    assert_eq!(
        parse.to_string(),
        "failed to parse MIDI message: empty message (bytes: [])"
    );

    let unparseable: Error =
        CodecError::Unparseable(RawMidiMessage::from_slice(&[0x90, 0x3c])).into();
    assert_eq!(
        unparseable.to_string(),
        "unparseable MIDI message: [90, 3c]"
    );

    let invalid: Error = IoError::InvalidName(nul_error()).into();
    assert_eq!(invalid.to_string(), "invalid name: name contains NUL byte");

    let overflow: Error = IoError::InboundOverflow { dropped: 42 }.into();
    assert_eq!(
        overflow.to_string(),
        "inbound stream overflow - 42 message(s) dropped"
    );
}

#[test]
fn unparseable_returns_offending_bytes() {
    let raw = RawMidiMessage::from_slice(&[0xF4, 0x05]);
    let err = MidiMessage::try_from(raw).unwrap_err();
    let CodecError::Unparseable(returned) = err else {
        panic!("expected Unparseable, got {err:?}");
    };
    assert_eq!(&*returned, &[0xF4, 0x05]);
}

#[test]
fn parse_error_text_lists_bytes_in_hex() {
    let parse: Error = CodecError::Parse {
        reason: ParseError::DataByteOutOfRange,
        bytes: vec![0x90, 0x80, 0x0F],
    }
    .into();
    assert_eq!(
        parse.to_string(),
        "failed to parse MIDI message: data byte with high bit set (bytes: [90, 80, 0f])"
    );
}

#[test]
fn value_error_text() {
    assert_eq!(
        ValueError::DataByte(200).to_string(),
        "200 is not a 7-bit MIDI data value (0..=127)"
    );
    assert_eq!(
        ValueError::ChannelIndex(16).to_string(),
        "16 is not a MIDI channel index (0..=15)"
    );
    assert_eq!(
        ValueError::ChannelNumber(0).to_string(),
        "0 is not a MIDI channel number (1..=16)"
    );
    assert_eq!(
        ValueError::PitchBend(-8193).to_string(),
        "-8193 is out of MIDI pitch-bend range"
    );
    assert_eq!(
        ValueError::SongPosition(16384).to_string(),
        "16384 is not a 14-bit MIDI song-position value (0..=16383)"
    );
}

#[test]
fn io_and_platform_error_text() {
    assert_eq!(IoError::PortNotFound.to_string(), "port not found");
    assert_eq!(IoError::PortDisconnected.to_string(), "port disconnected");
    assert_eq!(IoError::AlreadyConnected.to_string(), "port already connected");
    assert_eq!(
        IoError::BackendThreadDied.to_string(),
        "platform backend thread terminated unexpectedly"
    );
    assert_eq!(
        IoError::BackendCommandChannelFull.to_string(),
        "command channel full - backend thread is not processing commands"
    );
    assert_eq!(
        IoError::Platform(PlatformError::ClientInit(-2)).to_string(),
        "client initialization failed: backend error code -2"
    );
    assert_eq!(
        PlatformError::ThreadInit.to_string(),
        "client initialization failed: IO thread initialization failed"
    );
    assert_eq!(
        PlatformError::Connect(i32::MIN).to_string(),
        "connect failed: backend error code -2147483648"
    );
    assert_eq!(
        PlatformError::Encode.to_string(),
        "send failed: MIDI encoder produced no event for valid input"
    );
    assert_eq!(
        PlatformError::VirtualPortCreate(17).to_string(),
        "virtual port creation failed: backend error code 17"
    );
    let e: Error = SysExError::EmptyBody.into();
    assert_eq!(e.to_string(), "sysex has no body byte between 0xF0 and 0xF7");
    let v: Error = ValueError::ChannelIndex(20).into();
    assert_eq!(v, Error::Value(ValueError::ChannelIndex(20)));
}
