use std::ops::Deref;

use midi_io::pitch_bend::PITCH_BEND_CENTER;
use midi_io::Channel;
use midi_io::CodecError;
use midi_io::DataByte;
use midi_io::MidiMessage;
use midi_io::PitchBend;
use midi_io::RawMidiMessage;
use midi_io::SongPosition;

fn roundtrip(msg: &MidiMessage) {
    let raw = RawMidiMessage::from(msg);
    let decoded = MidiMessage::try_from(raw).unwrap();
    assert_eq!(decoded, *msg, "roundtrip failed for {msg:?}");
}

#[test]
fn channel_voice_roundtrip() {
    for ch in (0..16u8).map(|i| Channel::from_index(i).unwrap()) {
        for (key, vel) in [(0u8, 1u8), (63, 100), (127, 127)] {
            roundtrip(&MidiMessage::NoteOn {
                channel: ch,
                key: DataByte::try_from(key).unwrap(),
                velocity: DataByte::try_from(vel).unwrap(),
            });
        }
        for (key, vel) in [(0u8, 0u8), (63, 100), (127, 127)] {
            roundtrip(&MidiMessage::NoteOff {
                channel: ch,
                key: DataByte::try_from(key).unwrap(),
                velocity: DataByte::try_from(vel).unwrap(),
            });
        }

        for (ctl, val) in [(0u8, 0u8), (64, 64), (127, 127)] {
            roundtrip(&MidiMessage::ControlChange {
                channel: ch,
                controller: DataByte::try_from(ctl).unwrap(),
                value: DataByte::try_from(val).unwrap(),
            });
        }

        for val in [0u8, 64, 127] {
            roundtrip(&MidiMessage::ProgramChange {
                channel: ch,
                program: DataByte::try_from(val).unwrap(),
            });
            roundtrip(&MidiMessage::ChannelPressure {
                channel: ch,
                pressure: DataByte::try_from(val).unwrap(),
            });
        }

        for (key, pres) in [(0u8, 0u8), (63, 64), (127, 127)] {
            roundtrip(&MidiMessage::PolyKeyPressure {
                channel: ch,
                key: DataByte::try_from(key).unwrap(),
                pressure: DataByte::try_from(pres).unwrap(),
            });
        }
    }
}

#[test]
fn note_on_velocity_zero_decodes_as_note_off() {
    let raw = RawMidiMessage::from(&MidiMessage::NoteOn {
        channel: Channel::Ch1,
        key: DataByte::try_from(60).unwrap(),
        velocity: DataByte::try_from(0).unwrap(),
    });
    assert_eq!(&*raw, &[0x90, 60, 0]);
    assert_eq!(
        MidiMessage::try_from(raw).unwrap(),
        MidiMessage::NoteOff {
            channel: Channel::Ch1,
            key: DataByte::try_from(60).unwrap(),
            velocity: DataByte::try_from(0).unwrap(),
        }
    );
}

#[test]
fn pitch_bend_roundtrip_boundaries() {
    for value in [-PITCH_BEND_CENTER, -4096, -1, 0, 1, PITCH_BEND_CENTER - 1] {
        roundtrip(&MidiMessage::PitchBend {
            channel: Channel::Ch1,
            value: PitchBend::from_signed(value).unwrap(),
        });
    }
}

#[test]
fn system_common_one_byte() {
    for msg in [
        MidiMessage::TimingClock,
        MidiMessage::Start,
        MidiMessage::Continue,
        MidiMessage::Stop,
        MidiMessage::ActiveSensing,
        MidiMessage::Reset,
        MidiMessage::TuneRequest,
    ] {
        roundtrip(&msg);
    }
}

#[test]
fn system_common_two_byte() {
    for val in [0u8, 3, 7] {
        roundtrip(&MidiMessage::MtcQuarterFrame(
            DataByte::try_from(val).unwrap(),
        ));
    }

    for val in [0u8, 42, 127] {
        roundtrip(&MidiMessage::SongSelect(DataByte::try_from(val).unwrap()));
    }
}

#[test]
fn system_common_three_byte() {
    for pos in [0u16, 8191, 16383] {
        roundtrip(&MidiMessage::SongPositionPointer(
            SongPosition::try_from(pos).unwrap(),
        ));
    }
}

#[test]
fn encoding_produces_legal_data_bytes() {
    let msg = MidiMessage::NoteOn {
        channel: Channel::Ch1,
        key: DataByte::try_from(127).unwrap(),
        velocity: DataByte::try_from(127).unwrap(),
    };
    let raw = RawMidiMessage::from(&msg);
    assert_eq!(&*raw, &[0x90, 0x7F, 0x7F]);
    assert!(raw[1..].iter().all(|&b| b <= 0x7F));
}

#[test]
fn try_from_raw_unparseable_returns_bytes() {
    let raw = RawMidiMessage::from_slice(&[0xF4, 0x05]);
    let err = MidiMessage::try_from(raw).unwrap_err();
    let CodecError::Unparseable(returned) = err else {
        panic!("expected Unparseable, got {err:?}");
    };
    assert_eq!(&*returned, &[0xF4, 0x05]);
}

#[test]
fn from_slice_accepts_arbitrary_bytes() {
    let raw = RawMidiMessage::from_slice(&[0xF4, 0x90, 0xFF]);
    assert_eq!(&*raw, &[0xF4, 0x90, 0xFF]);
}

#[test]
fn from_slice_truncates_to_three() {
    let raw = RawMidiMessage::from_slice(&[0x90, 60, 100, 200]);
    assert_eq!(&*raw, &[0x90, 60, 100]);
}

#[test]
fn zero_value_deref_empty() {
    let raw = RawMidiMessage::from_slice(&[]);
    assert_eq!(raw.deref().len(), 0);
}

#[test]
fn encoding_places_channel_in_status() {
    let raw = RawMidiMessage::from(MidiMessage::ControlChange {
        channel: Channel::Ch16,
        controller: DataByte::try_from(1).unwrap(),
        value: DataByte::try_from(2).unwrap(),
    });
    assert_eq!(raw.as_slice(), &[0xBF, 1, 2]);
    let raw = RawMidiMessage::from(MidiMessage::PitchBend {
        channel: Channel::Ch3,
        value: PitchBend::try_from(0x3FFF).unwrap(),
    });
    assert_eq!(raw.as_slice(), &[0xE2, 0x7F, 0x7F]);
}

#[test]
fn raw_messages_compare_by_bytes() {
    assert_eq!(
        RawMidiMessage::from_slice(&[0xF8]),
        RawMidiMessage::from(MidiMessage::TimingClock)
    );
    assert_ne!(
        RawMidiMessage::from_slice(&[0xF8]),
        RawMidiMessage::from_slice(&[0xF8, 0x00])
    );
}

#[test]
fn message_text_names_kind_and_fields() {
    let on = MidiMessage::NoteOn {
        channel: Channel::Ch10,
        key: DataByte::try_from(60).unwrap(),
        velocity: DataByte::try_from(127).unwrap(),
    };
    assert_eq!(on.to_string(), "NoteOn ch=10 key=60 vel=127");
    let cc = MidiMessage::ControlChange {
        channel: Channel::Ch1,
        controller: DataByte::try_from(7).unwrap(),
        value: DataByte::try_from(0).unwrap(),
    };
    assert_eq!(cc.to_string(), "CC ch=1 ctrl=7 val=0");
    let bend = MidiMessage::PitchBend {
        channel: Channel::Ch2,
        value: PitchBend::from_signed(-100).unwrap(),
    };
    assert_eq!(bend.to_string(), "PitchBend ch=2 val=-100");
    let mtc = MidiMessage::MtcQuarterFrame(DataByte::try_from(5).unwrap());
    assert_eq!(mtc.to_string(), "MtcQuarterFrame 0x05");
    let spp = MidiMessage::SongPositionPointer(SongPosition::try_from(1000).unwrap());
    assert_eq!(spp.to_string(), "SongPosition 1000");
    assert_eq!(MidiMessage::ActiveSensing.to_string(), "ActiveSensing");
}
