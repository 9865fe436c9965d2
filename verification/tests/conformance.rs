use midi_io::alsa_event::message_from_event;
use midi_io::alsa_event::Addr;
use midi_io::alsa_event::EvCtrl;
use midi_io::alsa_event::EvNote;
use midi_io::alsa_event::SeqEvent;
use midi_io::alsa_registry::AlsaPortKey;
use midi_io::alsa_registry::DeliveryTarget;
use midi_io::alsa_registry::PortRegistry;
use midi_io::decode;
use midi_io::stream_parser::DecodedEvent;
use midi_io::stream_parser::StreamParser;
use midi_io::Channel;
use midi_io::DataByte;
use midi_io::Decoded;
use midi_io::MidiMessage;
use midi_io::PitchBend;
use midi_io::SongPosition;
use midi_io::SysEx;

const SYSEX_FRAME: [u8; 5] = [0xF0, 0x01, 0x02, 0x03, 0xF7];
const SYSEX_BODY: [u8; 3] = [0x01, 0x02, 0x03];

fn channel_voice() -> Vec<(Vec<u8>, MidiMessage)> {
    vec![
        (
            vec![0x90, 60, 100],
            MidiMessage::NoteOn {
                channel: Channel::Ch1,
                key: DataByte::try_from(60).unwrap(),
                velocity: DataByte::try_from(100).unwrap(),
            },
        ),
        (
            vec![0x81, 62, 64],
            MidiMessage::NoteOff {
                channel: Channel::Ch2,
                key: DataByte::try_from(62).unwrap(),
                velocity: DataByte::try_from(64).unwrap(),
            },
        ),
        (
            vec![0xA3, 64, 30],
            MidiMessage::PolyKeyPressure {
                channel: Channel::Ch4,
                key: DataByte::try_from(64).unwrap(),
                pressure: DataByte::try_from(30).unwrap(),
            },
        ),
        (
            vec![0xB0, 7, 127],
            MidiMessage::ControlChange {
                channel: Channel::Ch1,
                controller: DataByte::try_from(7).unwrap(),
                value: DataByte::try_from(127).unwrap(),
            },
        ),
        (
            vec![0xC5, 42],
            MidiMessage::ProgramChange {
                channel: Channel::Ch6,
                program: DataByte::try_from(42).unwrap(),
            },
        ),
        (
            vec![0xD7, 55],
            MidiMessage::ChannelPressure {
                channel: Channel::Ch8,
                pressure: DataByte::try_from(55).unwrap(),
            },
        ),
        (
            vec![0xE0, 0x00, 0x40],
            MidiMessage::PitchBend {
                channel: Channel::Ch1,
                value: PitchBend::try_from(8192).unwrap(),
            },
        ),
        (
            vec![0xE2, 0x7F, 0x7F],
            MidiMessage::PitchBend {
                channel: Channel::Ch3,
                value: PitchBend::try_from(0x3FFF).unwrap(),
            },
        ),
    ]
}

fn system() -> Vec<(Vec<u8>, MidiMessage)> {
    vec![
        (
            vec![0xF1, 0x35],
            MidiMessage::MtcQuarterFrame(DataByte::try_from(0x35).unwrap()),
        ),
        (
            vec![0xF2, 0x68, 0x07],
            MidiMessage::SongPositionPointer(SongPosition::try_from(1000).unwrap()),
        ),
        (
            vec![0xF3, 0x12],
            MidiMessage::SongSelect(DataByte::try_from(0x12).unwrap()),
        ),
        (vec![0xF6], MidiMessage::TuneRequest),
        (vec![0xF8], MidiMessage::TimingClock),
        (vec![0xFA], MidiMessage::Start),
        (vec![0xFB], MidiMessage::Continue),
        (vec![0xFC], MidiMessage::Stop),
        (vec![0xFE], MidiMessage::ActiveSensing),
        (vec![0xFF], MidiMessage::Reset),
    ]
}

fn all() -> Vec<(Vec<u8>, MidiMessage)> {
    let mut v = channel_voice();
    v.extend(system());
    v
}

/// The sequencer event the ALSA MIDI event encoder makes of a complete
/// message, without running status.
fn sequencer_event(bytes: &[u8]) -> SeqEvent {
    let status = bytes[0];
    let channel = status & 0x0F;
    let d1 = bytes.get(1).copied().unwrap_or(0);
    let d2 = bytes.get(2).copied().unwrap_or(0);
    let note = |note, velocity| EvNote {
        channel,
        note,
        velocity,
        off_velocity: 0,
        duration: 0,
    };
    let ctrl = |param: u32, value: i32| EvCtrl {
        channel,
        param,
        value,
    };
    match status & 0xF0 {
        0x80 => SeqEvent::Noteoff(note(d1, d2)),
        0x90 => SeqEvent::Noteon(note(d1, d2)),
        0xA0 => SeqEvent::Keypress(note(d1, d2)),
        0xB0 => SeqEvent::Controller(ctrl(d1 as u32, d2 as i32)),
        0xC0 => SeqEvent::Pgmchange(ctrl(0, d1 as i32)),
        0xD0 => SeqEvent::Chanpress(ctrl(0, d1 as i32)),
        0xE0 => SeqEvent::Pitchbend(ctrl(0, ((d2 as i32) << 7 | d1 as i32) - 8192)),
        _ => {
            let sys = |value: i32| EvCtrl {
                channel: 0,
                param: 0,
                value,
            };
            match status {
                0xF1 => SeqEvent::Qframe(sys(d1 as i32)),
                0xF2 => SeqEvent::Songpos(sys((d2 as i32) << 7 | d1 as i32)),
                0xF3 => SeqEvent::Songsel(sys(d1 as i32)),
                0xF6 => SeqEvent::TuneRequest,
                0xF8 => SeqEvent::Clock,
                0xFA => SeqEvent::Start,
                0xFB => SeqEvent::Continue,
                0xFC => SeqEvent::Stop,
                0xFE => SeqEvent::Sensing,
                0xFF => SeqEvent::Reset,
                _ => SeqEvent::Other,
            }
        }
    }
}

#[test]
fn conformance_decode_matches_corpus() {
    for (bytes, expected) in all() {
        match decode(&bytes) {
            Ok(Decoded::Message(m)) => assert_eq!(m, expected, "decode {bytes:02X?}"),
            other => panic!("expected message for {bytes:02X?}, got {other:?}"),
        }
    }
}

#[test]
fn conformance_stream_parser_matches_corpus() {
    for (bytes, expected) in all() {
        let mut parser = StreamParser::new();
        let events = parser.push(&bytes);
        assert_eq!(events.len(), 1, "one event for {bytes:02X?}");
        match events.into_iter().next().unwrap() {
            DecodedEvent::Message(m) => assert_eq!(m, expected, "stream parser {bytes:02X?}"),
            DecodedEvent::Sysex(_) => panic!("expected message for {bytes:02X?}, got sysex"),
            DecodedEvent::Error(e) => {
                panic!("expected message for {bytes:02X?}, got error {e:?}")
            }
        }
    }
}

#[test]
fn conformance_sysex_decode_and_stream_parser_agree() {
    let body = match decode(&SYSEX_FRAME) {
        Ok(Decoded::SysEx(s)) => s,
        other => panic!("decode sysex: {other:?}"),
    };
    assert_eq!(body.bytes(), &SYSEX_BODY);

    let mut got = Vec::new();
    let mut parser = StreamParser::new();
    for e in parser.push(&SYSEX_FRAME) {
        if let DecodedEvent::Sysex(s) = e {
            got.push(s);
        }
    }
    assert_eq!(got, vec![SysEx::try_from(SYSEX_FRAME.as_slice()).unwrap()]);
}

#[test]
fn conformance_message_from_event_matches_corpus() {
    for (bytes, expected) in all() {
        let ev = sequencer_event(&bytes);
        let msg = message_from_event(&ev)
            .unwrap_or_else(|| panic!("message_from_event None for {bytes:02X?}"))
            .unwrap_or_else(|e| panic!("message_from_event Err {e:?} for {bytes:02X?}"));
        assert_eq!(msg, expected, "alsa decode {bytes:02X?}");
    }
}

#[test]
fn conformance_sysex_push_matches_codec_body() {
    let mut reg = PortRegistry::new();
    let key = AlsaPortKey(20, 0);
    reg.add_connection(key);
    let deliveries = reg.route(
        &SeqEvent::Sysex(SYSEX_FRAME.to_vec()),
        Addr { client: 20, port: 0 },
        Addr { client: 129, port: 0 },
        129,
    );
    assert_eq!(deliveries.len(), 1);
    assert_eq!(deliveries[0].target, DeliveryTarget::Connection(key));
    let DecodedEvent::Sysex(body) = &deliveries[0].event else {
        panic!("expected sysex, got {:?}", deliveries[0].event);
    };
    let codec = match decode(&SYSEX_FRAME) {
        Ok(Decoded::SysEx(s)) => s,
        other => panic!("codec sysex: {other:?}"),
    };
    assert_eq!(body.bytes(), codec.bytes());
}
