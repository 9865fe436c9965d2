use midi_io::alsa_event::control14_to_cc_pair;
use midi_io::alsa_event::message_from_event;
use midi_io::alsa_event::param_cc_messages;
use midi_io::alsa_event::Addr;
use midi_io::alsa_event::EvCtrl;
use midi_io::alsa_event::EvNote;
use midi_io::alsa_event::SeqEvent;
use midi_io::alsa_registry::check_virtual_destination_id;
use midi_io::alsa_registry::key_to_id;
use midi_io::alsa_registry::port_to_key;
use midi_io::alsa_registry::AlsaPortKey;
use midi_io::alsa_registry::DeliveryTarget;
use midi_io::alsa_registry::PortInfo;
use midi_io::alsa_registry::PortNotice;
use midi_io::alsa_registry::PortRecord;
use midi_io::alsa_registry::PortRegistry;
use midi_io::alsa_registry::SNDRV_SEQ_DYNAMIC_CLIENTS_BEGIN;
use midi_io::port::VirtualPortId;
use midi_io::stream_parser::DecodedEvent;
use midi_io::sys_ex::MAX_SYSEX_BYTES;
use midi_io::sys_ex::ORPHAN_PREFIX_BYTES;
use midi_io::Channel;
use midi_io::CodecError;
use midi_io::DataByte;
use midi_io::Destination;
use midi_io::DestinationChange;
use midi_io::Error;
use midi_io::IoError;
use midi_io::MidiMessage;
use midi_io::ParseError;
use midi_io::Source;
use midi_io::SourceChange;

const OUR_CLIENT: i32 = 129;

fn note(channel: u8, note: u8, velocity: u8) -> EvNote {
    EvNote {
        channel,
        note,
        velocity,
        off_velocity: 0,
        duration: 0,
    }
}

fn readable(name: &str) -> Option<PortInfo> {
    Some(PortInfo {
        readable: true,
        writable: false,
        name: name.to_string(),
    })
}

fn writable(name: &str) -> Option<PortInfo> {
    Some(PortInfo {
        readable: false,
        writable: true,
        name: name.to_string(),
    })
}

/// A registry connected to the source at (20, 0).
fn make_conn() -> (PortRegistry, AlsaPortKey) {
    let mut reg = PortRegistry::new();
    let key = AlsaPortKey(20, 0);
    reg.add_connection(key);
    (reg, key)
}

/// Hands sysex data from the connected source to the registry; returns the
/// events for the connection's streams.
fn handle_sysex_data(data: &[u8], reg: &mut PortRegistry, key: AlsaPortKey) -> Vec<DecodedEvent> {
    reg.route(
        &SeqEvent::Sysex(data.to_vec()),
        Addr {
            client: key.0,
            port: key.1,
        },
        Addr {
            client: OUR_CLIENT,
            port: 0,
        },
        OUR_CLIENT,
    )
    .into_iter()
    .map(|d| {
        assert_eq!(d.target, DeliveryTarget::Connection(key));
        d.event
    })
    .collect()
}

fn sysex_bodies(events: &[DecodedEvent]) -> Vec<Vec<u8>> {
    events
        .iter()
        .filter_map(|e| match e {
            DecodedEvent::Sysex(s) => Some(s.bytes().to_vec()),
            _ => None,
        })
        .collect()
}

fn errors(events: &[DecodedEvent]) -> Vec<Error> {
    events
        .iter()
        .filter_map(|e| match e {
            DecodedEvent::Error(err) => Some(err.clone()),
            _ => None,
        })
        .collect()
}

fn has_source(reg: &PortRegistry, key: AlsaPortKey) -> bool {
    reg.sources().iter().any(|s| s.id() == key_to_id(key))
}

fn has_destination(reg: &PortRegistry, key: AlsaPortKey) -> bool {
    reg.destinations().iter().any(|d| d.id() == key_to_id(key))
}

#[test]
fn key_round_trips_through_port_id() {
    for (client, port) in [(0, 0), (1, 2), (-1, -1), (i32::MAX, i32::MIN), (128, 3)] {
        let round = port_to_key(&key_to_id(AlsaPortKey(client, port)));
        assert_eq!((round.0, round.1), (client, port));
    }
}

#[test]
fn message_from_event_returns_none_for_unmapped_type() {
    assert!(message_from_event(&SeqEvent::Other).is_none());
}

#[test]
fn noteoff_preserves_velocity() {
    let ev = SeqEvent::Noteoff(note(0, 60, 64));
    let msg = message_from_event(&ev).unwrap().unwrap();
    assert_eq!(
        msg,
        MidiMessage::NoteOff {
            channel: Channel::Ch1,
            key: DataByte::try_from(60).unwrap(),
            velocity: DataByte::try_from(64).unwrap(),
        }
    );
}

#[test]
fn noteon_out_of_range_channel_is_error() {
    let ev = SeqEvent::Noteon(note(16, 60, 64));
    let err = message_from_event(&ev).unwrap().unwrap_err();
    assert!(matches!(
        err,
        CodecError::Parse {
            reason: ParseError::ChannelOutOfRange,
            ..
        }
    ));
}

#[test]
fn controller_out_of_range_channel_is_error() {
    let ev = SeqEvent::Controller(EvCtrl {
        channel: 200,
        param: 7,
        value: 64,
    });
    let err = message_from_event(&ev).unwrap().unwrap_err();
    assert!(matches!(
        err,
        CodecError::Parse {
            reason: ParseError::ChannelOutOfRange,
            ..
        }
    ));
}

#[test]
fn controller_out_of_range_value_is_error() {
    let ev = SeqEvent::Controller(EvCtrl {
        channel: 0,
        param: 7,
        value: 200,
    });
    let err = message_from_event(&ev).unwrap().unwrap_err();
    assert!(matches!(
        err,
        CodecError::Parse {
            reason: ParseError::DataByteOutOfRange,
            ..
        }
    ));
}

#[test]
fn noteon_out_of_range_key_is_error() {
    let ev = SeqEvent::Noteon(note(0, 200, 64));
    let err = message_from_event(&ev).unwrap().unwrap_err();
    assert!(matches!(
        err,
        CodecError::Parse {
            reason: ParseError::DataByteOutOfRange,
            ..
        }
    ));
}

#[test]
fn sysex_complete_message_sends_body() {
    let (mut reg, key) = make_conn();
    let events = handle_sysex_data(&[0xF0, 0x01, 0x02, 0xF7], &mut reg, key);
    assert_eq!(sysex_bodies(&events), vec![vec![0x01, 0x02]]);
}

#[test]
fn sysex_orphaned_fragment_emits_single_error() {
    let (mut reg, key) = make_conn();
    let events = handle_sysex_data(&[0x02, 0x03, 0xF7], &mut reg, key);
    assert!(sysex_bodies(&events).is_empty());
    let errs = errors(&events);
    assert_eq!(errs.len(), 1);
    assert!(matches!(
        &errs[0],
        Error::Codec(CodecError::Parse {
            reason: ParseError::OrphanedData { len: 3 },
            bytes,
        }) if bytes == &vec![0x02, 0x03, 0xF7]
    ));
}

#[test]
fn sysex_orphan_run_flushes_on_new_message() {
    let (mut reg, key) = make_conn();
    let first = handle_sysex_data(&[0x02, 0x03], &mut reg, key);
    assert!(errors(&first).is_empty());
    let events = handle_sysex_data(&[0xF0, 0x05, 0xF7], &mut reg, key);
    let errs = errors(&events);
    assert_eq!(errs.len(), 1);
    assert!(matches!(
        &errs[0],
        Error::Codec(CodecError::Parse {
            reason: ParseError::OrphanedData { len: 2 },
            bytes,
        }) if bytes == &vec![0x02, 0x03]
    ));
    assert_eq!(sysex_bodies(&events), vec![vec![0x05]]);
}

#[test]
fn sysex_orphan_error_caps_stored_bytes() {
    let (mut reg, key) = make_conn();
    let first = handle_sysex_data(&[0x01; 100], &mut reg, key);
    assert!(errors(&first).is_empty());
    let mut tail = vec![0x02u8; 49];
    tail.push(0xF7);
    let errs = errors(&handle_sysex_data(&tail, &mut reg, key));
    assert_eq!(errs.len(), 1);
    assert!(matches!(
        &errs[0],
        Error::Codec(CodecError::Parse {
            reason: ParseError::OrphanedData { len: 150 },
            bytes,
        }) if bytes == &vec![0x01; ORPHAN_PREFIX_BYTES]
    ));
}

#[test]
fn sysex_oversized_multichunk_single_error_then_recovers() {
    let (mut reg, key) = make_conn();
    let big: Vec<u8> = std::iter::once(0xF0)
        .chain(std::iter::repeat(0x01).take(MAX_SYSEX_BYTES))
        .collect();
    assert!(errors(&handle_sysex_data(&big, &mut reg, key)).is_empty());
    let errs = errors(&handle_sysex_data(&[0x01, 0x01], &mut reg, key));
    assert_eq!(errs.len(), 1);
    assert!(matches!(
        errs[0],
        Error::Codec(CodecError::SysexTooLong { .. })
    ));
    assert!(errors(&handle_sysex_data(&[0x01, 0xF7], &mut reg, key)).is_empty());
    let events = handle_sysex_data(&[0xF0, 0x05, 0xF7], &mut reg, key);
    assert!(errors(&events).is_empty());
    assert_eq!(sysex_bodies(&events), vec![vec![0x05]]);
}

#[test]
fn sysex_two_chunk_message_sends_after_f7() {
    let (mut reg, key) = make_conn();
    let first = handle_sysex_data(&[0xF0, 0x01], &mut reg, key);
    assert!(sysex_bodies(&first).is_empty());
    let events = handle_sysex_data(&[0x02, 0xF7], &mut reg, key);
    assert_eq!(sysex_bodies(&events), vec![vec![0x01, 0x02]]);
}

#[test]
fn sysex_restart_emits_unterminated_error() {
    let (mut reg, key) = make_conn();
    let mut events = handle_sysex_data(&[0xF0, 0x01], &mut reg, key);
    events.extend(handle_sysex_data(&[0xF0, 0x02, 0xF7], &mut reg, key));
    let errs = errors(&events);
    assert!(matches!(
        &errs[0],
        Error::Codec(CodecError::Parse {
            reason: ParseError::UnterminatedSysex,
            bytes,
        }) if bytes == &vec![0xF0, 0x01]
    ));
    assert_eq!(sysex_bodies(&events), vec![vec![0x02]]);
}

#[test]
fn sysex_max_size_body_accepted() {
    let (mut reg, key) = make_conn();
    let big: Vec<u8> = std::iter::once(0xF0)
        .chain(std::iter::repeat(0x01).take(MAX_SYSEX_BYTES))
        .chain(std::iter::once(0xF7))
        .collect();
    let events = handle_sysex_data(&big, &mut reg, key);
    assert!(errors(&events).is_empty());
    assert_eq!(sysex_bodies(&events)[0].len(), MAX_SYSEX_BYTES);
}

#[test]
fn sysex_oversized_clears_buffer() {
    let (mut reg, key) = make_conn();
    let big: Vec<u8> = std::iter::once(0xF0)
        .chain(std::iter::repeat(0x01).take(MAX_SYSEX_BYTES + 1))
        .chain(std::iter::once(0xF7))
        .collect();
    let errs = errors(&handle_sysex_data(&big, &mut reg, key));
    assert_eq!(errs.len(), 1);
    assert!(matches!(
        errs[0],
        Error::Codec(CodecError::SysexTooLong {
            len,
            max: MAX_SYSEX_BYTES,
        }) if len == MAX_SYSEX_BYTES + 1
    ));
}

#[test]
fn sysex_partial_accumulates_no_send() {
    let (mut reg, key) = make_conn();
    let first = handle_sysex_data(&[0xF0, 0x01, 0x02], &mut reg, key);
    assert!(sysex_bodies(&first).is_empty());
    let events = handle_sysex_data(&[0xF7], &mut reg, key);
    assert_eq!(sysex_bodies(&events), vec![vec![0x01, 0x02]]);
}

#[test]
fn sysex_chunk_with_status_byte_aborts_and_parses_message() {
    let (mut reg, key) = make_conn();
    let events = handle_sysex_data(&[0xF0, 0x01, 0x90, 0x3C, 0x64], &mut reg, key);
    let errs = errors(&events);
    assert!(matches!(
        &errs[0],
        Error::Codec(CodecError::Parse {
            reason: ParseError::UnterminatedSysex,
            bytes,
        }) if bytes == &vec![0xF0, 0x01]
    ));
    let msgs: Vec<MidiMessage> = events
        .iter()
        .filter_map(|e| match e {
            DecodedEvent::Message(m) => Some(*m),
            _ => None,
        })
        .collect();
    assert_eq!(
        msgs,
        vec![MidiMessage::NoteOn {
            channel: Channel::Ch1,
            key: DataByte::try_from(0x3C).unwrap(),
            velocity: DataByte::try_from(0x64).unwrap(),
        }]
    );
}

#[test]
fn is_virtual_reflects_dynamic_client_range() {
    assert!(Source::from_alsa(AlsaPortKey(SNDRV_SEQ_DYNAMIC_CLIENTS_BEGIN, 0), "P").is_virtual());
    assert!(
        !Source::from_alsa(AlsaPortKey(SNDRV_SEQ_DYNAMIC_CLIENTS_BEGIN - 1, 0), "P").is_virtual()
    );
    assert!(Destination::from_alsa(AlsaPortKey(200, 3), "P").is_virtual());
    assert!(!Destination::from_alsa(AlsaPortKey(14, 0), "P").is_virtual());
}

#[test]
fn handle_port_exit_removes_port_and_notifies() {
    let mut reg = PortRegistry::new();
    let key = AlsaPortKey(10, 1);
    reg.add_source(key, Source::from_alsa(key, "Port"));
    let notices = reg.handle_port_exit(Addr { client: 10, port: 1 });
    assert!(!has_source(&reg, key));
    assert_eq!(notices.len(), 1);
    assert!(matches!(
        notices[0],
        PortNotice::Source(SourceChange::Removed(_))
    ));
}

#[test]
fn handle_port_exit_retains_connection_and_emits_disconnect() {
    let mut reg = PortRegistry::new();
    let key = AlsaPortKey(10, 1);
    reg.add_source(key, Source::from_alsa(key, "Port"));
    reg.add_connection(key);
    let notices = reg.handle_port_exit(Addr { client: 10, port: 1 });
    assert_eq!(
        reg.check_connect_source(key, &readable("Port")),
        Err(Error::Io(IoError::AlreadyConnected))
    );
    assert_eq!(notices[0], PortNotice::SourceDisconnected(key));
}

#[test]
fn handle_port_exit_unknown_port_is_noop() {
    let mut reg = PortRegistry::new();
    let notices = reg.handle_port_exit(Addr { client: 99, port: 5 });
    assert!(notices.is_empty());
}

#[test]
fn handle_client_exit_removes_all_client_ports() {
    let mut reg = PortRegistry::new();
    for key in [AlsaPortKey(5, 0), AlsaPortKey(5, 1), AlsaPortKey(7, 0)] {
        reg.add_source(key, Source::from_alsa(key, "P"));
    }
    let notices = reg.handle_client_exit(5);
    assert!(!has_source(&reg, AlsaPortKey(5, 0)));
    assert!(!has_source(&reg, AlsaPortKey(5, 1)));
    assert!(has_source(&reg, AlsaPortKey(7, 0)));
    let count = notices
        .iter()
        .filter(|n| matches!(n, PortNotice::Source(_)))
        .count();
    assert_eq!(count, 2);
}

#[test]
fn resolve_output_state_requires_live_connection() {
    let mut reg = PortRegistry::new();
    let key = AlsaPortKey(30, 0);
    assert!(matches!(
        reg.resolve_output_state(key),
        Err(Error::Io(IoError::PortNotFound))
    ));
    reg.add_destination(key, Destination::from_alsa(key, "Out"));
    assert_eq!(reg.connect_destination(key, &writable("Out")), Ok(()));
    assert!(reg.resolve_output_state(key).is_ok());
    reg.handle_port_exit(Addr { client: 30, port: 0 });
    assert!(matches!(
        reg.resolve_output_state(key),
        Err(Error::Io(IoError::PortDisconnected))
    ));
}

#[test]
fn handle_port_exit_marks_active_output_connection_disconnected() {
    let mut reg = PortRegistry::new();
    let key = AlsaPortKey(20, 2);
    reg.add_destination(key, Destination::from_alsa(key, "Port 0"));
    assert_eq!(reg.connect_destination(key, &writable("Port 0")), Ok(()));
    reg.handle_port_exit(Addr { client: 20, port: 2 });
    assert!(!has_destination(&reg, key));
    assert_eq!(
        reg.resolve_output_state(key),
        Err(Error::Io(IoError::PortDisconnected)),
        "output connection must be marked disconnected"
    );
}

#[test]
fn handle_client_exit_marks_destination_connections_disconnected() {
    let mut reg = PortRegistry::new();
    for key in [AlsaPortKey(8, 0), AlsaPortKey(8, 1)] {
        reg.add_destination(key, Destination::from_alsa(key, "P"));
    }
    assert_eq!(reg.connect_destination(AlsaPortKey(8, 0), &writable("P")), Ok(()));
    reg.handle_client_exit(8);
    assert!(!has_destination(&reg, AlsaPortKey(8, 0)));
    assert!(!has_destination(&reg, AlsaPortKey(8, 1)));
    assert_eq!(
        reg.resolve_output_state(AlsaPortKey(8, 0)),
        Err(Error::Io(IoError::PortDisconnected))
    );
}

#[test]
fn control14_event_not_handled_by_message_from_event() {
    let ev = SeqEvent::Control14(EvCtrl {
        channel: 1,
        param: 7,
        value: 8192,
    });
    assert!(message_from_event(&ev).is_none());
}

#[test]
fn nonregparam_event_not_handled_by_message_from_event() {
    let ev = SeqEvent::Nonregparam(EvCtrl {
        channel: 0,
        param: 0,
        value: 0,
    });
    assert!(message_from_event(&ev).is_none());
}

#[test]
fn regparam_event_not_handled_by_message_from_event() {
    let ev = SeqEvent::Regparam(EvCtrl {
        channel: 5,
        param: 42,
        value: 16383,
    });
    assert!(message_from_event(&ev).is_none());
}

#[test]
fn control14_to_cc_pair_splits_msb_and_lsb() {
    let c = EvCtrl {
        channel: 1,
        param: 7,
        value: 8192,
    };
    let [msb, lsb] = control14_to_cc_pair(&c).unwrap();
    assert_eq!(
        msb,
        MidiMessage::ControlChange {
            channel: Channel::Ch2,
            controller: DataByte::try_from(7).unwrap(),
            value: DataByte::try_from(64).unwrap(),
        }
    );
    assert_eq!(
        lsb,
        MidiMessage::ControlChange {
            channel: Channel::Ch2,
            controller: DataByte::try_from(39).unwrap(),
            value: DataByte::try_from(0).unwrap(),
        }
    );
}

#[test]
fn control14_to_cc_pair_preserves_lsb() {
    let c = EvCtrl {
        channel: 0,
        param: 1,
        value: 0b_0000001_1111111,
    };
    let [msb, lsb] = control14_to_cc_pair(&c).unwrap();
    assert_eq!(
        msb,
        MidiMessage::ControlChange {
            channel: Channel::Ch1,
            controller: DataByte::try_from(1).unwrap(),
            value: DataByte::try_from(1).unwrap(),
        }
    );
    assert_eq!(
        lsb,
        MidiMessage::ControlChange {
            channel: Channel::Ch1,
            controller: DataByte::try_from(33).unwrap(),
            value: DataByte::try_from(127).unwrap(),
        }
    );
}

#[test]
fn control14_to_cc_pair_rejects_out_of_range_param() {
    let c = EvCtrl {
        channel: 0,
        param: 32,
        value: 0,
    };
    let err = control14_to_cc_pair(&c).unwrap_err();
    assert!(matches!(
        err,
        CodecError::Parse {
            reason: ParseError::DataByteOutOfRange,
            ..
        }
    ));
}

#[test]
fn control14_to_cc_pair_rejects_out_of_range_value() {
    for value in [-1, 0x4000] {
        let c = EvCtrl {
            channel: 0,
            param: 7,
            value,
        };
        let err = control14_to_cc_pair(&c).unwrap_err();
        assert!(matches!(
            err,
            CodecError::Parse {
                reason: ParseError::DataByteOutOfRange,
                ..
            }
        ));
    }
}

#[test]
fn control14_to_cc_pair_rejects_out_of_range_channel() {
    let c = EvCtrl {
        channel: 16,
        param: 7,
        value: 0,
    };
    let err = control14_to_cc_pair(&c).unwrap_err();
    assert!(matches!(
        err,
        CodecError::Parse {
            reason: ParseError::ChannelOutOfRange,
            ..
        }
    ));
}

#[test]
fn param_cc_messages_splits_param_and_value() {
    let c = EvCtrl {
        channel: 1,
        param: 0b_0000010_0000011,
        value: 0b_0000100_0000101,
    };
    let msgs = param_cc_messages(&c, [99, 98]).unwrap();
    let expected = [(99u8, 2u8), (98, 3), (6, 4), (38, 5)];
    for (msg, (controller, value)) in msgs.iter().zip(expected) {
        assert_eq!(
            *msg,
            MidiMessage::ControlChange {
                channel: Channel::Ch2,
                controller: DataByte::try_from(controller).unwrap(),
                value: DataByte::try_from(value).unwrap(),
            }
        );
    }
}

#[test]
fn param_cc_messages_rejects_out_of_range_fields() {
    let oob = [
        EvCtrl {
            channel: 0,
            param: 0x4000,
            value: 0,
        },
        EvCtrl {
            channel: 0,
            param: 0,
            value: -1,
        },
        EvCtrl {
            channel: 0,
            param: 0,
            value: 0x4000,
        },
    ];
    for c in oob {
        let err = param_cc_messages(&c, [101, 100]).unwrap_err();
        assert!(matches!(
            err,
            CodecError::Parse {
                reason: ParseError::DataByteOutOfRange,
                ..
            }
        ));
    }
    let bad_channel = EvCtrl {
        channel: 16,
        param: 0,
        value: 0,
    };
    let err = param_cc_messages(&bad_channel, [101, 100]).unwrap_err();
    assert!(matches!(
        err,
        CodecError::Parse {
            reason: ParseError::ChannelOutOfRange,
            ..
        }
    ));
}

#[test]
fn load_ports_skips_system_and_own_client() {
    let mut reg = PortRegistry::new();
    let rec = |client, port, readable, writable, name: &str| PortRecord {
        client,
        port,
        readable,
        writable,
        name: name.to_string(),
    };
    reg.load_ports(
        &[
            rec(0, 1, true, true, "Announce"),
            rec(OUR_CLIENT, 0, true, true, "Ours"),
            rec(14, 0, true, true, "Through"),
            rec(20, 0, true, false, "Keys"),
            rec(24, 0, false, true, "Synth"),
        ],
        OUR_CLIENT,
    );
    let mut sources: Vec<String> = reg.sources().iter().map(|s| s.name().to_string()).collect();
    sources.sort();
    let mut destinations: Vec<String> = reg
        .destinations()
        .iter()
        .map(|d| d.name().to_string())
        .collect();
    destinations.sort();
    assert_eq!(sources, vec!["Keys", "Through"]);
    assert_eq!(destinations, vec!["Synth", "Through"]);
}

#[test]
fn port_start_records_port_by_capabilities() {
    let mut reg = PortRegistry::new();
    let notices = reg.handle_port_start(
        Addr { client: 130, port: 2 },
        OUR_CLIENT,
        Some(PortInfo {
            readable: true,
            writable: true,
            name: "Both".to_string(),
        }),
    );
    assert_eq!(notices.len(), 2);
    assert!(matches!(&notices[0], PortNotice::Source(SourceChange::Added(s)) if s.is_virtual() && s.name() == "Both"));
    assert!(matches!(&notices[1], PortNotice::Destination(DestinationChange::Added(d)) if d.name() == "Both"));
    assert!(reg
        .handle_port_start(Addr { client: OUR_CLIENT, port: 2 }, OUR_CLIENT, readable("x"))
        .is_empty());
    assert!(reg
        .handle_port_start(Addr { client: 0, port: 1 }, OUR_CLIENT, readable("x"))
        .is_empty());
    assert!(reg
        .handle_port_start(Addr { client: 40, port: 1 }, OUR_CLIENT, None)
        .is_empty());
}

#[test]
fn check_connect_source_requires_readable_port() {
    let reg = PortRegistry::new();
    let key = AlsaPortKey(20, 0);
    assert_eq!(reg.check_connect_source(key, &readable("In")), Ok(()));
    assert_eq!(
        reg.check_connect_source(key, &writable("Out")),
        Err(Error::Io(IoError::PortNotFound))
    );
    assert_eq!(
        reg.check_connect_source(key, &None),
        Err(Error::Io(IoError::PortNotFound))
    );
}

#[test]
fn second_destination_connection_is_refused() {
    let mut reg = PortRegistry::new();
    let key = AlsaPortKey(24, 0);
    assert_eq!(reg.connect_destination(key, &writable("Synth")), Ok(()));
    assert_eq!(
        reg.connect_destination(key, &writable("Synth")),
        Err(Error::Io(IoError::AlreadyConnected))
    );
    reg.remove_destination_connection(key);
    assert_eq!(
        reg.resolve_output_state(key),
        Err(Error::Io(IoError::PortNotFound))
    );
}

#[test]
fn routing_fans_out_to_virtual_destination_then_connection() {
    let mut reg = PortRegistry::new();
    let (vd_port, _) = reg.add_virtual_destination(VirtualPortId::new(1), OUR_CLIENT, 3, "Virtual In");
    let src = AlsaPortKey(20, 0);
    reg.add_connection(src);
    let deliveries = reg.route(
        &SeqEvent::Clock,
        Addr { client: 20, port: 0 },
        Addr { client: OUR_CLIENT, port: 3 },
        OUR_CLIENT,
    );
    assert_eq!(deliveries.len(), 2);
    assert_eq!(
        deliveries[0].target,
        DeliveryTarget::VirtualDestination(port_to_key(&vd_port))
    );
    assert_eq!(deliveries[1].target, DeliveryTarget::Connection(src));
    assert_eq!(
        deliveries[0].event,
        DecodedEvent::Message(MidiMessage::TimingClock)
    );
    let unrelated = reg.route(
        &SeqEvent::Clock,
        Addr { client: 21, port: 0 },
        Addr { client: OUR_CLIENT, port: 9 },
        OUR_CLIENT,
    );
    assert!(unrelated.is_empty());
}

#[test]
fn routing_a_14_bit_controller_gives_two_messages() {
    let (mut reg, key) = make_conn();
    let deliveries = reg.route(
        &SeqEvent::Control14(EvCtrl {
            channel: 0,
            param: 7,
            value: 0x3FFF,
        }),
        Addr { client: 20, port: 0 },
        Addr { client: OUR_CLIENT, port: 0 },
        OUR_CLIENT,
    );
    assert_eq!(deliveries.len(), 2);
    assert!(deliveries.iter().all(|d| d.target == DeliveryTarget::Connection(key)));
}

#[test]
fn virtual_ports_come_and_go() {
    let mut reg = PortRegistry::new();
    let (port, notice) = reg.add_virtual_source(VirtualPortId::new(7), OUR_CLIENT, 5, "Out");
    assert!(matches!(&notice, PortNotice::Source(SourceChange::Added(s)) if s.id() == port));
    assert_eq!(reg.virtual_source_port(VirtualPortId::new(7)), Ok(5));
    let (alsa_port, notices) = reg.remove_virtual_source(VirtualPortId::new(7), OUR_CLIENT).unwrap();
    assert_eq!(alsa_port, 5);
    assert!(matches!(&notices[0], PortNotice::Source(SourceChange::Removed(_))));
    assert_eq!(
        reg.virtual_source_port(VirtualPortId::new(7)),
        Err(Error::Io(IoError::PortNotFound))
    );
    assert!(reg.remove_virtual_source(VirtualPortId::new(7), OUR_CLIENT).is_none());

    reg.add_virtual_destination(VirtualPortId::new(8), OUR_CLIENT, 6, "In");
    let (alsa_port, notices) = reg.remove_virtual_destination(VirtualPortId::new(8), OUR_CLIENT).unwrap();
    assert_eq!(alsa_port, 6);
    assert_eq!(notices[0], PortNotice::VirtualDestinationClosed(AlsaPortKey(OUR_CLIENT, 6)));
    assert!(matches!(&notices[1], PortNotice::Destination(DestinationChange::Removed(_))));
}

#[test]
fn close_all_names_every_stream_once() {
    let mut reg = PortRegistry::new();
    reg.add_connection(AlsaPortKey(20, 0));
    reg.add_connection(AlsaPortKey(21, 1));
    reg.add_virtual_destination(VirtualPortId::new(1), OUR_CLIENT, 4, "In");
    let mut targets = reg.close_all();
    targets.sort_by_key(|t| format!("{t:?}"));
    assert_eq!(
        targets,
        vec![
            DeliveryTarget::Connection(AlsaPortKey(20, 0)),
            DeliveryTarget::Connection(AlsaPortKey(21, 1)),
            DeliveryTarget::VirtualDestination(AlsaPortKey(OUR_CLIENT, 4)),
        ]
    );
    assert!(reg.close_all().is_empty());
}

#[test]
fn chosen_unique_ids_are_unsupported() {
    assert_eq!(check_virtual_destination_id(None), Ok(()));
    let err = check_virtual_destination_id(Some(0x4000_0001)).unwrap_err();
    assert_eq!(err, Error::Io(IoError::Unsupported));
    assert_eq!(err.to_string(), "operation not supported by this backend");
}

#[test]
fn source_connection_refused_until_dropped() {
    let mut reg = PortRegistry::new();
    let key = AlsaPortKey(30, 2);
    assert_eq!(reg.check_connect_source(key, &readable("Keys")), Ok(()));
    reg.add_connection(key);
    assert_eq!(
        reg.check_connect_source(key, &readable("Keys")),
        Err(Error::Io(IoError::AlreadyConnected))
    );
    assert!(reg.remove_connection(key));
    assert_eq!(reg.check_connect_source(key, &readable("Keys")), Ok(()));
}

#[test]
fn destination_connection_refused_until_dropped() {
    let mut reg = PortRegistry::new();
    let key = AlsaPortKey(31, 0);
    assert_eq!(reg.connect_destination(key, &writable("Synth")), Ok(()));
    assert_eq!(
        reg.connect_destination(key, &writable("Synth")),
        Err(Error::Io(IoError::AlreadyConnected))
    );
    reg.remove_destination_connection(key);
    assert_eq!(reg.connect_destination(key, &writable("Synth")), Ok(()));
    assert_eq!(reg.resolve_output_state(key), Ok(()));
}
