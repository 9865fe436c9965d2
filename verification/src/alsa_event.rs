use vstd::prelude::*;

use crate::channel::Channel;
use crate::data_byte::DataByte;
use crate::error::CodecError;
use crate::error::CodecErrorView;
use crate::error::ParseError;
use crate::message::MidiMessage;
use crate::pitch_bend::PitchBend;
use crate::song_position::SongPosition;

verus! {

/// The note payload of an ALSA sequencer event.
#[derive(Debug, Clone, Copy, PartialEq, Eq, Structural)]
pub struct EvNote {
    pub channel: u8,
    pub note: u8,
    pub velocity: u8,
    pub off_velocity: u8,
    pub duration: u32,
}

/// The controller payload of an ALSA sequencer event.
#[derive(Debug, Clone, Copy, PartialEq, Eq, Structural)]
pub struct EvCtrl {
    pub channel: u8,
    pub param: u32,
    pub value: i32,
}

/// A sequencer client and port.
#[derive(Debug, Clone, Copy, PartialEq, Eq, Structural)]
pub struct Addr {
    pub client: i32,
    pub port: i32,
}

/// An ALSA sequencer event, as the backend reads it: its type together with
/// the payload that type carries.
#[derive(Debug, Clone, PartialEq, Eq)]
pub enum SeqEvent {
    Noteon(EvNote),
    Noteoff(EvNote),
    Keypress(EvNote),
    Controller(EvCtrl),
    Pgmchange(EvCtrl),
    Chanpress(EvCtrl),
    Pitchbend(EvCtrl),
    Control14(EvCtrl),
    Nonregparam(EvCtrl),
    Regparam(EvCtrl),
    Songpos(EvCtrl),
    Songsel(EvCtrl),
    Qframe(EvCtrl),
    TuneRequest,
    Clock,
    Start,
    Continue,
    Stop,
    Sensing,
    Reset,
    Sysex(Vec<u8>),
    PortStart(Addr),
    PortExit(Addr),
    ClientExit(Addr),
    /// Any other event type.
    Other,
}

/// `v` as a data byte, if it is 0 to 127.
pub open spec fn spec_data7(v: int) -> Option<DataByte> {
    if 0 <= v < 128 {
        Some(DataByte::from_value(v as u8))
    } else {
        None
    }
}

pub fn data7(value: i64) -> (r: Option<DataByte>)
    ensures
        r == spec_data7(value as int),
{
    if 0 <= value && value <= 0x7F {
        Some(DataByte::from_valid(value as u8))
    } else {
        None
    }
}

/// The error for an event whose channel is not 0 to 15.
pub open spec fn spec_channel_oob(base: u8, channel: u8) -> CodecErrorView {
    CodecErrorView::Parse { reason: ParseError::ChannelOutOfRange, bytes: seq![base, channel] }
}

pub fn channel_oob(base: u8, channel: u8) -> (r: CodecError)
    ensures
        r@ == spec_channel_oob(base, channel),
{
    let mut bytes: Vec<u8> = Vec::new();
    bytes.push(base);
    bytes.push(channel);
    assert(bytes@ =~= seq![base, channel]);
    CodecError::Parse { reason: ParseError::ChannelOutOfRange, bytes }
}

/// `d` clamped to a byte.
pub open spec fn clamp_byte(d: int) -> u8 {
    if d < 0 {
        0
    } else if d > 0xFF {
        0xFF
    } else {
        d as u8
    }
}

/// The error for an event whose data fields do not fit in seven bits: the
/// status followed by each field clamped to a byte.
pub open spec fn spec_data_oob(status: u8, data: Seq<i64>) -> CodecErrorView {
    CodecErrorView::Parse {
        reason: ParseError::DataByteOutOfRange,
        bytes: seq![status] + data.map_values(|d: i64| clamp_byte(d as int)),
    }
}

pub fn data_oob(status: u8, data: &[i64]) -> (r: CodecError)
    ensures
        r@ == spec_data_oob(status, data@),
{
    let mut bytes: Vec<u8> = Vec::with_capacity(1);
    bytes.push(status);
    let mut i: usize = 0;
    while i < data.len()
        invariant
            i <= data@.len(),
            bytes@ == seq![status] + data@.subrange(0, i as int).map_values(|d: i64| clamp_byte(d as int)),
        decreases data@.len() - i,
    {
        let d = data[i];
        let b: u8 = if d < 0 {
            0
        } else if d > 0xFF {
            0xFF
        } else {
            d as u8
        };
        bytes.push(b);
        assert(data@.subrange(0, i + 1).map_values(|d: i64| clamp_byte(d as int))
            =~= data@.subrange(0, i as int).map_values(|d: i64| clamp_byte(d as int)).push(b));
        i = i + 1;
    }
    assert(data@.subrange(0, i as int) =~= data@);
    CodecError::Parse { reason: ParseError::DataByteOutOfRange, bytes }
}

/// A status byte from a kind nibble and a channel below 16.
proof fn lemma_or_channel(base: u8, channel: u8)
    requires
        base % 16 == 0,
        channel < 16,
    ensures
        base | channel == base + channel,
        channel & 0x0F == channel,
{
    assert(base % 16 == 0 && channel < 16 ==> base | channel == base + channel) by (bit_vector);
    assert(channel < 16 ==> channel & 0x0F == channel) by (bit_vector);
}

/// The message of a note event with kind `base` (0x80 or 0x90).
pub open spec fn spec_note_message(base: u8, channel: u8, note: u8, velocity: u8) -> Result<MidiMessage, CodecErrorView> {
    if channel >= 16 {
        Err(spec_channel_oob(base, channel))
    } else if note >= 128 || velocity >= 128 {
        Err(spec_data_oob((base + channel) as u8, seq![note as i64, velocity as i64]))
    } else {
        let ch = Channel::spec_from_index(channel);
        let key = DataByte::from_value(note);
        let vel = DataByte::from_value(velocity);
        if base == 0x90 && velocity != 0 {
            Ok(MidiMessage::NoteOn { channel: ch, key, velocity: vel })
        } else {
            Ok(MidiMessage::NoteOff { channel: ch, key, velocity: vel })
        }
    }
}

/// The model of a result that holds a message.
pub open spec fn message_result_view(r: Result<MidiMessage, CodecError>) -> Result<MidiMessage, CodecErrorView> {
    match r {
        Ok(m) => Ok(m),
        Err(e) => Err(e@),
    }
}

pub fn note_message(base: u8, channel: u8, note: u8, velocity: u8) -> (r: Result<MidiMessage, CodecError>)
    requires
        base % 16 == 0,
    ensures
        message_result_view(r) == spec_note_message(base, channel, note, velocity),
{
    let ch = match Channel::from_index(channel) {
        Ok(c) => c,
        Err(_) => {
            return Err(channel_oob(base, channel));
        },
    };
    let key = data7(note as i64);
    let vel = data7(velocity as i64);
    if key.is_none() || vel.is_none() {
        proof {
            lemma_or_channel(base, channel);
        }
        let data: [i64; 2] = [note as i64, velocity as i64];
        proof {
            assert(data@ =~= seq![note as i64, velocity as i64]);
        }
        return Err(data_oob(base | ch.index(), vstd::array::array_as_slice(&data)));
    }
    let key = key.unwrap();
    let vel = vel.unwrap();
    if base == 0x90 && velocity != 0 {
        Ok(MidiMessage::NoteOn { channel: ch, key, velocity: vel })
    } else {
        Ok(MidiMessage::NoteOff { channel: ch, key, velocity: vel })
    }
}

/// The message an ALSA event stands for: `None` for event types that carry
/// no single MIDI message (including 14-bit controllers and (N)RPNs, which
/// expand into several).
pub open spec fn spec_message_from_event(ev: SeqEvent) -> Option<Result<MidiMessage, CodecErrorView>> {
    match ev {
        SeqEvent::Noteon(n) => Some(spec_note_message(0x90, n.channel, n.note, n.velocity)),
        SeqEvent::Noteoff(n) => Some(spec_note_message(0x80, n.channel, n.note, n.velocity)),
        SeqEvent::Controller(c) => Some(
            if c.channel >= 16 {
                Err(spec_channel_oob(0xB0, c.channel))
            } else if c.param >= 128 || !(0 <= c.value < 128) {
                Err(spec_data_oob((0xB0 + c.channel) as u8, seq![c.param as i64, c.value as i64]))
            } else {
                Ok(MidiMessage::ControlChange {
                    channel: Channel::spec_from_index(c.channel),
                    controller: DataByte::from_value(c.param as u8),
                    value: DataByte::from_value(c.value as u8),
                })
            },
        ),
        SeqEvent::Pgmchange(c) => Some(
            if c.channel >= 16 {
                Err(spec_channel_oob(0xC0, c.channel))
            } else if !(0 <= c.value < 128) {
                Err(spec_data_oob((0xC0 + c.channel) as u8, seq![c.value as i64]))
            } else {
                Ok(MidiMessage::ProgramChange {
                    channel: Channel::spec_from_index(c.channel),
                    program: DataByte::from_value(c.value as u8),
                })
            },
        ),
        SeqEvent::Chanpress(c) => Some(
            if c.channel >= 16 {
                Err(spec_channel_oob(0xD0, c.channel))
            } else if !(0 <= c.value < 128) {
                Err(spec_data_oob((0xD0 + c.channel) as u8, seq![c.value as i64]))
            } else {
                Ok(MidiMessage::ChannelPressure {
                    channel: Channel::spec_from_index(c.channel),
                    pressure: DataByte::from_value(c.value as u8),
                })
            },
        ),
        SeqEvent::Pitchbend(c) => Some(
            if c.channel >= 16 {
                Err(spec_channel_oob(0xE0, c.channel))
            } else if !(-8192 <= c.value < 8192) {
                Err(spec_data_oob((0xE0 + c.channel) as u8, seq![c.value as i64]))
            } else {
                Ok(MidiMessage::PitchBend {
                    channel: Channel::spec_from_index(c.channel),
                    value: PitchBend::from_value((c.value + 8192) as u16),
                })
            },
        ),
        SeqEvent::Keypress(n) => Some(
            if n.channel >= 16 {
                Err(spec_channel_oob(0xA0, n.channel))
            } else if n.note >= 128 || n.velocity >= 128 {
                Err(spec_data_oob((0xA0 + n.channel) as u8, seq![n.note as i64, n.velocity as i64]))
            } else {
                Ok(MidiMessage::PolyKeyPressure {
                    channel: Channel::spec_from_index(n.channel),
                    key: DataByte::from_value(n.note),
                    pressure: DataByte::from_value(n.velocity),
                })
            },
        ),
        SeqEvent::Qframe(c) => Some(
            if 0 <= c.value < 128 {
                Ok(MidiMessage::MtcQuarterFrame(DataByte::from_value(c.value as u8)))
            } else {
                Err(spec_data_oob(0xF1, seq![c.value as i64]))
            },
        ),
        SeqEvent::Songpos(c) => Some(
            if 0 <= c.value < 0x4000 {
                Ok(MidiMessage::SongPositionPointer(SongPosition::from_value(c.value as u16)))
            } else {
                Err(spec_data_oob(0xF2, seq![c.value as i64]))
            },
        ),
        SeqEvent::Songsel(c) => Some(
            if 0 <= c.value < 128 {
                Ok(MidiMessage::SongSelect(DataByte::from_value(c.value as u8)))
            } else {
                Err(spec_data_oob(0xF3, seq![c.value as i64]))
            },
        ),
        SeqEvent::TuneRequest => Some(Ok(MidiMessage::TuneRequest)),
        SeqEvent::Clock => Some(Ok(MidiMessage::TimingClock)),
        SeqEvent::Start => Some(Ok(MidiMessage::Start)),
        SeqEvent::Continue => Some(Ok(MidiMessage::Continue)),
        SeqEvent::Stop => Some(Ok(MidiMessage::Stop)),
        SeqEvent::Sensing => Some(Ok(MidiMessage::ActiveSensing)),
        SeqEvent::Reset => Some(Ok(MidiMessage::Reset)),
        _ => None,
    }
}

/// The model of an optional message result.
pub open spec fn opt_message_result_view(r: Option<Result<MidiMessage, CodecError>>) -> Option<Result<MidiMessage, CodecErrorView>> {
    match r {
        Some(x) => Some(message_result_view(x)),
        None => None,
    }
}

fn one_field(v: i64) -> (r: [i64; 1])
    ensures
        r@ == seq![v],
{
    let r: [i64; 1] = [v];
    assert(r@ =~= seq![v]);
    r
}

fn two_fields(a: i64, b: i64) -> (r: [i64; 2])
    ensures
        r@ == seq![a, b],
{
    let r: [i64; 2] = [a, b];
    assert(r@ =~= seq![a, b]);
    r
}

/// Converts an ALSA sequencer event to the MIDI message it stands for.
pub fn message_from_event(ev: &SeqEvent) -> (r: Option<Result<MidiMessage, CodecError>>)
    ensures
        opt_message_result_view(r) == spec_message_from_event(*ev),
{
    match ev {
        SeqEvent::Noteon(n) => Some(note_message(0x90, n.channel, n.note, n.velocity)),
        SeqEvent::Noteoff(n) => Some(note_message(0x80, n.channel, n.note, n.velocity)),
        SeqEvent::Controller(c) => {
            let channel = Channel::from_index(c.channel);
            let controller = data7(c.param as i64);
            let value = data7(c.value as i64);
            Some(
                match (channel, controller, value) {
                    (Ok(channel), Some(controller), Some(value)) => Ok(MidiMessage::ControlChange { channel, controller, value }),
                    (Err(_), _, _) => Err(channel_oob(0xB0, c.channel)),
                    _ => {
                        proof {
                            lemma_or_channel(0xB0, c.channel);
                        }
                        let f = two_fields(c.param as i64, c.value as i64);
                        Err(data_oob(0xB0 | (c.channel & 0x0F), vstd::array::array_as_slice(&f)))
                    },
                },
            )
        },
        SeqEvent::Pgmchange(c) => {
            let channel = Channel::from_index(c.channel);
            let program = data7(c.value as i64);
            Some(
                match (channel, program) {
                    (Ok(channel), Some(program)) => Ok(MidiMessage::ProgramChange { channel, program }),
                    (Err(_), _) => Err(channel_oob(0xC0, c.channel)),
                    _ => {
                        proof {
                            lemma_or_channel(0xC0, c.channel);
                        }
                        let f = one_field(c.value as i64);
                        Err(data_oob(0xC0 | (c.channel & 0x0F), vstd::array::array_as_slice(&f)))
                    },
                },
            )
        },
        SeqEvent::Chanpress(c) => {
            let channel = Channel::from_index(c.channel);
            let pressure = data7(c.value as i64);
            Some(
                match (channel, pressure) {
                    (Ok(channel), Some(pressure)) => Ok(MidiMessage::ChannelPressure { channel, pressure }),
                    (Err(_), _) => Err(channel_oob(0xD0, c.channel)),
                    _ => {
                        proof {
                            lemma_or_channel(0xD0, c.channel);
                        }
                        let f = one_field(c.value as i64);
                        Err(data_oob(0xD0 | (c.channel & 0x0F), vstd::array::array_as_slice(&f)))
                    },
                },
            )
        },
        SeqEvent::Pitchbend(c) => {
            let channel = Channel::from_index(c.channel);
            let value = if i16::MIN as i32 <= c.value && c.value <= i16::MAX as i32 {
                match PitchBend::from_signed(c.value as i16) {
                    Ok(p) => Some(p),
                    Err(_) => None,
                }
            } else {
                None
            };
            Some(
                match (channel, value) {
                    (Ok(channel), Some(value)) => Ok(MidiMessage::PitchBend { channel, value }),
                    (Err(_), _) => Err(channel_oob(0xE0, c.channel)),
                    _ => {
                        proof {
                            lemma_or_channel(0xE0, c.channel);
                        }
                        let f = one_field(c.value as i64);
                        Err(data_oob(0xE0 | (c.channel & 0x0F), vstd::array::array_as_slice(&f)))
                    },
                },
            )
        },
        SeqEvent::Keypress(n) => {
            let channel = Channel::from_index(n.channel);
            let key = data7(n.note as i64);
            let pressure = data7(n.velocity as i64);
            Some(
                match (channel, key, pressure) {
                    (Ok(channel), Some(key), Some(pressure)) => Ok(MidiMessage::PolyKeyPressure { channel, key, pressure }),
                    (Err(_), _, _) => Err(channel_oob(0xA0, n.channel)),
                    _ => {
                        proof {
                            lemma_or_channel(0xA0, n.channel);
                        }
                        let f = two_fields(n.note as i64, n.velocity as i64);
                        Err(data_oob(0xA0 | (n.channel & 0x0F), vstd::array::array_as_slice(&f)))
                    },
                },
            )
        },
        SeqEvent::Qframe(c) => Some(
            match data7(c.value as i64) {
                Some(frame) => Ok(MidiMessage::MtcQuarterFrame(frame)),
                None => {
                    let f = one_field(c.value as i64);
                    Err(data_oob(0xF1, vstd::array::array_as_slice(&f)))
                },
            },
        ),
        SeqEvent::Songpos(c) => {
            let position = if 0 <= c.value && c.value <= u16::MAX as i32 {
                match SongPosition::try_from(c.value as u16) {
                    Ok(p) => Some(p),
                    Err(_) => None,
                }
            } else {
                None
            };
            Some(
                match position {
                    Some(position) => Ok(MidiMessage::SongPositionPointer(position)),
                    None => {
                        let f = one_field(c.value as i64);
                        Err(data_oob(0xF2, vstd::array::array_as_slice(&f)))
                    },
                },
            )
        },
        SeqEvent::Songsel(c) => Some(
            match data7(c.value as i64) {
                Some(song) => Ok(MidiMessage::SongSelect(song)),
                None => {
                    let f = one_field(c.value as i64);
                    Err(data_oob(0xF3, vstd::array::array_as_slice(&f)))
                },
            },
        ),
        SeqEvent::TuneRequest => Some(Ok(MidiMessage::TuneRequest)),
        SeqEvent::Clock => Some(Ok(MidiMessage::TimingClock)),
        SeqEvent::Start => Some(Ok(MidiMessage::Start)),
        SeqEvent::Continue => Some(Ok(MidiMessage::Continue)),
        SeqEvent::Stop => Some(Ok(MidiMessage::Stop)),
        SeqEvent::Sensing => Some(Ok(MidiMessage::ActiveSensing)),
        SeqEvent::Reset => Some(Ok(MidiMessage::Reset)),
        _ => None,
    }
}

/// A control change on `channel` (an index below 16).
pub open spec fn cc(channel: u8, controller: u8, value: u8) -> MidiMessage {
    MidiMessage::ControlChange {
        channel: Channel::spec_from_index(channel),
        controller: DataByte::from_value(controller),
        value: DataByte::from_value(value),
    }
}

/// A 14-bit controller event as the pair of control changes that carry it:
/// the high seven bits on controller `param`, the low seven on `param + 32`.
pub open spec fn spec_control14_to_cc_pair(c: EvCtrl) -> Result<Seq<MidiMessage>, CodecErrorView> {
    if c.channel >= 16 {
        Err(spec_channel_oob(0xB0, c.channel))
    } else if c.param > 31 || !(0 <= c.value <= 0x3FFF) {
        Err(spec_data_oob((0xB0 + c.channel) as u8, seq![c.param as i64, c.value as i64]))
    } else {
        Ok(seq![
            cc(c.channel, c.param as u8, (c.value / 128) as u8),
            cc(c.channel, (c.param + 32) as u8, (c.value % 128) as u8),
        ])
    }
}

/// The model of a result that holds messages.
pub open spec fn messages_result_view<const N: usize>(r: Result<[MidiMessage; N], CodecError>) -> Result<Seq<MidiMessage>, CodecErrorView> {
    match r {
        Ok(a) => Ok(a@),
        Err(e) => Err(e@),
    }
}

fn control_change(channel: Channel, controller: u8, value: u8) -> (r: MidiMessage)
    requires
        controller < 0x80,
        value < 0x80,
    ensures
        r == cc(channel.spec_index(), controller, value),
{
    proof {
        broadcast use crate::channel::group_channel;
    }
    MidiMessage::ControlChange {
        channel,
        controller: DataByte::from_valid(controller),
        value: DataByte::from_valid(value),
    }
}

pub fn control14_to_cc_pair(c: &EvCtrl) -> (r: Result<[MidiMessage; 2], CodecError>)
    ensures
        messages_result_view(r) == spec_control14_to_cc_pair(*c),
{
    let channel = match Channel::from_index(c.channel) {
        Ok(ch) => ch,
        Err(_) => {
            return Err(channel_oob(0xB0, c.channel));
        },
    };
    if c.param > 31 || c.value < 0 || c.value > 0x3FFF {
        proof {
            lemma_or_channel(0xB0, c.channel);
        }
        let f = two_fields(c.param as i64, c.value as i64);
        return Err(data_oob(0xB0 | channel.index(), vstd::array::array_as_slice(&f)));
    }
    let param = c.param as u8;
    let value = c.value as u16;
    let r: [MidiMessage; 2] = [
        control_change(channel, param, (value / 128) as u8),
        control_change(channel, param + 32, (value % 128) as u8),
    ];
    proof {
        assert(r@ =~= seq![
            cc(c.channel, c.param as u8, (c.value / 128) as u8),
            cc(c.channel, (c.param + 32) as u8, (c.value % 128) as u8),
        ]);
    }
    Ok(r)
}

/// A (non-)registered parameter event as its four control changes: the
/// parameter number's high and low seven bits on `controllers`, then the
/// value's high seven bits on controller 6 and low seven on controller 38.
pub open spec fn spec_param_cc_messages(c: EvCtrl, controllers: Seq<u8>) -> Result<Seq<MidiMessage>, CodecErrorView> {
    if c.channel >= 16 {
        Err(spec_channel_oob(0xB0, c.channel))
    } else if c.param > 0x3FFF || !(0 <= c.value <= 0x3FFF) {
        Err(spec_data_oob((0xB0 + c.channel) as u8, seq![c.param as i64, c.value as i64]))
    } else {
        Ok(seq![
            cc(c.channel, controllers[0], (c.param / 128) as u8),
            cc(c.channel, controllers[1], (c.param % 128) as u8),
            cc(c.channel, 6, (c.value / 128) as u8),
            cc(c.channel, 38, (c.value % 128) as u8),
        ])
    }
}

pub fn param_cc_messages(c: &EvCtrl, controllers: [u8; 2]) -> (r: Result<[MidiMessage; 4], CodecError>)
    requires
        controllers[0] < 0x80,
        controllers[1] < 0x80,
    ensures
        messages_result_view(r) == spec_param_cc_messages(*c, controllers@),
{
    let channel = match Channel::from_index(c.channel) {
        Ok(ch) => ch,
        Err(_) => {
            return Err(channel_oob(0xB0, c.channel));
        },
    };
    if c.param > 0x3FFF || c.value < 0 || c.value > 0x3FFF {
        proof {
            lemma_or_channel(0xB0, c.channel);
        }
        let f = two_fields(c.param as i64, c.value as i64);
        return Err(data_oob(0xB0 | channel.index(), vstd::array::array_as_slice(&f)));
    }
    let param = c.param as u16;
    let value = c.value as u16;
    let r: [MidiMessage; 4] = [
        control_change(channel, controllers[0], (param / 128) as u8),
        control_change(channel, controllers[1], (param % 128) as u8),
        control_change(channel, 6, (value / 128) as u8),
        control_change(channel, 38, (value % 128) as u8),
    ];
    proof {
        assert(r@ =~= spec_param_cc_messages(*c, controllers@).get_Ok_0());
    }
    Ok(r)
}

/// A pitch-bend event on a valid channel with a signed bend from -8192 up to
/// 8191 becomes the pitch-bend message on that channel whose 14-bit value is
/// the bend moved up by the centre 8192: downward bends below the centre,
/// upward bends above it. Any other bend is refused as out of range.
pub proof fn lemma_pitchbend_event(c: EvCtrl)
    requires
        c.channel < 16,
    ensures
        -8192 <= c.value < 8192 ==> (spec_message_from_event(SeqEvent::Pitchbend(c)) matches Some(
            Ok(MidiMessage::PitchBend { channel, value }),
        ) && channel.spec_index() == c.channel && value.value() == c.value + 8192),
        !(-8192 <= c.value < 8192) ==> (spec_message_from_event(SeqEvent::Pitchbend(c)) matches Some(Err(_))),
{
    broadcast use crate::channel::group_channel, crate::pitch_bend::group_pitch_bend;
}

} // verus!
