use vstd::prelude::*;

use crate::channel::channel_from_nibble;
use crate::channel::Channel;
use crate::data_byte::DataByte;
use crate::error::CodecError;
use crate::error::CodecErrorView;
use crate::error::ParseError;
use crate::error::SysExError;
use crate::message::message_channel;
use crate::message::voice_kind;
use crate::message::MidiMessage;
use crate::pitch_bend::PitchBend;
use crate::raw_message::RawMidiMessage;
use crate::song_position::SongPosition;
use crate::sys_ex::all_data_bytes;
use crate::sys_ex::spec_frame;
use crate::sys_ex::spec_from_wire;
use crate::sys_ex::valid_body;
use crate::sys_ex::SysEx;

verus! {

/// A decoded MIDI message or sysex.
#[derive(Debug, Clone, PartialEq, Eq, Hash)]
pub enum Decoded {
    Message(MidiMessage),
    SysEx(SysEx),
}

/// The model of a [`Decoded`]: a sysex is its body.
pub enum DecodedView {
    Message(MidiMessage),
    SysEx(Seq<u8>),
}

impl View for Decoded {
    type V = DecodedView;

    open spec fn view(&self) -> DecodedView {
        match self {
            Decoded::Message(m) => DecodedView::Message(*m),
            Decoded::SysEx(s) => DecodedView::SysEx(s@),
        }
    }
}

impl DecodedView {
    /// The bytes sent on the wire for this value.
    pub open spec fn spec_wire(self) -> Seq<u8> {
        match self {
            DecodedView::Message(m) => m.spec_wire(),
            DecodedView::SysEx(body) => spec_frame(body),
        }
    }
}

/// The model of a decode result.
pub open spec fn decode_result_view(r: Result<Decoded, CodecError>) -> Result<DecodedView, CodecErrorView> {
    match r {
        Ok(d) => Ok(d@),
        Err(e) => Err(e@),
    }
}

impl Decoded {
    /// The bytes sent on the wire for this value.
    pub fn to_wire_bytes(&self) -> (r: Vec<u8>)
        ensures
            r@ == self@.spec_wire(),
    {
        match self {
            Decoded::Message(msg) => {
                let raw = RawMidiMessage::encode(msg);
                vstd::slice::slice_to_vec(raw.as_slice())
            },
            Decoded::SysEx(sysex) => sysex.to_wire_bytes(),
        }
    }
}

/// The length of a complete message that starts with `status`, for statuses
/// that have a fixed length; `None` for sysex, sysex end, undefined statuses
/// and data bytes.
pub open spec fn spec_expected_len(status: u8) -> Option<usize> {
    if status == 0xF6 || status == 0xF8 || status == 0xFA || status == 0xFB || status == 0xFC
        || status == 0xFE || status == 0xFF {
        Some(1)
    } else if status == 0xF1 || status == 0xF3 {
        Some(2)
    } else if status == 0xF2 {
        Some(3)
    } else if status >= 0xF0 || status < 0x80 {
        None
    } else if status / 16 == 0xC || status / 16 == 0xD {
        Some(2)
    } else {
        Some(3)
    }
}

pub fn expected_len(status: u8) -> (r: Option<usize>)
    ensures
        r == spec_expected_len(status),
{
    match status {
        0xF6 | 0xF8 | 0xFA | 0xFB | 0xFC | 0xFE | 0xFF => Some(1),
        0xF1 | 0xF3 => Some(2),
        0xF2 => Some(3),
        0xF0 | 0xF4 | 0xF5 | 0xF7 | 0xF9 | 0xFD => None,
        _ => {
            let kind = status / 16;
            if kind == 0x8 || kind == 0x9 || kind == 0xA || kind == 0xB || kind == 0xE {
                Some(3)
            } else if kind == 0xC || kind == 0xD {
                Some(2)
            } else {
                None
            }
        },
    }
}

/// The codec error reported for a sysex frame that [`SysEx`] refused.
pub open spec fn spec_sysex_decode_error(err: SysExError, bytes: Seq<u8>) -> CodecErrorView {
    match err {
        SysExError::TooLong { len, max } => CodecErrorView::SysexTooLong { len, max },
        SysExError::MissingStart => CodecErrorView::Parse { reason: ParseError::UnrecognizedStatus, bytes },
        SysExError::Unterminated => CodecErrorView::Parse { reason: ParseError::UnterminatedSysex, bytes },
        SysExError::EmptyBody => CodecErrorView::Parse { reason: ParseError::EmptySysex, bytes },
        SysExError::HighBit { .. } => CodecErrorView::Parse { reason: ParseError::SysexDataOutOfRange, bytes },
    }
}

pub fn sysex_decode_error(err: SysExError, bytes: Vec<u8>) -> (r: CodecError)
    ensures
        r@ == spec_sysex_decode_error(err, bytes@),
{
    let reason = match err {
        SysExError::TooLong { len, max } => return CodecError::SysexTooLong { len, max },
        SysExError::MissingStart => ParseError::UnrecognizedStatus,
        SysExError::Unterminated => ParseError::UnterminatedSysex,
        SysExError::EmptyBody => ParseError::EmptySysex,
        SysExError::HighBit { .. } => ParseError::SysexDataOutOfRange,
    };
    CodecError::Parse { reason, bytes }
}

/// The message held by `b`, a complete message of a fixed-length status whose
/// data bytes are all 7-bit.
pub open spec fn spec_message(b: Seq<u8>) -> MidiMessage {
    let s = b[0];
    if s == 0xF1 {
        MidiMessage::MtcQuarterFrame(DataByte::from_value(b[1]))
    } else if s == 0xF2 {
        MidiMessage::SongPositionPointer(SongPosition::spec_from_msb_lsb(b[2], b[1]))
    } else if s == 0xF3 {
        MidiMessage::SongSelect(DataByte::from_value(b[1]))
    } else if s == 0xF6 {
        MidiMessage::TuneRequest
    } else if s == 0xF8 {
        MidiMessage::TimingClock
    } else if s == 0xFA {
        MidiMessage::Start
    } else if s == 0xFB {
        MidiMessage::Continue
    } else if s == 0xFC {
        MidiMessage::Stop
    } else if s == 0xFE {
        MidiMessage::ActiveSensing
    } else if s == 0xFF {
        MidiMessage::Reset
    } else {
        let channel = Channel::spec_from_index(s);
        let kind = s / 16;
        if kind == 0x8 {
            MidiMessage::NoteOff {
                channel,
                key: DataByte::from_value(b[1]),
                velocity: DataByte::from_value(b[2]),
            }
        } else if kind == 0x9 {
            if b[2] == 0 {
                MidiMessage::NoteOff {
                    channel,
                    key: DataByte::from_value(b[1]),
                    velocity: DataByte::from_value(b[2]),
                }
            } else {
                MidiMessage::NoteOn {
                    channel,
                    key: DataByte::from_value(b[1]),
                    velocity: DataByte::from_value(b[2]),
                }
            }
        } else if kind == 0xA {
            MidiMessage::PolyKeyPressure {
                channel,
                key: DataByte::from_value(b[1]),
                pressure: DataByte::from_value(b[2]),
            }
        } else if kind == 0xB {
            MidiMessage::ControlChange {
                channel,
                controller: DataByte::from_value(b[1]),
                value: DataByte::from_value(b[2]),
            }
        } else if kind == 0xC {
            MidiMessage::ProgramChange { channel, program: DataByte::from_value(b[1]) }
        } else if kind == 0xD {
            MidiMessage::ChannelPressure { channel, pressure: DataByte::from_value(b[1]) }
        } else {
            MidiMessage::PitchBend { channel, value: PitchBend::spec_from_msb_lsb(b[2], b[1]) }
        }
    }
}

/// The outcome of decoding the bytes `b` as one complete message or sysex.
pub open spec fn spec_decode(b: Seq<u8>) -> Result<DecodedView, CodecErrorView> {
    if b.len() == 0 {
        Err(CodecErrorView::Parse { reason: ParseError::Empty, bytes: b })
    } else if b[0] == 0xF0 {
        match spec_from_wire(b) {
            Ok(body) => Ok(DecodedView::SysEx(body)),
            Err(e) => Err(spec_sysex_decode_error(e, b)),
        }
    } else if b[0] == 0xF7 {
        Err(CodecErrorView::Parse { reason: ParseError::StandaloneSysexEnd, bytes: b })
    } else {
        match spec_expected_len(b[0]) {
            None => Err(CodecErrorView::Parse { reason: ParseError::UnrecognizedStatus, bytes: b }),
            Some(n) => if b.len() < n {
                Err(CodecErrorView::Parse { reason: ParseError::Truncated, bytes: b })
            } else if b.len() > n {
                Err(CodecErrorView::Parse { reason: ParseError::TrailingData, bytes: b })
            } else if !all_data_bytes(b.subrange(1, n as int)) {
                Err(CodecErrorView::Parse { reason: ParseError::DataByteOutOfRange, bytes: b })
            } else {
                Ok(DecodedView::Message(spec_message(b)))
            },
        }
    }
}

fn parse_error(reason: ParseError, bytes: &[u8]) -> (r: CodecError)
    ensures
        r@ == (CodecErrorView::Parse { reason, bytes: bytes@ }),
{
    CodecError::Parse { reason, bytes: vstd::slice::slice_to_vec(bytes) }
}

/// Decodes one complete MIDI message or sysex frame.
pub fn decode(bytes: &[u8]) -> (r: Result<Decoded, CodecError>)
    ensures
        decode_result_view(r) == spec_decode(bytes@),
{
    if bytes.len() == 0 {
        return Err(parse_error(ParseError::Empty, bytes));
    }
    let status = bytes[0];
    if status == 0xF0 {
        return match SysEx::from_wire(bytes) {
            Ok(s) => Ok(Decoded::SysEx(s)),
            Err(e) => Err(sysex_decode_error(e, vstd::slice::slice_to_vec(bytes))),
        };
    }
    if status == 0xF7 {
        return Err(parse_error(ParseError::StandaloneSysexEnd, bytes));
    }
    let len = match expected_len(status) {
        Some(len) => len,
        None => {
            return Err(parse_error(ParseError::UnrecognizedStatus, bytes));
        },
    };
    if bytes.len() < len {
        return Err(parse_error(ParseError::Truncated, bytes));
    }
    if bytes.len() > len {
        return Err(parse_error(ParseError::TrailingData, bytes));
    }
    let mut i: usize = 1;
    while i < len
        invariant
            1 <= i <= len,
            len == bytes@.len(),
            bytes@[0] != 0xF0,
            bytes@[0] != 0xF7,
            spec_expected_len(bytes@[0]) == Some(len),
            all_data_bytes(bytes@.subrange(1, i as int)),
        decreases len - i,
    {
        if bytes[i] > 0x7F {
            assert(bytes@.subrange(1, len as int)[i - 1] == bytes@[i as int]);
            return Err(parse_error(ParseError::DataByteOutOfRange, bytes));
        }
        assert(bytes@.subrange(1, i + 1) =~= bytes@.subrange(1, i as int).push(bytes@[i as int]));
        i = i + 1;
    }
    assert(forall|j: int| 1 <= j < len ==> bytes@[j] < 0x80) by {
        assert forall|j: int| 1 <= j < len implies bytes@[j] < 0x80 by {
            assert(bytes@.subrange(1, len as int)[j - 1] == bytes@[j]);
        }
    }
    let message = match status {
        0xF1 => MidiMessage::MtcQuarterFrame(DataByte::from_valid(bytes[1])),
        0xF2 => MidiMessage::SongPositionPointer(
            SongPosition::from_msb_lsb(DataByte::from_valid(bytes[2]), DataByte::from_valid(bytes[1])),
        ),
        0xF3 => MidiMessage::SongSelect(DataByte::from_valid(bytes[1])),
        0xF6 => MidiMessage::TuneRequest,
        0xF8 => MidiMessage::TimingClock,
        0xFA => MidiMessage::Start,
        0xFB => MidiMessage::Continue,
        0xFC => MidiMessage::Stop,
        0xFE => MidiMessage::ActiveSensing,
        0xFF => MidiMessage::Reset,
        _ => {
            let channel = channel_from_nibble(status);
            let kind = status / 16;
            if kind == 0x8 {
                MidiMessage::NoteOff {
                    channel,
                    key: DataByte::from_valid(bytes[1]),
                    velocity: DataByte::from_valid(bytes[2]),
                }
            } else if kind == 0x9 {
                let key = DataByte::from_valid(bytes[1]);
                let velocity = DataByte::from_valid(bytes[2]);
                if velocity.get() == 0 {
                    MidiMessage::NoteOff { channel, key, velocity }
                } else {
                    MidiMessage::NoteOn { channel, key, velocity }
                }
            } else if kind == 0xA {
                MidiMessage::PolyKeyPressure {
                    channel,
                    key: DataByte::from_valid(bytes[1]),
                    pressure: DataByte::from_valid(bytes[2]),
                }
            } else if kind == 0xB {
                MidiMessage::ControlChange {
                    channel,
                    controller: DataByte::from_valid(bytes[1]),
                    value: DataByte::from_valid(bytes[2]),
                }
            } else if kind == 0xC {
                MidiMessage::ProgramChange { channel, program: DataByte::from_valid(bytes[1]) }
            } else if kind == 0xD {
                MidiMessage::ChannelPressure { channel, pressure: DataByte::from_valid(bytes[1]) }
            } else {
                MidiMessage::PitchBend {
                    channel,
                    value: PitchBend::from_msb_lsb(
                        DataByte::from_valid(bytes[2]),
                        DataByte::from_valid(bytes[1]),
                    ),
                }
            }
        },
    };
    proof {
        broadcast use crate::data_byte::group_data_byte;
    }
    Ok(Decoded::Message(message))
}

/// Decoding the wire bytes of a well-formed message gives the message back; a
/// note-on with velocity zero comes back as the note-off it means.
pub proof fn lemma_message_roundtrip(m: MidiMessage)
    requires
        m.wf(),
    ensures
        spec_decode(m.spec_wire()) == Ok::<DecodedView, CodecErrorView>(DecodedView::Message(m.normalized())),
{
    broadcast use crate::data_byte::group_data_byte, crate::channel::group_channel;
    broadcast use crate::pitch_bend::group_pitch_bend, crate::song_position::group_song_position;
    let w = m.spec_wire();
    match m {
        MidiMessage::PitchBend { channel, value } => {
            PitchBend::lemma_msb_lsb_roundtrip(value.value());
            assert(w.subrange(1, 3)[0] == w[1]);
            assert(w.subrange(1, 3)[1] == w[2]);
        },
        MidiMessage::SongPositionPointer(p) => {
            SongPosition::lemma_msb_lsb_roundtrip(p.value());
            assert(w.subrange(1, 3)[0] == w[1]);
            assert(w.subrange(1, 3)[1] == w[2]);
        },
        _ => {
            if w.len() == 3 {
                assert(w.subrange(1, 3)[0] == w[1]);
                assert(w.subrange(1, 3)[1] == w[2]);
            } else if w.len() == 2 {
                assert(w.subrange(1, 2)[0] == w[1]);
            }
        },
    }
}

/// Decoding a sysex frame of a valid body gives the body back.
pub proof fn lemma_sysex_roundtrip(body: Seq<u8>)
    requires
        valid_body(body),
    ensures
        spec_decode(spec_frame(body)) == Ok::<DecodedView, CodecErrorView>(DecodedView::SysEx(body)),
{
    SysEx::lemma_wire_roundtrip(body);
}

/// The wire bytes of a well-formed message are a status byte followed by
/// 7-bit data bytes, exactly as many as that status calls for.
pub proof fn lemma_wire_is_legal(m: MidiMessage)
    requires
        m.wf(),
    ensures
        m.spec_wire().len() >= 1,
        m.spec_wire()[0] >= 0x80,
        spec_expected_len(m.spec_wire()[0]) == Some(m.spec_wire().len() as usize),
        all_data_bytes(m.spec_wire().subrange(1, m.spec_wire().len() as int)),
{
    broadcast use crate::channel::group_channel;
    let w = m.spec_wire();
    assert forall|i: int| 0 <= i < w.len() - 1 implies #[trigger] w.subrange(1, w.len() as int)[i] < 0x80 by {
        assert(w.subrange(1, w.len() as int)[i] == w[i + 1]);
    }
}

/// A channel-voice message decoded from `b` is on the channel that the low
/// nibble of `b`'s status byte names (index 0 for channel 1), and is of the
/// kind its high nibble names, save that a note-on of velocity zero comes out
/// as a note-off.
pub proof fn lemma_decoded_channel(b: Seq<u8>, m: MidiMessage)
    requires
        spec_decode(b) == Ok::<DecodedView, CodecErrorView>(DecodedView::Message(m)),
        message_channel(m) is Some,
    ensures
        message_channel(m).unwrap().spec_index() == b[0] % 16,
        voice_kind(m) == b[0] / 16 * 16 || (m is NoteOff && b[0] / 16 == 9),
{
    broadcast use crate::channel::group_channel;
    assert(b[0] != 0xF0);
    assert(spec_message(b) == m);
}

} // verus!
