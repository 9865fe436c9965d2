use vstd::prelude::*;
use vstd::std_specs::cmp::PartialEqSpecImpl;

use crate::channel::Channel;
use crate::decode::decode;
use crate::decode::Decoded;
use crate::decode::DecodedView;
use crate::decode::spec_decode;
use crate::error::CodecError;
use crate::message::channel_status;
use crate::message::high7;
use crate::message::low7;
use crate::message::MidiMessage;

verus! {

/// An unparsed MIDI message of at most three bytes.
#[derive(Debug, Copy, Clone)]
pub struct RawMidiMessage {
    bytes: [u8; 3],
    len: u8,
}

impl View for RawMidiMessage {
    type V = Seq<u8>;

    closed spec fn view(&self) -> Seq<u8> {
        self.bytes@.subrange(0, self.len as int)
    }
}

/// `kind | index` for a status nibble and a channel index is their sum.
proof fn lemma_status_or(kind: u8, index: u8)
    requires
        kind % 16 == 0,
        index < 16,
    ensures
        kind | index == kind + index,
{
    assert(kind % 16 == 0 && index < 16 ==> kind | index == kind + index) by (bit_vector);
}

impl RawMidiMessage {
    #[verifier::type_invariant]
    spec fn inv(self) -> bool {
        self.len <= 3
    }

    fn new(bytes: [u8; 3], len: u8) -> (r: RawMidiMessage)
        requires
            len <= 3,
        ensures
            r@ == bytes@.subrange(0, len as int),
            r == (RawMidiMessage { bytes, len }),
    {
        RawMidiMessage { bytes, len }
    }

    fn status(kind: u8, channel: Channel) -> (r: u8)
        requires
            kind % 16 == 0,
            kind >= 0x80,
            kind <= 0xE0,
        ensures
            r == channel_status(kind, channel),
    {
        let i = channel.index();
        proof {
            lemma_status_or(kind, i);
        }
        kind | i
    }

    /// The first `min(bytes.len(), 3)` bytes, whatever they hold.
    pub fn from_slice(bytes: &[u8]) -> (r: RawMidiMessage)
        ensures
            r@ == bytes@.subrange(0, if bytes@.len() < 3 { bytes@.len() as int } else { 3 }),
    {
        let len: usize = if bytes.len() < 3 {
            bytes.len()
        } else {
            3
        };
        let mut buf: [u8; 3] = [0u8; 3];
        let mut i: usize = 0;
        while i < len
            invariant
                len <= 3,
                len <= bytes@.len(),
                i <= len,
                buf@.len() == 3,
                forall|j: int| 0 <= j < i ==> buf@[j] == bytes@[j],
            decreases len - i,
        {
            buf.set(i, bytes[i]);
            i = i + 1;
        }
        let r = RawMidiMessage::new(buf, len as u8);
        assert(r@ =~= bytes@.subrange(0, len as int));
        r
    }

    /// The message's bytes.
    pub fn as_slice(&self) -> (r: &[u8])
        ensures
            r@ == self@,
            r@.len() <= 3,
    {
        proof {
            use_type_invariant(self);
        }
        let all = vstd::array::array_as_slice(&self.bytes);
        vstd::slice::slice_subrange(all, 0, self.len as usize)
    }

    /// The value [`RawMidiMessage::encode`] builds for `msg`.
    pub closed spec fn spec_encode(msg: MidiMessage) -> RawMidiMessage {
        match msg {
            MidiMessage::NoteOff { channel, key, velocity } => RawMidiMessage {
                bytes: [channel_status(0x80, channel), key.value(), velocity.value()],
                len: 3,
            },
            MidiMessage::NoteOn { channel, key, velocity } => RawMidiMessage {
                bytes: [channel_status(0x90, channel), key.value(), velocity.value()],
                len: 3,
            },
            MidiMessage::PolyKeyPressure { channel, key, pressure } => RawMidiMessage {
                bytes: [channel_status(0xA0, channel), key.value(), pressure.value()],
                len: 3,
            },
            MidiMessage::ControlChange { channel, controller, value } => RawMidiMessage {
                bytes: [channel_status(0xB0, channel), controller.value(), value.value()],
                len: 3,
            },
            MidiMessage::ProgramChange { channel, program } => RawMidiMessage {
                bytes: [channel_status(0xC0, channel), program.value(), 0],
                len: 2,
            },
            MidiMessage::ChannelPressure { channel, pressure } => RawMidiMessage {
                bytes: [channel_status(0xD0, channel), pressure.value(), 0],
                len: 2,
            },
            MidiMessage::PitchBend { channel, value } => RawMidiMessage {
                bytes: [channel_status(0xE0, channel), low7(value.value()), high7(value.value())],
                len: 3,
            },
            MidiMessage::MtcQuarterFrame(d) => RawMidiMessage { bytes: [0xF1, d.value(), 0], len: 2 },
            MidiMessage::SongPositionPointer(p) => RawMidiMessage {
                bytes: [0xF2, low7(p.value()), high7(p.value())],
                len: 3,
            },
            MidiMessage::SongSelect(d) => RawMidiMessage { bytes: [0xF3, d.value(), 0], len: 2 },
            MidiMessage::TuneRequest => RawMidiMessage { bytes: [0xF6, 0, 0], len: 1 },
            MidiMessage::TimingClock => RawMidiMessage { bytes: [0xF8, 0, 0], len: 1 },
            MidiMessage::Start => RawMidiMessage { bytes: [0xFA, 0, 0], len: 1 },
            MidiMessage::Continue => RawMidiMessage { bytes: [0xFB, 0, 0], len: 1 },
            MidiMessage::Stop => RawMidiMessage { bytes: [0xFC, 0, 0], len: 1 },
            MidiMessage::ActiveSensing => RawMidiMessage { bytes: [0xFE, 0, 0], len: 1 },
            MidiMessage::Reset => RawMidiMessage { bytes: [0xFF, 0, 0], len: 1 },
        }
    }

    /// The wire encoding of `msg`.
    pub(crate) fn encode(msg: &MidiMessage) -> (r: RawMidiMessage)
        ensures
            r@ == msg.spec_wire(),
            r == RawMidiMessage::spec_encode(*msg),
    {
        let r = match msg {
            MidiMessage::NoteOff { channel, key, velocity } => RawMidiMessage::new(
                [RawMidiMessage::status(0x80, *channel), key.get(), velocity.get()],
                3,
            ),
            MidiMessage::NoteOn { channel, key, velocity } => RawMidiMessage::new(
                [RawMidiMessage::status(0x90, *channel), key.get(), velocity.get()],
                3,
            ),
            MidiMessage::PolyKeyPressure { channel, key, pressure } => RawMidiMessage::new(
                [RawMidiMessage::status(0xA0, *channel), key.get(), pressure.get()],
                3,
            ),
            MidiMessage::ControlChange { channel, controller, value } => RawMidiMessage::new(
                [RawMidiMessage::status(0xB0, *channel), controller.get(), value.get()],
                3,
            ),
            MidiMessage::ProgramChange { channel, program } => RawMidiMessage::new(
                [RawMidiMessage::status(0xC0, *channel), program.get(), 0],
                2,
            ),
            MidiMessage::ChannelPressure { channel, pressure } => RawMidiMessage::new(
                [RawMidiMessage::status(0xD0, *channel), pressure.get(), 0],
                2,
            ),
            MidiMessage::PitchBend { channel, value } => RawMidiMessage::new(
                [RawMidiMessage::status(0xE0, *channel), value.lsb(), value.msb()],
                3,
            ),
            MidiMessage::MtcQuarterFrame(data) => RawMidiMessage::new([0xF1, data.get(), 0], 2),
            MidiMessage::SongPositionPointer(pos) => RawMidiMessage::new(
                [0xF2, pos.lsb(), pos.msb()],
                3,
            ),
            MidiMessage::SongSelect(song) => RawMidiMessage::new([0xF3, song.get(), 0], 2),
            MidiMessage::TuneRequest => RawMidiMessage::new([0xF6, 0, 0], 1),
            MidiMessage::TimingClock => RawMidiMessage::new([0xF8, 0, 0], 1),
            MidiMessage::Start => RawMidiMessage::new([0xFA, 0, 0], 1),
            MidiMessage::Continue => RawMidiMessage::new([0xFB, 0, 0], 1),
            MidiMessage::Stop => RawMidiMessage::new([0xFC, 0, 0], 1),
            MidiMessage::ActiveSensing => RawMidiMessage::new([0xFE, 0, 0], 1),
            MidiMessage::Reset => RawMidiMessage::new([0xFF, 0, 0], 1),
        };
        assert(r@ =~= msg.spec_wire());
        r
    }
}

impl std::ops::Deref for RawMidiMessage {
    type Target = [u8];

    fn deref(&self) -> (r: &[u8])
        ensures
            r@ == self@,
    {
        self.as_slice()
    }
}

impl PartialEq for RawMidiMessage {
    fn eq(&self, other: &Self) -> (r: bool) {
        let a = self.as_slice();
        let b = other.as_slice();
        if a.len() != b.len() {
            return false;
        }
        let mut i: usize = 0;
        while i < a.len()
            invariant
                a@ == self@,
                b@ == other@,
                a@.len() == b@.len(),
                i <= a@.len(),
                forall|j: int| 0 <= j < i ==> a@[j] == b@[j],
            decreases a@.len() - i,
        {
            if a[i] != b[i] {
                assert(a@[i as int] != b@[i as int]);
                return false;
            }
            i = i + 1;
        }
        assert(a@ =~= b@);
        true
    }
}

impl PartialEqSpecImpl for RawMidiMessage {
    open spec fn obeys_eq_spec() -> bool {
        true
    }

    open spec fn eq_spec(&self, other: &RawMidiMessage) -> bool {
        self@ == other@
    }
}

impl Eq for RawMidiMessage {}

impl From<&MidiMessage> for RawMidiMessage {
    fn from(msg: &MidiMessage) -> (r: RawMidiMessage)
        ensures
            r@ == msg.spec_wire(),
    {
        RawMidiMessage::encode(msg)
    }
}

impl vstd::std_specs::convert::FromSpecImpl<&MidiMessage> for RawMidiMessage {
    open spec fn obeys_from_spec() -> bool {
        true
    }

    open spec fn from_spec(msg: &MidiMessage) -> RawMidiMessage {
        RawMidiMessage::spec_encode(*msg)
    }
}

impl From<MidiMessage> for RawMidiMessage {
    fn from(msg: MidiMessage) -> (r: RawMidiMessage)
        ensures
            r@ == msg.spec_wire(),
    {
        RawMidiMessage::encode(&msg)
    }
}

impl vstd::std_specs::convert::FromSpecImpl<MidiMessage> for RawMidiMessage {
    open spec fn obeys_from_spec() -> bool {
        true
    }

    open spec fn from_spec(msg: MidiMessage) -> RawMidiMessage {
        RawMidiMessage::spec_encode(msg)
    }
}

impl TryFrom<RawMidiMessage> for MidiMessage {
    type Error = CodecError;

    fn try_from(raw: RawMidiMessage) -> (r: Result<MidiMessage, CodecError>)
        ensures
            r == (match spec_decode(raw@) {
                Ok(DecodedView::Message(m)) => Ok(m),
                _ => Err(CodecError::Unparseable(raw)),
            }),
    {
        match decode(raw.as_slice()) {
            Ok(Decoded::Message(msg)) => Ok(msg),
            _ => Err(CodecError::Unparseable(raw)),
        }
    }
}

impl vstd::std_specs::convert::TryFromSpecImpl<RawMidiMessage> for MidiMessage {
    open spec fn obeys_try_from_spec() -> bool {
        true
    }

    open spec fn try_from_spec(raw: RawMidiMessage) -> Result<MidiMessage, CodecError> {
        match spec_decode(raw@) {
            Ok(DecodedView::Message(m)) => Ok(m),
            _ => Err(CodecError::Unparseable(raw)),
        }
    }
}

} // verus!
