use vstd::prelude::*;

use crate::channel::Channel;
use crate::data_byte::DataByte;
use crate::pitch_bend::PitchBend;
use crate::song_position::SongPosition;

verus! {

/// A MIDI 1.0 channel-voice, system-common or system-realtime message.
#[derive(Debug, Clone, Copy, PartialEq, Eq, Hash, Structural)]
pub enum MidiMessage {
    NoteOn { channel: Channel, key: DataByte, velocity: DataByte },
    NoteOff { channel: Channel, key: DataByte, velocity: DataByte },
    ControlChange { channel: Channel, controller: DataByte, value: DataByte },
    ProgramChange { channel: Channel, program: DataByte },
    PitchBend { channel: Channel, value: PitchBend },
    PolyKeyPressure { channel: Channel, key: DataByte, pressure: DataByte },
    ChannelPressure { channel: Channel, pressure: DataByte },
    MtcQuarterFrame(DataByte),
    SongPositionPointer(SongPosition),
    SongSelect(DataByte),
    TuneRequest,
    TimingClock,
    Start,
    Continue,
    Stop,
    ActiveSensing,
    Reset,
}

/// A status byte for channel `c` of the message kind whose high nibble is `kind`.
pub open spec fn channel_status(kind: u8, c: Channel) -> u8 {
    (kind + c.spec_index()) as u8
}

/// The low seven bits of a 14-bit value.
pub open spec fn low7(v: u16) -> u8 {
    (v % 128) as u8
}

/// The high seven bits of a 14-bit value.
pub open spec fn high7(v: u16) -> u8 {
    ((v / 128) % 128) as u8
}

impl MidiMessage {
    /// Every field holds a value its type admits (a property every value built
    /// through the library's constructors has).
    pub open spec fn wf(self) -> bool {
        match self {
            MidiMessage::NoteOn { key, velocity, .. } => key.value() < 128 && velocity.value() < 128,
            MidiMessage::NoteOff { key, velocity, .. } => key.value() < 128 && velocity.value() < 128,
            MidiMessage::ControlChange { controller, value, .. } => controller.value() < 128
                && value.value() < 128,
            MidiMessage::ProgramChange { program, .. } => program.value() < 128,
            MidiMessage::PitchBend { value, .. } => value.value() < 0x4000,
            MidiMessage::PolyKeyPressure { key, pressure, .. } => key.value() < 128
                && pressure.value() < 128,
            MidiMessage::ChannelPressure { pressure, .. } => pressure.value() < 128,
            MidiMessage::MtcQuarterFrame(d) => d.value() < 128,
            MidiMessage::SongPositionPointer(p) => p.value() < 0x4000,
            MidiMessage::SongSelect(d) => d.value() < 128,
            _ => true,
        }
    }

    /// The message's bytes on the wire: status byte first, then its data bytes
    /// (14-bit values least significant seven bits first).
    pub open spec fn spec_wire(self) -> Seq<u8> {
        match self {
            MidiMessage::NoteOff { channel, key, velocity } => seq![
                channel_status(0x80, channel),
                key.value(),
                velocity.value(),
            ],
            MidiMessage::NoteOn { channel, key, velocity } => seq![
                channel_status(0x90, channel),
                key.value(),
                velocity.value(),
            ],
            MidiMessage::PolyKeyPressure { channel, key, pressure } => seq![
                channel_status(0xA0, channel),
                key.value(),
                pressure.value(),
            ],
            MidiMessage::ControlChange { channel, controller, value } => seq![
                channel_status(0xB0, channel),
                controller.value(),
                value.value(),
            ],
            MidiMessage::ProgramChange { channel, program } => seq![
                channel_status(0xC0, channel),
                program.value(),
            ],
            MidiMessage::ChannelPressure { channel, pressure } => seq![
                channel_status(0xD0, channel),
                pressure.value(),
            ],
            MidiMessage::PitchBend { channel, value } => seq![
                channel_status(0xE0, channel),
                low7(value.value()),
                high7(value.value()),
            ],
            MidiMessage::MtcQuarterFrame(d) => seq![0xF1u8, d.value()],
            MidiMessage::SongPositionPointer(p) => seq![0xF2u8, low7(p.value()), high7(p.value())],
            MidiMessage::SongSelect(d) => seq![0xF3u8, d.value()],
            MidiMessage::TuneRequest => seq![0xF6u8],
            MidiMessage::TimingClock => seq![0xF8u8],
            MidiMessage::Start => seq![0xFAu8],
            MidiMessage::Continue => seq![0xFBu8],
            MidiMessage::Stop => seq![0xFCu8],
            MidiMessage::ActiveSensing => seq![0xFEu8],
            MidiMessage::Reset => seq![0xFFu8],
        }
    }

    /// The message a receiver sees: a note-on with velocity zero means note-off.
    pub open spec fn normalized(self) -> MidiMessage {
        match self {
            MidiMessage::NoteOn { channel, key, velocity } => if velocity.value() == 0 {
                MidiMessage::NoteOff { channel, key, velocity }
            } else {
                self
            },
            _ => self,
        }
    }
}

/// The channel a channel-voice message is on; none for system messages.
pub open spec fn message_channel(m: MidiMessage) -> Option<Channel> {
    match m {
        MidiMessage::NoteOn { channel, .. } => Some(channel),
        MidiMessage::NoteOff { channel, .. } => Some(channel),
        MidiMessage::ControlChange { channel, .. } => Some(channel),
        MidiMessage::ProgramChange { channel, .. } => Some(channel),
        MidiMessage::PitchBend { channel, .. } => Some(channel),
        MidiMessage::PolyKeyPressure { channel, .. } => Some(channel),
        MidiMessage::ChannelPressure { channel, .. } => Some(channel),
        _ => None,
    }
}

/// The high nibble of the status byte of a channel-voice message's kind, as
/// the MIDI 1.0 specification assigns it (0 for system messages).
pub open spec fn voice_kind(m: MidiMessage) -> u8 {
    match m {
        MidiMessage::NoteOff { .. } => 0x80,
        MidiMessage::NoteOn { .. } => 0x90,
        MidiMessage::PolyKeyPressure { .. } => 0xA0,
        MidiMessage::ControlChange { .. } => 0xB0,
        MidiMessage::ProgramChange { .. } => 0xC0,
        MidiMessage::ChannelPressure { .. } => 0xD0,
        MidiMessage::PitchBend { .. } => 0xE0,
        _ => 0,
    }
}

/// The wire status byte of a channel-voice message is its kind's high nibble
/// plus the zero-based index of its channel: channel 1 in the low nibble as
/// 0, channel 16 as 15.
pub proof fn lemma_wire_status(m: MidiMessage)
    requires
        message_channel(m) is Some,
    ensures
        m.spec_wire()[0] == voice_kind(m) + message_channel(m).unwrap().spec_index(),
        m.spec_wire()[0] / 16 * 16 == voice_kind(m),
        m.spec_wire()[0] % 16 == message_channel(m).unwrap().spec_index(),
{
    let c = message_channel(m).unwrap();
    assert(c.spec_index() < 16);
}

} // verus!
