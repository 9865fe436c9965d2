use vstd::prelude::*;

use crate::channel::Channel;
use crate::data_byte::DataByte;
use crate::error::CodecError;
use crate::error::Error;
use crate::error::IoError;
use crate::error::NameError;
use crate::error::ParseError;
use crate::error::PlatformError;
use crate::error::SysExError;
use crate::error::ValueError;
use crate::message::MidiMessage;
use crate::pitch_bend::PitchBend;
use crate::pitch_bend::PITCH_BEND_CENTER;
use crate::song_position::SongPosition;
use crate::sys_ex::SysEx;

verus! {

/// The character of a decimal digit.
pub open spec fn digit_char(d: int) -> char {
    if d == 0 {
        '0'
    } else if d == 1 {
        '1'
    } else if d == 2 {
        '2'
    } else if d == 3 {
        '3'
    } else if d == 4 {
        '4'
    } else if d == 5 {
        '5'
    } else if d == 6 {
        '6'
    } else if d == 7 {
        '7'
    } else if d == 8 {
        '8'
    } else {
        '9'
    }
}

/// The character of a lowercase hexadecimal digit.
pub open spec fn hex_char(d: int) -> char {
    if d < 10 {
        digit_char(d)
    } else if d == 10 {
        'a'
    } else if d == 11 {
        'b'
    } else if d == 12 {
        'c'
    } else if d == 13 {
        'd'
    } else if d == 14 {
        'e'
    } else {
        'f'
    }
}

/// The decimal digits of `n`, without leading zeros.
pub open spec fn dec(n: nat) -> Seq<char>
    decreases n,
{
    if n < 10 {
        seq![digit_char(n as int)]
    } else {
        dec(n / 10) + seq![digit_char((n % 10) as int)]
    }
}

/// `i` in decimal, with a minus sign when negative.
pub open spec fn signed_dec(i: int) -> Seq<char> {
    if i < 0 {
        seq!['-'] + dec((-i) as nat)
    } else {
        dec(i as nat)
    }
}

/// A byte as two lowercase hexadecimal digits.
pub open spec fn hex2(b: u8) -> Seq<char> {
    seq![hex_char((b / 16) as int), hex_char((b % 16) as int)]
}

/// The bytes as two-digit hexadecimal numbers separated by `", "`.
pub open spec fn hex_items(s: Seq<u8>) -> Seq<char>
    decreases s.len(),
{
    if s.len() == 0 {
        Seq::empty()
    } else if s.len() == 1 {
        hex2(s[0])
    } else {
        hex_items(s.drop_last()) + seq![',', ' '] + hex2(s.last())
    }
}

/// The bytes as a bracketed list of two-digit hexadecimal numbers, as in
/// `[90, 3c]`.
pub open spec fn hex_list(s: Seq<u8>) -> Seq<char> {
    seq!['['] + hex_items(s) + seq![']']
}

/// Appends `t`.
pub fn push_str(s: &mut String, t: &str)
    ensures
        final(s)@ == old(s)@ + t@,
{
    s.append(t);
}

/// The text of a digit.
fn digit_str(d: u64) -> (r: &'static str)
    requires
        d < 16,
    ensures
        r@ == seq![hex_char(d as int)],
{
    proof {
        reveal_strlit("0");
        reveal_strlit("1");
        reveal_strlit("2");
        reveal_strlit("3");
        reveal_strlit("4");
        reveal_strlit("5");
        reveal_strlit("6");
        reveal_strlit("7");
        reveal_strlit("8");
        reveal_strlit("9");
        reveal_strlit("a");
        reveal_strlit("b");
        reveal_strlit("c");
        reveal_strlit("d");
        reveal_strlit("e");
        reveal_strlit("f");
    }
    let r = if d == 0 {
        "0"
    } else if d == 1 {
        "1"
    } else if d == 2 {
        "2"
    } else if d == 3 {
        "3"
    } else if d == 4 {
        "4"
    } else if d == 5 {
        "5"
    } else if d == 6 {
        "6"
    } else if d == 7 {
        "7"
    } else if d == 8 {
        "8"
    } else if d == 9 {
        "9"
    } else if d == 10 {
        "a"
    } else if d == 11 {
        "b"
    } else if d == 12 {
        "c"
    } else if d == 13 {
        "d"
    } else if d == 14 {
        "e"
    } else {
        "f"
    };
    assert(r@ =~= seq![hex_char(d as int)]);
    r
}

/// Appends `n` in decimal.
pub fn push_decimal(s: &mut String, n: u64)
    ensures
        final(s)@ == old(s)@ + dec(n as nat),
    decreases n,
{
    if n >= 10 {
        push_decimal(s, n / 10);
    }
    let d = digit_str(n % 10);
    push_str(s, d);
    proof {
        assert(final(s)@ =~= old(s)@ + dec(n as nat)) by {
            if n >= 10 {
                assert(dec(n as nat) == dec((n / 10) as nat) + seq![digit_char((n % 10) as int)]);
            }
        }
    }
}

/// Appends `n` in decimal, with a minus sign when negative.
pub fn push_signed(s: &mut String, n: i64)
    ensures
        final(s)@ == old(s)@ + signed_dec(n as int),
{
    if n < 0 {
        proof {
            reveal_strlit("-");
        }
        push_str(s, "-");
        let m: u64 = if n == i64::MIN {
            0x8000_0000_0000_0000
        } else {
            (-n) as u64
        };
        push_decimal(s, m);
        assert(final(s)@ =~= old(s)@ + signed_dec(n as int));
    } else {
        push_decimal(s, n as u64);
    }
}

/// Appends a byte as two lowercase hexadecimal digits.
pub fn push_hex2(s: &mut String, b: u8)
    ensures
        final(s)@ == old(s)@ + hex2(b),
{
    push_str(s, digit_str((b / 16) as u64));
    push_str(s, digit_str((b % 16) as u64));
    assert(final(s)@ =~= old(s)@ + hex2(b));
}

/// Appends the bytes as a bracketed list of two-digit hexadecimal numbers.
pub fn push_hex_list(s: &mut String, bytes: &[u8])
    ensures
        final(s)@ == old(s)@ + hex_list(bytes@),
{
    proof {
        reveal_strlit("[");
        reveal_strlit("]");
        reveal_strlit(", ");
    }
    let ghost start = s@;
    push_str(s, "[");
    let mut i: usize = 0;
    while i < bytes.len()
        invariant
            i <= bytes@.len(),
            s@ == start + seq!['['] + hex_items(bytes@.subrange(0, i as int)),
        decreases bytes@.len() - i,
    {
        let ghost before = s@;
        if i > 0 {
            push_str(s, ", ");
        }
        push_hex2(s, bytes[i]);
        proof {
            let prefix = bytes@.subrange(0, i + 1);
            assert(prefix.drop_last() =~= bytes@.subrange(0, i as int));
            assert(prefix.last() == bytes@[i as int]);
            if i == 0 {
                assert(hex_items(prefix) == hex2(bytes@[0]));
                assert(s@ =~= start + seq!['['] + hex_items(prefix));
            } else {
                reveal_strlit(", ");
                assert(", "@ =~= seq![',', ' ']);
                assert(hex_items(prefix) == hex_items(bytes@.subrange(0, i as int)) + seq![',', ' '] + hex2(bytes@[i as int]));
                assert(s@ =~= before + seq![',', ' '] + hex2(bytes@[i as int]));
                assert(s@ =~= start + seq!['['] + hex_items(prefix));
            }
        }
        i = i + 1;
    }
    push_str(s, "]");
    proof {
        assert(bytes@.subrange(0, bytes@.len() as int) =~= bytes@);
        assert(s@ =~= start + hex_list(bytes@));
    }
}

/// A new string holding `t`.
fn string_of(t: &str) -> (r: String)
    ensures
        r@ == t@,
{
    String::from_str(t)
}

impl ParseError {
    /// The text of the error.
    pub open spec fn text(self) -> Seq<char> {
        match self {
            ParseError::Empty => "empty message"@,
            ParseError::Truncated => "truncated message"@,
            ParseError::TrailingData => "unexpected trailing bytes after message"@,
            ParseError::StandaloneSysexEnd => "standalone SysexEnd marker"@,
            ParseError::DataByteOutOfRange => "data byte with high bit set"@,
            ParseError::ChannelOutOfRange => "channel out of range"@,
            ParseError::SysexDataOutOfRange => "sysex body byte with high bit set"@,
            ParseError::EmptySysex => "empty sysex body"@,
            ParseError::UnterminatedSysex => "unterminated sysex"@,
            ParseError::UnrecognizedStatus => "unrecognized status byte"@,
            ParseError::OrphanedData { len } => "orphaned data bytes ("@ + dec(len as nat) + " total)"@,
        }
    }

    pub fn to_string(&self) -> (r: String)
        ensures
            r@ == self.text(),
    {
        match *self {
            ParseError::Empty => string_of("empty message"),
            ParseError::Truncated => string_of("truncated message"),
            ParseError::TrailingData => string_of("unexpected trailing bytes after message"),
            ParseError::StandaloneSysexEnd => string_of("standalone SysexEnd marker"),
            ParseError::DataByteOutOfRange => string_of("data byte with high bit set"),
            ParseError::ChannelOutOfRange => string_of("channel out of range"),
            ParseError::SysexDataOutOfRange => string_of("sysex body byte with high bit set"),
            ParseError::EmptySysex => string_of("empty sysex body"),
            ParseError::UnterminatedSysex => string_of("unterminated sysex"),
            ParseError::UnrecognizedStatus => string_of("unrecognized status byte"),
            ParseError::OrphanedData { len } => {
                let mut s = string_of("orphaned data bytes (");
                push_decimal(&mut s, len as u64);
                push_str(&mut s, " total)");
                s
            },
        }
    }
}

impl ValueError {
    /// The text of the error.
    pub open spec fn text(self) -> Seq<char> {
        match self {
            ValueError::DataByte(v) => dec(v as nat) + " is not a 7-bit MIDI data value (0..=127)"@,
            ValueError::ChannelIndex(v) => dec(v as nat) + " is not a MIDI channel index (0..=15)"@,
            ValueError::ChannelNumber(v) => dec(v as nat) + " is not a MIDI channel number (1..=16)"@,
            ValueError::PitchBend(v) => signed_dec(v as int) + " is out of MIDI pitch-bend range"@,
            ValueError::SongPosition(v) => dec(v as nat) + " is not a 14-bit MIDI song-position value (0..=16383)"@,
        }
    }

    pub fn to_string(&self) -> (r: String)
        ensures
            r@ == self.text(),
    {
        let mut s = String::new();
        match *self {
            ValueError::DataByte(v) => {
                push_decimal(&mut s, v as u64);
                push_str(&mut s, " is not a 7-bit MIDI data value (0..=127)");
            },
            ValueError::ChannelIndex(v) => {
                push_decimal(&mut s, v as u64);
                push_str(&mut s, " is not a MIDI channel index (0..=15)");
            },
            ValueError::ChannelNumber(v) => {
                push_decimal(&mut s, v as u64);
                push_str(&mut s, " is not a MIDI channel number (1..=16)");
            },
            ValueError::PitchBend(v) => {
                push_signed(&mut s, v as i64);
                push_str(&mut s, " is out of MIDI pitch-bend range");
            },
            ValueError::SongPosition(v) => {
                push_decimal(&mut s, v as u64);
                push_str(&mut s, " is not a 14-bit MIDI song-position value (0..=16383)");
            },
        }
        s
    }
}

impl SysExError {
    /// The text of the error.
    pub open spec fn text(self) -> Seq<char> {
        match self {
            SysExError::MissingStart => "sysex must begin with a 0xF0 start byte"@,
            SysExError::Unterminated => "sysex must end with a 0xF7 end byte"@,
            SysExError::EmptyBody => "sysex has no body byte between 0xF0 and 0xF7"@,
            SysExError::TooLong { len, max } => "sysex body is "@ + dec(len as nat)
                + " bytes, larger than the maximum of "@ + dec(max as nat),
            SysExError::HighBit { index, byte } => "sysex body byte 0x"@ + hex2(byte) + " at index "@
                + dec(index as nat) + " is not a 7-bit value"@,
        }
    }

    pub fn to_string(&self) -> (r: String)
        ensures
            r@ == self.text(),
    {
        match *self {
            SysExError::MissingStart => string_of("sysex must begin with a 0xF0 start byte"),
            SysExError::Unterminated => string_of("sysex must end with a 0xF7 end byte"),
            SysExError::EmptyBody => string_of("sysex has no body byte between 0xF0 and 0xF7"),
            SysExError::TooLong { len, max } => {
                let mut s = string_of("sysex body is ");
                push_decimal(&mut s, len as u64);
                push_str(&mut s, " bytes, larger than the maximum of ");
                push_decimal(&mut s, max as u64);
                s
            },
            SysExError::HighBit { index, byte } => {
                let mut s = string_of("sysex body byte 0x");
                push_hex2(&mut s, byte);
                push_str(&mut s, " at index ");
                push_decimal(&mut s, index as u64);
                push_str(&mut s, " is not a 7-bit value");
                s
            },
        }
    }
}

impl CodecError {
    /// The text of the error.
    pub open spec fn text(self) -> Seq<char> {
        match self {
            CodecError::Parse { reason, bytes } => "failed to parse MIDI message: "@ + reason.text() + " (bytes: "@
                + hex_list(bytes@) + ")"@,
            CodecError::Unparseable(raw) => "unparseable MIDI message: "@ + hex_list(raw@),
            CodecError::SysexTooLong { len, max } => "sysex too long: "@ + dec(len as nat) + " bytes (max "@ + dec(
                max as nat,
            ) + ")"@,
        }
    }

    pub fn to_string(&self) -> (r: String)
        ensures
            r@ == self.text(),
    {
        match self {
            CodecError::Parse { reason, bytes } => {
                let mut s = string_of("failed to parse MIDI message: ");
                let reason_text = reason.to_string();
                push_str(&mut s, reason_text.as_str());
                push_str(&mut s, " (bytes: ");
                push_hex_list(&mut s, bytes.as_slice());
                push_str(&mut s, ")");
                s
            },
            CodecError::Unparseable(raw) => {
                let mut s = string_of("unparseable MIDI message: ");
                push_hex_list(&mut s, raw.as_slice());
                s
            },
            CodecError::SysexTooLong { len, max } => {
                let mut s = string_of("sysex too long: ");
                push_decimal(&mut s, *len as u64);
                push_str(&mut s, " bytes (max ");
                push_decimal(&mut s, *max as u64);
                push_str(&mut s, ")");
                s
            },
        }
    }
}

impl NameError {
    /// The text of the error.
    pub open spec fn text(self) -> Seq<char> {
        "name contains NUL byte"@
    }

    pub fn to_string(&self) -> (r: String)
        ensures
            r@ == self.text(),
    {
        string_of("name contains NUL byte")
    }
}

impl PlatformError {
    /// The text of the error.
    pub open spec fn text(self) -> Seq<char> {
        match self {
            PlatformError::ClientInit(c) => "client initialization failed: backend error code "@ + signed_dec(c as int),
            PlatformError::ThreadInit => "client initialization failed: IO thread initialization failed"@,
            PlatformError::Connect(c) => "connect failed: backend error code "@ + signed_dec(c as int),
            PlatformError::Send(c) => "send failed: backend error code "@ + signed_dec(c as int),
            PlatformError::Encode => "send failed: MIDI encoder produced no event for valid input"@,
            PlatformError::VirtualPortCreate(c) => "virtual port creation failed: backend error code "@ + signed_dec(
                c as int,
            ),
        }
    }

    pub fn to_string(&self) -> (r: String)
        ensures
            r@ == self.text(),
    {
        match *self {
            PlatformError::ClientInit(c) => {
                let mut s = string_of("client initialization failed: backend error code ");
                push_signed(&mut s, c as i64);
                s
            },
            PlatformError::ThreadInit => string_of("client initialization failed: IO thread initialization failed"),
            PlatformError::Connect(c) => {
                let mut s = string_of("connect failed: backend error code ");
                push_signed(&mut s, c as i64);
                s
            },
            PlatformError::Send(c) => {
                let mut s = string_of("send failed: backend error code ");
                push_signed(&mut s, c as i64);
                s
            },
            PlatformError::Encode => string_of("send failed: MIDI encoder produced no event for valid input"),
            PlatformError::VirtualPortCreate(c) => {
                let mut s = string_of("virtual port creation failed: backend error code ");
                push_signed(&mut s, c as i64);
                s
            },
        }
    }
}

impl IoError {
    /// The text of the error.
    pub open spec fn text(self) -> Seq<char> {
        match self {
            IoError::PortNotFound => "port not found"@,
            IoError::PortDisconnected => "port disconnected"@,
            IoError::AlreadyConnected => "port already connected"@,
            IoError::InvalidName(e) => "invalid name: "@ + e.text(),
            IoError::BackendThreadDied => "platform backend thread terminated unexpectedly"@,
            IoError::BackendCommandChannelFull => "command channel full - backend thread is not processing commands"@,
            IoError::Platform(e) => e.text(),
            IoError::InboundOverflow { dropped } => "inbound stream overflow - "@ + dec(dropped as nat)
                + " message(s) dropped"@,
            IoError::Unsupported => "operation not supported by this backend"@,
            IoError::UniqueIdTaken => "unique id is held by another endpoint"@,
        }
    }

    pub fn to_string(&self) -> (r: String)
        ensures
            r@ == self.text(),
    {
        match *self {
            IoError::PortNotFound => string_of("port not found"),
            IoError::PortDisconnected => string_of("port disconnected"),
            IoError::AlreadyConnected => string_of("port already connected"),
            IoError::InvalidName(e) => {
                let mut s = string_of("invalid name: ");
                let t = e.to_string();
                push_str(&mut s, t.as_str());
                s
            },
            IoError::BackendThreadDied => string_of("platform backend thread terminated unexpectedly"),
            IoError::BackendCommandChannelFull => string_of(
                "command channel full - backend thread is not processing commands",
            ),
            IoError::Platform(e) => e.to_string(),
            IoError::InboundOverflow { dropped } => {
                let mut s = string_of("inbound stream overflow - ");
                push_decimal(&mut s, dropped as u64);
                push_str(&mut s, " message(s) dropped");
                s
            },
            IoError::Unsupported => string_of("operation not supported by this backend"),
            IoError::UniqueIdTaken => string_of("unique id is held by another endpoint"),
        }
    }
}

impl Error {
    /// The text of the error: that of the error it holds.
    pub open spec fn text(self) -> Seq<char> {
        match self {
            Error::Codec(e) => e.text(),
            Error::Value(e) => e.text(),
            Error::SysEx(e) => e.text(),
            Error::Io(e) => e.text(),
        }
    }

    pub fn to_string(&self) -> (r: String)
        ensures
            r@ == self.text(),
    {
        match self {
            Error::Codec(e) => e.to_string(),
            Error::Value(e) => e.to_string(),
            Error::SysEx(e) => e.to_string(),
            Error::Io(e) => e.to_string(),
        }
    }
}

impl Channel {
    /// The text of the channel: its number, 1 to 16.
    pub open spec fn text(self) -> Seq<char> {
        dec((self.spec_index() + 1) as nat)
    }

    pub fn to_string(&self) -> (r: String)
        ensures
            r@ == self.text(),
    {
        let mut s = String::new();
        push_decimal(&mut s, self.number() as u64);
        s
    }
}

impl DataByte {
    /// The text of the data byte: its value in decimal.
    pub open spec fn text(self) -> Seq<char> {
        dec(self.value() as nat)
    }

    pub fn to_string(&self) -> (r: String)
        ensures
            r@ == self.text(),
    {
        let mut s = String::new();
        push_decimal(&mut s, self.get() as u64);
        s
    }
}

impl PitchBend {
    /// The text of the bend: its value relative to the centre.
    pub open spec fn text(self) -> Seq<char> {
        signed_dec(self.value() - PITCH_BEND_CENTER)
    }

    pub fn to_string(&self) -> (r: String)
        ensures
            r@ == self.text(),
    {
        let mut s = String::new();
        push_signed(&mut s, self.signed() as i64);
        s
    }
}

impl SongPosition {
    /// The text of the position: its value in decimal.
    pub open spec fn text(self) -> Seq<char> {
        dec(self.value() as nat)
    }

    pub fn to_string(&self) -> (r: String)
        ensures
            r@ == self.text(),
    {
        let mut s = String::new();
        push_decimal(&mut s, self.get() as u64);
        s
    }
}

impl SysEx {
    /// The text of the message: its body length.
    pub open spec fn text(self) -> Seq<char> {
        "SysEx("@ + dec(self@.len()) + " bytes)"@
    }

    pub fn to_string(&self) -> (r: String)
        ensures
            r@ == self.text(),
    {
        let mut s = string_of("SysEx(");
        push_decimal(&mut s, self.body_len() as u64);
        push_str(&mut s, " bytes)");
        s
    }
}

impl MidiMessage {
    /// The text of the message: its kind and its fields.
    pub open spec fn text(self) -> Seq<char> {
        match self {
            MidiMessage::NoteOn { channel, key, velocity } => "NoteOn ch="@ + channel.text() + " key="@ + key.text()
                + " vel="@ + velocity.text(),
            MidiMessage::NoteOff { channel, key, velocity } => "NoteOff ch="@ + channel.text() + " key="@
                + key.text() + " vel="@ + velocity.text(),
            MidiMessage::ControlChange { channel, controller, value } => "CC ch="@ + channel.text() + " ctrl="@
                + controller.text() + " val="@ + value.text(),
            MidiMessage::ProgramChange { channel, program } => "PC ch="@ + channel.text() + " prog="@
                + program.text(),
            MidiMessage::PitchBend { channel, value } => "PitchBend ch="@ + channel.text() + " val="@
                + value.text(),
            MidiMessage::PolyKeyPressure { channel, key, pressure } => "PolyKeyPressure ch="@ + channel.text()
                + " key="@ + key.text() + " pres="@ + pressure.text(),
            MidiMessage::ChannelPressure { channel, pressure } => "ChannelPressure ch="@ + channel.text()
                + " pres="@ + pressure.text(),
            MidiMessage::MtcQuarterFrame(data) => "MtcQuarterFrame 0x"@ + hex2(data.value()),
            MidiMessage::SongPositionPointer(pos) => "SongPosition "@ + pos.text(),
            MidiMessage::SongSelect(song) => "SongSelect "@ + song.text(),
            MidiMessage::TuneRequest => "TuneRequest"@,
            MidiMessage::TimingClock => "TimingClock"@,
            MidiMessage::Start => "Start"@,
            MidiMessage::Continue => "Continue"@,
            MidiMessage::Stop => "Stop"@,
            MidiMessage::ActiveSensing => "ActiveSensing"@,
            MidiMessage::Reset => "Reset"@,
        }
    }

    pub fn to_string(&self) -> (r: String)
        ensures
            r@ == self.text(),
    {
        match *self {
            MidiMessage::NoteOn { channel, key, velocity } => {
                let mut s = string_of("NoteOn ch=");
                push_str(&mut s, channel.to_string().as_str());
                push_str(&mut s, " key=");
                push_str(&mut s, key.to_string().as_str());
                push_str(&mut s, " vel=");
                push_str(&mut s, velocity.to_string().as_str());
                s
            },
            MidiMessage::NoteOff { channel, key, velocity } => {
                let mut s = string_of("NoteOff ch=");
                push_str(&mut s, channel.to_string().as_str());
                push_str(&mut s, " key=");
                push_str(&mut s, key.to_string().as_str());
                push_str(&mut s, " vel=");
                push_str(&mut s, velocity.to_string().as_str());
                s
            },
            MidiMessage::ControlChange { channel, controller, value } => {
                let mut s = string_of("CC ch=");
                push_str(&mut s, channel.to_string().as_str());
                push_str(&mut s, " ctrl=");
                push_str(&mut s, controller.to_string().as_str());
                push_str(&mut s, " val=");
                push_str(&mut s, value.to_string().as_str());
                s
            },
            MidiMessage::ProgramChange { channel, program } => {
                let mut s = string_of("PC ch=");
                push_str(&mut s, channel.to_string().as_str());
                push_str(&mut s, " prog=");
                push_str(&mut s, program.to_string().as_str());
                s
            },
            MidiMessage::PitchBend { channel, value } => {
                let mut s = string_of("PitchBend ch=");
                push_str(&mut s, channel.to_string().as_str());
                push_str(&mut s, " val=");
                push_str(&mut s, value.to_string().as_str());
                s
            },
            MidiMessage::PolyKeyPressure { channel, key, pressure } => {
                let mut s = string_of("PolyKeyPressure ch=");
                push_str(&mut s, channel.to_string().as_str());
                push_str(&mut s, " key=");
                push_str(&mut s, key.to_string().as_str());
                push_str(&mut s, " pres=");
                push_str(&mut s, pressure.to_string().as_str());
                s
            },
            MidiMessage::ChannelPressure { channel, pressure } => {
                let mut s = string_of("ChannelPressure ch=");
                push_str(&mut s, channel.to_string().as_str());
                push_str(&mut s, " pres=");
                push_str(&mut s, pressure.to_string().as_str());
                s
            },
            MidiMessage::MtcQuarterFrame(data) => {
                let mut s = string_of("MtcQuarterFrame 0x");
                push_hex2(&mut s, data.get());
                s
            },
            MidiMessage::SongPositionPointer(pos) => {
                let mut s = string_of("SongPosition ");
                push_str(&mut s, pos.to_string().as_str());
                s
            },
            MidiMessage::SongSelect(song) => {
                let mut s = string_of("SongSelect ");
                push_str(&mut s, song.to_string().as_str());
                s
            },
            MidiMessage::TuneRequest => string_of("TuneRequest"),
            MidiMessage::TimingClock => string_of("TimingClock"),
            MidiMessage::Start => string_of("Start"),
            MidiMessage::Continue => string_of("Continue"),
            MidiMessage::Stop => string_of("Stop"),
            MidiMessage::ActiveSensing => string_of("ActiveSensing"),
            MidiMessage::Reset => string_of("Reset"),
        }
    }
}

/// What the text of a message starts with: the name of its kind, followed
/// by a space where fields follow.
pub open spec fn message_heading(m: MidiMessage) -> Seq<char> {
    match m {
        MidiMessage::NoteOn { .. } => "NoteOn "@,
        MidiMessage::NoteOff { .. } => "NoteOff "@,
        MidiMessage::ControlChange { .. } => "CC "@,
        MidiMessage::ProgramChange { .. } => "PC "@,
        MidiMessage::PitchBend { .. } => "PitchBend "@,
        MidiMessage::PolyKeyPressure { .. } => "PolyKeyPressure "@,
        MidiMessage::ChannelPressure { .. } => "ChannelPressure "@,
        MidiMessage::MtcQuarterFrame(_) => "MtcQuarterFrame "@,
        MidiMessage::SongPositionPointer(_) => "SongPosition "@,
        MidiMessage::SongSelect(_) => "SongSelect "@,
        MidiMessage::TuneRequest => "TuneRequest"@,
        MidiMessage::TimingClock => "TimingClock"@,
        MidiMessage::Start => "Start"@,
        MidiMessage::Continue => "Continue"@,
        MidiMessage::Stop => "Stop"@,
        MidiMessage::ActiveSensing => "ActiveSensing"@,
        MidiMessage::Reset => "Reset"@,
    }
}

/// A prefix of `a` is a prefix of `a` followed by anything.
proof fn lemma_prefix_of_append(p: Seq<char>, a: Seq<char>, b: Seq<char>)
    requires
        p.is_prefix_of(a),
    ensures
        p.is_prefix_of(a + b),
{
    assert(p =~= (a + b).subrange(0, p.len() as int));
}

/// The text of every message starts with the name of its own kind (and a
/// space before its fields); a message without fields is its name alone.
pub proof fn lemma_text_starts_with_kind(m: MidiMessage)
    ensures
        message_heading(m).is_prefix_of(m.text()),
        match m {
            MidiMessage::TuneRequest | MidiMessage::TimingClock | MidiMessage::Start | MidiMessage::Continue
            | MidiMessage::Stop | MidiMessage::ActiveSensing | MidiMessage::Reset => m.text() == message_heading(m),
            _ => true,
        },
{
    match m {
        MidiMessage::NoteOn { channel, key, velocity } => {
            reveal_strlit("NoteOn ");
            reveal_strlit("NoteOn ch=");
            let h = "NoteOn "@;
            let l = "NoteOn ch="@;
            assert(h.is_prefix_of(l));
            lemma_prefix_of_append(h, l, channel.text());
            lemma_prefix_of_append(h, l + channel.text(), " key="@);
            lemma_prefix_of_append(h, l + channel.text() + " key="@, key.text());
            lemma_prefix_of_append(h, l + channel.text() + " key="@ + key.text(), " vel="@);
            lemma_prefix_of_append(h, l + channel.text() + " key="@ + key.text() + " vel="@, velocity.text());
        },
        MidiMessage::NoteOff { channel, key, velocity } => {
            reveal_strlit("NoteOff ");
            reveal_strlit("NoteOff ch=");
            let h = "NoteOff "@;
            let l = "NoteOff ch="@;
            assert(h.is_prefix_of(l));
            lemma_prefix_of_append(h, l, channel.text());
            lemma_prefix_of_append(h, l + channel.text(), " key="@);
            lemma_prefix_of_append(h, l + channel.text() + " key="@, key.text());
            lemma_prefix_of_append(h, l + channel.text() + " key="@ + key.text(), " vel="@);
            lemma_prefix_of_append(h, l + channel.text() + " key="@ + key.text() + " vel="@, velocity.text());
        },
        MidiMessage::ControlChange { channel, controller, value } => {
            reveal_strlit("CC ");
            reveal_strlit("CC ch=");
            let h = "CC "@;
            let l = "CC ch="@;
            assert(h.is_prefix_of(l));
            lemma_prefix_of_append(h, l, channel.text());
            lemma_prefix_of_append(h, l + channel.text(), " ctrl="@);
            lemma_prefix_of_append(h, l + channel.text() + " ctrl="@, controller.text());
            lemma_prefix_of_append(h, l + channel.text() + " ctrl="@ + controller.text(), " val="@);
            lemma_prefix_of_append(h, l + channel.text() + " ctrl="@ + controller.text() + " val="@, value.text());
        },
        MidiMessage::ProgramChange { channel, program } => {
            reveal_strlit("PC ");
            reveal_strlit("PC ch=");
            let h = "PC "@;
            let l = "PC ch="@;
            assert(h.is_prefix_of(l));
            lemma_prefix_of_append(h, l, channel.text());
            lemma_prefix_of_append(h, l + channel.text(), " prog="@);
            lemma_prefix_of_append(h, l + channel.text() + " prog="@, program.text());
        },
        MidiMessage::PitchBend { channel, value } => {
            reveal_strlit("PitchBend ");
            reveal_strlit("PitchBend ch=");
            let h = "PitchBend "@;
            let l = "PitchBend ch="@;
            assert(h.is_prefix_of(l));
            lemma_prefix_of_append(h, l, channel.text());
            lemma_prefix_of_append(h, l + channel.text(), " val="@);
            lemma_prefix_of_append(h, l + channel.text() + " val="@, value.text());
        },
        MidiMessage::PolyKeyPressure { channel, key, pressure } => {
            reveal_strlit("PolyKeyPressure ");
            reveal_strlit("PolyKeyPressure ch=");
            let h = "PolyKeyPressure "@;
            let l = "PolyKeyPressure ch="@;
            assert(h.is_prefix_of(l));
            lemma_prefix_of_append(h, l, channel.text());
            lemma_prefix_of_append(h, l + channel.text(), " key="@);
            lemma_prefix_of_append(h, l + channel.text() + " key="@, key.text());
            lemma_prefix_of_append(h, l + channel.text() + " key="@ + key.text(), " pres="@);
            lemma_prefix_of_append(h, l + channel.text() + " key="@ + key.text() + " pres="@, pressure.text());
        },
        MidiMessage::ChannelPressure { channel, pressure } => {
            reveal_strlit("ChannelPressure ");
            reveal_strlit("ChannelPressure ch=");
            let h = "ChannelPressure "@;
            let l = "ChannelPressure ch="@;
            assert(h.is_prefix_of(l));
            lemma_prefix_of_append(h, l, channel.text());
            lemma_prefix_of_append(h, l + channel.text(), " pres="@);
            lemma_prefix_of_append(h, l + channel.text() + " pres="@, pressure.text());
        },
        MidiMessage::MtcQuarterFrame(data) => {
            reveal_strlit("MtcQuarterFrame ");
            reveal_strlit("MtcQuarterFrame 0x");
            let h = "MtcQuarterFrame "@;
            let l = "MtcQuarterFrame 0x"@;
            assert(h.is_prefix_of(l));
            lemma_prefix_of_append(h, l, hex2(data.value()));
        },
        MidiMessage::SongPositionPointer(pos) => {
            let h = "SongPosition "@;
            assert(h.is_prefix_of(h));
            lemma_prefix_of_append(h, h, pos.text());
        },
        MidiMessage::SongSelect(song) => {
            let h = "SongSelect "@;
            assert(h.is_prefix_of(h));
            lemma_prefix_of_append(h, h, song.text());
        },
        _ => {
            assert(message_heading(m).is_prefix_of(m.text()));
        },
    }
}

/// A note-on and a note-off never print alike, whatever their fields: the
/// text names which of the two it is.
pub proof fn lemma_note_on_off_texts_differ(a: MidiMessage, b: MidiMessage)
    requires
        a is NoteOn,
        b is NoteOff,
    ensures
        a.text() != b.text(),
{
    lemma_text_starts_with_kind(a);
    lemma_text_starts_with_kind(b);
    reveal_strlit("NoteOn ");
    reveal_strlit("NoteOff ");
    let ha = message_heading(a);
    let hb = message_heading(b);
    assert(ha == "NoteOn "@);
    assert(hb == "NoteOff "@);
    assert(ha[6] == ' ');
    assert(hb[6] == 'f');
    assert(a.text().subrange(0, ha.len() as int)[6] == a.text()[6]);
    assert(b.text().subrange(0, hb.len() as int)[6] == b.text()[6]);
    assert(a.text()[6] == ' ');
    assert(b.text()[6] == 'f');
}

} // verus!
