use vstd::prelude::*;

use crate::raw_message::RawMidiMessage;

verus! {

/// A value outside the range representable in a MIDI message field.
#[derive(Debug, Clone, Copy, PartialEq, Eq, Structural)]
#[non_exhaustive]
pub enum ValueError {
    DataByte(u8),
    ChannelIndex(u8),
    ChannelNumber(u8),
    PitchBend(i32),
    SongPosition(u16),
}

/// Why a sysex body or wire frame was refused.
#[derive(Debug, Clone, Copy, PartialEq, Eq, Structural)]
#[non_exhaustive]
pub enum SysExError {
    MissingStart,
    Unterminated,
    EmptyBody,
    TooLong { len: usize, max: usize },
    HighBit { index: usize, byte: u8 },
}

/// Why a byte sequence is not a MIDI message.
#[derive(Debug, Clone, Copy, PartialEq, Eq, Structural)]
#[non_exhaustive]
pub enum ParseError {
    Empty,
    Truncated,
    TrailingData,
    StandaloneSysexEnd,
    DataByteOutOfRange,
    ChannelOutOfRange,
    SysexDataOutOfRange,
    EmptySysex,
    UnterminatedSysex,
    UnrecognizedStatus,
    OrphanedData { len: usize },
}

/// An error of the MIDI codec.
#[derive(Debug, Clone, PartialEq, Eq)]
#[non_exhaustive]
pub enum CodecError {
    Parse { reason: ParseError, bytes: Vec<u8> },
    Unparseable(RawMidiMessage),
    SysexTooLong { len: usize, max: usize },
}

/// The mathematical model of a [`CodecError`]: byte buffers are sequences.
pub enum CodecErrorView {
    Parse { reason: ParseError, bytes: Seq<u8> },
    Unparseable(Seq<u8>),
    SysexTooLong { len: usize, max: usize },
}

impl View for CodecError {
    type V = CodecErrorView;

    open spec fn view(&self) -> CodecErrorView {
        match self {
            CodecError::Parse { reason, bytes } => CodecErrorView::Parse { reason: *reason, bytes: bytes@ },
            CodecError::Unparseable(raw) => CodecErrorView::Unparseable(raw@),
            CodecError::SysexTooLong { len, max } => CodecErrorView::SysexTooLong { len: *len, max: *max },
        }
    }
}

/// A backend error code or failure reported by the platform layer.
#[derive(Debug, Clone, Copy, PartialEq, Eq, Structural)]
#[non_exhaustive]
pub enum PlatformError {
    ClientInit(i32),
    ThreadInit,
    Connect(i32),
    Send(i32),
    Encode,
    VirtualPortCreate(i32),
}

/// A name that cannot be handed to the platform.
#[derive(Debug, Clone, Copy, PartialEq, Eq, Structural)]
#[non_exhaustive]
pub enum NameError {
    /// The name holds a NUL byte at this byte position.
    ContainsNul { position: usize },
}

/// An error of the MIDI I/O layer.
#[derive(Debug, Clone, Copy, PartialEq, Eq, Structural)]
#[non_exhaustive]
pub enum IoError {
    PortNotFound,
    PortDisconnected,
    AlreadyConnected,
    InvalidName(NameError),
    BackendThreadDied,
    BackendCommandChannelFull,
    Platform(PlatformError),
    InboundOverflow { dropped: usize },
    /// The backend cannot do what was asked (such as choose the unique id
    /// of a virtual port).
    Unsupported,
    /// Another endpoint holds the unique id asked for.
    UniqueIdTaken,
}

/// Any error of this library.
#[derive(Debug, Clone, PartialEq, Eq)]
#[non_exhaustive]
pub enum Error {
    Codec(CodecError),
    Value(ValueError),
    SysEx(SysExError),
    Io(IoError),
}

/// The mathematical model of an [`Error`].
pub enum ErrorView {
    Codec(CodecErrorView),
    Value(ValueError),
    SysEx(SysExError),
    Io(IoError),
}

impl View for Error {
    type V = ErrorView;

    open spec fn view(&self) -> ErrorView {
        match self {
            Error::Codec(e) => ErrorView::Codec(e@),
            Error::Value(e) => ErrorView::Value(*e),
            Error::SysEx(e) => ErrorView::SysEx(*e),
            Error::Io(e) => ErrorView::Io(*e),
        }
    }
}

impl CodecError {
    /// A copy of the error.
    pub(crate) fn clone_error(&self) -> (r: CodecError)
        ensures
            r@ == self@,
    {
        match self {
            CodecError::Parse { reason, bytes } => CodecError::Parse {
                reason: *reason,
                bytes: vstd::slice::slice_to_vec(bytes.as_slice()),
            },
            CodecError::Unparseable(raw) => CodecError::Unparseable(*raw),
            CodecError::SysexTooLong { len, max } => CodecError::SysexTooLong { len: *len, max: *max },
        }
    }
}

impl Error {
    /// A copy of the error.
    pub(crate) fn clone_error(&self) -> (r: Error)
        ensures
            r@ == self@,
    {
        match self {
            Error::Codec(e) => Error::Codec(e.clone_error()),
            Error::Value(e) => Error::Value(*e),
            Error::SysEx(e) => Error::SysEx(*e),
            Error::Io(e) => Error::Io(*e),
        }
    }
}

impl From<CodecError> for Error {
    fn from(e: CodecError) -> (r: Error)
        ensures
            r == Error::Codec(e),
    {
        Error::Codec(e)
    }
}

impl vstd::std_specs::convert::FromSpecImpl<CodecError> for Error {
    open spec fn obeys_from_spec() -> bool {
        true
    }

    open spec fn from_spec(e: CodecError) -> Error {
        Error::Codec(e)
    }
}

impl From<ValueError> for Error {
    fn from(e: ValueError) -> (r: Error)
        ensures
            r == Error::Value(e),
    {
        Error::Value(e)
    }
}

impl vstd::std_specs::convert::FromSpecImpl<ValueError> for Error {
    open spec fn obeys_from_spec() -> bool {
        true
    }

    open spec fn from_spec(e: ValueError) -> Error {
        Error::Value(e)
    }
}

impl From<SysExError> for Error {
    fn from(e: SysExError) -> (r: Error)
        ensures
            r == Error::SysEx(e),
    {
        Error::SysEx(e)
    }
}

impl vstd::std_specs::convert::FromSpecImpl<SysExError> for Error {
    open spec fn obeys_from_spec() -> bool {
        true
    }

    open spec fn from_spec(e: SysExError) -> Error {
        Error::SysEx(e)
    }
}

impl From<IoError> for Error {
    fn from(e: IoError) -> (r: Error)
        ensures
            r == Error::Io(e),
    {
        Error::Io(e)
    }
}

impl vstd::std_specs::convert::FromSpecImpl<IoError> for Error {
    open spec fn obeys_from_spec() -> bool {
        true
    }

    open spec fn from_spec(e: IoError) -> Error {
        Error::Io(e)
    }
}

impl From<NameError> for IoError {
    fn from(e: NameError) -> (r: IoError)
        ensures
            r == IoError::InvalidName(e),
    {
        IoError::InvalidName(e)
    }
}

impl vstd::std_specs::convert::FromSpecImpl<NameError> for IoError {
    open spec fn obeys_from_spec() -> bool {
        true
    }

    open spec fn from_spec(e: NameError) -> IoError {
        IoError::InvalidName(e)
    }
}

impl From<PlatformError> for IoError {
    fn from(e: PlatformError) -> (r: IoError)
        ensures
            r == IoError::Platform(e),
    {
        IoError::Platform(e)
    }
}

impl vstd::std_specs::convert::FromSpecImpl<PlatformError> for IoError {
    open spec fn obeys_from_spec() -> bool {
        true
    }

    open spec fn from_spec(e: PlatformError) -> IoError {
        IoError::Platform(e)
    }
}

} // verus!
