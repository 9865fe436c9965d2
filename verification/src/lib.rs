pub mod name;
pub mod overflow;
pub mod port;
pub mod alsa_event;
pub mod alsa_registry;
pub mod channel;
pub mod coremidi_registry;
pub mod data_byte;
pub mod decode;
pub mod error;
pub mod message;
pub mod pitch_bend;
pub mod platform;
pub mod raw_message;
pub mod song_position;
pub mod stream_parser;
pub mod sys_ex;
pub mod table;
pub mod text;
pub mod timed;

pub use channel::Channel;
pub use data_byte::DataByte;
pub use decode::decode;
pub use decode::Decoded;
pub use error::CodecError;
pub use error::Error;
pub use error::IoError;
pub use error::NameError;
pub use error::ParseError;
pub use error::PlatformError;
pub use error::SysExError;
pub use error::ValueError;
pub use message::MidiMessage;
pub use pitch_bend::PitchBend;
pub use port::Destination;
pub use port::DestinationChange;
pub use port::PortId;
pub use port::Source;
pub use port::SourceChange;
pub use raw_message::RawMidiMessage;
pub use song_position::SongPosition;
pub use sys_ex::SysEx;
pub use timed::Timed;
