use vstd::prelude::*;

use crate::error::Error;
use crate::error::IoError;
use vstd::string::StringSliceAdditionalSpecFns;

verus! {

/// Why the backend's command channel refused a command.
#[derive(Debug, Clone, Copy, PartialEq, Eq, Structural)]
pub enum CommandRefusal {
    /// The channel is full: the backend is not taking commands.
    Full,
    /// The backend is gone.
    Disconnected,
}

/// The error a refused command is answered with.
pub fn map_send_err(refusal: CommandRefusal) -> (r: Error)
    ensures
        r == match refusal {
            CommandRefusal::Full => Error::Io(IoError::BackendCommandChannelFull),
            CommandRefusal::Disconnected => Error::Io(IoError::BackendThreadDied),
        },
{
    match refusal {
        CommandRefusal::Full => Error::Io(IoError::BackendCommandChannelFull),
        CommandRefusal::Disconnected => Error::Io(IoError::BackendThreadDied),
    }
}

/// The 64-bit FNV-1a offset basis.
pub const FNV_OFFSET_BASIS: u64 = 0xcbf2_9ce4_8422_2325;

/// The 64-bit FNV prime.
pub const FNV_PRIME: u64 = 0x0000_0100_0000_01b3;

/// The 64-bit FNV-1a hash of `bytes`: starting from the offset basis, each
/// byte is xor-ed in and the state multiplied by the prime, modulo 2^64.
pub open spec fn fnv1a(bytes: Seq<u8>) -> u64
    decreases bytes.len(),
{
    if bytes.len() == 0 {
        FNV_OFFSET_BASIS
    } else {
        vstd::wrapping::u64_specs::wrapping_mul(fnv1a(bytes.drop_last()) ^ (bytes.last() as u64), FNV_PRIME)
    }
}

/// The port handle of a browser MIDI port: the FNV-1a hash of the bytes of
/// its id.
pub fn port_handle(js_id: &str) -> (r: u64)
    ensures
        r == fnv1a(js_id.spec_bytes()),
{
    let bytes = js_id.as_bytes();
    let mut hash: u64 = FNV_OFFSET_BASIS;
    let mut i: usize = 0;
    while i < bytes.len()
        invariant
            i <= bytes@.len(),
            hash == fnv1a(bytes@.subrange(0, i as int)),
        decreases bytes@.len() - i,
    {
        proof {
            assert(bytes@.subrange(0, i + 1).drop_last() =~= bytes@.subrange(0, i as int));
        }
        hash = hash ^ (bytes[i] as u64);
        hash = hash.wrapping_mul(FNV_PRIME);
        i = i + 1;
    }
    proof {
        assert(bytes@.subrange(0, bytes@.len() as int) =~= bytes@);
    }
    hash
}

} // verus!
