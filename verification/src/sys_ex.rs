use vstd::prelude::*;

use crate::error::SysExError;

verus! {

/// The largest sysex body accepted, so that one message cannot demand unlimited memory.
pub const MAX_SYSEX_BYTES: usize = 1024 * 1024;

/// How many bytes of a run of orphaned data bytes an error keeps.
pub const ORPHAN_PREFIX_BYTES: usize = 64;

/// Every byte of `b` is a 7-bit value.
pub open spec fn all_data_bytes(b: Seq<u8>) -> bool {
    forall|i: int| 0 <= i < b.len() ==> #[trigger] b[i] < 0x80
}

/// A body a [`SysEx`] can hold: one to [`MAX_SYSEX_BYTES`] 7-bit bytes.
pub open spec fn valid_body(b: Seq<u8>) -> bool {
    1 <= b.len() <= MAX_SYSEX_BYTES && all_data_bytes(b)
}

/// `i` is the position of the first byte of `b` with its high bit set.
pub open spec fn is_first_high_bit(b: Seq<u8>, i: int) -> bool {
    &&& 0 <= i < b.len()
    &&& b[i] >= 0x80
    &&& all_data_bytes(b.subrange(0, i))
}

/// What [`SysEx::new`] makes of an unframed body.
pub open spec fn spec_new(body: Seq<u8>) -> Result<Seq<u8>, SysExError> {
    if body.len() == 0 {
        Err(SysExError::EmptyBody)
    } else if body.len() > MAX_SYSEX_BYTES {
        Err(SysExError::TooLong { len: body.len() as usize, max: MAX_SYSEX_BYTES })
    } else if !all_data_bytes(body) {
        let i = choose|i: int| is_first_high_bit(body, i);
        Err(SysExError::HighBit { index: i as usize, byte: body[i] })
    } else {
        Ok(body)
    }
}

/// A body framed by the sysex start (0xF0) and end (0xF7) bytes.
pub open spec fn spec_frame(body: Seq<u8>) -> Seq<u8> {
    seq![0xF0u8] + body + seq![0xF7u8]
}

/// What [`SysEx::try_from`] makes of a wire frame.
pub open spec fn spec_from_wire(wire: Seq<u8>) -> Result<Seq<u8>, SysExError> {
    if wire.len() == 0 || wire[0] != 0xF0 {
        Err(SysExError::MissingStart)
    } else if wire.len() < 2 || wire.last() != 0xF7 {
        Err(SysExError::Unterminated)
    } else {
        spec_new(wire.subrange(1, wire.len() - 1))
    }
}

/// A system-exclusive message body, without its framing bytes.
#[derive(Debug, PartialEq, Eq, Hash)]
pub struct SysEx(Vec<u8>);

impl View for SysEx {
    type V = Seq<u8>;

    closed spec fn view(&self) -> Seq<u8> {
        self.0@
    }
}

/// The model of a result that holds a sysex.
pub open spec fn sysex_result_view(r: Result<SysEx, SysExError>) -> Result<Seq<u8>, SysExError> {
    match r {
        Ok(s) => Ok(s@),
        Err(e) => Err(e),
    }
}

/// Returns the position of the first byte of `body` with its high bit set, if any.
fn find_high_bit(body: &[u8]) -> (r: Option<usize>)
    ensures
        r is None ==> all_data_bytes(body@),
        r matches Some(i) ==> is_first_high_bit(body@, i as int),
{
    let mut i: usize = 0;
    while i < body.len()
        invariant
            i <= body@.len(),
            all_data_bytes(body@.subrange(0, i as int)),
        decreases body@.len() - i,
    {
        if body[i] > 0x7F {
            return Some(i);
        }
        assert(body@.subrange(0, i + 1) =~= body@.subrange(0, i as int).push(body@[i as int]));
        i = i + 1;
    }
    assert(body@.subrange(0, i as int) =~= body@);
    None
}

/// The first position with the high bit set is unique.
proof fn lemma_first_high_bit_unique(b: Seq<u8>, i: int, j: int)
    requires
        is_first_high_bit(b, i),
        is_first_high_bit(b, j),
    ensures
        i == j,
{
    if i < j {
        assert(b.subrange(0, j)[i] == b[i]);
    }
    if j < i {
        assert(b.subrange(0, i)[j] == b[j]);
    }
}

impl SysEx {
    #[verifier::type_invariant]
    spec fn inv(self) -> bool {
        valid_body(self.0@)
    }

    /// A sysex holds a valid body.
    pub(crate) fn body_len(&self) -> (r: usize)
        ensures
            r == self@.len(),
            valid_body(self@),
    {
        proof {
            use_type_invariant(self);
        }
        self.0.len()
    }

    /// Builds a sysex from its body, without framing bytes.
    pub fn new(body: &[u8]) -> (r: Result<SysEx, SysExError>)
        ensures
            sysex_result_view(r) == spec_new(body@),
    {
        if body.len() == 0 {
            return Err(SysExError::EmptyBody);
        }
        if body.len() > MAX_SYSEX_BYTES {
            return Err(SysExError::TooLong { len: body.len(), max: MAX_SYSEX_BYTES });
        }
        match find_high_bit(body) {
            Some(index) => {
                proof {
                    let c = choose|i: int| is_first_high_bit(body@, i);
                    lemma_first_high_bit_unique(body@, c, index as int);
                }
                Err(SysExError::HighBit { index, byte: body[index] })
            },
            None => Ok(SysEx(vstd::slice::slice_to_vec(body))),
        }
    }

    /// Parses a wire frame: 0xF0, the body, 0xF7.
    pub(crate) fn from_wire(wire: &[u8]) -> (r: Result<SysEx, SysExError>)
        ensures
            sysex_result_view(r) == spec_from_wire(wire@),
    {
        if wire.len() == 0 || wire[0] != 0xF0 {
            return Err(SysExError::MissingStart);
        }
        if wire.len() < 2 || wire[wire.len() - 1] != 0xF7 {
            return Err(SysExError::Unterminated);
        }
        let body = vstd::slice::slice_subrange(wire, 1, wire.len() - 1);
        SysEx::new(body)
    }

    /// The body, without framing bytes.
    pub fn bytes(&self) -> (r: &[u8])
        ensures
            r@ == self@,
    {
        self.0.as_slice()
    }

    /// The body framed by 0xF0 and 0xF7, as sent on the wire.
    pub fn to_wire_bytes(&self) -> (r: Vec<u8>)
        ensures
            r@ == spec_frame(self@),
    {
        proof {
            use_type_invariant(self);
        }
        let mut out: Vec<u8> = Vec::with_capacity(self.0.len() + 2);
        out.push(0xF0);
        let mut i: usize = 0;
        while i < self.0.len()
            invariant
                out@ == seq![0xF0u8] + self.0@.subrange(0, i as int),
                i <= self.0@.len(),
            decreases self.0@.len() - i,
        {
            out.push(self.0[i]);
            assert(self.0@.subrange(0, i + 1) =~= self.0@.subrange(0, i as int).push(self.0@[i as int]));
            i = i + 1;
        }
        out.push(0xF7);
        assert(self.0@.subrange(0, i as int) =~= self.0@);
        assert(out@ =~= spec_frame(self@));
        out
    }

    /// Framing a valid body and parsing the frame gives the body back.
    pub proof fn lemma_wire_roundtrip(body: Seq<u8>)
        requires
            valid_body(body),
        ensures
            spec_from_wire(spec_frame(body)) == Ok::<Seq<u8>, SysExError>(body),
    {
        let w = spec_frame(body);
        assert(w.subrange(1, w.len() - 1) =~= body);
    }
}

impl TryFrom<&[u8]> for SysEx {
    type Error = SysExError;

    fn try_from(wire: &[u8]) -> (r: Result<SysEx, SysExError>)
        ensures
            sysex_result_view(r) == spec_from_wire(wire@),
    {
        SysEx::from_wire(wire)
    }
}

impl vstd::std_specs::convert::TryFromSpecImpl<&[u8]> for SysEx {
    /// The generic specification is not used: a sysex is described by its view,
    /// which the contract of `try_from` states.
    open spec fn obeys_try_from_spec() -> bool {
        false
    }

    open spec fn try_from_spec(wire: &[u8]) -> Result<SysEx, SysExError> {
        Err(SysExError::MissingStart)
    }
}

impl Clone for SysEx {
    fn clone(&self) -> (r: SysEx)
        ensures
            r@ == self@,
    {
        proof {
            use_type_invariant(self);
        }
        SysEx(vstd::slice::slice_to_vec(self.0.as_slice()))
    }
}

impl std::ops::Deref for SysEx {
    type Target = [u8];

    fn deref(&self) -> (r: &[u8])
        ensures
            r@ == self@,
    {
        self.0.as_slice()
    }
}

impl AsRef<[u8]> for SysEx {
    fn as_ref(&self) -> (r: &[u8])
        ensures
            r@ == self@,
    {
        self.0.as_slice()
    }
}

} // verus!
