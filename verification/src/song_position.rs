use vstd::prelude::*;

use crate::data_byte::DataByte;
use crate::error::ValueError;

verus! {

/// A 14-bit value (0..=16383) carried in two MIDI data bytes.
#[derive(Debug, Copy, Clone, PartialEq, Eq, Hash, Structural)]
pub struct SongPosition(u16);

impl SongPosition {
    #[verifier::type_invariant]
    spec fn inv(self) -> bool {
        self.0 < 0x4000
    }

    /// The 14-bit value.
    pub closed spec fn value(self) -> u16 {
        self.0
    }

    /// The value carrying `v`.
    pub closed spec fn from_value(v: u16) -> SongPosition {
        SongPosition(v)
    }

    pub broadcast proof fn lemma_from_value(v: u16)
        ensures
            #[trigger] SongPosition::from_value(v).value() == v,
    {
    }

    pub broadcast proof fn lemma_value_determines(p: SongPosition)
        ensures
            SongPosition::from_value(#[trigger] p.value()) == p,
    {
    }

    /// The value whose high seven bits are `msb` and low seven bits are `lsb`.
    pub open spec fn spec_from_msb_lsb(msb: u8, lsb: u8) -> SongPosition {
        SongPosition::from_value((msb * 128 + lsb) as u16)
    }

    pub fn from_msb_lsb(msb: DataByte, lsb: DataByte) -> (r: SongPosition)
        ensures
            r == SongPosition::spec_from_msb_lsb(msb.value(), lsb.value()),
            r.value() == msb.value() * 128 + lsb.value(),
    {
        let m = msb.get();
        let l = lsb.get();
        let v: u16 = ((m as u16) << 7) | (l as u16);
        assert(v == m * 128 + l && v < 0x4000) by (bit_vector)
            requires
                v == ((m as u16) << 7) | (l as u16),
                m < 0x80,
                l < 0x80,
        ;
        SongPosition(v)
    }

    /// The low seven bits.
    pub fn lsb(self) -> (r: u8)
        ensures
            r == self.value() % 128,
            r < 0x80,
    {
        let v = self.0;
        let r = (v & 0x7F) as u8;
        assert(r == v % 128 && r < 0x80) by (bit_vector)
            requires
                r == (v & 0x7F) as u8,
        ;
        r
    }

    /// Bits seven to thirteen.
    pub fn msb(self) -> (r: u8)
        ensures
            r == (self.value() / 128) % 128,
            r < 0x80,
    {
        let v = self.0;
        let r = ((v >> 7) & 0x7F) as u8;
        assert(r == (v / 128) % 128 && r < 0x80) by (bit_vector)
            requires
                r == ((v >> 7) & 0x7F) as u8,
        ;
        r
    }

    /// Splitting into high and low seven bits and joining them again gives the value back.
    pub proof fn lemma_msb_lsb_roundtrip(v: u16)
        requires
            v < 0x4000,
        ensures
            SongPosition::spec_from_msb_lsb(((v / 128) % 128) as u8, (v % 128) as u8) == SongPosition::from_value(v),
    {
    }

    /// The position in MIDI beats (sixteenth notes).
    pub fn get(self) -> (r: u16)
        ensures
            r == self.value(),
            r < 0x4000,
    {
        proof {
            use_type_invariant(&self);
        }
        self.0
    }

}

impl TryFrom<u16> for SongPosition {
    type Error = ValueError;

    fn try_from(value: u16) -> (r: Result<SongPosition, ValueError>)
        ensures
            value < 0x4000 ==> r == Ok::<SongPosition, ValueError>(SongPosition::from_value(value)),
            value >= 0x4000 ==> r == Err::<SongPosition, ValueError>(ValueError::SongPosition(value)),
    {
        if value > 0x3FFF {
            Err(ValueError::SongPosition(value))
        } else {
            Ok(SongPosition(value))
        }
    }
}

impl vstd::std_specs::convert::TryFromSpecImpl<u16> for SongPosition {
    open spec fn obeys_try_from_spec() -> bool {
        true
    }

    open spec fn try_from_spec(value: u16) -> Result<SongPosition, ValueError> {
        if value < 0x4000 {
            Ok(SongPosition::from_value(value))
        } else {
            Err(ValueError::SongPosition(value))
        }
    }
}

pub broadcast group group_song_position {
    SongPosition::lemma_from_value,
    SongPosition::lemma_value_determines,
}

} // verus!
