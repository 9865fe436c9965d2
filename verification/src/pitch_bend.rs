use vstd::prelude::*;

use crate::data_byte::DataByte;
use crate::error::ValueError;

verus! {

/// The raw value of a centred pitch bend.
pub const PITCH_BEND_CENTER: i16 = 8192;

/// A 14-bit value (0..=16383) carried in two MIDI data bytes.
#[derive(Debug, Copy, Clone, PartialEq, Eq, Hash, Structural)]
pub struct PitchBend(u16);

impl PitchBend {
    #[verifier::type_invariant]
    spec fn inv(self) -> bool {
        self.0 < 0x4000
    }

    /// The 14-bit value.
    pub closed spec fn value(self) -> u16 {
        self.0
    }

    /// The value carrying `v`.
    pub closed spec fn from_value(v: u16) -> PitchBend {
        PitchBend(v)
    }

    pub broadcast proof fn lemma_from_value(v: u16)
        ensures
            #[trigger] PitchBend::from_value(v).value() == v,
    {
    }

    pub broadcast proof fn lemma_value_determines(p: PitchBend)
        ensures
            PitchBend::from_value(#[trigger] p.value()) == p,
    {
    }

    /// The value whose high seven bits are `msb` and low seven bits are `lsb`.
    pub open spec fn spec_from_msb_lsb(msb: u8, lsb: u8) -> PitchBend {
        PitchBend::from_value((msb * 128 + lsb) as u16)
    }

    pub fn from_msb_lsb(msb: DataByte, lsb: DataByte) -> (r: PitchBend)
        ensures
            r == PitchBend::spec_from_msb_lsb(msb.value(), lsb.value()),
            r.value() == msb.value() * 128 + lsb.value(),
    {
        let m = msb.get();
        let l = lsb.get();
        let v: u16 = ((m as u16) << 7) | (l as u16);
        assert(v == m * 128 + l && v < 0x4000) by (bit_vector)
            requires
                v == ((m as u16) << 7) | (l as u16),
                m < 0x80,
                l < 0x80,
        ;
        PitchBend(v)
    }

    /// The low seven bits.
    pub fn lsb(self) -> (r: u8)
        ensures
            r == self.value() % 128,
            r < 0x80,
    {
        let v = self.0;
        let r = (v & 0x7F) as u8;
        assert(r == v % 128 && r < 0x80) by (bit_vector)
            requires
                r == (v & 0x7F) as u8,
        ;
        r
    }

    /// Bits seven to thirteen.
    pub fn msb(self) -> (r: u8)
        ensures
            r == (self.value() / 128) % 128,
            r < 0x80,
    {
        let v = self.0;
        let r = ((v >> 7) & 0x7F) as u8;
        assert(r == (v / 128) % 128 && r < 0x80) by (bit_vector)
            requires
                r == ((v >> 7) & 0x7F) as u8,
        ;
        r
    }

    /// Splitting into high and low seven bits and joining them again gives the value back.
    pub proof fn lemma_msb_lsb_roundtrip(v: u16)
        requires
            v < 0x4000,
        ensures
            PitchBend::spec_from_msb_lsb(((v / 128) % 128) as u8, (v % 128) as u8) == PitchBend::from_value(v),
    {
    }

    /// The raw 14-bit value; 8192 is the centre.
    pub fn raw(self) -> (r: u16)
        ensures
            r == self.value(),
            r < 0x4000,
    {
        proof {
            use_type_invariant(&self);
        }
        self.0
    }

    /// The value relative to the centre, -8192 to 8191.
    pub fn signed(self) -> (r: i16)
        ensures
            r == self.value() - PITCH_BEND_CENTER,
    {
        proof {
            use_type_invariant(&self);
        }
        self.0 as i16 - PITCH_BEND_CENTER
    }

    /// The bend `value` relative to the centre; refused outside -8192..8192.
    pub fn from_signed(value: i16) -> (r: Result<PitchBend, ValueError>)
        ensures
            -PITCH_BEND_CENTER <= value < PITCH_BEND_CENTER ==> r == Ok::<PitchBend, ValueError>(
                PitchBend::from_value((value + PITCH_BEND_CENTER) as u16),
            ),
            !(-PITCH_BEND_CENTER <= value < PITCH_BEND_CENTER) ==> r == Err::<PitchBend, ValueError>(
                ValueError::PitchBend(value as i32),
            ),
    {
        if value < -PITCH_BEND_CENTER || value >= PITCH_BEND_CENTER {
            Err(ValueError::PitchBend(value as i32))
        } else {
            Ok(PitchBend((value as i32 + PITCH_BEND_CENTER as i32) as u16))
        }
    }

    /// A signed value in range survives the trip through the raw form.
    pub proof fn lemma_signed_roundtrip(value: i16)
        requires
            -PITCH_BEND_CENTER <= value < PITCH_BEND_CENTER,
        ensures
            PitchBend::from_value((value + PITCH_BEND_CENTER) as u16).value() - PITCH_BEND_CENTER == value,
    {
    }

}

impl TryFrom<u16> for PitchBend {
    type Error = ValueError;

    fn try_from(value: u16) -> (r: Result<PitchBend, ValueError>)
        ensures
            value < 0x4000 ==> r == Ok::<PitchBend, ValueError>(PitchBend::from_value(value)),
            value >= 0x4000 ==> r == Err::<PitchBend, ValueError>(ValueError::PitchBend(value as i32)),
    {
        if value > 0x3FFF {
            Err(ValueError::PitchBend(value as i32))
        } else {
            Ok(PitchBend(value))
        }
    }
}

impl vstd::std_specs::convert::TryFromSpecImpl<u16> for PitchBend {
    open spec fn obeys_try_from_spec() -> bool {
        true
    }

    open spec fn try_from_spec(value: u16) -> Result<PitchBend, ValueError> {
        if value < 0x4000 {
            Ok(PitchBend::from_value(value))
        } else {
            Err(ValueError::PitchBend(value as i32))
        }
    }
}

pub broadcast group group_pitch_bend {
    PitchBend::lemma_from_value,
    PitchBend::lemma_value_determines,
}

} // verus!
