use vstd::prelude::*;

use crate::error::ValueError;

verus! {

/// A 7-bit MIDI data value (0..=127).
#[derive(Debug, Copy, Clone, PartialEq, Eq, Hash, PartialOrd, Ord, Structural)]
pub struct DataByte(u8);

impl DataByte {
    #[verifier::type_invariant]
    spec fn inv(self) -> bool {
        self.0 < 0x80
    }

    /// The value carried by the data byte.
    pub closed spec fn value(self) -> u8 {
        self.0
    }

    /// The data byte that carries `v`.
    pub closed spec fn from_value(v: u8) -> DataByte {
        DataByte(v)
    }

    pub broadcast proof fn lemma_from_value(v: u8)
        ensures
            #[trigger] DataByte::from_value(v).value() == v,
    {
    }

    pub broadcast proof fn lemma_value_determines(d: DataByte)
        ensures
            DataByte::from_value(#[trigger] d.value()) == d,
    {
    }

    pub fn get(self) -> (r: u8)
        ensures
            r == self.value(),
            r < 0x80,
    {
        proof {
            use_type_invariant(&self);
        }
        self.0
    }

    /// The data byte for a value already known to be 7-bit.
    pub(crate) fn from_valid(value: u8) -> (r: DataByte)
        requires
            value < 0x80,
        ensures
            r == DataByte::from_value(value),
    {
        DataByte(value)
    }
}

impl TryFrom<u8> for DataByte {
    type Error = ValueError;

    fn try_from(value: u8) -> (r: Result<DataByte, ValueError>) {
        if value > 0x7F {
            Err(ValueError::DataByte(value))
        } else {
            Ok(DataByte(value))
        }
    }
}

impl vstd::std_specs::convert::TryFromSpecImpl<u8> for DataByte {
    open spec fn obeys_try_from_spec() -> bool {
        true
    }

    open spec fn try_from_spec(v: u8) -> Result<DataByte, ValueError> {
        if v < 0x80 {
            Ok(DataByte::from_value(v))
        } else {
            Err(ValueError::DataByte(v))
        }
    }
}

impl From<DataByte> for u8 {
    fn from(value: DataByte) -> (r: u8) {
        value.0
    }
}

impl vstd::std_specs::convert::FromSpecImpl<DataByte> for u8 {
    open spec fn obeys_from_spec() -> bool {
        true
    }

    open spec fn from_spec(v: DataByte) -> u8 {
        v.value()
    }
}

pub broadcast group group_data_byte {
    DataByte::lemma_from_value,
    DataByte::lemma_value_determines,
}

} // verus!
