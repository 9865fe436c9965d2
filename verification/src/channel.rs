use vstd::prelude::*;

use crate::error::ValueError;

verus! {

/// One of the sixteen MIDI channels, `Ch1` (index 0) to `Ch16` (index 15).
#[derive(Debug, Clone, Copy, PartialEq, Eq, Hash, Structural)]
pub enum Channel {
    Ch1,
    Ch2,
    Ch3,
    Ch4,
    Ch5,
    Ch6,
    Ch7,
    Ch8,
    Ch9,
    Ch10,
    Ch11,
    Ch12,
    Ch13,
    Ch14,
    Ch15,
    Ch16,
}

impl Channel {
    pub const ALL: [Channel; 16] = [
        Channel::Ch1,
        Channel::Ch2,
        Channel::Ch3,
        Channel::Ch4,
        Channel::Ch5,
        Channel::Ch6,
        Channel::Ch7,
        Channel::Ch8,
        Channel::Ch9,
        Channel::Ch10,
        Channel::Ch11,
        Channel::Ch12,
        Channel::Ch13,
        Channel::Ch14,
        Channel::Ch15,
        Channel::Ch16,
    ];

    /// The zero-based index of the channel, as it stands in a status byte's low nibble.
    pub open spec fn spec_index(self) -> u8 {
        match self {
            Channel::Ch1 => 0,
            Channel::Ch2 => 1,
            Channel::Ch3 => 2,
            Channel::Ch4 => 3,
            Channel::Ch5 => 4,
            Channel::Ch6 => 5,
            Channel::Ch7 => 6,
            Channel::Ch8 => 7,
            Channel::Ch9 => 8,
            Channel::Ch10 => 9,
            Channel::Ch11 => 10,
            Channel::Ch12 => 11,
            Channel::Ch13 => 12,
            Channel::Ch14 => 13,
            Channel::Ch15 => 14,
            Channel::Ch16 => 15,
        }
    }

    /// The channel with the zero-based index `i` (taken modulo 16).
    pub open spec fn spec_from_index(i: u8) -> Channel {
        match i % 16 {
            0 => Channel::Ch1,
            1 => Channel::Ch2,
            2 => Channel::Ch3,
            3 => Channel::Ch4,
            4 => Channel::Ch5,
            5 => Channel::Ch6,
            6 => Channel::Ch7,
            7 => Channel::Ch8,
            8 => Channel::Ch9,
            9 => Channel::Ch10,
            10 => Channel::Ch11,
            11 => Channel::Ch12,
            12 => Channel::Ch13,
            13 => Channel::Ch14,
            14 => Channel::Ch15,
            _ => Channel::Ch16,
        }
    }

    /// Index and channel correspond one to one.
    pub broadcast proof fn lemma_index_roundtrip(c: Channel)
        ensures
            #[trigger] Channel::spec_from_index(c.spec_index()) == c,
            c.spec_index() < 16,
    {
    }

    pub broadcast proof fn lemma_from_index_roundtrip(i: u8)
        requires
            i < 16,
        ensures
            #[trigger] Channel::spec_from_index(i).spec_index() == i,
    {
    }

    pub fn index(self) -> (r: u8)
        ensures
            r == self.spec_index(),
            r < 16,
    {
        match self {
            Channel::Ch1 => 0,
            Channel::Ch2 => 1,
            Channel::Ch3 => 2,
            Channel::Ch4 => 3,
            Channel::Ch5 => 4,
            Channel::Ch6 => 5,
            Channel::Ch7 => 6,
            Channel::Ch8 => 7,
            Channel::Ch9 => 8,
            Channel::Ch10 => 9,
            Channel::Ch11 => 10,
            Channel::Ch12 => 11,
            Channel::Ch13 => 12,
            Channel::Ch14 => 13,
            Channel::Ch15 => 14,
            Channel::Ch16 => 15,
        }
    }

    /// The one-based channel number, 1 to 16.
    pub fn number(self) -> (r: u8)
        ensures
            r == self.spec_index() + 1,
            1 <= r <= 16,
    {
        self.index() + 1
    }

    pub fn from_index(index: u8) -> (r: Result<Channel, ValueError>)
        ensures
            index < 16 ==> r == Ok::<Channel, ValueError>(Channel::spec_from_index(index)),
            index >= 16 ==> r == Err::<Channel, ValueError>(ValueError::ChannelIndex(index)),
    {
        if index >= 16 {
            return Err(ValueError::ChannelIndex(index));
        }
        let c = match index {
            0 => Channel::Ch1,
            1 => Channel::Ch2,
            2 => Channel::Ch3,
            3 => Channel::Ch4,
            4 => Channel::Ch5,
            5 => Channel::Ch6,
            6 => Channel::Ch7,
            7 => Channel::Ch8,
            8 => Channel::Ch9,
            9 => Channel::Ch10,
            10 => Channel::Ch11,
            11 => Channel::Ch12,
            12 => Channel::Ch13,
            13 => Channel::Ch14,
            14 => Channel::Ch15,
            _ => Channel::Ch16,
        };
        Ok(c)
    }

    pub fn from_number(number: u8) -> (r: Result<Channel, ValueError>)
        ensures
            1 <= number <= 16 ==> r == Ok::<Channel, ValueError>(Channel::spec_from_index((number - 1) as u8)),
            !(1 <= number <= 16) ==> r == Err::<Channel, ValueError>(ValueError::ChannelNumber(number)),
    {
        if number == 0 || number > 16 {
            return Err(ValueError::ChannelNumber(number));
        }
        match Channel::from_index(number - 1) {
            Ok(c) => Ok(c),
            Err(_) => Err(ValueError::ChannelNumber(number)),
        }
    }
}

/// The channel named by the low nibble of a channel-voice status byte.
pub fn channel_from_nibble(status: u8) -> (r: Channel)
    ensures
        r == Channel::spec_from_index(status),
{
    let low = status & 0x0F;
    assert(low == status % 16 && low < 16) by (bit_vector)
        requires
            low == status & 0x0F,
    ;
    match Channel::from_index(low) {
        Ok(c) => c,
        Err(_) => Channel::Ch1,
    }
}

pub broadcast group group_channel {
    Channel::lemma_index_roundtrip,
    Channel::lemma_from_index_roundtrip,
}

} // verus!
