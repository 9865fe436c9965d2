use vstd::prelude::*;

verus! {

/// Identifies a virtual port created by this client.
#[derive(Debug, Clone, Copy, PartialEq, Eq, Hash, Structural)]
pub struct VirtualPortId(u64);

impl View for VirtualPortId {
    type V = u64;

    closed spec fn view(&self) -> u64 {
        self.0
    }
}

impl VirtualPortId {
    pub fn new(raw: u64) -> (r: VirtualPortId)
        ensures
            r@ == raw,
    {
        VirtualPortId(raw)
    }

    pub fn get(self) -> (r: u64)
        ensures
            r == self@,
    {
        self.0
    }
}

/// An opaque handle for a platform port.
#[derive(Debug, Clone, Copy, PartialEq, Eq, Hash, Structural)]
pub struct PortId(u64);

impl View for PortId {
    type V = u64;

    closed spec fn view(&self) -> u64 {
        self.0
    }
}

impl PortId {
    /// The handle's bits.
    pub fn to_bits(self) -> (r: u64)
        ensures
            r == self@,
    {
        self.0
    }

    /// The handle with the given bits.
    pub fn from_bits(bits: u64) -> (r: PortId)
        ensures
            r@ == bits,
    {
        PortId(bits)
    }

    /// The handle with the given bits.
    pub closed spec fn from_bits_spec(bits: u64) -> PortId {
        PortId(bits)
    }

    pub broadcast proof fn lemma_from_bits_spec(bits: u64)
        ensures
            #[trigger] PortId::from_bits_spec(bits)@ == bits,
    {
    }

    /// Two handles with the same bits are the same handle.
    pub broadcast proof fn lemma_view_determines(a: PortId, b: PortId)
        requires
            #[trigger] a@ == #[trigger] b@,
        ensures
            a == b,
    {
    }
}

/// A source is a sender of MIDI messages.
#[derive(Debug, PartialEq, Eq, Hash)]
pub struct Source {
    pub id: PortId,
    pub name: String,
    pub is_virtual: bool,
}

impl Clone for Source {
    fn clone(&self) -> (r: Source)
        ensures
            r == *self,
    {
        Source { id: self.id, name: self.name.clone(), is_virtual: self.is_virtual }
    }
}

impl Source {
    pub fn new(id: PortId, name: String, is_virtual: bool) -> (r: Source)
        ensures
            r == (Source { id, name, is_virtual }),
    {
        Source { id, name, is_virtual }
    }

    pub fn id(&self) -> (r: PortId)
        ensures
            r == self.id,
    {
        self.id
    }

    pub fn name(&self) -> (r: &str)
        ensures
            r@ == self.name@,
    {
        self.name.as_str()
    }

    pub fn is_virtual(&self) -> (r: bool)
        ensures
            r == self.is_virtual,
    {
        self.is_virtual
    }
}

/// Indicates when available sources have changed.
#[derive(Debug, PartialEq, Eq, Hash)]
pub enum SourceChange {
    Added(Source),
    Removed(Source),
}

impl Clone for SourceChange {
    fn clone(&self) -> (r: SourceChange)
        ensures
            r == *self,
    {
        match self {
            SourceChange::Added(s) => SourceChange::Added(s.clone()),
            SourceChange::Removed(s) => SourceChange::Removed(s.clone()),
        }
    }
}

/// A destination is a receiver of MIDI messages.
#[derive(Debug, PartialEq, Eq, Hash)]
pub struct Destination {
    pub id: PortId,
    pub name: String,
    pub is_virtual: bool,
}

impl Clone for Destination {
    fn clone(&self) -> (r: Destination)
        ensures
            r == *self,
    {
        Destination { id: self.id, name: self.name.clone(), is_virtual: self.is_virtual }
    }
}

impl Destination {
    pub fn new(id: PortId, name: String, is_virtual: bool) -> (r: Destination)
        ensures
            r == (Destination { id, name, is_virtual }),
    {
        Destination { id, name, is_virtual }
    }

    pub fn id(&self) -> (r: PortId)
        ensures
            r == self.id,
    {
        self.id
    }

    pub fn name(&self) -> (r: &str)
        ensures
            r@ == self.name@,
    {
        self.name.as_str()
    }

    pub fn is_virtual(&self) -> (r: bool)
        ensures
            r == self.is_virtual,
    {
        self.is_virtual
    }
}

/// Indicates when available destinations have changed.
#[derive(Debug, PartialEq, Eq, Hash)]
pub enum DestinationChange {
    Added(Destination),
    Removed(Destination),
}

impl Clone for DestinationChange {
    fn clone(&self) -> (r: DestinationChange)
        ensures
            r == *self,
    {
        match self {
            DestinationChange::Added(d) => DestinationChange::Added(d.clone()),
            DestinationChange::Removed(d) => DestinationChange::Removed(d.clone()),
        }
    }
}

} // verus!
