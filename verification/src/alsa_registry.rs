use vstd::prelude::*;

use crate::alsa_event::control14_to_cc_pair;
use crate::alsa_event::message_from_event;
use crate::alsa_event::param_cc_messages;
use crate::alsa_event::spec_control14_to_cc_pair;
use crate::alsa_event::spec_message_from_event;
use crate::alsa_event::spec_param_cc_messages;
use crate::alsa_event::Addr;
use crate::alsa_event::SeqEvent;
use crate::error::CodecErrorView;
use crate::error::ErrorView;
use crate::stream_parser::events_view;
use crate::stream_parser::run;
use crate::stream_parser::DecodedEvent;
use crate::stream_parser::EventView;
use crate::error::Error;
use crate::error::IoError;
use crate::port::Destination;
use crate::port::DestinationChange;
use crate::port::PortId;
use crate::port::Source;
use crate::port::SourceChange;
use crate::port::VirtualPortId;
use crate::stream_parser::ParserState;
use crate::stream_parser::StreamParser;
use crate::table::Table;

verus! {

/// The sequencer address that stands for every subscriber of a port.
pub const SND_SEQ_ADDRESS_SUBSCRIBERS: i32 = 254;

/// The port number used with [`SND_SEQ_ADDRESS_SUBSCRIBERS`].
pub const SND_SEQ_ADDRESS_UNKNOWN: i32 = 253;

/// The first client number the kernel hands to user-space clients.
pub const SNDRV_SEQ_DYNAMIC_CLIENTS_BEGIN: i32 = 128;

/// A sequencer port: client number and port number.
#[derive(Debug, Clone, Copy, PartialEq, Eq, Hash, Structural)]
pub struct AlsaPortKey(pub i32, pub i32);

/// The bits of the port handle for `key`: the client in the high 32 bits, the
/// port in the low 32 bits (each as its two's-complement `u32`).
pub open spec fn spec_key_bits(key: AlsaPortKey) -> u64 {
    ((key.0 as u32 as u64) * 0x1_0000_0000 + (key.1 as u32 as u64)) as u64
}

/// The port a handle's bits name.
pub open spec fn spec_bits_key(bits: u64) -> AlsaPortKey {
    AlsaPortKey((bits / 0x1_0000_0000) as u32 as i32, (bits % 0x1_0000_0000) as u32 as i32)
}

pub fn key_to_id(key: AlsaPortKey) -> (r: PortId)
    ensures
        r@ == spec_key_bits(key),
{
    let hi = key.0 as u32 as u64;
    let lo = key.1 as u32 as u64;
    let bits = (hi << 32) | lo;
    assert(bits == hi * 0x1_0000_0000 + lo) by (bit_vector)
        requires
            bits == (hi << 32) | lo,
            hi < 0x1_0000_0000,
            lo < 0x1_0000_0000,
    ;
    PortId::from_bits(bits)
}

pub fn port_to_key(id: &PortId) -> (r: AlsaPortKey)
    ensures
        r == spec_bits_key(id@),
{
    let bits = id.to_bits();
    let hi = (bits >> 32) as u32;
    let lo = bits as u32;
    assert(hi == bits / 0x1_0000_0000 && lo == bits % 0x1_0000_0000) by (bit_vector)
        requires
            hi == (bits >> 32) as u32,
            lo == bits as u32,
    ;
    AlsaPortKey(hi as i32, lo as i32)
}

/// Every sequencer port has a handle of its own, and the handle names it back.
pub proof fn lemma_key_roundtrip(key: AlsaPortKey)
    ensures
        spec_bits_key(spec_key_bits(key)) == key,
{
    let a = key.0;
    let b = key.1;
    let bits = spec_key_bits(key);
    assert(bits / 0x1_0000_0000 == a as u32 && bits % 0x1_0000_0000 == b as u32);
    assert((a as u32) as i32 == a && (b as u32) as i32 == b) by (bit_vector);
}

/// Every handle names a port whose handle it is.
pub proof fn lemma_bits_roundtrip(bits: u64)
    ensures
        spec_key_bits(spec_bits_key(bits)) == bits,
{
    let hi = (bits / 0x1_0000_0000) as u32;
    let lo = (bits % 0x1_0000_0000) as u32;
    assert((hi as i32) as u32 == hi && (lo as i32) as u32 == lo) by (bit_vector);
}

/// Distinct ports have distinct handles.
pub proof fn lemma_key_injective(a: AlsaPortKey, b: AlsaPortKey)
    requires
        spec_key_bits(a) == spec_key_bits(b),
    ensures
        a == b,
{
    lemma_key_roundtrip(a);
    lemma_key_roundtrip(b);
}

/// The address that delivers to every subscriber of a port.
pub fn subscribers_addr() -> (r: Addr)
    ensures
        r == (Addr { client: SND_SEQ_ADDRESS_SUBSCRIBERS, port: SND_SEQ_ADDRESS_UNKNOWN }),
{
    Addr { client: SND_SEQ_ADDRESS_SUBSCRIBERS, port: SND_SEQ_ADDRESS_UNKNOWN }
}

impl Source {
    /// The source for a sequencer port; ports of user-space clients are virtual.
    pub fn from_alsa(key: AlsaPortKey, name: &str) -> (r: Source)
        ensures
            r.id@ == spec_key_bits(key),
            r.name@ == name@,
            r.is_virtual == (key.0 >= SNDRV_SEQ_DYNAMIC_CLIENTS_BEGIN),
    {
        Source { id: key_to_id(key), name: name.to_owned(), is_virtual: key.0 >= SNDRV_SEQ_DYNAMIC_CLIENTS_BEGIN }
    }
}

impl Destination {
    /// The destination for a sequencer port; ports of user-space clients are virtual.
    pub fn from_alsa(key: AlsaPortKey, name: &str) -> (r: Destination)
        ensures
            r.id@ == spec_key_bits(key),
            r.name@ == name@,
            r.is_virtual == (key.0 >= SNDRV_SEQ_DYNAMIC_CLIENTS_BEGIN),
    {
        Destination { id: key_to_id(key), name: name.to_owned(), is_virtual: key.0 >= SNDRV_SEQ_DYNAMIC_CLIENTS_BEGIN }
    }
}

/// Whether a virtual destination can be made under the unique id asked for:
/// the sequencer numbers ports itself, so no id can be chosen here.
pub fn check_virtual_destination_id(unique_id: Option<u32>) -> (r: Result<(), Error>)
    ensures
        r == (if unique_id is Some {
            Err(Error::Io(IoError::Unsupported))
        } else {
            Ok(())
        }),
{
    match unique_id {
        Some(_) => Err(Error::Io(IoError::Unsupported)),
        None => Ok(()),
    }
}

/// What the sequencer says of a port: whether it can be read from and
/// subscribed to (a source), written to and subscribed to (a destination),
/// and its name.
#[derive(Debug, Clone, PartialEq, Eq)]
pub struct PortInfo {
    pub readable: bool,
    pub writable: bool,
    pub name: String,
}

/// A change the backend must pass on: to subscribers of port changes, or to
/// the streams of a connection whose port went away.
#[derive(Debug, PartialEq, Eq)]
pub enum PortNotice {
    Source(SourceChange),
    Destination(DestinationChange),
    /// The source this client is connected to went away; its streams get a
    /// port-disconnected error.
    SourceDisconnected(AlsaPortKey),
    /// A virtual destination of this client was destroyed; its streams get a
    /// port-disconnected error and close.
    VirtualDestinationClosed(AlsaPortKey),
}

/// The model of a [`PortRegistry`]; port tables are keyed by port handle bits.
pub struct RegistryView {
    /// Known sources.
    pub sources: Map<u64, Source>,
    /// Known destinations.
    pub destinations: Map<u64, Destination>,
    /// Sources this client is connected to, with the parser for each.
    pub connections: Map<u64, ParserState>,
    /// Destinations this client is connected to; `true` once the port went away.
    pub destination_connections: Map<u64, bool>,
    /// This client's virtual destination ports, with the parser for each.
    pub virtual_destinations: Map<u64, ParserState>,
    /// The sequencer port of each virtual destination id.
    pub virtual_destination_ports: Map<u64, i32>,
    /// The sequencer port of each virtual source id.
    pub virtual_source_ports: Map<u64, i32>,
}

/// The ALSA backend's bookkeeping of ports, connections and virtual ports.
pub struct PortRegistry {
    source_cache: Table<Source>,
    destination_cache: Table<Destination>,
    connections: Table<StreamParser>,
    destination_connections: Table<bool>,
    vdest_recv: Table<StreamParser>,
    vdest_ports: Table<i32>,
    vsrc_send: Table<i32>,
}

/// The parser states of a table of parsers.
pub open spec fn parser_states(m: Map<u64, StreamParser>) -> Map<u64, ParserState> {
    m.map_values(|p: StreamParser| p@)
}

impl View for PortRegistry {
    type V = RegistryView;

    closed spec fn view(&self) -> RegistryView {
        RegistryView {
            sources: self.source_cache@,
            destinations: self.destination_cache@,
            connections: parser_states(self.connections@),
            destination_connections: self.destination_connections@,
            virtual_destinations: parser_states(self.vdest_recv@),
            virtual_destination_ports: self.vdest_ports@,
            virtual_source_ports: self.vsrc_send@,
        }
    }
}

impl RegistryView {
    /// The notices for removing the source at `key`.
    pub open spec fn remove_source_notices(self, key: AlsaPortKey) -> Seq<PortNotice> {
        let k = spec_key_bits(key);
        if self.sources.contains_key(k) {
            (if self.connections.contains_key(k) {
                seq![PortNotice::SourceDisconnected(key)]
            } else {
                Seq::empty()
            }) + seq![PortNotice::Source(SourceChange::Removed(self.sources[k]))]
        } else {
            Seq::empty()
        }
    }

    /// The state after removing the source at `key`.
    pub open spec fn without_source(self, key: AlsaPortKey) -> RegistryView {
        RegistryView { sources: self.sources.remove(spec_key_bits(key)), ..self }
    }

    /// The notices for removing the destination at `key`.
    pub open spec fn remove_destination_notices(self, key: AlsaPortKey) -> Seq<PortNotice> {
        let k = spec_key_bits(key);
        if self.destinations.contains_key(k) {
            seq![PortNotice::Destination(DestinationChange::Removed(self.destinations[k]))]
        } else {
            Seq::empty()
        }
    }

    /// The state after removing the destination at `key`: a connection to it
    /// stays, marked as disconnected.
    pub open spec fn without_destination(self, key: AlsaPortKey) -> RegistryView {
        let k = spec_key_bits(key);
        if self.destinations.contains_key(k) {
            RegistryView {
                destinations: self.destinations.remove(k),
                destination_connections: if self.destination_connections.contains_key(k) {
                    self.destination_connections.insert(k, true)
                } else {
                    self.destination_connections
                },
                ..self
            }
        } else {
            self
        }
    }
}

impl RegistryView {
    /// What a request to connect to the source at `key` is answered, given
    /// what the sequencer says of the port.
    pub open spec fn connect_source_answer(self, key: AlsaPortKey, info: Option<PortInfo>) -> Result<(), Error> {
        if self.connections.contains_key(spec_key_bits(key)) {
            Err(Error::Io(IoError::AlreadyConnected))
        } else if info is None || !info.unwrap().readable {
            Err(Error::Io(IoError::PortNotFound))
        } else {
            Ok(())
        }
    }

    /// The state with a connection to the source at `key`, with a fresh parser.
    pub open spec fn with_connection(self, key: AlsaPortKey) -> RegistryView {
        RegistryView { connections: self.connections.insert(spec_key_bits(key), ParserState::initial()), ..self }
    }

    /// The state without a connection to the source at `key`.
    pub open spec fn without_connection(self, key: AlsaPortKey) -> RegistryView {
        RegistryView { connections: self.connections.remove(spec_key_bits(key)), ..self }
    }

    /// Connecting to the destination at `key`, given what the sequencer says
    /// of the port: the state after, and the answer.
    pub open spec fn connect_destination_outcome(self, key: AlsaPortKey, info: Option<PortInfo>) -> (
        RegistryView,
        Result<(), Error>,
    ) {
        let k = spec_key_bits(key);
        if self.destination_connections.contains_key(k) {
            (self, Err(Error::Io(IoError::AlreadyConnected)))
        } else if info is None || !info.unwrap().writable {
            (self, Err(Error::Io(IoError::PortNotFound)))
        } else {
            (RegistryView { destination_connections: self.destination_connections.insert(k, false), ..self }, Ok(()))
        }
    }

    /// The state without a connection to the destination at `key`.
    pub open spec fn forget_destination(self, key: AlsaPortKey) -> RegistryView {
        RegistryView { destination_connections: self.destination_connections.remove(spec_key_bits(key)), ..self }
    }
}

/// A source connection holds until it is dropped: a readable source that
/// this client is not connected to may be connected; while the connection
/// lives, connecting again is refused as already connected; once it is
/// dropped, connecting is allowed again and the state is as before.
pub proof fn lemma_source_connect_until_dropped(v: RegistryView, key: AlsaPortKey, info: Option<PortInfo>)
    requires
        !v.connections.contains_key(spec_key_bits(key)),
        info is Some && info.unwrap().readable,
    ensures
        v.connect_source_answer(key, info) == Ok::<(), Error>(()),
        v.with_connection(key).connect_source_answer(key, info) == Err::<(), Error>(
            Error::Io(IoError::AlreadyConnected),
        ),
        v.with_connection(key).without_connection(key) == v,
        v.with_connection(key).without_connection(key).connect_source_answer(key, info) == Ok::<(), Error>(()),
{
    assert(v.with_connection(key).without_connection(key).connections =~= v.connections);
    assert(v.with_connection(key).without_connection(key) == v);
}

/// A destination connection holds until it is dropped: connecting to a
/// writable destination succeeds; while the connection lives, connecting
/// again is refused as already connected and changes nothing; once it is
/// dropped, the state is as before and connecting succeeds again.
pub proof fn lemma_destination_connect_until_dropped(v: RegistryView, key: AlsaPortKey, info: Option<PortInfo>)
    requires
        !v.destination_connections.contains_key(spec_key_bits(key)),
        info is Some && info.unwrap().writable,
    ensures
        v.connect_destination_outcome(key, info).1 == Ok::<(), Error>(()),
        v.connect_destination_outcome(key, info).0.connect_destination_outcome(key, info) == (
            v.connect_destination_outcome(key, info).0,
            Err::<(), Error>(Error::Io(IoError::AlreadyConnected)),
        ),
        v.connect_destination_outcome(key, info).0.forget_destination(key) == v,
        v.connect_destination_outcome(key, info).0.forget_destination(key).connect_destination_outcome(key, info).1
            == Ok::<(), Error>(()),
{
    let w = v.connect_destination_outcome(key, info).0;
    assert(w.forget_destination(key).destination_connections =~= v.destination_connections);
    assert(w.forget_destination(key) == v);
}

/// A port going away never drops a connection: a connection to the source
/// stays and its streams are told first; a connection to the destination
/// stays, marked as disconnected.
pub proof fn lemma_port_exit_keeps_connections(v: RegistryView, key: AlsaPortKey)
    ensures
        v.without_source(key).without_destination(key).connections == v.connections,
        v.without_source(key).without_destination(key).destination_connections.dom()
            == v.destination_connections.dom(),
        v.sources.contains_key(spec_key_bits(key)) && v.connections.contains_key(spec_key_bits(key))
            ==> v.remove_source_notices(key)[0] == PortNotice::SourceDisconnected(key),
        v.destinations.contains_key(spec_key_bits(key)) && v.destination_connections.contains_key(spec_key_bits(key))
            ==> v.without_source(key).without_destination(key).destination_connections[spec_key_bits(key)],
{
    let k = spec_key_bits(key);
    let w = v.without_source(key);
    if w.destinations.contains_key(k) && w.destination_connections.contains_key(k) {
        assert(w.without_destination(key).destination_connections.dom() =~= v.destination_connections.dom());
    } else {
        assert(w.without_destination(key).destination_connections.dom() =~= v.destination_connections.dom());
    }
}

/// Appends `b` to `a`.
fn append_notices(a: &mut Vec<PortNotice>, b: Vec<PortNotice>)
    ensures
        final(a)@ == old(a)@ + b@,
{
    let mut b = b;
    a.append(&mut b);
}

impl PortRegistry {
    pub fn new() -> (r: PortRegistry)
        ensures
            r@.sources == Map::<u64, Source>::empty(),
            r@.destinations == Map::<u64, Destination>::empty(),
            r@.connections == Map::<u64, ParserState>::empty(),
            r@.destination_connections == Map::<u64, bool>::empty(),
            r@.virtual_destinations == Map::<u64, ParserState>::empty(),
            r@.virtual_destination_ports == Map::<u64, i32>::empty(),
            r@.virtual_source_ports == Map::<u64, i32>::empty(),
    {
        let r = PortRegistry {
            source_cache: Table::new(),
            destination_cache: Table::new(),
            connections: Table::new(),
            destination_connections: Table::new(),
            vdest_recv: Table::new(),
            vdest_ports: Table::new(),
            vsrc_send: Table::new(),
        };
        assert(r@.connections =~= Map::<u64, ParserState>::empty());
        assert(r@.virtual_destinations =~= Map::<u64, ParserState>::empty());
        r
    }

    /// Records a source and reports it as added.
    pub fn add_source(&mut self, key: AlsaPortKey, port: Source) -> (r: PortNotice)
        ensures
            final(self)@ == (RegistryView { sources: old(self)@.sources.insert(spec_key_bits(key), port), ..old(self)@ }),
            r == PortNotice::Source(SourceChange::Added(port)),
    {
        let k = key_to_id(key).to_bits();
        self.source_cache.insert(k, port.clone());
        PortNotice::Source(SourceChange::Added(port))
    }

    /// Records a destination and reports it as added.
    pub fn add_destination(&mut self, key: AlsaPortKey, port: Destination) -> (r: PortNotice)
        ensures
            final(self)@ == (RegistryView { destinations: old(self)@.destinations.insert(spec_key_bits(key), port), ..old(self)@ }),
            r == PortNotice::Destination(DestinationChange::Added(port)),
    {
        let k = key_to_id(key).to_bits();
        self.destination_cache.insert(k, port.clone());
        PortNotice::Destination(DestinationChange::Added(port))
    }

    /// Forgets the source at `key`; a connection to it stays and is told the
    /// port went away.
    pub fn remove_source(&mut self, key: AlsaPortKey) -> (r: Vec<PortNotice>)
        ensures
            final(self)@ == old(self)@.without_source(key),
            r@ == old(self)@.remove_source_notices(key),
    {
        let k = key_to_id(key).to_bits();
        let mut out: Vec<PortNotice> = Vec::new();
        match self.source_cache.remove(k) {
            Some(port) => {
                if self.connections.contains_key(k) {
                    out.push(PortNotice::SourceDisconnected(key));
                }
                out.push(PortNotice::Source(SourceChange::Removed(port)));
            },
            None => {},
        }
        proof {
            assert(self@.sources =~= old(self)@.without_source(key).sources);
            assert(out@ =~= old(self)@.remove_source_notices(key));
        }
        out
    }

    /// Forgets the destination at `key`; a connection to it stays, marked as
    /// disconnected.
    pub fn remove_destination(&mut self, key: AlsaPortKey) -> (r: Vec<PortNotice>)
        ensures
            final(self)@ == old(self)@.without_destination(key),
            r@ == old(self)@.remove_destination_notices(key),
    {
        let k = key_to_id(key).to_bits();
        let mut out: Vec<PortNotice> = Vec::new();
        match self.destination_cache.remove(k) {
            Some(port) => {
                if self.destination_connections.contains_key(k) {
                    self.destination_connections.insert(k, true);
                }
                out.push(PortNotice::Destination(DestinationChange::Removed(port)));
            },
            None => {
                proof {
                    assert(old(self)@.destinations.remove(k) =~= old(self)@.destinations);
                }
            },
        }
        proof {
            assert(out@ =~= old(self)@.remove_destination_notices(key));
        }
        out
    }
}

/// An element is in `s.push(k)` when it is `k` or in `s`.
proof fn lemma_push_contains(s: Seq<u64>, k: u64)
    ensures
        forall|x: u64| #[trigger] s.push(k).contains(x) <==> (s.contains(x) || x == k),
{
    assert forall|x: u64| #[trigger] s.push(k).contains(x) <==> (s.contains(x) || x == k) by {
        if s.contains(x) {
            let j = choose|j: int| 0 <= j < s.len() && s[j] == x;
            assert(s.push(k)[j] == x);
        }
        if x == k {
            assert(s.push(k)[s.len() as int] == x);
        }
        if s.push(k).contains(x) {
            let j = choose|j: int| 0 <= j < s.len() + 1 && s.push(k)[j] == x;
            if j < s.len() {
                assert(s[j] == x);
            }
        }
    }
}

/// The client that owns the port a handle names.
pub open spec fn client_of(bits: u64) -> i32 {
    spec_bits_key(bits).0
}

/// The notices for removing, one after another, the sources whose handles
/// `order` lists, from the state `v`.
pub open spec fn sources_exit_notices(v: RegistryView, order: Seq<u64>) -> Seq<PortNotice>
    decreases order.len(),
{
    if order.len() == 0 {
        Seq::empty()
    } else {
        sources_exit_notices(v, order.drop_last()) + v.remove_source_notices(spec_bits_key(order.last()))
    }
}

/// The notices for removing, one after another, the destinations whose
/// handles `order` lists, from the state `v`.
pub open spec fn destinations_exit_notices(v: RegistryView, order: Seq<u64>) -> Seq<PortNotice>
    decreases order.len(),
{
    if order.len() == 0 {
        Seq::empty()
    } else {
        destinations_exit_notices(v, order.drop_last()) + v.remove_destination_notices(spec_bits_key(order.last()))
    }
}

/// `order` lists, once each, the keys of `m` whose port belongs to `client`.
pub open spec fn lists_client_keys<V>(order: Seq<u64>, m: Map<u64, V>, client: i32) -> bool {
    &&& order.no_duplicates()
    &&& forall|k: u64| #[trigger] order.contains(k) <==> (m.contains_key(k) && client_of(k) == client)
}

/// `m` without the keys whose port belongs to `client`.
pub open spec fn without_client<V>(m: Map<u64, V>, client: i32) -> Map<u64, V> {
    m.restrict(m.dom().filter(|k: u64| client_of(k) != client))
}

/// The destination connections after the destinations of `client` went away:
/// those to ports of `client` that were known are marked disconnected.
pub open spec fn client_gone_connections(v: RegistryView, client: i32) -> Map<u64, bool> {
    Map::new(
        |k: u64| v.destination_connections.contains_key(k),
        |k: u64| if v.destinations.contains_key(k) && client_of(k) == client {
            true
        } else {
            v.destination_connections[k]
        },
    )
}

impl PortRegistry {
    /// A port appeared: records it as a source and/or destination by its
    /// capabilities. Ports of the system client (0) and of this client are
    /// ignored, and so is a port the sequencer could not describe.
    pub fn handle_port_start(&mut self, addr: Addr, our_client: i32, info: Option<PortInfo>) -> (r: Vec<PortNotice>)
        ensures
            ({
                let key = AlsaPortKey(addr.client, addr.port);
                let k = spec_key_bits(key);
                if addr.client == 0 || addr.client == our_client || info is None {
                    final(self)@ == old(self)@ && r@ == Seq::<PortNotice>::empty()
                } else {
                    let pi = info.unwrap();
                    let src = Source { id: PortId::from_bits_spec(k), name: pi.name, is_virtual: addr.client >= SNDRV_SEQ_DYNAMIC_CLIENTS_BEGIN };
                    let dst = Destination { id: PortId::from_bits_spec(k), name: pi.name, is_virtual: addr.client >= SNDRV_SEQ_DYNAMIC_CLIENTS_BEGIN };
                    &&& final(self)@ == (RegistryView {
                        sources: if pi.readable { old(self)@.sources.insert(k, src) } else { old(self)@.sources },
                        destinations: if pi.writable { old(self)@.destinations.insert(k, dst) } else { old(self)@.destinations },
                        ..old(self)@
                    })
                    &&& r@ == (if pi.readable { seq![PortNotice::Source(SourceChange::Added(src))] } else { Seq::empty() })
                        + (if pi.writable { seq![PortNotice::Destination(DestinationChange::Added(dst))] } else { Seq::empty() })
                }
            }),
    {
        let mut out: Vec<PortNotice> = Vec::new();
        if addr.client == 0 || addr.client == our_client {
            return out;
        }
        let pi = match info {
            Some(pi) => pi,
            None => {
                return out;
            },
        };
        let key = AlsaPortKey(addr.client, addr.port);
        let id = key_to_id(key);
        proof {
            broadcast use PortId::lemma_from_bits_spec;
            PortId::lemma_view_determines(id, PortId::from_bits_spec(spec_key_bits(key)));
        }
        let is_virtual = key.0 >= SNDRV_SEQ_DYNAMIC_CLIENTS_BEGIN;
        if pi.readable {
            let src = Source::new(id, pi.name.clone(), is_virtual);
            out.push(self.add_source(key, src));
        }
        if pi.writable {
            let dst = Destination::new(id, pi.name.clone(), is_virtual);
            out.push(self.add_destination(key, dst));
        }
        proof {
            assert(out@ =~= (if pi.readable { seq![out@[0]] } else { Seq::empty() }) + (if pi.writable { seq![out@.last()] } else { Seq::empty() }));
        }
        out
    }

    /// A port went away: it is removed as a source and as a destination.
    pub fn handle_port_exit(&mut self, addr: Addr) -> (r: Vec<PortNotice>)
        ensures
            final(self)@ == old(self)@.without_source(AlsaPortKey(addr.client, addr.port)).without_destination(
                AlsaPortKey(addr.client, addr.port),
            ),
            r@ == old(self)@.remove_source_notices(AlsaPortKey(addr.client, addr.port))
                + old(self)@.remove_destination_notices(AlsaPortKey(addr.client, addr.port)),
    {
        let key = AlsaPortKey(addr.client, addr.port);
        let mut out = self.remove_source(key);
        let more = self.remove_destination(key);
        append_notices(&mut out, more);
        out
    }

    /// A client went away: every port of it is removed as a source and as a
    /// destination.
    pub fn handle_client_exit(&mut self, client_id: i32) -> (r: Vec<PortNotice>)
        ensures
            final(self)@.sources == without_client(old(self)@.sources, client_id),
            final(self)@.destinations == without_client(old(self)@.destinations, client_id),
            final(self)@.destination_connections == client_gone_connections(old(self)@, client_id),
            final(self)@.connections == old(self)@.connections,
            final(self)@.virtual_destinations == old(self)@.virtual_destinations,
            final(self)@.virtual_destination_ports == old(self)@.virtual_destination_ports,
            final(self)@.virtual_source_ports == old(self)@.virtual_source_ports,
            exists|src_order: Seq<u64>, dst_order: Seq<u64>|
                lists_client_keys(src_order, old(self)@.sources, client_id)
                && lists_client_keys(dst_order, old(self)@.destinations, client_id)
                && r@ == sources_exit_notices(old(self)@, src_order) + destinations_exit_notices(old(self)@, dst_order),
    {
        let ghost v0 = self@;
        let keys = self.source_cache.keys();
        let mut out: Vec<PortNotice> = Vec::new();
        let mut i: usize = 0;
        let ghost mut src_order: Seq<u64> = Seq::empty();
        while i < keys.len()
            invariant
                i <= keys@.len(),
                keys@.no_duplicates(),
                forall|k: u64| #[trigger] keys@.contains(k) <==> v0.sources.contains_key(k),
                self@ == (RegistryView { sources: self@.sources, ..v0 }),
                forall|k: u64| #[trigger] self@.sources.contains_key(k) <==> (v0.sources.contains_key(k)
                    && !(src_order.contains(k))),
                forall|k: u64| #[trigger] self@.sources.contains_key(k) ==> self@.sources[k] == v0.sources[k],
                src_order.no_duplicates(),
                forall|k: u64| #[trigger] src_order.contains(k) <==> (keys@.subrange(0, i as int).contains(k)
                    && client_of(k) == client_id),
                out@ == sources_exit_notices(v0, src_order),
            decreases keys@.len() - i,
        {
            let k = keys[i];
            let key = port_to_key(&PortId::from_bits(k));
            proof {
                lemma_bits_roundtrip(k);
                assert(keys@.subrange(0, i + 1) =~= keys@.subrange(0, i as int).push(k));
            }
            let ghost prev_order = src_order;
            let ghost prev_self = self@;
            if key.0 == client_id {
                proof {
                    assert(!src_order.contains(k)) by {
                        if src_order.contains(k) {
                            let j = choose|j: int| 0 <= j < i && keys@[j] == k;
                            assert(keys@.subrange(0, i as int).contains(k));
                        }
                    }
                    assert(self@.remove_source_notices(key) == v0.remove_source_notices(key));
                }
                let more = self.remove_source(key);
                append_notices(&mut out, more);
                proof {
                    let old_order = src_order;
                    src_order = src_order.push(k);
                    assert(src_order.drop_last() =~= old_order);
                }
            }
            proof {
                lemma_push_contains(keys@.subrange(0, i as int), k);
                if key.0 == client_id {
                    lemma_push_contains(prev_order, k);
                    assert(self@.sources == prev_self.sources.remove(k));
                    assert(forall|x: u64| #[trigger] src_order.contains(x) <==> (prev_order.contains(x) || x == k));
                    assert(src_order.no_duplicates());
                } else {
                    assert(src_order == prev_order);
                }
            }
            i = i + 1;
        }
        let ghost mid = self@;
        let dkeys = self.destination_cache.keys();
        let mut dout: Vec<PortNotice> = Vec::new();
        let mut j: usize = 0;
        let ghost mut dst_order: Seq<u64> = Seq::empty();
        while j < dkeys.len()
            invariant
                j <= dkeys@.len(),
                dkeys@.no_duplicates(),
                forall|k: u64| #[trigger] dkeys@.contains(k) <==> v0.destinations.contains_key(k),
                self@ == (RegistryView { destinations: self@.destinations, destination_connections: self@.destination_connections, ..mid }),
                forall|k: u64| #[trigger] self@.destinations.contains_key(k) <==> (v0.destinations.contains_key(k)
                    && !(dst_order.contains(k))),
                forall|k: u64| #[trigger] self@.destinations.contains_key(k) ==> self@.destinations[k] == v0.destinations[k],
                forall|k: u64| #[trigger] self@.destination_connections.contains_key(k) <==> v0.destination_connections.contains_key(k),
                forall|k: u64| #[trigger] self@.destination_connections.contains_key(k) ==> self@.destination_connections[k]
                    == (if dst_order.contains(k) { true } else { v0.destination_connections[k] }),
                dst_order.no_duplicates(),
                forall|k: u64| #[trigger] dst_order.contains(k) <==> (dkeys@.subrange(0, j as int).contains(k)
                    && client_of(k) == client_id),
                dout@ == destinations_exit_notices(v0, dst_order),
            decreases dkeys@.len() - j,
        {
            let k = dkeys[j];
            let key = port_to_key(&PortId::from_bits(k));
            proof {
                lemma_bits_roundtrip(k);
                assert(dkeys@.subrange(0, j + 1) =~= dkeys@.subrange(0, j as int).push(k));
            }
            let ghost prev_order = dst_order;
            let ghost prev_self = self@;
            if key.0 == client_id {
                proof {
                    assert(!dst_order.contains(k)) by {
                        if dst_order.contains(k) {
                            assert(dkeys@.subrange(0, j as int).contains(k));
                        }
                    }
                    assert(self@.remove_destination_notices(key) == v0.remove_destination_notices(key));
                }
                let more = self.remove_destination(key);
                append_notices(&mut dout, more);
                proof {
                    let old_order = dst_order;
                    dst_order = dst_order.push(k);
                    assert(dst_order.drop_last() =~= old_order);
                }
            }
            proof {
                lemma_push_contains(dkeys@.subrange(0, j as int), k);
                if key.0 == client_id {
                    lemma_push_contains(prev_order, k);
                    assert(self@.destinations == prev_self.destinations.remove(k));
                    assert(forall|x: u64| #[trigger] dst_order.contains(x) <==> (prev_order.contains(x) || x == k));
                    assert(dkeys@[j as int] == k);
                    assert(dkeys@.contains(k));
                    assert(!prev_order.contains(k));
                    assert(prev_self.destinations.contains_key(k));
                    assert forall|x: u64| #[trigger] self@.destination_connections.contains_key(x) implies self@.destination_connections[x]
                        == (if dst_order.contains(x) { true } else { v0.destination_connections[x] }) by {
                        if x != k {
                            assert(self@.destination_connections[x] == prev_self.destination_connections[x]);
                            assert(dst_order.contains(x) == prev_order.contains(x));
                        }
                    }
                    assert(dst_order.no_duplicates());
                } else {
                    assert(dst_order == prev_order);
                }
            }
            j = j + 1;
        }
        append_notices(&mut out, dout);
        proof {
            assert(keys@.subrange(0, i as int) =~= keys@);
            assert(dkeys@.subrange(0, j as int) =~= dkeys@);
            assert(self@.sources =~= without_client(v0.sources, client_id));
            assert(self@.destinations =~= without_client(v0.destinations, client_id));
            assert(self@.destination_connections =~= client_gone_connections(v0, client_id));
        }
        out
    }
}

/// A port the sequencer lists, as the port cache is built from.
#[derive(Debug, Clone, PartialEq, Eq)]
pub struct PortRecord {
    pub client: i32,
    pub port: i32,
    pub readable: bool,
    pub writable: bool,
    pub name: String,
}

/// The sequencer port a listed port stands at.
pub open spec fn record_key(r: PortRecord) -> AlsaPortKey {
    AlsaPortKey(r.client, r.port)
}

/// A listed port that the caches hold: not the system client's, not ours.
pub open spec fn record_listed(r: PortRecord, our_client: i32) -> bool {
    r.client != 0 && r.client != our_client
}

/// The source a listed port stands for.
pub open spec fn record_source(r: PortRecord) -> Source {
    Source {
        id: PortId::from_bits_spec(spec_key_bits(record_key(r))),
        name: r.name,
        is_virtual: r.client >= SNDRV_SEQ_DYNAMIC_CLIENTS_BEGIN,
    }
}

/// The destination a listed port stands for.
pub open spec fn record_destination(r: PortRecord) -> Destination {
    Destination {
        id: PortId::from_bits_spec(spec_key_bits(record_key(r))),
        name: r.name,
        is_virtual: r.client >= SNDRV_SEQ_DYNAMIC_CLIENTS_BEGIN,
    }
}

/// The source cache built from a port listing: every readable port of
/// another client, keyed by its handle; a port listed twice keeps its last
/// entry.
pub open spec fn spec_source_cache(ports: Seq<PortRecord>, our_client: i32) -> Map<u64, Source>
    decreases ports.len(),
{
    if ports.len() == 0 {
        Map::empty()
    } else {
        let m = spec_source_cache(ports.drop_last(), our_client);
        let r = ports.last();
        if r.readable && record_listed(r, our_client) {
            m.insert(spec_key_bits(record_key(r)), record_source(r))
        } else {
            m
        }
    }
}

/// The destination cache built from a port listing: every writable port of
/// another client, keyed by its handle.
pub open spec fn spec_destination_cache(ports: Seq<PortRecord>, our_client: i32) -> Map<u64, Destination>
    decreases ports.len(),
{
    if ports.len() == 0 {
        Map::empty()
    } else {
        let m = spec_destination_cache(ports.drop_last(), our_client);
        let r = ports.last();
        if r.writable && record_listed(r, our_client) {
            m.insert(spec_key_bits(record_key(r)), record_destination(r))
        } else {
            m
        }
    }
}

impl PortRegistry {
    /// Fills the port caches from the sequencer's port listing, skipping the
    /// system client and this client itself.
    pub fn load_ports(&mut self, ports: &[PortRecord], our_client: i32)
        ensures
            final(self)@ == (RegistryView {
                sources: spec_source_cache(ports@, our_client),
                destinations: spec_destination_cache(ports@, our_client),
                ..old(self)@
            }),
    {
        let mut sources: Table<Source> = Table::new();
        let mut destinations: Table<Destination> = Table::new();
        let mut i: usize = 0;
        while i < ports.len()
            invariant
                i <= ports@.len(),
                sources@ == spec_source_cache(ports@.subrange(0, i as int), our_client),
                destinations@ == spec_destination_cache(ports@.subrange(0, i as int), our_client),
            decreases ports@.len() - i,
        {
            let r = &ports[i];
            proof {
                assert(ports@.subrange(0, i + 1).drop_last() =~= ports@.subrange(0, i as int));
                assert(ports@.subrange(0, i + 1).last() == ports@[i as int]);
            }
            if r.client != 0 && r.client != our_client {
                let key = AlsaPortKey(r.client, r.port);
                let id = key_to_id(key);
                proof {
                    PortId::lemma_from_bits_spec(spec_key_bits(record_key(*r)));
                    PortId::lemma_view_determines(id, PortId::from_bits_spec(spec_key_bits(record_key(*r))));
                }
                if r.readable {
                    let s = Source { id, name: r.name.clone(), is_virtual: r.client >= SNDRV_SEQ_DYNAMIC_CLIENTS_BEGIN };
                    assert(s == record_source(*r));
                    sources.insert(id.to_bits(), s);
                }
                if r.writable {
                    let d = Destination { id, name: r.name.clone(), is_virtual: r.client >= SNDRV_SEQ_DYNAMIC_CLIENTS_BEGIN };
                    assert(d == record_destination(*r));
                    destinations.insert(id.to_bits(), d);
                }
            }
            i = i + 1;
        }
        proof {
            assert(ports@.subrange(0, ports@.len() as int) =~= ports@);
        }
        self.source_cache = sources;
        self.destination_cache = destinations;
    }
}

/// The streams an inbound event is delivered to.
#[derive(Debug, Clone, Copy, PartialEq, Eq, Structural)]
pub enum DeliveryTarget {
    /// The streams of one of this client's virtual destinations.
    VirtualDestination(AlsaPortKey),
    /// The streams of this client's connection to a source.
    Connection(AlsaPortKey),
}

/// An event for the streams of one target.
#[derive(Debug, Clone, PartialEq, Eq)]
pub struct Delivery {
    pub target: DeliveryTarget,
    pub event: DecodedEvent,
}

/// The model of a [`Delivery`].
pub struct DeliveryView {
    pub target: DeliveryTarget,
    pub event: EventView,
}

impl View for Delivery {
    type V = DeliveryView;

    open spec fn view(&self) -> DeliveryView {
        DeliveryView { target: self.target, event: self.event@ }
    }
}

/// The models of a sequence of deliveries.
pub open spec fn deliveries_view(v: Seq<Delivery>) -> Seq<DeliveryView> {
    v.map_values(|d: Delivery| d@)
}

/// The event for a message conversion result.
pub open spec fn message_event(r: Result<crate::message::MidiMessage, CodecErrorView>) -> EventView {
    match r {
        Ok(m) => EventView::Message(m),
        Err(e) => EventView::Error(ErrorView::Codec(e)),
    }
}

/// The events for a conversion result of several messages.
pub open spec fn messages_events(r: Result<Seq<crate::message::MidiMessage>, CodecErrorView>) -> Seq<EventView> {
    match r {
        Ok(ms) => ms.map_values(|m: crate::message::MidiMessage| EventView::Message(m)),
        Err(e) => seq![EventView::Error(ErrorView::Codec(e))],
    }
}

/// The events an inbound sequencer event other than a sysex stands for;
/// `None` for events that carry no MIDI.
pub open spec fn spec_event_messages(ev: SeqEvent) -> Option<Seq<EventView>> {
    match ev {
        SeqEvent::Control14(c) => Some(messages_events(spec_control14_to_cc_pair(c))),
        SeqEvent::Nonregparam(c) => Some(messages_events(spec_param_cc_messages(c, seq![99u8, 98u8]))),
        SeqEvent::Regparam(c) => Some(messages_events(spec_param_cc_messages(c, seq![101u8, 100u8]))),
        _ => match spec_message_from_event(ev) {
            Some(r) => Some(seq![message_event(r)]),
            None => None,
        },
    }
}

/// Each event goes first to the virtual destination, if there is one, then
/// to the connection, if there is one.
pub open spec fn fan_out(events: Seq<EventView>, vd: Option<AlsaPortKey>, conn: Option<AlsaPortKey>) -> Seq<DeliveryView>
    decreases events.len(),
{
    if events.len() == 0 {
        Seq::empty()
    } else {
        let e = events.last();
        fan_out(events.drop_last(), vd, conn) + (match vd {
            Some(k) => seq![DeliveryView { target: DeliveryTarget::VirtualDestination(k), event: e }],
            None => Seq::empty(),
        }) + (match conn {
            Some(k) => seq![DeliveryView { target: DeliveryTarget::Connection(k), event: e }],
            None => Seq::empty(),
        })
    }
}

/// Every event goes to `target`.
pub open spec fn to_target(events: Seq<EventView>, target: DeliveryTarget) -> Seq<DeliveryView> {
    events.map_values(|e: EventView| DeliveryView { target, event: e })
}

impl RegistryView {
    /// The virtual destination an event addressed to `dest` reaches.
    pub open spec fn vd_target(self, dest: Addr, our_client: i32) -> Option<AlsaPortKey> {
        let key = AlsaPortKey(dest.client, dest.port);
        if dest.client == our_client && self.virtual_destinations.contains_key(spec_key_bits(key)) {
            Some(key)
        } else {
            None
        }
    }

    /// The connection an event sent by `src` reaches.
    pub open spec fn conn_target(self, src: Addr) -> Option<AlsaPortKey> {
        let key = AlsaPortKey(src.client, src.port);
        if self.connections.contains_key(spec_key_bits(key)) {
            Some(key)
        } else {
            None
        }
    }

    /// Routing an inbound event: the next state and the deliveries, in order.
    pub open spec fn route(self, ev: SeqEvent, src: Addr, dest: Addr, our_client: i32) -> (RegistryView, Seq<DeliveryView>) {
        let vd = self.vd_target(dest, our_client);
        let conn = self.conn_target(src);
        match ev {
            SeqEvent::Sysex(data) => {
                let (vd_state, vd_out) = match vd {
                    Some(k) => {
                        let (p, e) = run(self.virtual_destinations[spec_key_bits(k)], data@);
                        (self.virtual_destinations.insert(spec_key_bits(k), p), to_target(e, DeliveryTarget::VirtualDestination(k)))
                    },
                    None => (self.virtual_destinations, Seq::empty()),
                };
                let (conn_state, conn_out) = match conn {
                    Some(k) => {
                        let (p, e) = run(self.connections[spec_key_bits(k)], data@);
                        (self.connections.insert(spec_key_bits(k), p), to_target(e, DeliveryTarget::Connection(k)))
                    },
                    None => (self.connections, Seq::empty()),
                };
                (RegistryView { virtual_destinations: vd_state, connections: conn_state, ..self }, vd_out + conn_out)
            },
            _ => match spec_event_messages(ev) {
                Some(events) => (self, fan_out(events, vd, conn)),
                None => (self, Seq::empty()),
            },
        }
    }
}

/// The control change on `channel` setting `controller` to `value`, as an
/// event.
pub open spec fn cc_event(channel: u8, controller: u8, value: u8) -> EventView {
    EventView::Message(
        crate::message::MidiMessage::ControlChange {
            channel: crate::channel::Channel::spec_from_index(channel),
            controller: crate::data_byte::DataByte::from_value(controller),
            value: crate::data_byte::DataByte::from_value(value),
        },
    )
}

/// The four control changes that set the parameter `c.param` to `c.value`
/// on `c.channel`, selecting the parameter on the controllers `msb_ctrl` and
/// `lsb_ctrl`.
pub open spec fn parameter_ccs(c: crate::alsa_event::EvCtrl, msb_ctrl: u8, lsb_ctrl: u8) -> Seq<EventView> {
    seq![
        cc_event(c.channel, msb_ctrl, (c.param / 128) as u8),
        cc_event(c.channel, lsb_ctrl, (c.param % 128) as u8),
        cc_event(c.channel, 6, (c.value / 128) as u8),
        cc_event(c.channel, 38, (c.value % 128) as u8),
    ]
}

/// A registered-parameter (RPN) event with a valid channel, parameter and
/// value stands for four control changes on its channel: the parameter
/// number's high and low seven bits on controllers 101 and 100, then the
/// value's on the data-entry controllers 6 and 38. A non-registered (NRPN)
/// event selects its parameter on controllers 99 and 98 instead.
pub proof fn lemma_parameter_events(c: crate::alsa_event::EvCtrl)
    requires
        c.channel < 16,
        c.param <= 0x3FFF,
        0 <= c.value <= 0x3FFF,
    ensures
        spec_event_messages(SeqEvent::Regparam(c)) == Some(parameter_ccs(c, 101, 100)),
        spec_event_messages(SeqEvent::Nonregparam(c)) == Some(parameter_ccs(c, 99, 98)),
{
    assert(spec_event_messages(SeqEvent::Regparam(c)).unwrap() =~= parameter_ccs(c, 101, 100));
    assert(spec_event_messages(SeqEvent::Nonregparam(c)).unwrap() =~= parameter_ccs(c, 99, 98));
}

/// With no virtual destination to reach, every event goes to the connection,
/// in order.
proof fn lemma_fan_out_to_connection(events: Seq<EventView>, k: AlsaPortKey)
    ensures
        fan_out(events, None, Some(k)) == to_target(events, DeliveryTarget::Connection(k)),
    decreases events.len(),
{
    if events.len() > 0 {
        lemma_fan_out_to_connection(events.drop_last(), k);
        assert(to_target(events, DeliveryTarget::Connection(k)) =~= to_target(
            events.drop_last(),
            DeliveryTarget::Connection(k),
        ) + seq![DeliveryView { target: DeliveryTarget::Connection(k), event: events.last() }]);
    } else {
        assert(to_target(events, DeliveryTarget::Connection(k)) =~= Seq::<DeliveryView>::empty());
    }
}

/// An RPN event from a connected source, addressed to no virtual destination
/// of this client, reaches that connection as its four control changes in
/// order, the parameter selected on controllers 101 and 100; an NRPN event
/// likewise, on 99 and 98. Routing it changes no state.
pub proof fn lemma_route_parameter_events(
    v: RegistryView,
    c: crate::alsa_event::EvCtrl,
    src: Addr,
    dest: Addr,
    our_client: i32,
)
    requires
        c.channel < 16,
        c.param <= 0x3FFF,
        0 <= c.value <= 0x3FFF,
        v.connections.contains_key(spec_key_bits(AlsaPortKey(src.client, src.port))),
        v.vd_target(dest, our_client) is None,
    ensures
        v.route(SeqEvent::Regparam(c), src, dest, our_client) == (v, to_target(
            parameter_ccs(c, 101, 100),
            DeliveryTarget::Connection(AlsaPortKey(src.client, src.port)),
        )),
        v.route(SeqEvent::Nonregparam(c), src, dest, our_client) == (v, to_target(
            parameter_ccs(c, 99, 98),
            DeliveryTarget::Connection(AlsaPortKey(src.client, src.port)),
        )),
{
    lemma_parameter_events(c);
    let k = AlsaPortKey(src.client, src.port);
    lemma_fan_out_to_connection(parameter_ccs(c, 101, 100), k);
    lemma_fan_out_to_connection(parameter_ccs(c, 99, 98), k);
}

/// Appends `d`.
fn push_delivery(out: &mut Vec<Delivery>, d: Delivery)
    ensures
        deliveries_view(final(out)@) == deliveries_view(old(out)@).push(d@),
{
    out.push(d);
    assert(deliveries_view(out@) =~= deliveries_view(old(out)@).push(d@));
}

impl PortRegistry {
    /// Whether this client may connect to the source at `key`, given what the
    /// sequencer says of the port.
    pub fn check_connect_source(&self, key: AlsaPortKey, info: &Option<PortInfo>) -> (r: Result<(), Error>)
        ensures
            r == self@.connect_source_answer(key, *info),
    {
        let k = key_to_id(key).to_bits();
        if self.connections.contains_key(k) {
            return Err(Error::Io(IoError::AlreadyConnected));
        }
        match info {
            Some(pi) => if pi.readable {
                Ok(())
            } else {
                Err(Error::Io(IoError::PortNotFound))
            },
            None => Err(Error::Io(IoError::PortNotFound)),
        }
    }

    /// Records a connection to the source at `key`, with a fresh parser.
    pub fn add_connection(&mut self, key: AlsaPortKey)
        ensures
            final(self)@ == old(self)@.with_connection(key),
    {
        let k = key_to_id(key).to_bits();
        self.connections.insert(k, StreamParser::new());
        proof {
            assert(self@.connections =~= old(self)@.connections.insert(k, ParserState::initial()));
        }
    }

    /// Forgets the connection to the source at `key`; tells whether there was one.
    pub fn remove_connection(&mut self, key: AlsaPortKey) -> (r: bool)
        ensures
            final(self)@ == old(self)@.without_connection(key),
            r == old(self)@.connections.contains_key(spec_key_bits(key)),
    {
        let k = key_to_id(key).to_bits();
        let r = self.connections.remove(k);
        proof {
            assert(self@.connections =~= old(self)@.connections.remove(k));
        }
        r.is_some()
    }

    /// Connects to the destination at `key`, given what the sequencer says of the port.
    pub fn connect_destination(&mut self, key: AlsaPortKey, info: &Option<PortInfo>) -> (r: Result<(), Error>)
        ensures
            (final(self)@, r) == old(self)@.connect_destination_outcome(key, *info),
    {
        let k = key_to_id(key).to_bits();
        if self.destination_connections.contains_key(k) {
            return Err(Error::Io(IoError::AlreadyConnected));
        }
        let writable = match info {
            Some(pi) => pi.writable,
            None => false,
        };
        if !writable {
            return Err(Error::Io(IoError::PortNotFound));
        }
        self.destination_connections.insert(k, false);
        Ok(())
    }

    /// Whether a message may be sent to the destination at `key`: it must be
    /// connected, and its port must still exist.
    pub fn resolve_output_state(&self, key: AlsaPortKey) -> (r: Result<(), Error>)
        ensures
            r == (if !self@.destination_connections.contains_key(spec_key_bits(key)) {
                Err(Error::Io(IoError::PortNotFound))
            } else if self@.destination_connections[spec_key_bits(key)] {
                Err(Error::Io(IoError::PortDisconnected))
            } else {
                Ok(())
            }),
    {
        let k = key_to_id(key).to_bits();
        match self.destination_connections.get(k) {
            None => Err(Error::Io(IoError::PortNotFound)),
            Some(disconnected) => if *disconnected {
                Err(Error::Io(IoError::PortDisconnected))
            } else {
                Ok(())
            },
        }
    }

    /// Forgets the connection to the destination at `key`.
    pub fn remove_destination_connection(&mut self, key: AlsaPortKey)
        ensures
            final(self)@ == old(self)@.forget_destination(key),
    {
        let k = key_to_id(key).to_bits();
        self.destination_connections.remove(k);
    }

    /// Records this client's new virtual source port `alsa_port` under `id`.
    pub fn add_virtual_source(&mut self, id: VirtualPortId, our_client: i32, alsa_port: i32, name: &str) -> (r: (PortId, PortNotice))
        ensures
            r.0@ == spec_key_bits(AlsaPortKey(our_client, alsa_port)),
            r.1 matches PortNotice::Source(SourceChange::Added(s)) && s.id == r.0 && s.name@ == name@
                && s.is_virtual == (our_client >= SNDRV_SEQ_DYNAMIC_CLIENTS_BEGIN),
            final(self)@.sources == old(self)@.sources.insert(r.0@, r.1->Source_0->Added_0),
            final(self)@.virtual_source_ports == old(self)@.virtual_source_ports.insert(id@, alsa_port),
            final(self)@ == (RegistryView {
                sources: final(self)@.sources,
                virtual_source_ports: final(self)@.virtual_source_ports,
                ..old(self)@
            }),
    {
        let key = AlsaPortKey(our_client, alsa_port);
        let source = Source::from_alsa(key, name);
        let port = source.id;
        let notice = self.add_source(key, source);
        self.vsrc_send.insert(id.get(), alsa_port);
        (port, notice)
    }

    /// Forgets this client's virtual source `id`; returns its sequencer port,
    /// for deletion, and the notices of its removal.
    pub fn remove_virtual_source(&mut self, id: VirtualPortId, our_client: i32) -> (r: Option<(i32, Vec<PortNotice>)>)
        ensures
            !old(self)@.virtual_source_ports.contains_key(id@) ==> r is None && final(self)@ == old(self)@,
            old(self)@.virtual_source_ports.contains_key(id@) ==> ({
                let port = old(self)@.virtual_source_ports[id@];
                let key = AlsaPortKey(our_client, port);
                &&& r matches Some((p, notices)) && p == port && notices@ == old(self)@.remove_source_notices(key)
                &&& final(self)@ == (RegistryView {
                    virtual_source_ports: old(self)@.virtual_source_ports.remove(id@),
                    ..old(self)@.without_source(key)
                })
            }),
    {
        match self.vsrc_send.remove(id.get()) {
            Some(alsa_port) => {
                let notices = self.remove_source(AlsaPortKey(our_client, alsa_port));
                Some((alsa_port, notices))
            },
            None => {
                proof {
                    assert(self@.virtual_source_ports =~= old(self)@.virtual_source_ports);
                }
                None
            },
        }
    }

    /// The sequencer port of this client's virtual source `id`.
    pub fn virtual_source_port(&self, id: VirtualPortId) -> (r: Result<i32, Error>)
        ensures
            r == (if self@.virtual_source_ports.contains_key(id@) {
                Ok(self@.virtual_source_ports[id@])
            } else {
                Err(Error::Io(IoError::PortNotFound))
            }),
    {
        match self.vsrc_send.get(id.get()) {
            Some(p) => Ok(*p),
            None => Err(Error::Io(IoError::PortNotFound)),
        }
    }

    /// Records this client's new virtual destination port `alsa_port` under
    /// `id`, with a fresh parser for what it receives.
    pub fn add_virtual_destination(&mut self, id: VirtualPortId, our_client: i32, alsa_port: i32, name: &str) -> (r: (
        PortId,
        PortNotice,
    ))
        ensures
            r.0@ == spec_key_bits(AlsaPortKey(our_client, alsa_port)),
            r.1 matches PortNotice::Destination(DestinationChange::Added(d)) && d.id == r.0 && d.name@ == name@
                && d.is_virtual == (our_client >= SNDRV_SEQ_DYNAMIC_CLIENTS_BEGIN),
            final(self)@.destinations == old(self)@.destinations.insert(r.0@, r.1->Destination_0->Added_0),
            final(self)@.virtual_destinations == old(self)@.virtual_destinations.insert(r.0@, ParserState::initial()),
            final(self)@.virtual_destination_ports == old(self)@.virtual_destination_ports.insert(id@, alsa_port),
            final(self)@ == (RegistryView {
                destinations: final(self)@.destinations,
                virtual_destinations: final(self)@.virtual_destinations,
                virtual_destination_ports: final(self)@.virtual_destination_ports,
                ..old(self)@
            }),
    {
        let key = AlsaPortKey(our_client, alsa_port);
        let destination = Destination::from_alsa(key, name);
        let port = destination.id;
        let notice = self.add_destination(key, destination);
        self.vdest_recv.insert(port.to_bits(), StreamParser::new());
        self.vdest_ports.insert(id.get(), alsa_port);
        proof {
            assert(self@.virtual_destinations =~= old(self)@.virtual_destinations.insert(port@, ParserState::initial()));
        }
        (port, notice)
    }

    /// Forgets this client's virtual destination `id`; returns its sequencer
    /// port, for deletion, and the notices of its removal.
    pub fn remove_virtual_destination(&mut self, id: VirtualPortId, our_client: i32) -> (r: Option<(i32, Vec<PortNotice>)>)
        ensures
            !old(self)@.virtual_destination_ports.contains_key(id@) ==> r is None && final(self)@ == old(self)@,
            old(self)@.virtual_destination_ports.contains_key(id@) ==> ({
                let port = old(self)@.virtual_destination_ports[id@];
                let key = AlsaPortKey(our_client, port);
                let k = spec_key_bits(key);
                let closed = if old(self)@.virtual_destinations.contains_key(k) {
                    seq![PortNotice::VirtualDestinationClosed(key)]
                } else {
                    Seq::empty()
                };
                &&& r matches Some((p, notices)) && p == port && notices@ == closed + old(self)@.remove_destination_notices(key)
                &&& final(self)@ == (RegistryView {
                    virtual_destination_ports: old(self)@.virtual_destination_ports.remove(id@),
                    virtual_destinations: old(self)@.virtual_destinations.remove(k),
                    ..old(self)@
                }.without_destination(key))
            }),
    {
        match self.vdest_ports.remove(id.get()) {
            Some(alsa_port) => {
                let key = AlsaPortKey(our_client, alsa_port);
                let k = key_to_id(key).to_bits();
                let mut notices: Vec<PortNotice> = Vec::new();
                if self.vdest_recv.remove(k).is_some() {
                    notices.push(PortNotice::VirtualDestinationClosed(key));
                }
                let ghost mid = self@;
                let more = self.remove_destination(key);
                append_notices(&mut notices, more);
                proof {
                    assert(mid.virtual_destinations =~= old(self)@.virtual_destinations.remove(k));
                }
                Some((alsa_port, notices))
            },
            None => {
                proof {
                    assert(self@.virtual_destination_ports =~= old(self)@.virtual_destination_ports);
                }
                None
            },
        }
    }

    /// The known sources.
    pub fn sources(&self) -> (r: Vec<Source>)
        ensures
            r@.len() == self@.sources.dom().len(),
            forall|i: int| 0 <= i < r@.len() ==> self@.sources.values().contains(#[trigger] r@[i]),
            forall|s: Source| #[trigger] self@.sources.values().contains(s) ==> r@.contains(s),
    {
        let keys = self.source_cache.keys();
        let mut r: Vec<Source> = Vec::new();
        let mut i: usize = 0;
        while i < keys.len()
            invariant
                i <= keys@.len(),
                keys@.no_duplicates(),
                forall|k: u64| #[trigger] keys@.contains(k) <==> self@.sources.contains_key(k),
                keys@.len() == self@.sources.dom().len(),
                r@.len() == i,
                forall|j: int| 0 <= j < i ==> #[trigger] r@[j] == self@.sources[keys@[j]],
            decreases keys@.len() - i,
        {
            let k = keys[i];
            assert(keys@.contains(k));
            match self.source_cache.get(k) {
                Some(s) => r.push(s.clone()),
                None => {},
            }
            i = i + 1;
        }
        proof {
            assert forall|i: int| 0 <= i < r@.len() implies self@.sources.values().contains(#[trigger] r@[i]) by {
                assert(keys@.contains(keys@[i]));
                assert(self@.sources.contains_key(keys@[i]));
            }
            assert forall|s: Source| #[trigger] self@.sources.values().contains(s) implies r@.contains(s) by {
                let k = choose|k: u64| self@.sources.contains_key(k) && self@.sources[k] == s;
                assert(keys@.contains(k));
                let j = choose|j: int| 0 <= j < keys@.len() && keys@[j] == k;
                assert(r@[j] == s);
            }
        }
        r
    }

    /// The known destinations.
    pub fn destinations(&self) -> (r: Vec<Destination>)
        ensures
            r@.len() == self@.destinations.dom().len(),
            forall|i: int| 0 <= i < r@.len() ==> self@.destinations.values().contains(#[trigger] r@[i]),
            forall|d: Destination| #[trigger] self@.destinations.values().contains(d) ==> r@.contains(d),
    {
        let keys = self.destination_cache.keys();
        let mut r: Vec<Destination> = Vec::new();
        let mut i: usize = 0;
        while i < keys.len()
            invariant
                i <= keys@.len(),
                keys@.no_duplicates(),
                forall|k: u64| #[trigger] keys@.contains(k) <==> self@.destinations.contains_key(k),
                keys@.len() == self@.destinations.dom().len(),
                r@.len() == i,
                forall|j: int| 0 <= j < i ==> #[trigger] r@[j] == self@.destinations[keys@[j]],
            decreases keys@.len() - i,
        {
            let k = keys[i];
            assert(keys@.contains(k));
            match self.destination_cache.get(k) {
                Some(d) => r.push(d.clone()),
                None => {},
            }
            i = i + 1;
        }
        proof {
            assert forall|i: int| 0 <= i < r@.len() implies self@.destinations.values().contains(#[trigger] r@[i]) by {
                assert(keys@.contains(keys@[i]));
                assert(self@.destinations.contains_key(keys@[i]));
            }
            assert forall|d: Destination| #[trigger] self@.destinations.values().contains(d) implies r@.contains(d) by {
                let k = choose|k: u64| self@.destinations.contains_key(k) && self@.destinations[k] == d;
                assert(keys@.contains(k));
                let j = choose|j: int| 0 <= j < keys@.len() && keys@[j] == k;
                assert(r@[j] == d);
            }
        }
        r
    }
}

impl PortRegistry {
    /// Delivers each event to the virtual destination, if any, then to the
    /// connection, if any.
    fn fan_out_exec(events: Vec<DecodedEvent>, vd: Option<AlsaPortKey>, conn: Option<AlsaPortKey>, out: &mut Vec<Delivery>)
        ensures
            deliveries_view(final(out)@) == deliveries_view(old(out)@) + fan_out(events_view(events@), vd, conn),
    {
        let mut i: usize = 0;
        let ghost out0 = out@;
        proof {
            assert(events_view(events@.subrange(0, 0)) =~= Seq::<EventView>::empty());
            assert(deliveries_view(out@) =~= deliveries_view(out0) + Seq::<DeliveryView>::empty());
        }
        while i < events.len()
            invariant
                i <= events@.len(),
                deliveries_view(out@) == deliveries_view(out0) + fan_out(events_view(events@.subrange(0, i as int)), vd, conn),
            decreases events@.len() - i,
        {
            let e = events[i].clone_event();
            let ghost before = out@;
            match vd {
                Some(k) => push_delivery(out, Delivery { target: DeliveryTarget::VirtualDestination(k), event: e.clone_event() }),
                None => {},
            }
            match conn {
                Some(k) => push_delivery(out, Delivery { target: DeliveryTarget::Connection(k), event: e }),
                None => {},
            }
            proof {
                let pre = events_view(events@.subrange(0, i as int));
                let post = events_view(events@.subrange(0, i + 1));
                assert(post.drop_last() =~= pre);
                assert(post.last() == events@[i as int]@);
                assert(deliveries_view(out@) =~= deliveries_view(out0) + fan_out(post, vd, conn));
            }
            i = i + 1;
        }
        assert(events@.subrange(0, i as int) =~= events@);
    }

    /// Delivers every event to `target`.
    fn to_target_exec(events: Vec<DecodedEvent>, target: DeliveryTarget, out: &mut Vec<Delivery>)
        ensures
            deliveries_view(final(out)@) == deliveries_view(old(out)@) + to_target(events_view(events@), target),
    {
        let mut i: usize = 0;
        let ghost out0 = out@;
        let mut events = events;
        let ghost evs = events@;
        proof {
            assert(deliveries_view(out@) =~= deliveries_view(out0) + to_target(events_view(evs.subrange(0, 0)), target));
        }
        while i < events.len()
            invariant
                events@ == evs,
                i <= evs.len(),
                deliveries_view(out@) == deliveries_view(out0) + to_target(events_view(evs.subrange(0, i as int)), target),
            decreases evs.len() - i,
        {
            let e = events[i].clone_event();
            push_delivery(out, Delivery { target, event: e });
            proof {
                assert(to_target(events_view(evs.subrange(0, i + 1)), target) =~= to_target(
                    events_view(evs.subrange(0, i as int)),
                    target,
                ).push(DeliveryView { target, event: evs[i as int]@ }));
            }
            i = i + 1;
        }
        assert(evs.subrange(0, i as int) =~= evs);
    }

    /// Routes an inbound sequencer event to the streams it is meant for: an
    /// event addressed to one of this client's virtual destinations goes to
    /// that destination's streams, and an event from a connected source to
    /// that connection's streams. MIDI events become messages (14-bit
    /// controllers and (N)RPNs several control changes); sysex data goes
    /// through the target's stream parser.
    pub fn route(&mut self, ev: &SeqEvent, src: Addr, dest: Addr, our_client: i32) -> (r: Vec<Delivery>)
        ensures
            final(self)@ == old(self)@.route(*ev, src, dest, our_client).0,
            deliveries_view(r@) == old(self)@.route(*ev, src, dest, our_client).1,
    {
        let vd_key = AlsaPortKey(dest.client, dest.port);
        let vd = if dest.client == our_client && self.vdest_recv.contains_key(key_to_id(vd_key).to_bits()) {
            Some(vd_key)
        } else {
            None
        };
        let conn_key = AlsaPortKey(src.client, src.port);
        let conn = if self.connections.contains_key(key_to_id(conn_key).to_bits()) {
            Some(conn_key)
        } else {
            None
        };
        let mut out: Vec<Delivery> = Vec::new();
        match ev {
            SeqEvent::Sysex(data) => {
                let ghost v0 = self@;
                match vd {
                    Some(k) => {
                        let bits = key_to_id(k).to_bits();
                        let mut parser = self.vdest_recv.remove(bits).unwrap();
                        let events = parser.push(data.as_slice());
                        self.vdest_recv.insert(bits, parser);
                        Self::to_target_exec(events, DeliveryTarget::VirtualDestination(k), &mut out);
                        proof {
                            assert(self@.virtual_destinations =~= v0.virtual_destinations.insert(
                                bits,
                                run(v0.virtual_destinations[bits], data@).0,
                            ));
                        }
                    },
                    None => {},
                }
                let ghost v1 = self@;
                match conn {
                    Some(k) => {
                        let bits = key_to_id(k).to_bits();
                        let mut parser = self.connections.remove(bits).unwrap();
                        let events = parser.push(data.as_slice());
                        self.connections.insert(bits, parser);
                        Self::to_target_exec(events, DeliveryTarget::Connection(k), &mut out);
                        proof {
                            assert(self@.connections =~= v1.connections.insert(bits, run(v1.connections[bits], data@).0));
                        }
                    },
                    None => {},
                }
                proof {
                    assert(deliveries_view(out@) =~= old(self)@.route(*ev, src, dest, our_client).1);
                    assert(self@.virtual_destinations =~= old(self)@.route(*ev, src, dest, our_client).0.virtual_destinations);
                    assert(self@.connections =~= old(self)@.route(*ev, src, dest, our_client).0.connections);
                }
            },
            SeqEvent::Control14(c) => {
                let events = match control14_to_cc_pair(c) {
                    Ok(msgs) => {
                        let mut v: Vec<DecodedEvent> = Vec::new();
                        v.push(DecodedEvent::Message(msgs[0]));
                        v.push(DecodedEvent::Message(msgs[1]));
                        v
                    },
                    Err(e) => {
                        let mut v: Vec<DecodedEvent> = Vec::new();
                        v.push(DecodedEvent::Error(Error::Codec(e)));
                        v
                    },
                };
                proof {
                    assert(events_view(events@) =~= spec_event_messages(*ev).unwrap());
                }
                Self::fan_out_exec(events, vd, conn, &mut out);
                proof {
                    assert(deliveries_view(out@) =~= old(self)@.route(*ev, src, dest, our_client).1);
                }
            },
            SeqEvent::Nonregparam(c) | SeqEvent::Regparam(c) => {
                let controllers: [u8; 2] = match ev {
                    SeqEvent::Nonregparam(_) => [99, 98],
                    _ => [101, 100],
                };
                proof {
                    assert(controllers@ =~= (if ev is Nonregparam { seq![99u8, 98u8] } else { seq![101u8, 100u8] }));
                }
                let events = match param_cc_messages(c, controllers) {
                    Ok(msgs) => {
                        let mut v: Vec<DecodedEvent> = Vec::new();
                        v.push(DecodedEvent::Message(msgs[0]));
                        v.push(DecodedEvent::Message(msgs[1]));
                        v.push(DecodedEvent::Message(msgs[2]));
                        v.push(DecodedEvent::Message(msgs[3]));
                        v
                    },
                    Err(e) => {
                        let mut v: Vec<DecodedEvent> = Vec::new();
                        v.push(DecodedEvent::Error(Error::Codec(e)));
                        v
                    },
                };
                proof {
                    assert(events_view(events@) =~= spec_event_messages(*ev).unwrap());
                }
                Self::fan_out_exec(events, vd, conn, &mut out);
                proof {
                    assert(deliveries_view(out@) =~= old(self)@.route(*ev, src, dest, our_client).1);
                }
            },
            _ => {
                match message_from_event(ev) {
                    Some(res) => {
                        let e = match res {
                            Ok(m) => DecodedEvent::Message(m),
                            Err(e) => DecodedEvent::Error(Error::Codec(e)),
                        };
                        let mut events: Vec<DecodedEvent> = Vec::new();
                        events.push(e);
                        proof {
                            assert(events_view(events@) =~= spec_event_messages(*ev).unwrap());
                        }
                        Self::fan_out_exec(events, vd, conn, &mut out);
                        proof {
                            assert(deliveries_view(out@) =~= old(self)@.route(*ev, src, dest, our_client).1);
                        }
                    },
                    None => {
                        proof {
                            assert(deliveries_view(out@) =~= Seq::<DeliveryView>::empty());
                        }
                    },
                }
            },
        }
        out
    }
}

impl RegistryView {
    /// Whether the streams of `target` exist in this state.
    pub open spec fn serves(self, target: DeliveryTarget) -> bool {
        match target {
            DeliveryTarget::Connection(k) => self.connections.contains_key(spec_key_bits(k)),
            DeliveryTarget::VirtualDestination(k) => self.virtual_destinations.contains_key(spec_key_bits(k)),
        }
    }
}

/// The targets for a list of connection handles and a list of virtual
/// destination handles, in that order.
pub open spec fn targets_of(conns: Seq<u64>, vds: Seq<u64>) -> Seq<DeliveryTarget> {
    conns.map_values(|b: u64| DeliveryTarget::Connection(spec_bits_key(b)))
        + vds.map_values(|b: u64| DeliveryTarget::VirtualDestination(spec_bits_key(b)))
}

proof fn lemma_targets_of(v: RegistryView, conns: Seq<u64>, vds: Seq<u64>)
    requires
        conns.no_duplicates(),
        vds.no_duplicates(),
        forall|k: u64| #[trigger] conns.contains(k) <==> v.connections.contains_key(k),
        forall|k: u64| #[trigger] vds.contains(k) <==> v.virtual_destinations.contains_key(k),
    ensures
        targets_of(conns, vds).no_duplicates(),
        forall|t: DeliveryTarget| #[trigger] targets_of(conns, vds).contains(t) <==> v.serves(t),
{
    let r = targets_of(conns, vds);
    let n = conns.len();
    assert forall|a: int, b: int| 0 <= a < r.len() && 0 <= b < r.len() && a != b implies r[a] != r[b] by {
        if a < n && b < n {
            lemma_bits_roundtrip(conns[a]);
            lemma_bits_roundtrip(conns[b]);
        } else if a >= n && b >= n {
            lemma_bits_roundtrip(vds[a - n]);
            lemma_bits_roundtrip(vds[b - n]);
        }
    }
    assert forall|t: DeliveryTarget| #[trigger] r.contains(t) <==> v.serves(t) by {
        match t {
            DeliveryTarget::Connection(k) => {
                lemma_key_roundtrip(k);
                if r.contains(t) {
                    let j = choose|j: int| 0 <= j < r.len() && r[j] == t;
                    assert(j < n);
                    lemma_bits_roundtrip(conns[j]);
                    assert(conns.contains(conns[j]));
                }
                if v.serves(t) {
                    let b = spec_key_bits(k);
                    assert(conns.contains(b));
                    let j = choose|j: int| 0 <= j < conns.len() && conns[j] == b;
                    assert(r[j] == t);
                }
            },
            DeliveryTarget::VirtualDestination(k) => {
                lemma_key_roundtrip(k);
                if r.contains(t) {
                    let j = choose|j: int| 0 <= j < r.len() && r[j] == t;
                    assert(j >= n);
                    lemma_bits_roundtrip(vds[j - n]);
                    assert(vds.contains(vds[j - n]));
                }
                if v.serves(t) {
                    let b = spec_key_bits(k);
                    assert(vds.contains(b));
                    let j = choose|j: int| 0 <= j < vds.len() && vds[j] == b;
                    assert(r[n + j] == t);
                }
            },
        }
    }
}

impl PortRegistry {
    /// The backend is stopping: every connection to a source and every
    /// virtual destination is dropped, and the streams of each are named so
    /// that each gets a backend-died error.
    pub fn close_all(&mut self) -> (r: Vec<DeliveryTarget>)
        ensures
            final(self)@ == (RegistryView {
                connections: Map::empty(),
                virtual_destinations: Map::empty(),
                ..old(self)@
            }),
            r@.no_duplicates(),
            forall|t: DeliveryTarget| #[trigger] r@.contains(t) <==> old(self)@.serves(t),
    {
        let ghost v0 = self@;
        let conns = self.connections.keys();
        let vds = self.vdest_recv.keys();
        let mut r: Vec<DeliveryTarget> = Vec::new();
        let mut i: usize = 0;
        while i < conns.len()
            invariant
                i <= conns@.len(),
                r@ == conns@.subrange(0, i as int).map_values(|b: u64| DeliveryTarget::Connection(spec_bits_key(b))),
            decreases conns@.len() - i,
        {
            r.push(DeliveryTarget::Connection(port_to_key(&PortId::from_bits(conns[i]))));
            proof {
                assert(conns@.subrange(0, i + 1) =~= conns@.subrange(0, i as int).push(conns@[i as int]));
                assert(r@ =~= conns@.subrange(0, i + 1).map_values(|b: u64| DeliveryTarget::Connection(spec_bits_key(b))));
            }
            i = i + 1;
        }
        let mut j: usize = 0;
        while j < vds.len()
            invariant
                i == conns@.len(),
                j <= vds@.len(),
                r@ == conns@.map_values(|b: u64| DeliveryTarget::Connection(spec_bits_key(b)))
                    + vds@.subrange(0, j as int).map_values(|b: u64| DeliveryTarget::VirtualDestination(spec_bits_key(b))),
            decreases vds@.len() - j,
        {
            r.push(DeliveryTarget::VirtualDestination(port_to_key(&PortId::from_bits(vds[j]))));
            proof {
                assert(vds@.subrange(0, j + 1) =~= vds@.subrange(0, j as int).push(vds@[j as int]));
                assert(r@ =~= conns@.map_values(|b: u64| DeliveryTarget::Connection(spec_bits_key(b)))
                    + vds@.subrange(0, j + 1).map_values(|b: u64| DeliveryTarget::VirtualDestination(spec_bits_key(b))));
            }
            j = j + 1;
        }
        proof {
            assert(conns@.subrange(0, conns@.len() as int) =~= conns@);
            assert(vds@.subrange(0, vds@.len() as int) =~= vds@);
            assert(r@ =~= targets_of(conns@, vds@));
            lemma_targets_of(v0, conns@, vds@);
        }
        self.connections = Table::new();
        self.vdest_recv = Table::new();
        proof {
            assert(self@.connections =~= Map::<u64, ParserState>::empty());
            assert(self@.virtual_destinations =~= Map::<u64, ParserState>::empty());
        }
        r
    }
}

} // verus!
