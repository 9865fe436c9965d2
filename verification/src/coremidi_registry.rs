use vstd::prelude::*;

use crate::error::Error;
use crate::error::IoError;
use crate::error::PlatformError;
use crate::port::Destination;
use crate::port::PortId;
use crate::port::Source;
use crate::table::Table;

verus! {

/// The table key of a CoreMIDI unique id: its two's-complement bits.
pub open spec fn uid_key(uid: i32) -> u64 {
    uid as u32 as u64
}

/// Distinct unique ids have distinct keys.
pub proof fn lemma_uid_key_injective(a: i32, b: i32)
    requires
        uid_key(a) == uid_key(b),
    ensures
        a == b,
{
    assert(a as u32 as u64 == b as u32 as u64 ==> a == b) by (bit_vector);
}

/// A port handle names back the unique id it was made from.
pub proof fn lemma_uid_roundtrip(uid: i32)
    ensures
        (uid_key(uid) as u32) as i32 == uid,
{
    assert(((uid as u32 as u64) as u32) as i32 == uid) by (bit_vector);
}

/// The port handle of the endpoint with this unique id.
pub fn uid_to_id(uid: i32) -> (r: PortId)
    ensures
        r@ == uid_key(uid),
{
    PortId::from_bits(uid as u32 as u64)
}

/// The unique id of the endpoint a port handle names.
pub fn id_to_uid(id: &PortId) -> (r: i32)
    ensures
        r == (id@ as u32) as i32,
{
    id.to_bits() as u32 as i32
}

/// The first unique id of `cached`, in order, that `live` does not hold.
pub open spec fn spec_find_stale(cached: Seq<i32>, live: Seq<i32>) -> Option<i32>
    decreases cached.len(),
{
    if cached.len() == 0 {
        None
    } else if !live.contains(cached[0]) {
        Some(cached[0])
    } else {
        spec_find_stale(cached.drop_first(), live)
    }
}

/// Whether `live` holds `uid`.
fn holds_uid(live: &[i32], uid: i32) -> (r: bool)
    ensures
        r == live@.contains(uid),
{
    let mut i: usize = 0;
    while i < live.len()
        invariant
            i <= live@.len(),
            forall|j: int| 0 <= j < i ==> live@[j] != uid,
        decreases live@.len() - i,
    {
        if live[i] == uid {
            assert(live@[i as int] == uid);
            return true;
        }
        i = i + 1;
    }
    false
}

/// The first cached unique id that is no longer live: the endpoint that went
/// away when the system did not say which.
pub fn find_stale_uid(cached: &[i32], live: &[i32]) -> (r: Option<i32>)
    ensures
        r == spec_find_stale(cached@, live@),
{
    let mut i: usize = 0;
    assert(cached@.subrange(0, cached@.len() as int) =~= cached@);
    while i < cached.len()
        invariant
            i <= cached@.len(),
            spec_find_stale(cached@, live@) == spec_find_stale(cached@.subrange(i as int, cached@.len() as int), live@),
        decreases cached@.len() - i,
    {
        let ghost rest = cached@.subrange(i as int, cached@.len() as int);
        assert(rest[0] == cached@[i as int]);
        assert(rest.drop_first() =~= cached@.subrange(i + 1, cached@.len() as int));
        if !holds_uid(live, cached[i]) {
            return Some(cached[i]);
        }
        i = i + 1;
    }
    None
}

/// The handlers registered for a port, in registration order; none when the
/// port has no entry.
pub open spec fn handlers_of<F>(m: Map<i32, Seq<(u64, F)>>, uid: i32) -> Seq<(u64, F)> {
    if m.contains_key(uid) {
        m[uid]
    } else {
        Seq::empty()
    }
}

/// Whether a handler entry was registered by a client other than `client_id`.
pub open spec fn not_from<F>(client_id: u64) -> spec_fn((u64, F)) -> bool {
    |e: (u64, F)| e.0 != client_id
}

/// The handlers not registered by `client_id`.
pub open spec fn others<F>(s: Seq<(u64, F)>, client_id: u64) -> Seq<(u64, F)> {
    s.filter(not_from(client_id))
}

/// The table after dropping the handlers of `client_id` for `uid`; a port
/// left without handlers loses its entry.
pub open spec fn spec_remove_client<F>(m: Map<i32, Seq<(u64, F)>>, uid: i32, client_id: u64) -> Map<
    i32,
    Seq<(u64, F)>,
> {
    if m.contains_key(uid) {
        let kept = others(m[uid], client_id);
        if kept.len() == 0 {
            m.remove(uid)
        } else {
            m.insert(uid, kept)
        }
    } else {
        m
    }
}

/// Per port, the handlers that clients registered to run when the port goes
/// away, each with the id of the client that registered it.
pub struct ClientHandlers<F> {
    table: Table<Vec<(u64, F)>>,
}

impl<F> View for ClientHandlers<F> {
    type V = Map<i32, Seq<(u64, F)>>;

    closed spec fn view(&self) -> Map<i32, Seq<(u64, F)>> {
        Map::new(|uid: i32| self.table@.contains_key(uid_key(uid)), |uid: i32| self.table@[uid_key(uid)]@)
    }
}

impl<F> ClientHandlers<F> {
    pub fn new() -> (r: ClientHandlers<F>)
        ensures
            r@ == Map::<i32, Seq<(u64, F)>>::empty(),
    {
        let r = ClientHandlers { table: Table::new() };
        assert(r@ =~= Map::<i32, Seq<(u64, F)>>::empty());
        r
    }

    pub fn contains_key(&self, uid: i32) -> (r: bool)
        ensures
            r == self@.contains_key(uid),
    {
        self.table.contains_key(uid_to_id(uid).to_bits())
    }

    /// Registers `handler` of `client_id` for the port `uid`, after those
    /// already registered.
    pub fn add(&mut self, uid: i32, client_id: u64, handler: F)
        ensures
            final(self)@ == old(self)@.insert(uid, handlers_of(old(self)@, uid).push((client_id, handler))),
    {
        let k = uid_to_id(uid).to_bits();
        let mut list = match self.table.remove(k) {
            Some(v) => v,
            None => Vec::new(),
        };
        list.push((client_id, handler));
        self.table.insert(k, list);
        proof {
            assert forall|u: i32| #[trigger] final(self)@.contains_key(u) == old(self)@.insert(
                uid,
                handlers_of(old(self)@, uid).push((client_id, handler)),
            ).contains_key(u) by {
                if uid_key(u) == uid_key(uid) {
                    lemma_uid_key_injective(u, uid);
                }
            }
            assert forall|u: i32| #[trigger] final(self)@.contains_key(u) implies final(self)@[u] == old(self)@.insert(
                uid,
                handlers_of(old(self)@, uid).push((client_id, handler)),
            )[u] by {
                if uid_key(u) == uid_key(uid) {
                    lemma_uid_key_injective(u, uid);
                }
            }
            assert(final(self)@ =~= old(self)@.insert(uid, handlers_of(old(self)@, uid).push((client_id, handler))));
        }
    }

    /// Sets the handlers of the port `uid`.
    fn put(&mut self, uid: i32, list: Vec<(u64, F)>)
        ensures
            final(self)@ == old(self)@.insert(uid, list@),
    {
        let ghost l = list@;
        self.table.insert(uid_to_id(uid).to_bits(), list);
        proof {
            assert forall|u: i32| #[trigger] final(self)@.contains_key(u) == old(self)@.insert(uid, l).contains_key(u) by {
                if uid_key(u) == uid_key(uid) {
                    lemma_uid_key_injective(u, uid);
                }
            }
            assert forall|u: i32| #[trigger] final(self)@.contains_key(u) implies final(self)@[u] == old(self)@.insert(uid, l)[u] by {
                if uid_key(u) == uid_key(uid) {
                    lemma_uid_key_injective(u, uid);
                }
            }
            assert(final(self)@ =~= old(self)@.insert(uid, l));
        }
    }

    /// Takes out the handlers of the port `uid`.
    pub fn remove(&mut self, uid: i32) -> (r: Option<Vec<(u64, F)>>)
        ensures
            final(self)@ == old(self)@.remove(uid),
            match r {
                Some(v) => old(self)@.contains_key(uid) && v@ == old(self)@[uid],
                None => !old(self)@.contains_key(uid),
            },
    {
        let r = self.table.remove(uid_to_id(uid).to_bits());
        proof {
            assert forall|u: i32| #[trigger] final(self)@.contains_key(u) == old(self)@.remove(uid).contains_key(u) by {
                if uid_key(u) == uid_key(uid) {
                    lemma_uid_key_injective(u, uid);
                }
            }
            assert(final(self)@ =~= old(self)@.remove(uid));
        }
        r
    }
}

/// Drops the handlers that `client_id` registered for the port `uid`; a port
/// left without handlers loses its entry.
pub fn remove_client_handlers<F>(handlers: &mut ClientHandlers<F>, uid: i32, client_id: u64)
    ensures
        final(handlers)@ == spec_remove_client(old(handlers)@, uid, client_id),
{
    match handlers.remove(uid) {
        Some(list) => {
            let ghost all = list@;
            assert(all.len() == list.len());
            let mut rest = list;
            let mut kept: Vec<(u64, F)> = Vec::new();
            let mut n: usize = 0;
            while rest.len() > 0
                invariant
                    n <= all.len(),
                    all.len() <= usize::MAX,
                    rest@ == all.subrange(n as int, all.len() as int),
                    kept@ == others(all.subrange(0, n as int), client_id),
                decreases rest@.len(),
            {
                let e = rest.remove(0);
                proof {
                    assert(e == all[n as int]);
                    assert(all.subrange(0, n + 1) =~= all.subrange(0, n as int).push(e));
                    all.subrange(0, n as int).lemma_filter_push(e, not_from(client_id));
                }
                if e.0 != client_id {
                    kept.push(e);
                }
                n = n + 1;
                proof {
                    assert(rest@ =~= all.subrange(n as int, all.len() as int));
                }
            }
            proof {
                assert(all.subrange(0, n as int) =~= all);
            }
            if kept.len() > 0 {
                handlers.put(uid, kept);
            }
        },
        None => {},
    }
}

/// Host clock ticks in nanoseconds by the timebase `numer / denom` (a zero
/// denominator counts as one), cut to 64 bits.
pub open spec fn spec_host_time_to_nanos(ticks: u64, numer: u32, denom: u32) -> u64 {
    ((ticks as int * numer as int / (if denom == 0 {
        1int
    } else {
        denom as int
    })) % 0x1_0000_0000_0000_0000) as u64
}

/// Converts host clock ticks to nanoseconds.
pub fn host_time_to_nanos(host_time: u64, numer: u32, denom: u32) -> (r: u64)
    ensures
        r == spec_host_time_to_nanos(host_time, numer, denom),
{
    let d: u32 = if denom == 0 {
        1
    } else {
        denom
    };
    assert(host_time as int * numer as int <= 0xFFFF_FFFF_FFFF_FFFF * 0xFFFF_FFFF) by (nonlinear_arith)
        requires
            host_time <= 0xFFFF_FFFF_FFFF_FFFF,
            numer <= 0xFFFF_FFFF,
    ;
    let p: u128 = host_time as u128 * numer as u128;
    let q: u128 = p / d as u128;
    (q % 0x1_0000_0000_0000_0000) as u64
}

/// Where a host timestamp lies relative to the reference moment.
#[derive(Debug, Clone, Copy, PartialEq, Eq, Structural)]
pub enum HostTimeOffset {
    /// The timestamp is missing (zero): the arrival time stands for it.
    Arrival,
    /// This many nanoseconds after the reference moment.
    After(u64),
    /// This many nanoseconds before the reference moment.
    Before(u64),
}

/// The pairing of a host clock reading with a moment, by which host
/// timestamps become moments.
#[derive(Debug, Clone, Copy)]
pub struct TimeCalibration {
    pub ref_host_time: u64,
    pub ref_instant: std::time::Instant,
    pub numer: u32,
    pub denom: u32,
}

impl TimeCalibration {
    /// Where the host timestamp `host_time` lies relative to the reference.
    pub open spec fn spec_offset(self, host_time: u64) -> HostTimeOffset {
        if host_time == 0 {
            HostTimeOffset::Arrival
        } else if host_time >= self.ref_host_time {
            HostTimeOffset::After(spec_host_time_to_nanos((host_time - self.ref_host_time) as u64, self.numer, self.denom))
        } else {
            HostTimeOffset::Before(spec_host_time_to_nanos((self.ref_host_time - host_time) as u64, self.numer, self.denom))
        }
    }

    pub fn offset(&self, host_time: u64) -> (r: HostTimeOffset)
        ensures
            r == self.spec_offset(host_time),
    {
        if host_time == 0 {
            HostTimeOffset::Arrival
        } else if host_time >= self.ref_host_time {
            HostTimeOffset::After(host_time_to_nanos(host_time - self.ref_host_time, self.numer, self.denom))
        } else {
            HostTimeOffset::Before(host_time_to_nanos(self.ref_host_time - host_time, self.numer, self.denom))
        }
    }

    /// The moment of a host timestamp: the reference moment moved by the
    /// offset (left as it is when the result cannot be represented), or the
    /// current moment when the timestamp is missing.
    pub fn to_instant(self, host_time: u64) -> (r: std::time::Instant)
        ensures
            self.spec_offset(host_time) matches HostTimeOffset::After(ns) ==> r == moved_or_reference(
                instant_after(self.ref_instant, nanos_duration(ns)),
                self.ref_instant,
            ),
            self.spec_offset(host_time) matches HostTimeOffset::Before(ns) ==> r == moved_or_reference(
                instant_before(self.ref_instant, nanos_duration(ns)),
                self.ref_instant,
            ),
    {
        match self.offset(host_time) {
            HostTimeOffset::Arrival => instant_now(),
            HostTimeOffset::After(ns) => settle_moment(
                instant_checked_add(self.ref_instant, duration_from_nanos(ns)),
                self.ref_instant,
            ),
            HostTimeOffset::Before(ns) => settle_moment(
                instant_checked_sub(self.ref_instant, duration_from_nanos(ns)),
                self.ref_instant,
            ),
        }
    }
}

/// The moment a calibration settles on: the moved moment where it could be
/// represented, else the reference moment itself.
pub open spec fn moved_or_reference(
    moved: Option<std::time::Instant>,
    reference: std::time::Instant,
) -> std::time::Instant {
    match moved {
        Some(t) => t,
        None => reference,
    }
}

/// Settles a moved moment: keeps it where it could be represented and falls
/// back to the reference moment where it could not.
pub fn settle_moment(moved: Option<std::time::Instant>, reference: std::time::Instant) -> (r:
    std::time::Instant)
    ensures
        r == moved_or_reference(moved, reference),
{
    match moved {
        Some(t) => t,
        None => reference,
    }
}

/// The duration of `nanos` nanoseconds, as `Duration::from_nanos` makes it.
pub uninterp spec fn nanos_duration(nanos: u64) -> core::time::Duration;

/// The moment `d` after `base`, as `Instant::checked_add` gives it (`None`
/// where it cannot be represented).
pub uninterp spec fn instant_after(base: std::time::Instant, d: core::time::Duration) -> Option<std::time::Instant>;

/// The moment `d` before `base`, as `Instant::checked_sub` gives it (`None`
/// where it cannot be represented).
pub uninterp spec fn instant_before(base: std::time::Instant, d: core::time::Duration) -> Option<std::time::Instant>;

/// `std::time::Instant::now`: the current moment, read from the clock, of
/// which nothing is stated.
#[verifier::external_body]
fn instant_now() -> std::time::Instant {
    std::time::Instant::now()
}

/// `std::time::Duration::from_nanos`: the duration of `nanos` nanoseconds.
/// It depends on `nanos` alone, so its result is named `nanos_duration`.
#[verifier::external_body]
fn duration_from_nanos(nanos: u64) -> (r: core::time::Duration)
    ensures
        r == nanos_duration(nanos),
{
    core::time::Duration::from_nanos(nanos)
}

/// `std::time::Instant::checked_add`: the moment `d` after `base`, or `None`
/// when it cannot be represented. It depends on `base` and `d` alone, so its
/// result is named `instant_after`; what that moment is, is not stated.
#[verifier::external_body]
fn instant_checked_add(base: std::time::Instant, d: core::time::Duration) -> (r: Option<std::time::Instant>)
    ensures
        r == instant_after(base, d),
{
    base.checked_add(d)
}

/// `std::time::Instant::checked_sub`: the moment `d` before `base`, or
/// `None` when it cannot be represented. It depends on `base` and `d` alone,
/// so its result is named `instant_before`; what that moment is, is not
/// stated.
#[verifier::external_body]
fn instant_checked_sub(base: std::time::Instant, d: core::time::Duration) -> (r: Option<std::time::Instant>)
    ensures
        r == instant_before(base, d),
{
    base.checked_sub(d)
}

/// What `spec_find_stale` finds: a cached id that is not live, and nothing
/// when every cached id is live.
pub proof fn lemma_find_stale(cached: Seq<i32>, live: Seq<i32>)
    ensures
        spec_find_stale(cached, live) matches Some(u) ==> cached.contains(u) && !live.contains(u),
        spec_find_stale(cached, live) is None ==> forall|i: int| 0 <= i < cached.len() ==> live.contains(#[trigger] cached[i]),
    decreases cached.len(),
{
    if cached.len() > 0 && live.contains(cached[0]) {
        let rest = cached.drop_first();
        lemma_find_stale(rest, live);
        if let Some(u) = spec_find_stale(rest, live) {
            let j = choose|j: int| 0 <= j < rest.len() && rest[j] == u;
            assert(cached[j + 1] == u);
        } else {
            assert forall|i: int| 0 <= i < cached.len() implies live.contains(#[trigger] cached[i]) by {
                if i > 0 {
                    assert(cached[i] == rest[i - 1]);
                }
            }
        }
    } else if cached.len() > 0 {
        assert(cached[0] == cached[0]);
    }
}

/// The endpoints of the system the backend knows, by unique id: the
/// platform's handle of each and the port it stands for.
pub struct EndpointCache<E, P> {
    table: Table<(E, P)>,
}

impl<E, P> View for EndpointCache<E, P> {
    type V = Map<i32, (E, P)>;

    closed spec fn view(&self) -> Map<i32, (E, P)> {
        Map::new(|uid: i32| self.table@.contains_key(uid_key(uid)), |uid: i32| self.table@[uid_key(uid)])
    }
}

impl<E, P> EndpointCache<E, P> {
    #[verifier::type_invariant]
    spec fn inv(self) -> bool {
        forall|k: u64| #[trigger] self.table@.contains_key(k) ==> k < 0x1_0000_0000
    }

    /// The unique ids in the order the cache holds them.
    pub closed spec fn uid_order(&self) -> Seq<i32> {
        self.table.key_order().map_values(|k: u64| (k as u32) as i32)
    }

    pub fn new() -> (r: EndpointCache<E, P>)
        ensures
            r@ == Map::<i32, (E, P)>::empty(),
    {
        let r = EndpointCache { table: Table::new() };
        assert(r@ =~= Map::<i32, (E, P)>::empty());
        r
    }

    pub fn contains(&self, uid: i32) -> (r: bool)
        ensures
            r == self@.contains_key(uid),
    {
        self.table.contains_key(uid_to_id(uid).to_bits())
    }

    pub fn get(&self, uid: i32) -> (r: Option<&(E, P)>)
        ensures
            match r {
                Some(v) => self@.contains_key(uid) && *v == self@[uid],
                None => !self@.contains_key(uid),
            },
    {
        self.table.get(uid_to_id(uid).to_bits())
    }

    /// The unique ids held, each once.
    pub fn uids(&self) -> (r: Vec<i32>)
        ensures
            r@ == self.uid_order(),
            r@.no_duplicates(),
            forall|u: i32| #[trigger] r@.contains(u) <==> self@.contains_key(u),
    {
        proof {
            use_type_invariant(self);
        }
        let keys = self.table.keys();
        let mut r: Vec<i32> = Vec::new();
        let mut i: usize = 0;
        while i < keys.len()
            invariant
                i <= keys@.len(),
                r@ == keys@.subrange(0, i as int).map_values(|k: u64| (k as u32) as i32),
            decreases keys@.len() - i,
        {
            r.push(keys[i] as u32 as i32);
            proof {
                assert(keys@.subrange(0, i + 1) =~= keys@.subrange(0, i as int).push(keys@[i as int]));
                assert(r@ =~= keys@.subrange(0, i + 1).map_values(|k: u64| (k as u32) as i32));
            }
            i = i + 1;
        }
        proof {
            assert(keys@.subrange(0, keys@.len() as int) =~= keys@);
            assert forall|k: u64| #[trigger] keys@.contains(k) implies k == uid_key((k as u32) as i32) by {
                assert(k < 0x1_0000_0000 ==> k == ((k as u32) as i32) as u32 as u64) by (bit_vector);
            }
            assert forall|a: int, b: int| 0 <= a < r@.len() && 0 <= b < r@.len() && a != b implies r@[a] != r@[b] by {
                assert(keys@.contains(keys@[a]));
                assert(keys@.contains(keys@[b]));
                if r@[a] == r@[b] {
                    assert(keys@[a] == uid_key(r@[a]));
                    assert(keys@[b] == uid_key(r@[b]));
                }
            }
            assert forall|u: i32| #[trigger] r@.contains(u) <==> self@.contains_key(u) by {
                if r@.contains(u) {
                    let j = choose|j: int| 0 <= j < r@.len() && r@[j] == u;
                    assert(keys@.contains(keys@[j]));
                    assert(keys@[j] == uid_key(u));
                }
                if self@.contains_key(u) {
                    assert(keys@.contains(uid_key(u)));
                    let j = choose|j: int| 0 <= j < keys@.len() && keys@[j] == uid_key(u);
                    lemma_uid_roundtrip(u);
                    assert(r@[j] == u);
                }
            }
        }
        r
    }

    /// An endpoint appeared: it is recorded unless its unique id is known
    /// already. Returns whether it was new, in which case subscribers are to
    /// hear of it.
    pub fn add_endpoint(&mut self, uid: i32, endpoint: E, port: P) -> (r: bool)
        ensures
            r == !old(self)@.contains_key(uid),
            r ==> final(self)@ == old(self)@.insert(uid, (endpoint, port)),
            !r ==> final(self)@ == old(self)@,
    {
        proof {
            use_type_invariant(&*self);
        }
        let k = uid_to_id(uid).to_bits();
        if self.table.contains_key(k) {
            return false;
        }
        assert(k < 0x1_0000_0000) by {
            assert(((uid as u32) as u64) < 0x1_0000_0000) by (bit_vector);
        }
        let mut t: Table<(E, P)> = Table::new();
        std::mem::swap(&mut t, &mut self.table);
        t.insert(k, (endpoint, port));
        self.table = t;
        proof {
            assert forall|u: i32| #[trigger] self@.contains_key(u) == old(self)@.insert(uid, (endpoint, port)).contains_key(u) by {
                if uid_key(u) == uid_key(uid) {
                    lemma_uid_key_injective(u, uid);
                }
            }
            assert forall|u: i32| #[trigger] self@.contains_key(u) implies self@[u] == old(self)@.insert(uid, (endpoint, port))[u] by {
                if uid_key(u) == uid_key(uid) {
                    lemma_uid_key_injective(u, uid);
                }
            }
            assert(self@ =~= old(self)@.insert(uid, (endpoint, port)));
        }
        true
    }

    /// An endpoint went away: the entry of `uid` is dropped, or, when the
    /// system did not say which endpoint it was, that of a cached id that is
    /// no longer live. Returns the id and port dropped.
    pub fn remove_endpoint(&mut self, uid: Option<i32>, live: &[i32]) -> (r: Option<(i32, P)>)
        ensures
            match uid {
                Some(u) => if old(self)@.contains_key(u) {
                    r == Some((u, old(self)@[u].1)) && final(self)@ == old(self)@.remove(u)
                } else {
                    r is None && final(self)@ == old(self)@
                },
                None => match r {
                    Some((u, p)) => old(self)@.contains_key(u) && !live@.contains(u) && p == old(self)@[u].1
                        && final(self)@ == old(self)@.remove(u),
                    None => final(self)@ == old(self)@ && forall|u: i32| #[trigger] old(self)@.contains_key(u) ==> live@.contains(u),
                },
            },
    {
        let target = match uid {
            Some(u) => Some(u),
            None => {
                let ids = self.uids();
                let found = find_stale_uid(ids.as_slice(), live);
                proof {
                    lemma_find_stale(ids@, live@);
                    if found is None {
                        assert forall|u: i32| #[trigger] old(self)@.contains_key(u) implies live@.contains(u) by {
                            assert(ids@.contains(u));
                            let j = choose|j: int| 0 <= j < ids@.len() && ids@[j] == u;
                            assert(live@.contains(ids@[j]));
                        }
                    }
                }
                found
            },
        };
        match target {
            Some(u) => {
                proof {
                    use_type_invariant(&*self);
                }
                let mut t: Table<(E, P)> = Table::new();
                std::mem::swap(&mut t, &mut self.table);
                let removed = t.remove(uid_to_id(u).to_bits());
                self.table = t;
                match removed {
                    Some((_, port)) => {
                        proof {
                            assert forall|x: i32| #[trigger] self@.contains_key(x) == old(self)@.remove(u).contains_key(x) by {
                                if uid_key(x) == uid_key(u) {
                                    lemma_uid_key_injective(x, u);
                                }
                            }
                            assert(self@ =~= old(self)@.remove(u));
                        }
                        Some((u, port))
                    },
                    None => {
                        proof {
                            assert(self@ =~= old(self)@);
                        }
                        None
                    },
                }
            },
            None => None,
        }
    }
}

/// An endpoint went away: its cache entry is dropped (by its unique id, or,
/// when the system did not say which it was, a cached id no longer live),
/// and the disconnect handlers registered for it are taken out to be run.
/// Returns the port dropped, for subscribers to hear of, and the handlers
/// (none when no handler was registered); nothing when no entry matched.
pub fn endpoint_removed<E, P, F>(
    cache: &mut EndpointCache<E, P>,
    handlers: &mut ClientHandlers<F>,
    uid: Option<i32>,
    live: &[i32],
) -> (r: Option<(P, Vec<(u64, F)>)>)
    ensures
        match r {
            Some((port, fns)) => exists|u: i32|
                #![trigger old(cache)@[u]]
                {
                    &&& old(cache)@.contains_key(u)
                    &&& (uid matches Some(w) ==> u == w)
                    &&& (uid is None ==> !live@.contains(u))
                    &&& port == old(cache)@[u].1
                    &&& final(cache)@ == old(cache)@.remove(u)
                    &&& fns@ == handlers_of(old(handlers)@, u)
                    &&& final(handlers)@ == old(handlers)@.remove(u)
                },
            None => final(cache)@ == old(cache)@ && final(handlers)@ == old(handlers)@ && match uid {
                Some(w) => !old(cache)@.contains_key(w),
                None => forall|u: i32| #[trigger] old(cache)@.contains_key(u) ==> live@.contains(u),
            },
        },
{
    match cache.remove_endpoint(uid, live) {
        Some((u, port)) => {
            let fns = match handlers.remove(u) {
                Some(v) => v,
                None => {
                    proof {
                        assert(old(handlers)@.remove(u) =~= old(handlers)@);
                    }
                    Vec::new()
                },
            };
            proof {
                assert(fns@ == handlers_of(old(handlers)@, u));
                assert(port == old(cache)@[u].1);
                assert({
                    &&& old(cache)@.contains_key(u)
                    &&& (uid matches Some(w) ==> u == w)
                    &&& (uid is None ==> !live@.contains(u))
                    &&& port == old(cache)@[u].1
                    &&& final(cache)@ == old(cache)@.remove(u)
                    &&& fns@ == handlers_of(old(handlers)@, u)
                    &&& final(handlers)@ == old(handlers)@.remove(u)
                });
            }
            Some((port, fns))
        },
        None => None,
    }
}

/// A port of the system: a source or a destination.
pub trait Endpoint: Sized {
    /// The port's handle.
    spec fn endpoint_id(&self) -> PortId;

    fn port_id(&self) -> (r: PortId)
        ensures
            r == self.endpoint_id(),
    ;

    fn duplicate(&self) -> (r: Self)
        ensures
            r == *self,
    ;
}

impl Endpoint for Source {
    open spec fn endpoint_id(&self) -> PortId {
        self.id
    }

    fn port_id(&self) -> (r: PortId) {
        self.id
    }

    fn duplicate(&self) -> (r: Source) {
        self.clone()
    }
}

impl Endpoint for Destination {
    open spec fn endpoint_id(&self) -> PortId {
        self.id
    }

    fn port_id(&self) -> (r: PortId) {
        self.id
    }

    fn duplicate(&self) -> (r: Destination) {
        self.clone()
    }
}

/// The table key of the unique id of a port.
pub open spec fn port_key<P: Endpoint>(p: P) -> u64 {
    uid_key((p.endpoint_id()@ as u32) as i32)
}

/// The ports by unique id; a later port with the same id wins.
pub open spec fn latest_by_uid<P: Endpoint>(ports: Seq<P>) -> Map<u64, P>
    decreases ports.len(),
{
    if ports.len() == 0 {
        Map::empty()
    } else {
        latest_by_uid(ports.drop_last()).insert(port_key(ports.last()), ports.last())
    }
}

/// `m` with the ports of `extra` whose unique id it lacks; the first such
/// port wins.
pub open spec fn add_missing<P: Endpoint>(m: Map<u64, P>, extra: Seq<P>) -> Map<u64, P>
    decreases extra.len(),
{
    if extra.len() == 0 {
        m
    } else {
        let m2 = add_missing(m, extra.drop_last());
        if m2.contains_key(port_key(extra.last())) {
            m2
        } else {
            m2.insert(port_key(extra.last()), extra.last())
        }
    }
}

/// The ports of the cache in its order.
pub open spec fn cached_ports<E, P>(cache: EndpointCache<E, P>) -> Seq<P> {
    cache.uid_order().map_values(|u: i32| cache@[u].1)
}

/// The ports to list: those the system reports now, and the cached ones it
/// no longer reports, each unique id once.
pub open spec fn spec_enumerate<E, P: Endpoint>(live: Seq<P>, cache: EndpointCache<E, P>) -> Map<u64, P> {
    add_missing(latest_by_uid(live), cached_ports(cache))
}

/// The ports of a table keyed by unique id, each once.
fn table_ports<P: Endpoint>(t: &Table<P>) -> (r: Vec<P>)
    requires
        forall|k: u64| #[trigger] t@.contains_key(k) ==> port_key(t@[k]) == k,
    ensures
        r@.len() == t@.dom().len(),
        forall|i: int| 0 <= i < r@.len() ==> t@.contains_key(port_key(#[trigger] r@[i])) && t@[port_key(r@[i])] == r@[i],
        forall|i: int, j: int| 0 <= i < r@.len() && 0 <= j < r@.len() && i != j ==> port_key(#[trigger] r@[i]) != port_key(#[trigger] r@[j]),
{
    let keys = t.keys();
    let mut r: Vec<P> = Vec::new();
    let mut i: usize = 0;
    while i < keys.len()
        invariant
            i <= keys@.len(),
            keys@.no_duplicates(),
            forall|k: u64| #[trigger] keys@.contains(k) <==> t@.contains_key(k),
            keys@.len() == t@.dom().len(),
            r@.len() == i,
            forall|j: int| 0 <= j < i ==> #[trigger] r@[j] == t@[keys@[j]],
        decreases keys@.len() - i,
    {
        let k = keys[i];
        assert(keys@.contains(k));
        match t.get(k) {
            Some(p) => r.push(p.duplicate()),
            None => {},
        }
        i = i + 1;
    }
    proof {
        assert forall|i: int| 0 <= i < r@.len() implies t@.contains_key(port_key(#[trigger] r@[i])) && t@[port_key(r@[i])] == r@[i] by {
            assert(keys@.contains(keys@[i]));
        }
        assert forall|i: int, j: int| 0 <= i < r@.len() && 0 <= j < r@.len() && i != j implies port_key(#[trigger] r@[i]) != port_key(#[trigger] r@[j]) by {
            assert(keys@.contains(keys@[i]));
            assert(keys@.contains(keys@[j]));
        }
    }
    r
}

/// The table key of the unique id of a port, computed.
fn key_of<P: Endpoint>(p: &P) -> (r: u64)
    ensures
        r == port_key(*p),
{
    let b = p.port_id().to_bits();
    assert(((b as u32) as i32) as u32 == b as u32) by (bit_vector);
    b as u32 as u64
}

/// Lists the ports the system reports now together with the cached ones it
/// no longer reports: one port per unique id, the reported one when there is
/// one.
pub fn enumerate_with_cache<E, P: Endpoint>(live: &Vec<P>, cache: &EndpointCache<E, P>) -> (r: Vec<P>)
    ensures
        r@.len() == spec_enumerate(live@, *cache).dom().len(),
        forall|i: int| 0 <= i < r@.len() ==> spec_enumerate(live@, *cache).contains_key(port_key(#[trigger] r@[i]))
            && spec_enumerate(live@, *cache)[port_key(r@[i])] == r@[i],
        forall|i: int, j: int| 0 <= i < r@.len() && 0 <= j < r@.len() && i != j ==> port_key(#[trigger] r@[i]) != port_key(#[trigger] r@[j]),
{
    let mut t: Table<P> = Table::new();
    let mut i: usize = 0;
    while i < live.len()
        invariant
            i <= live@.len(),
            t@ == latest_by_uid(live@.subrange(0, i as int)),
        decreases live@.len() - i,
    {
        let p = live[i].duplicate();
        proof {
            assert(live@.subrange(0, i + 1).drop_last() =~= live@.subrange(0, i as int));
        }
        t.insert(key_of(&p), p);
        i = i + 1;
    }
    proof {
        assert(live@.subrange(0, live@.len() as int) =~= live@);
    }
    let ids = cache.uids();
    let ghost extra = cached_ports(*cache);
    let mut j: usize = 0;
    while j < ids.len()
        invariant
            j <= ids@.len(),
            ids@ == cache.uid_order(),
            forall|u: i32| #[trigger] ids@.contains(u) <==> cache@.contains_key(u),
            extra == cached_ports(*cache),
            t@ == add_missing(latest_by_uid(live@), extra.subrange(0, j as int)),
        decreases ids@.len() - j,
    {
        assert(ids@.contains(ids@[j as int]));
        match cache.get(ids[j]) {
            Some(entry) => {
                let p = entry.1.duplicate();
                proof {
                    assert(extra.subrange(0, j + 1).drop_last() =~= extra.subrange(0, j as int));
                    assert(extra.subrange(0, j + 1).last() == p);
                }
                let k = key_of(&p);
                if !t.contains_key(k) {
                    t.insert(k, p);
                }
            },
            None => {},
        }
        j = j + 1;
    }
    proof {
        assert(extra.subrange(0, ids@.len() as int) =~= extra);
        lemma_keys_match(live@, extra);
    }
    table_ports(&t)
}

/// Every entry of the merged table sits at its own port's key.
proof fn lemma_keys_match<P: Endpoint>(live: Seq<P>, extra: Seq<P>)
    ensures
        forall|k: u64| #[trigger] add_missing(latest_by_uid(live), extra).contains_key(k) ==> port_key(
            add_missing(latest_by_uid(live), extra)[k],
        ) == k,
    decreases extra.len(),
{
    if extra.len() == 0 {
        lemma_latest_keys_match(live);
    } else {
        lemma_keys_match(live, extra.drop_last());
        let m2 = add_missing(latest_by_uid(live), extra.drop_last());
        assert forall|k: u64| #[trigger] add_missing(latest_by_uid(live), extra).contains_key(k) implies port_key(
            add_missing(latest_by_uid(live), extra)[k],
        ) == k by {
            if k != port_key(extra.last()) {
                assert(m2.contains_key(k));
            }
        }
    }
}

/// Every entry of the table of latest ports sits at its own port's key.
proof fn lemma_latest_keys_match<P: Endpoint>(live: Seq<P>)
    ensures
        forall|k: u64| #[trigger] latest_by_uid(live).contains_key(k) ==> port_key(latest_by_uid(live)[k]) == k,
    decreases live.len(),
{
    if live.len() > 0 {
        lemma_latest_keys_match(live.drop_last());
        let m = latest_by_uid(live.drop_last());
        assert forall|k: u64| #[trigger] latest_by_uid(live).contains_key(k) implies port_key(latest_by_uid(live)[k]) == k by {
            if k != port_key(live.last()) {
                assert(m.contains_key(k));
            }
        }
    }
}

/// The destinations a client is connected to, with the platform's state of
/// each, and the set of those whose endpoint went away.
pub struct OutputStates<C> {
    connections: Table<C>,
    disconnected: Table<()>,
}

/// The model of [`OutputStates`]: the connection state of each connected
/// unique id, and the ids marked as gone.
pub struct OutputStatesView<C> {
    pub connections: Map<i32, C>,
    pub disconnected: Set<i32>,
}

impl<C> OutputStatesView<C> {
    /// What a send to `uid` goes by: refused when its endpoint went away, or
    /// when there is no connection to it; else the connection's state.
    pub open spec fn send_state(self, uid: i32) -> Result<C, Error> {
        if self.disconnected.contains(uid) {
            Err(Error::Io(IoError::PortDisconnected))
        } else if self.connections.contains_key(uid) {
            Ok(self.connections[uid])
        } else {
            Err(Error::Io(IoError::PortNotFound))
        }
    }
}

/// Reconnecting to a destination whose endpoint went away clears the stale
/// mark: sends to it go by the new connection.
pub proof fn lemma_reconnect_clears_disconnected<C>(v: OutputStatesView<C>, uid: i32, state: C)
    ensures
        (OutputStatesView {
            connections: v.connections.insert(uid, state),
            disconnected: v.disconnected.remove(uid),
        }).send_state(uid) == Ok::<C, Error>(state),
{
}

/// Once the endpoint of a destination went away, sends to it are refused as
/// disconnected until it is connected again.
pub proof fn lemma_marked_refuses<C>(v: OutputStatesView<C>, uid: i32)
    ensures
        (OutputStatesView { connections: v.connections, disconnected: v.disconnected.insert(uid) }).send_state(uid)
            == Err::<C, Error>(Error::Io(IoError::PortDisconnected)),
{
}

impl<C> View for OutputStates<C> {
    type V = OutputStatesView<C>;

    closed spec fn view(&self) -> OutputStatesView<C> {
        OutputStatesView {
            connections: Map::new(|uid: i32| self.connections@.contains_key(uid_key(uid)), |uid: i32| self.connections@[uid_key(uid)]),
            disconnected: Set::new(|uid: i32| self.disconnected@.contains_key(uid_key(uid))),
        }
    }
}

impl<C> OutputStates<C> {
    pub fn new() -> (r: OutputStates<C>)
        ensures
            r@.connections == Map::<i32, C>::empty(),
            r@.disconnected == Set::<i32>::empty(),
    {
        let r = OutputStates { connections: Table::new(), disconnected: Table::new() };
        assert(r@.connections =~= Map::<i32, C>::empty());
        assert(r@.disconnected =~= Set::<i32>::empty());
        r
    }

    pub fn is_connected(&self, uid: i32) -> (r: bool)
        ensures
            r == self@.connections.contains_key(uid),
    {
        self.connections.contains_key(uid_to_id(uid).to_bits())
    }

    /// Records the connection to `uid`; a mark left from an earlier
    /// connection whose endpoint went away is cleared.
    pub fn connect(&mut self, uid: i32, state: C)
        ensures
            final(self)@.connections == old(self)@.connections.insert(uid, state),
            final(self)@.disconnected == old(self)@.disconnected.remove(uid),
    {
        let k = uid_to_id(uid).to_bits();
        self.disconnected.remove(k);
        self.connections.insert(k, state);
        proof {
            assert forall|u: i32| #[trigger] self@.connections.contains_key(u) == old(self)@.connections.insert(uid, state).contains_key(u) by {
                if uid_key(u) == uid_key(uid) {
                    lemma_uid_key_injective(u, uid);
                }
            }
            assert forall|u: i32| #[trigger] self@.connections.contains_key(u) implies self@.connections[u] == old(self)@.connections.insert(uid, state)[u] by {
                if uid_key(u) == uid_key(uid) {
                    lemma_uid_key_injective(u, uid);
                }
            }
            assert forall|u: i32| #[trigger] self@.disconnected.contains(u) == old(self)@.disconnected.remove(uid).contains(u) by {
                if uid_key(u) == uid_key(uid) {
                    lemma_uid_key_injective(u, uid);
                }
            }
            assert(self@.connections =~= old(self)@.connections.insert(uid, state));
            assert(self@.disconnected =~= old(self)@.disconnected.remove(uid));
        }
    }

    /// The endpoint of `uid` went away: sends to it fail from now on.
    pub fn mark_disconnected(&mut self, uid: i32)
        ensures
            final(self)@.connections == old(self)@.connections,
            final(self)@.disconnected == old(self)@.disconnected.insert(uid),
    {
        self.disconnected.insert(uid_to_id(uid).to_bits(), ());
        proof {
            assert forall|u: i32| #[trigger] self@.disconnected.contains(u) == old(self)@.disconnected.insert(uid).contains(u) by {
                if uid_key(u) == uid_key(uid) {
                    lemma_uid_key_injective(u, uid);
                }
            }
            assert(self@.connections =~= old(self)@.connections);
            assert(self@.disconnected =~= old(self)@.disconnected.insert(uid));
        }
    }

    /// Drops the connection to `uid` and its mark, returning its state.
    pub fn disconnect(&mut self, uid: i32) -> (r: Option<C>)
        ensures
            final(self)@.connections == old(self)@.connections.remove(uid),
            final(self)@.disconnected == old(self)@.disconnected.remove(uid),
            match r {
                Some(c) => old(self)@.connections.contains_key(uid) && c == old(self)@.connections[uid],
                None => !old(self)@.connections.contains_key(uid),
            },
    {
        let k = uid_to_id(uid).to_bits();
        self.disconnected.remove(k);
        let r = self.connections.remove(k);
        proof {
            assert forall|u: i32| #[trigger] self@.connections.contains_key(u) == old(self)@.connections.remove(uid).contains_key(u) by {
                if uid_key(u) == uid_key(uid) {
                    lemma_uid_key_injective(u, uid);
                }
            }
            assert forall|u: i32| #[trigger] self@.disconnected.contains(u) == old(self)@.disconnected.remove(uid).contains(u) by {
                if uid_key(u) == uid_key(uid) {
                    lemma_uid_key_injective(u, uid);
                }
            }
            assert(self@.connections =~= old(self)@.connections.remove(uid));
            assert(self@.disconnected =~= old(self)@.disconnected.remove(uid));
        }
        r
    }

    /// The connection state to send to `uid` with: refused when its endpoint
    /// went away, or when there is no connection to it.
    pub fn resolve_output_state(&self, uid: i32) -> (r: Result<&C, Error>)
        ensures
            match r {
                Ok(c) => self@.send_state(uid) == Ok::<C, Error>(*c),
                Err(e) => self@.send_state(uid) == Err::<C, Error>(e),
            },
    {
        let k = uid_to_id(uid).to_bits();
        if self.disconnected.contains_key(k) {
            return Err(Error::Io(IoError::PortDisconnected));
        }
        match self.connections.get(k) {
            Some(c) => Ok(c),
            None => Err(Error::Io(IoError::PortNotFound)),
        }
    }
}

/// A client asks to connect to the endpoint `uid`. Refused as already
/// connected when it is. Otherwise the endpoint comes from the cache, or,
/// when the cache lacks it, from `found`: the live endpoint with that id and
/// the port it stands for (none when it could not be described), which is
/// then cached and is to be announced. Returns the port to announce, if any.
pub fn admit_connection<E, P: Endpoint>(
    connected: bool,
    cache: &mut EndpointCache<E, P>,
    uid: i32,
    found: Option<(E, Option<P>)>,
) -> (r: Result<Option<P>, Error>)
    ensures
        connected ==> r == Err::<Option<P>, Error>(Error::Io(IoError::AlreadyConnected)) && final(cache)@ == old(
            cache,
        )@,
        !connected && old(cache)@.contains_key(uid) ==> r == Ok::<Option<P>, Error>(None) && final(cache)@ == old(
            cache,
        )@,
        !connected && !old(cache)@.contains_key(uid) ==> match found {
            Some((e, Some(p))) => r == Ok::<Option<P>, Error>(Some(p)) && final(cache)@ == old(cache)@.insert(
                uid,
                (e, p),
            ),
            _ => r == Err::<Option<P>, Error>(Error::Io(IoError::PortNotFound)) && final(cache)@ == old(cache)@,
        },
{
    if connected {
        return Err(Error::Io(IoError::AlreadyConnected));
    }
    if cache.contains(uid) {
        return Ok(None);
    }
    match found {
        Some((endpoint, Some(port))) => {
            let announced = port.duplicate();
            cache.add_endpoint(uid, endpoint, port);
            Ok(Some(announced))
        },
        _ => Err(Error::Io(IoError::PortNotFound)),
    }
}

/// Connecting `client_id` to the endpoint `uid` failed with the platform
/// status `status` after the client registered its disconnect handler: the
/// client's handlers for the endpoint are dropped again, and the failure is
/// the answer.
pub fn connect_failed<F>(handlers: &mut ClientHandlers<F>, uid: i32, client_id: u64, status: i32) -> (r: Error)
    ensures
        final(handlers)@ == spec_remove_client(old(handlers)@, uid, client_id),
        r == Error::Io(IoError::Platform(PlatformError::Connect(status))),
{
    remove_client_handlers(handlers, uid, client_id);
    Error::Io(IoError::Platform(PlatformError::Connect(status)))
}

/// The answer to a request for a virtual port, from what the platform did:
/// its status when it could not make the port; not found when the port it
/// made has no unique id; else the handle of the port's unique id.
pub fn virtual_port_created(made: Result<Option<i32>, i32>) -> (r: Result<PortId, Error>)
    ensures
        match made {
            Err(status) => r == Err::<PortId, Error>(Error::Io(IoError::Platform(PlatformError::VirtualPortCreate(status)))),
            Ok(None) => r == Err::<PortId, Error>(Error::Io(IoError::PortNotFound)),
            Ok(Some(uid)) => r matches Ok(id) && id@ == uid_key(uid),
        },
{
    match made {
        Err(status) => Err(Error::Io(IoError::Platform(PlatformError::VirtualPortCreate(status)))),
        Ok(None) => Err(Error::Io(IoError::PortNotFound)),
        Ok(Some(uid)) => Ok(uid_to_id(uid)),
    }
}

/// A client drops its connection to the destination `uid`: the connection
/// and any stale mark are forgotten, and so are the disconnect handlers the
/// client registered for it. Returns the connection's state, if there was
/// one.
pub fn disconnect_destination<C, F>(
    outputs: &mut OutputStates<C>,
    handlers: &mut ClientHandlers<F>,
    uid: i32,
    client_id: u64,
) -> (r: Option<C>)
    ensures
        final(outputs)@.connections == old(outputs)@.connections.remove(uid),
        final(outputs)@.disconnected == old(outputs)@.disconnected.remove(uid),
        final(handlers)@ == spec_remove_client(old(handlers)@, uid, client_id),
        match r {
            Some(c) => old(outputs)@.connections.contains_key(uid) && c == old(outputs)@.connections[uid],
            None => !old(outputs)@.connections.contains_key(uid),
        },
{
    let r = outputs.disconnect(uid);
    remove_client_handlers(handlers, uid, client_id);
    r
}

} // verus!
