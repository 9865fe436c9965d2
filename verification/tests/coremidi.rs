use std::sync::Arc;
use std::sync::Mutex;
use std::time::Instant;

use midi_io::coremidi_registry::admit_connection;
use midi_io::coremidi_registry::connect_failed;
use midi_io::coremidi_registry::disconnect_destination;
use midi_io::coremidi_registry::endpoint_removed;
use midi_io::coremidi_registry::enumerate_with_cache;
use midi_io::coremidi_registry::find_stale_uid;
use midi_io::coremidi_registry::host_time_to_nanos;
use midi_io::coremidi_registry::id_to_uid;
use midi_io::coremidi_registry::remove_client_handlers;
use midi_io::coremidi_registry::settle_moment;
use midi_io::coremidi_registry::uid_to_id;
use midi_io::coremidi_registry::virtual_port_created;
use midi_io::coremidi_registry::ClientHandlers;
use midi_io::coremidi_registry::EndpointCache;
use midi_io::coremidi_registry::HostTimeOffset;
use midi_io::coremidi_registry::OutputStates;
use midi_io::coremidi_registry::TimeCalibration;
use midi_io::Error;
use midi_io::IoError;
use midi_io::PlatformError;
use midi_io::Source;

type DisconnectFn = Box<dyn FnOnce() + Send>;

fn test_source(uid: i32) -> Source {
    Source::new(uid_to_id(uid), format!("Test:{uid}"), false)
}

#[test]
fn calibration_zero_host_time_falls_back_to_arrival_time() {
    let cal = TimeCalibration {
        ref_host_time: 1_000_000,
        ref_instant: Instant::now(),
        numer: 125,
        denom: 3,
    };
    let before = Instant::now();
    let converted = cal.to_instant(0);
    let after = Instant::now();
    assert!(converted >= before);
    assert!(converted <= after);
}

#[test]
fn remove_client_handlers_only_removes_target_client() {
    let fired = Arc::new(Mutex::new(Vec::new()));
    let mut handlers: ClientHandlers<DisconnectFn> = ClientHandlers::new();
    let f0 = fired.clone();
    let f1 = fired.clone();
    handlers.add(5, 0, Box::new(move || f0.lock().unwrap().push(0u64)));
    handlers.add(5, 1, Box::new(move || f1.lock().unwrap().push(1u64)));
    remove_client_handlers(&mut handlers, 5, 0);
    let remaining = handlers.remove(5).unwrap();
    for (_, f) in remaining {
        f();
    }
    assert_eq!(*fired.lock().unwrap(), vec![1u64]);
}

#[test]
fn remove_client_handlers_drops_entry_when_empty() {
    let mut handlers: ClientHandlers<DisconnectFn> = ClientHandlers::new();
    handlers.add(7, 3, Box::new(|| {}));
    remove_client_handlers(&mut handlers, 7, 3);
    assert!(!handlers.contains_key(7));
}

#[test]
fn find_stale_uid_detects_missing_entry() {
    let cached = vec![1i32, 2, 3];
    let live = vec![2i32, 3];
    assert_eq!(find_stale_uid(&cached, &live), Some(1));
}

#[test]
fn find_stale_uid_returns_none_when_all_present() {
    let cached = vec![1i32, 2, 3];
    let live = vec![1i32, 2, 3];
    assert_eq!(find_stale_uid(&cached, &live), None);
}

#[test]
fn find_stale_uid_returns_none_on_empty_cache() {
    let live = vec![1i32, 2];
    assert_eq!(find_stale_uid(&[], &live), None);
}

#[test]
fn find_stale_uid_takes_first_stale_in_order() {
    assert_eq!(find_stale_uid(&[4, 9, 5], &[4]), Some(9));
}

#[test]
fn remove_client_handlers_keeps_other_ports() {
    let mut handlers: ClientHandlers<u8> = ClientHandlers::new();
    handlers.add(1, 10, 0);
    handlers.add(2, 10, 1);
    handlers.add(2, 11, 2);
    remove_client_handlers(&mut handlers, 2, 10);
    remove_client_handlers(&mut handlers, 3, 10);
    assert!(handlers.contains_key(1));
    assert_eq!(handlers.remove(2), Some(vec![(11, 2)]));
}

#[test]
fn uid_round_trips_through_port_id() {
    for uid in [0, 1, -1, i32::MIN, i32::MAX, -559038737] {
        assert_eq!(id_to_uid(&uid_to_id(uid)), uid);
    }
    assert_eq!(uid_to_id(-1).to_bits(), 0xFFFF_FFFF);
}

#[test]
fn host_ticks_scale_by_timebase() {
    assert_eq!(host_time_to_nanos(1000, 125, 3), 41666);
    assert_eq!(host_time_to_nanos(7, 1, 0), 7);
    assert_eq!(host_time_to_nanos(u64::MAX, 1, 1), u64::MAX);
    assert_eq!(
        host_time_to_nanos(u64::MAX, u32::MAX, 1),
        ((u64::MAX as u128 * u32::MAX as u128) % (1u128 << 64)) as u64
    );
}

#[test]
fn calibration_offset_is_signed_distance() {
    let cal = TimeCalibration {
        ref_host_time: 1000,
        ref_instant: Instant::now(),
        numer: 2,
        denom: 1,
    };
    assert_eq!(cal.offset(0), HostTimeOffset::Arrival);
    assert_eq!(cal.offset(1500), HostTimeOffset::After(1000));
    assert_eq!(cal.offset(1000), HostTimeOffset::After(0));
    assert_eq!(cal.offset(400), HostTimeOffset::Before(1200));
    assert_eq!(cal.to_instant(1000), cal.ref_instant);
    assert!(cal.to_instant(1500) > cal.ref_instant);
}

#[test]
fn endpoint_cache_adds_once_and_removes_stale() {
    let mut cache: EndpointCache<&str, Source> = EndpointCache::new();
    assert!(cache.add_endpoint(1, "one", test_source(1)));
    assert!(!cache.add_endpoint(1, "again", test_source(1)));
    assert!(cache.add_endpoint(2, "two", test_source(2)));
    assert_eq!(cache.get(1).map(|e| e.0), Some("one"));
    assert_eq!(cache.remove_endpoint(None, &[1, 2]), None);
    assert_eq!(cache.remove_endpoint(None, &[2]), Some((1, test_source(1))));
    assert!(!cache.contains(1));
    assert_eq!(cache.remove_endpoint(Some(9), &[]), None);
    assert_eq!(cache.remove_endpoint(Some(2), &[]), Some((2, test_source(2))));
    assert!(cache.uids().is_empty());
}

#[test]
fn enumeration_prefers_live_ports_and_keeps_cached_ones() {
    let mut cache: EndpointCache<(), Source> = EndpointCache::new();
    cache.add_endpoint(1, (), Source::new(uid_to_id(1), "cached one".to_string(), false));
    cache.add_endpoint(3, (), test_source(3));
    let live = vec![test_source(1), test_source(2)];
    let mut listed = enumerate_with_cache(&live, &cache);
    listed.sort_by_key(|s| id_to_uid(&s.id()));
    assert_eq!(listed, vec![test_source(1), test_source(2), test_source(3)]);
}

#[test]
fn connect_destination_clears_stale_disconnected_flag() {
    let mut outputs: OutputStates<&str> = OutputStates::new();
    assert_eq!(
        outputs.resolve_output_state(5),
        Err(Error::Io(IoError::PortNotFound))
    );
    outputs.connect(5, "first");
    assert_eq!(outputs.resolve_output_state(5), Ok(&"first"));
    outputs.mark_disconnected(5);
    assert_eq!(
        outputs.resolve_output_state(5),
        Err(Error::Io(IoError::PortDisconnected))
    );
    assert!(outputs.is_connected(5));
    outputs.connect(5, "again");
    assert_eq!(outputs.resolve_output_state(5), Ok(&"again"));
    assert_eq!(outputs.disconnect(5), Some("again"));
    assert!(!outputs.is_connected(5));
    assert_eq!(outputs.disconnect(5), None);
}

#[test]
fn disconnected_mark_wins_over_missing_connection() {
    let mut outputs: OutputStates<()> = OutputStates::new();
    outputs.mark_disconnected(9);
    assert_eq!(
        outputs.resolve_output_state(9),
        Err(Error::Io(IoError::PortDisconnected))
    );
}

#[test]
fn removed_endpoint_hands_back_its_handlers() {
    let mut cache: EndpointCache<(), Source> = EndpointCache::new();
    let mut handlers: ClientHandlers<&str> = ClientHandlers::new();
    cache.add_endpoint(4, (), test_source(4));
    cache.add_endpoint(6, (), test_source(6));
    handlers.add(4, 1, "a");
    handlers.add(4, 2, "b");
    handlers.add(6, 1, "c");

    let (port, fns) = endpoint_removed(&mut cache, &mut handlers, None, &[6]).unwrap();
    assert_eq!(port, test_source(4));
    assert_eq!(fns, vec![(1, "a"), (2, "b")]);
    assert!(!handlers.contains_key(4));
    assert!(handlers.contains_key(6));

    assert!(endpoint_removed(&mut cache, &mut handlers, Some(4), &[]).is_none());
    let (port, fns) = endpoint_removed(&mut cache, &mut handlers, Some(6), &[]).unwrap();
    assert_eq!(port, test_source(6));
    assert_eq!(fns, vec![(1, "c")]);
}

#[test]
fn calibration_converts_current_time_accurately() {
    let cal = TimeCalibration {
        ref_host_time: 5_000,
        ref_instant: Instant::now(),
        numer: 1,
        denom: 1,
    };
    let ts = 5_000 + cal.ref_instant.elapsed().as_nanos() as u64;
    let after = Instant::now();
    let converted = cal.to_instant(ts);
    assert!(converted >= cal.ref_instant);
    assert!(converted <= after + std::time::Duration::from_millis(1));
}

#[test]
fn calibration_moves_earlier_timestamps_back() {
    let cal = TimeCalibration {
        ref_host_time: 10_000,
        ref_instant: Instant::now(),
        numer: 3,
        denom: 1,
    };
    assert_eq!(cal.to_instant(9_000), cal.ref_instant - std::time::Duration::from_nanos(3_000));
    assert_eq!(cal.to_instant(10_500), cal.ref_instant + std::time::Duration::from_nanos(1_500));
}

#[test]
fn settle_moment_falls_back_to_reference() {
    let reference = Instant::now();
    let later = reference + std::time::Duration::from_secs(1);
    assert_eq!(settle_moment(None, reference), reference);
    assert_eq!(settle_moment(Some(later), reference), later);
}

#[test]
fn admit_connection_uses_cache_then_live_endpoint() {
    let mut cache: EndpointCache<&str, Source> = EndpointCache::new();
    cache.add_endpoint(1, "cached", test_source(1));
    assert_eq!(
        admit_connection(true, &mut cache, 1, None),
        Err(Error::Io(IoError::AlreadyConnected))
    );
    assert_eq!(admit_connection(false, &mut cache, 1, None), Ok(None));
    assert_eq!(
        admit_connection(false, &mut cache, 2, None),
        Err(Error::Io(IoError::PortNotFound))
    );
    assert_eq!(
        admit_connection(false, &mut cache, 2, Some(("nameless", None))),
        Err(Error::Io(IoError::PortNotFound))
    );
    assert!(!cache.contains(2));
    assert_eq!(
        admit_connection(false, &mut cache, 2, Some(("live", Some(test_source(2))))),
        Ok(Some(test_source(2)))
    );
    assert_eq!(cache.get(2).map(|e| e.0), Some("live"));
    assert_eq!(
        admit_connection(false, &mut cache, 2, Some(("other", Some(test_source(2))))),
        Ok(None)
    );
}

#[test]
fn failed_connect_drops_the_clients_handler() {
    let mut handlers: ClientHandlers<&str> = ClientHandlers::new();
    handlers.add(3, 7, "mine");
    handlers.add(3, 8, "theirs");
    assert_eq!(
        connect_failed(&mut handlers, 3, 7, -50),
        Error::Io(IoError::Platform(PlatformError::Connect(-50)))
    );
    assert!(handlers.contains_key(3));
    assert_eq!(handlers.remove(3), Some(vec![(8, "theirs")]));
}

#[test]
fn virtual_port_creation_outcomes() {
    assert_eq!(
        virtual_port_created(Err(-10830)),
        Err(Error::Io(IoError::Platform(PlatformError::VirtualPortCreate(-10830))))
    );
    assert_eq!(
        virtual_port_created(Ok(None)),
        Err(Error::Io(IoError::PortNotFound))
    );
    assert_eq!(virtual_port_created(Ok(Some(-5))), Ok(uid_to_id(-5)));
}

#[test]
fn disconnecting_a_destination_forgets_connection_and_handlers() {
    let mut outputs: OutputStates<&str> = OutputStates::new();
    let mut handlers: ClientHandlers<&str> = ClientHandlers::new();
    outputs.connect(4, "port");
    outputs.mark_disconnected(4);
    handlers.add(4, 1, "mark");
    assert_eq!(disconnect_destination(&mut outputs, &mut handlers, 4, 1), Some("port"));
    assert!(!outputs.is_connected(4));
    assert!(!handlers.contains_key(4));
    assert_eq!(
        outputs.resolve_output_state(4),
        Err(Error::Io(IoError::PortNotFound))
    );
    assert_eq!(disconnect_destination(&mut outputs, &mut handlers, 4, 1), None);
}
