use std::time::Instant;

use midi_io::MidiMessage;
use midi_io::Timed;

#[test]
fn map_keeps_timestamp_and_transforms_payload() {
    let t = Timed {
        timestamp: Instant::now(),
        payload: 21u32,
    };
    let stamp = t.timestamp;
    let doubled = t.map(|v| v * 2);
    assert_eq!(doubled.timestamp, stamp);
    assert_eq!(doubled.payload, 42);
}

#[test]
fn cloned_timed_value_is_equal() {
    let t = Timed {
        timestamp: Instant::now(),
        payload: MidiMessage::Start,
    };
    let c = t.clone();
    assert_eq!(c.timestamp, t.timestamp);
    assert_eq!(c.payload, t.payload);
}
