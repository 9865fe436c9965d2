use midi_io::overflow::OverflowCounter;
use midi_io::overflow::SendOutcome;

#[test]
fn drops_are_coalesced_into_one_report() {
    let mut counter = OverflowCounter::new();
    for _ in 0..5 {
        assert_eq!(counter.record(SendOutcome::Full), None);
    }
    assert_eq!(counter.record(SendOutcome::Busy), None);
    assert_eq!(counter.record(SendOutcome::Closed), None);
    assert_eq!(counter.dropped(), 6);
    assert_eq!(counter.record(SendOutcome::Sent), Some(6));
    counter.report_done(6, true);
    assert_eq!(counter.dropped(), 0);
    assert_eq!(counter.record(SendOutcome::Sent), None);
}

#[test]
fn undelivered_report_keeps_the_count() {
    let mut counter = OverflowCounter::new();
    counter.record(SendOutcome::Full);
    assert_eq!(counter.record(SendOutcome::Sent), Some(1));
    counter.report_done(1, false);
    assert_eq!(counter.dropped(), 1);
    counter.record(SendOutcome::Full);
    assert_eq!(counter.record(SendOutcome::Sent), Some(2));
}

#[test]
fn steady_state_reports_nothing() {
    let mut counter = OverflowCounter::new();
    assert_eq!(counter.record(SendOutcome::Sent), None);
    assert_eq!(counter.record(SendOutcome::Sent), None);
    assert_eq!(counter.dropped(), 0);
}
