use std::time::Instant;

use futures_channel::mpsc;
use midi_io::overflow::OverflowCounter;
use midi_io::overflow::SendOutcome;
use midi_io::Error;
use midi_io::IoError;
use midi_io::MidiMessage;
use midi_io::Timed;

const INBOUND_CHANNEL_CAPACITY: usize = 1024;

/// A connection's message and error streams, with drops counted and reported
/// the way the backend does it.
struct Senders {
    message: mpsc::Sender<Timed<MidiMessage>>,
    error: mpsc::Sender<Timed<Error>>,
    overflow: OverflowCounter,
}

impl Senders {
    fn send_message(&mut self, timestamp: Instant, msg: MidiMessage) {
        let outcome = match self.message.try_send(Timed { timestamp, payload: msg }) {
            Ok(()) => SendOutcome::Sent,
            Err(e) if e.is_full() => SendOutcome::Full,
            Err(_) => SendOutcome::Closed,
        };
        if let Some(dropped) = self.overflow.record(outcome) {
            let delivered = self
                .error
                .try_send(Timed {
                    timestamp,
                    payload: IoError::InboundOverflow { dropped }.into(),
                })
                .is_ok();
            self.overflow.report_done(dropped, delivered);
        }
    }
}

fn channel() -> (
    Senders,
    mpsc::Receiver<Timed<MidiMessage>>,
    mpsc::Receiver<Timed<Error>>,
) {
    let (message, m) = mpsc::channel(INBOUND_CHANNEL_CAPACITY);
    let (error, e) = mpsc::channel(INBOUND_CHANNEL_CAPACITY);
    (
        Senders {
            message,
            error,
            overflow: OverflowCounter::new(),
        },
        m,
        e,
    )
}

#[test]
fn alsa_inbound_overflow_dropped_and_coalesced() {
    let (mut senders, mut m, mut e) = channel();
    let ts = Instant::now();

    for _ in 0..(INBOUND_CHANNEL_CAPACITY + 5) {
        senders.send_message(ts, MidiMessage::Reset);
    }

    for _ in 0..INBOUND_CHANNEL_CAPACITY {
        let _ = m.try_recv();
    }

    senders.send_message(ts, MidiMessage::Reset);

    let overflow = loop {
        match e.try_recv() {
            Ok(timed) => match &timed.payload {
                Error::Io(IoError::InboundOverflow { dropped }) => {
                    break *dropped;
                }
                _ => continue,
            },
            _ => {
                panic!("expected InboundOverflow error on stream");
            }
        }
    };
    assert!(
        (4..=5).contains(&overflow),
        "expected 4-5 dropped, got {}",
        overflow
    );
    assert_eq!(senders.overflow.dropped(), 0);
}

#[test]
fn alsa_inbound_steady_state_no_overflow() {
    let (mut senders, mut m, mut e) = channel();
    let ts = Instant::now();

    senders.send_message(ts, MidiMessage::Reset);
    let _ = m.try_recv();

    senders.send_message(ts, MidiMessage::Reset);
    let _ = m.try_recv();

    assert!(
        e.try_recv().is_err(),
        "no overflow should occur in steady state"
    );
}
