use vstd::prelude::*;

use crate::decode::decode;
use crate::decode::expected_len;
use crate::decode::spec_decode;
use crate::decode::spec_expected_len;
use crate::decode::spec_sysex_decode_error;
use crate::decode::sysex_decode_error;
use crate::decode::Decoded;
use crate::decode::DecodedView;
use crate::error::CodecError;
use crate::error::CodecErrorView;
use crate::error::Error;
use crate::error::ErrorView;
use crate::error::ParseError;
use crate::message::MidiMessage;
use crate::sys_ex::all_data_bytes;
use crate::sys_ex::spec_frame;
use crate::sys_ex::spec_from_wire;
use crate::sys_ex::SysEx;
use crate::sys_ex::MAX_SYSEX_BYTES;
use crate::sys_ex::ORPHAN_PREFIX_BYTES;

verus! {

/// What the stream parser reports for the bytes it was given.
#[derive(Debug, Clone, PartialEq, Eq)]
pub enum DecodedEvent {
    Message(MidiMessage),
    Sysex(SysEx),
    Error(Error),
}

/// The model of a [`DecodedEvent`].
pub enum EventView {
    Message(MidiMessage),
    Sysex(Seq<u8>),
    Error(ErrorView),
}

impl DecodedEvent {
    /// A copy of the event.
    pub(crate) fn clone_event(&self) -> (r: DecodedEvent)
        ensures
            r@ == self@,
    {
        match self {
            DecodedEvent::Message(m) => DecodedEvent::Message(*m),
            DecodedEvent::Sysex(s) => DecodedEvent::Sysex(s.clone()),
            DecodedEvent::Error(e) => DecodedEvent::Error(e.clone_error()),
        }
    }
}

impl View for DecodedEvent {
    type V = EventView;

    open spec fn view(&self) -> EventView {
        match self {
            DecodedEvent::Message(m) => EventView::Message(*m),
            DecodedEvent::Sysex(s) => EventView::Sysex(s@),
            DecodedEvent::Error(e) => EventView::Error(e@),
        }
    }
}

/// The models of a sequence of events.
pub open spec fn events_view(v: Seq<DecodedEvent>) -> Seq<EventView> {
    v.map_values(|e: DecodedEvent| e@)
}

/// The event reported for the outcome of decoding one packet.
pub open spec fn decoded_event(r: Result<DecodedView, CodecErrorView>) -> EventView {
    match r {
        Ok(DecodedView::Message(m)) => EventView::Message(m),
        Ok(DecodedView::SysEx(body)) => EventView::Sysex(body),
        Err(e) => EventView::Error(ErrorView::Codec(e)),
    }
}

/// The error event for a codec error.
pub open spec fn codec_event(e: CodecErrorView) -> EventView {
    EventView::Error(ErrorView::Codec(e))
}

/// How many data bytes follow `status` in a complete message.
pub open spec fn data_len(status: u8) -> int {
    match spec_expected_len(status) {
        Some(total) => total - 1,
        None => 0,
    }
}

/// The state of a [`StreamParser`].
pub struct ParserState {
    /// The last channel-voice status byte, reused by data bytes that follow
    /// without a status of their own.
    pub running_status: Option<u8>,
    /// A system-common status byte whose data bytes are still being collected.
    pub system_common_status: Option<u8>,
    /// The body of the sysex being collected.
    pub sysex_buf: Seq<u8>,
    /// A sysex start byte was seen and its end byte was not.
    pub in_sysex: bool,
    /// The sysex being collected grew too long and the rest of it is discarded.
    pub sysex_overflow: bool,
    /// Data bytes collected for the current status.
    pub pending: Seq<u8>,
    /// The first bytes of a run of data bytes that belong to no status.
    pub orphan_buf: Seq<u8>,
    /// How many bytes that run holds (saturating at `usize::MAX`).
    pub orphan_len: usize,
}

type Step = (ParserState, Seq<EventView>);

impl ParserState {
    /// The state of a new parser.
    pub open spec fn initial() -> ParserState {
        ParserState {
            running_status: None,
            system_common_status: None,
            sysex_buf: Seq::empty(),
            in_sysex: false,
            sysex_overflow: false,
            pending: Seq::empty(),
            orphan_buf: Seq::empty(),
            orphan_len: 0,
        }
    }

    /// The invariant every reachable parser state keeps.
    pub open spec fn wf(self) -> bool {
        &&& self.running_status matches Some(rs) ==> 0x80 <= rs < 0xF0
        &&& self.system_common_status matches Some(sc) ==> 0xF1 <= sc <= 0xF3
        &&& self.system_common_status matches Some(sc) ==> self.pending.len() < data_len(sc)
        &&& self.system_common_status is None ==> (self.running_status matches Some(rs)
            ==> self.pending.len() < data_len(rs))
        &&& (self.system_common_status is None && self.running_status is None) ==> self.pending.len() == 0
        &&& self.sysex_buf.len() <= MAX_SYSEX_BYTES
        &&& self.sysex_overflow ==> self.in_sysex && self.sysex_buf.len() == 0
        &&& self.in_sysex ==> self.running_status is None && self.system_common_status is None
            && self.pending.len() == 0
        &&& self.orphan_buf.len() <= ORPHAN_PREFIX_BYTES
    }

    /// Reports a pending run of orphaned data bytes, if there is one.
    pub open spec fn flush_orphans(self) -> Step {
        if self.orphan_len == 0 {
            (self, Seq::empty())
        } else {
            (
                ParserState { orphan_len: 0, orphan_buf: Seq::empty(), ..self },
                seq![
                    codec_event(
                        CodecErrorView::Parse {
                            reason: ParseError::OrphanedData { len: self.orphan_len },
                            bytes: self.orphan_buf,
                        },
                    ),
                ],
            )
        }
    }

    /// Adds one byte to the run of orphaned data bytes.
    pub open spec fn record_orphan(self, b: u8) -> ParserState {
        ParserState {
            orphan_buf: if self.orphan_buf.len() < ORPHAN_PREFIX_BYTES {
                self.orphan_buf.push(b)
            } else {
                self.orphan_buf
            },
            orphan_len: if self.orphan_len < usize::MAX {
                (self.orphan_len + 1) as usize
            } else {
                self.orphan_len
            },
            ..self
        }
    }

    /// Makes `status` the running status.
    pub open spec fn start_status(self, status: u8) -> ParserState {
        ParserState { pending: Seq::empty(), running_status: Some(status), ..self }
    }

    /// Abandons the sysex being collected; reports it unless it had overflowed.
    pub open spec fn abort_sysex(self) -> Step {
        if self.sysex_overflow {
            (ParserState { in_sysex: false, sysex_overflow: false, ..self }, Seq::empty())
        } else {
            (
                ParserState { in_sysex: false, sysex_buf: Seq::empty(), ..self },
                seq![
                    codec_event(
                        CodecErrorView::Parse {
                            reason: ParseError::UnterminatedSysex,
                            bytes: seq![0xF0u8] + self.sysex_buf,
                        },
                    ),
                ],
            )
        }
    }

    /// Handles a system-common status byte (0xF1 to 0xF7, but not 0xF0).
    pub open spec fn system_common(self, b: u8) -> Step {
        let s = ParserState {
            running_status: None,
            system_common_status: None,
            pending: Seq::empty(),
            ..self
        };
        if b == 0xF6 {
            (s, seq![EventView::Message(MidiMessage::TuneRequest)])
        } else if b <= 0xF3 {
            (ParserState { system_common_status: Some(b), ..s }, Seq::empty())
        } else {
            match spec_decode(seq![b]) {
                Err(e) => (s, seq![codec_event(e)]),
                Ok(_) => (s, Seq::empty()),
            }
        }
    }

    /// Handles a status byte between 0x80 and 0xF7 inside a sysex: the
    /// sysex is abandoned and the byte starts a message.
    pub open spec fn status_in_sysex(self, b: u8) -> Step {
        let (s1, e1) = self.abort_sysex();
        if b < 0xF0 {
            (s1.start_status(b), e1)
        } else {
            let (s2, e2) = s1.system_common(b);
            (s2, e1 + e2)
        }
    }

    /// Handles a byte between 0x00 and 0xF7 inside a sysex.
    pub open spec fn step_in_sysex(self, b: u8) -> Step {
        if b == 0xF7 {
            if self.sysex_overflow {
                (ParserState { in_sysex: false, sysex_overflow: false, ..self }, Seq::empty())
            } else {
                let wire = spec_frame(self.sysex_buf);
                let ev = match spec_from_wire(wire) {
                    Ok(body) => EventView::Sysex(body),
                    Err(e) => codec_event(spec_sysex_decode_error(e, wire)),
                };
                (ParserState { in_sysex: false, sysex_buf: Seq::empty(), ..self }, seq![ev])
            }
        } else if b >= 0x80 {
            self.status_in_sysex(b)
        } else if !self.sysex_overflow {
            if self.sysex_buf.len() + 1 > MAX_SYSEX_BYTES {
                (
                    ParserState { sysex_overflow: true, sysex_buf: Seq::empty(), ..self },
                    seq![
                        codec_event(
                            CodecErrorView::SysexTooLong {
                                len: (self.sysex_buf.len() + 1) as usize,
                                max: MAX_SYSEX_BYTES,
                            },
                        ),
                    ],
                )
            } else {
                (ParserState { sysex_buf: self.sysex_buf.push(b), ..self }, Seq::empty())
            }
        } else {
            (self, Seq::empty())
        }
    }

    /// Handles a status byte between 0x80 and 0xF7 outside a sysex.
    pub open spec fn step_status(self, b: u8) -> Step {
        if b == 0xF7 && self.orphan_len > 0 {
            self.record_orphan(b).flush_orphans()
        } else {
            let (s1, e1) = self.flush_orphans();
            if b < 0xF0 {
                (ParserState { system_common_status: None, ..s1 }.start_status(b), e1)
            } else {
                let (s2, e2) = s1.system_common(b);
                (s2, e1 + e2)
            }
        }
    }

    /// Handles a data byte outside a sysex.
    pub open spec fn step_data(self, b: u8) -> Step {
        if self.system_common_status is Some {
            let sc = self.system_common_status.unwrap();
            let pending = self.pending.push(b);
            if pending.len() == data_len(sc) {
                (
                    ParserState { pending: Seq::empty(), system_common_status: None, ..self },
                    seq![decoded_event(spec_decode(seq![sc] + pending))],
                )
            } else {
                (ParserState { pending, ..self }, Seq::empty())
            }
        } else if self.running_status is Some {
            let rs = self.running_status.unwrap();
            let pending = self.pending.push(b);
            if data_len(rs) > 0 && pending.len() == data_len(rs) {
                (
                    ParserState { pending: Seq::empty(), ..self },
                    seq![decoded_event(spec_decode(seq![rs] + pending))],
                )
            } else {
                (ParserState { pending, ..self }, Seq::empty())
            }
        } else {
            (self.record_orphan(b), Seq::empty())
        }
    }

    /// Every step keeps the invariant.
    pub proof fn lemma_step_wf(self, b: u8)
        requires
            self.wf(),
        ensures
            self.step(b).0.wf(),
    {
    }

    /// Consumes one byte: the next state and the events it reports, in order.
    pub open spec fn step(self, b: u8) -> Step {
        if b >= 0xF8 {
            (self, seq![decoded_event(spec_decode(seq![b]))])
        } else if b == 0xF0 {
            let (s1, e1) = self.flush_orphans();
            let (s2, e2) = if s1.in_sysex {
                s1.abort_sysex()
            } else {
                (s1, Seq::empty())
            };
            (
                ParserState {
                    in_sysex: true,
                    sysex_buf: Seq::empty(),
                    pending: Seq::empty(),
                    running_status: None,
                    system_common_status: None,
                    ..s2
                },
                e1 + e2,
            )
        } else if self.in_sysex {
            self.step_in_sysex(b)
        } else if b >= 0x80 {
            self.step_status(b)
        } else {
            self.step_data(b)
        }
    }
}

/// Consumes `bytes` in order: the final state and every event reported.
pub open spec fn run(s: ParserState, bytes: Seq<u8>) -> Step
    decreases bytes.len(),
{
    if bytes.len() == 0 {
        (s, Seq::empty())
    } else {
        let (s1, e1) = run(s, bytes.drop_last());
        let (s2, e2) = s1.step(bytes.last());
        (s2, e1 + e2)
    }
}

/// Appends one event.
fn emit(out: &mut Vec<DecodedEvent>, e: DecodedEvent)
    ensures
        events_view(final(out)@) == events_view(old(out)@).push(e@),
{
    out.push(e);
    assert(events_view(out@) =~= events_view(old(out)@).push(e@));
}

/// The event for the outcome of decoding one packet.
fn event_of(r: Result<Decoded, CodecError>) -> (e: DecodedEvent)
    ensures
        e@ == decoded_event(crate::decode::decode_result_view(r)),
{
    match r {
        Ok(Decoded::Message(m)) => DecodedEvent::Message(m),
        Ok(Decoded::SysEx(s)) => DecodedEvent::Sysex(s),
        Err(e) => DecodedEvent::Error(Error::Codec(e)),
    }
}

/// An incremental decoder for a MIDI byte stream that may arrive in arbitrary
/// packets: it keeps running status, collects system-common and sysex
/// messages across packets, lets realtime bytes through anywhere, and reports
/// malformed input as errors without losing synchronisation.
#[derive(Debug)]
pub struct StreamParser {
    core: ParserCore,
}

impl View for StreamParser {
    type V = ParserState;

    closed spec fn view(&self) -> ParserState {
        self.core@
    }
}

impl Default for StreamParser {
    fn default() -> (r: StreamParser)
        ensures
            r@ == ParserState::initial(),
    {
        StreamParser::new()
    }
}

impl StreamParser {
    /// Every parser keeps the parser invariant.
    #[verifier::type_invariant]
    spec fn inv(self) -> bool {
        self.core@.wf()
    }

    pub fn new() -> (r: StreamParser)
        ensures
            r@ == ParserState::initial(),
            r@.wf(),
    {
        StreamParser { core: ParserCore::new() }
    }

    /// Consumes `bytes` and returns the events they complete, in order.
    pub fn push(&mut self, bytes: &[u8]) -> (events: Vec<DecodedEvent>)
        ensures
            final(self)@.wf(),
            final(self)@ == run(old(self)@, bytes@).0,
            events_view(events@) == run(old(self)@, bytes@).1,
    {
        proof {
            use_type_invariant(&*self);
        }
        let mut core = ParserCore::new();
        std::mem::swap(&mut core, &mut self.core);
        let events = core.push(bytes);
        self.core = core;
        events
    }
}

/// The fields of a [`StreamParser`], which the parser's steps update one by
/// one.
#[derive(Debug)]
struct ParserCore {
    running_status: Option<u8>,
    system_common_status: Option<u8>,
    sysex_buf: Vec<u8>,
    in_sysex: bool,
    sysex_overflow: bool,
    pending: Vec<u8>,
    orphan_buf: Vec<u8>,
    orphan_len: usize,
}

impl View for ParserCore {
    type V = ParserState;

    closed spec fn view(&self) -> ParserState {
        ParserState {
            running_status: self.running_status,
            system_common_status: self.system_common_status,
            sysex_buf: self.sysex_buf@,
            in_sysex: self.in_sysex,
            sysex_overflow: self.sysex_overflow,
            pending: self.pending@,
            orphan_buf: self.orphan_buf@,
            orphan_len: self.orphan_len,
        }
    }
}

impl ParserCore {
    fn new() -> (r: ParserCore)
        ensures
            r@ == ParserState::initial(),
            r@.wf(),
    {
        ParserCore {
            running_status: None,
            system_common_status: None,
            sysex_buf: Vec::new(),
            in_sysex: false,
            sysex_overflow: false,
            pending: Vec::new(),
            orphan_buf: Vec::new(),
            orphan_len: 0,
        }
    }

    fn push(&mut self, bytes: &[u8]) -> (events: Vec<DecodedEvent>)
        requires
            old(self)@.wf(),
        ensures
            final(self)@.wf(),
            final(self)@ == run(old(self)@, bytes@).0,
            events_view(events@) == run(old(self)@, bytes@).1,
    {
        let mut out: Vec<DecodedEvent> = Vec::new();
        let mut i: usize = 0;
        proof {
            assert(bytes@.subrange(0, 0) =~= Seq::<u8>::empty());
            assert(events_view(out@) =~= Seq::<EventView>::empty());
        }
        while i < bytes.len()
            invariant
                i <= bytes@.len(),
                self@.wf(),
                self@ == run(old(self)@, bytes@.subrange(0, i as int)).0,
                events_view(out@) == run(old(self)@, bytes@.subrange(0, i as int)).1,
            decreases bytes@.len() - i,
        {
            let b = bytes[i];
            proof {
                let prefix = bytes@.subrange(0, i + 1);
                assert(prefix.drop_last() =~= bytes@.subrange(0, i as int));
                assert(prefix.last() == b);
            }
            self.push_byte(b, &mut out);
            i = i + 1;
        }
        assert(bytes@.subrange(0, i as int) =~= bytes@);
        out
    }

    fn push_byte(&mut self, b: u8, out: &mut Vec<DecodedEvent>)
        requires
            old(self)@.wf(),
        ensures
            final(self)@.wf(),
            final(self)@ == old(self)@.step(b).0,
            events_view(final(out)@) == events_view(old(out)@) + old(self)@.step(b).1,
    {
        proof {
            old(self)@.lemma_step_wf(b);
        }
        if b >= 0xF8 {
            let r = decode(&[b]);
            proof {
                assert([b]@ =~= seq![b]);
            }
            emit(out, event_of(r));
            assert(seq![decoded_event(spec_decode(seq![b]))] =~= Seq::empty().push(decoded_event(spec_decode(seq![b]))));
            return;
        }
        if b == 0xF0 {
            self.flush_orphans(out);
            if self.in_sysex {
                self.abort_sysex(out);
            }
            self.in_sysex = true;
            self.sysex_buf.clear();
            self.pending.clear();
            self.running_status = None;
            self.system_common_status = None;
            return;
        }
        if self.in_sysex {
            self.push_in_sysex(b, out);
            return;
        }
        if b >= 0x80 {
            self.push_status(b, out);
            return;
        }
        self.push_data(b, out);
    }

    fn push_in_sysex(&mut self, b: u8, out: &mut Vec<DecodedEvent>)
        requires
            old(self)@.wf(),
            old(self)@.in_sysex,
            b < 0xF8,
            b != 0xF0,
        ensures
            final(self)@ == old(self)@.step_in_sysex(b).0,
            events_view(final(out)@) == events_view(old(out)@) + old(self)@.step_in_sysex(b).1,
    {
        if b == 0xF7 {
            self.in_sysex = false;
            if self.sysex_overflow {
                self.sysex_overflow = false;
            } else {
                let mut body: Vec<u8> = Vec::new();
                std::mem::swap(&mut body, &mut self.sysex_buf);
                let mut wire: Vec<u8> = Vec::with_capacity(body.len() + 2);
                wire.push(0xF0);
                let mut j: usize = 0;
                while j < body.len()
                    invariant
                        j <= body@.len(),
                        wire@ == seq![0xF0u8] + body@.subrange(0, j as int),
                    decreases body@.len() - j,
                {
                    wire.push(body[j]);
                    assert(body@.subrange(0, j + 1) =~= body@.subrange(0, j as int).push(body@[j as int]));
                    j = j + 1;
                }
                wire.push(0xF7);
                assert(body@.subrange(0, j as int) =~= body@);
                assert(wire@ =~= spec_frame(body@));
                let ev = match SysEx::from_wire(wire.as_slice()) {
                    Ok(sysex) => DecodedEvent::Sysex(sysex),
                    Err(e) => DecodedEvent::Error(Error::Codec(sysex_decode_error(e, wire))),
                };
                emit(out, ev);
                assert(seq![ev@] =~= Seq::empty().push(ev@));
            }
            proof {
                assert(self@ =~= old(self)@.step_in_sysex(b).0);
            }
        } else if b >= 0x80 {
            self.abort_sysex(out);
            if b < 0xF0 {
                self.start_status(b);
            } else {
                self.system_common(b, out);
            }
        } else if !self.sysex_overflow {
            if self.sysex_buf.len() + 1 > MAX_SYSEX_BYTES {
                let len = self.sysex_buf.len() + 1;
                emit(out, DecodedEvent::Error(Error::Codec(CodecError::SysexTooLong { len, max: MAX_SYSEX_BYTES })));
                self.sysex_overflow = true;
                self.sysex_buf.clear();
                assert(self@ =~= old(self)@.step_in_sysex(b).0);
            } else {
                self.sysex_buf.push(b);
                assert(self@ =~= old(self)@.step_in_sysex(b).0);
            }
        }
    }

    fn push_status(&mut self, b: u8, out: &mut Vec<DecodedEvent>)
        requires
            old(self)@.wf(),
            !old(self)@.in_sysex,
            0x80 <= b < 0xF8,
            b != 0xF0,
        ensures
            final(self)@ == old(self)@.step_status(b).0,
            events_view(final(out)@) == events_view(old(out)@) + old(self)@.step_status(b).1,
    {
        if b == 0xF7 && self.orphan_len > 0 {
            self.record_orphan(b);
            self.flush_orphans(out);
            return;
        }
        self.flush_orphans(out);
        if b < 0xF0 {
            self.system_common_status = None;
            self.start_status(b);
        } else {
            self.system_common(b, out);
        }
    }

    fn push_data(&mut self, b: u8, out: &mut Vec<DecodedEvent>)
        requires
            old(self)@.wf(),
            !old(self)@.in_sysex,
            b < 0x80,
        ensures
            final(self)@ == old(self)@.step_data(b).0,
            events_view(final(out)@) == events_view(old(out)@) + old(self)@.step_data(b).1,
    {
        match self.system_common_status {
            Some(sc) => {
                self.pending.push(b);
                let needed = match expected_len(sc) {
                    Some(total) => total - 1,
                    None => 0,
                };
                if self.pending.len() == needed {
                    let packet = self.packet(sc);
                    self.pending.clear();
                    self.system_common_status = None;
                    emit(out, event_of(decode(packet.as_slice())));
                }
                proof {
                    assert(self@ =~= old(self)@.step_data(b).0);
                }
                return;
            },
            None => {},
        }
        match self.running_status {
            Some(status) => {
                self.pending.push(b);
                let needed = match expected_len(status) {
                    Some(total) => total - 1,
                    None => 0,
                };
                if needed > 0 && self.pending.len() == needed {
                    let packet = self.packet(status);
                    self.pending.clear();
                    emit(out, event_of(decode(packet.as_slice())));
                }
                proof {
                    assert(self@ =~= old(self)@.step_data(b).0);
                }
            },
            None => {
                self.record_orphan(b);
            },
        }
    }

    /// `status` followed by the pending data bytes.
    fn packet(&self, status: u8) -> (r: Vec<u8>)
        requires
            self.pending@.len() <= 2,
        ensures
            r@ == seq![status] + self.pending@,
    {
        let mut packet: Vec<u8> = Vec::with_capacity(self.pending.len() + 1);
        packet.push(status);
        let mut j: usize = 0;
        while j < self.pending.len()
            invariant
                j <= self.pending@.len(),
                packet@ == seq![status] + self.pending@.subrange(0, j as int),
            decreases self.pending@.len() - j,
        {
            packet.push(self.pending[j]);
            assert(self.pending@.subrange(0, j + 1) =~= self.pending@.subrange(0, j as int).push(self.pending@[j as int]));
            j = j + 1;
        }
        assert(self.pending@.subrange(0, j as int) =~= self.pending@);
        packet
    }

    fn record_orphan(&mut self, b: u8)
        ensures
            final(self)@ == old(self)@.record_orphan(b),
    {
        if self.orphan_buf.len() < ORPHAN_PREFIX_BYTES {
            self.orphan_buf.push(b);
        }
        if self.orphan_len < usize::MAX {
            self.orphan_len = self.orphan_len + 1;
        }
        assert(self@ =~= old(self)@.record_orphan(b));
    }

    fn flush_orphans(&mut self, out: &mut Vec<DecodedEvent>)
        ensures
            final(self)@ == old(self)@.flush_orphans().0,
            events_view(final(out)@) == events_view(old(out)@) + old(self)@.flush_orphans().1,
    {
        if self.orphan_len == 0 {
            assert(events_view(out@) =~= events_view(old(out)@) + Seq::<EventView>::empty());
            return;
        }
        let len = self.orphan_len;
        self.orphan_len = 0;
        let mut bytes: Vec<u8> = Vec::new();
        std::mem::swap(&mut bytes, &mut self.orphan_buf);
        let ev = DecodedEvent::Error(
            Error::Codec(CodecError::Parse { reason: ParseError::OrphanedData { len }, bytes }),
        );
        emit(out, ev);
        assert(seq![ev@] =~= Seq::empty().push(ev@));
        assert(self@ =~= old(self)@.flush_orphans().0);
    }

    fn start_status(&mut self, status: u8)
        ensures
            final(self)@ == old(self)@.start_status(status),
    {
        self.pending.clear();
        self.running_status = Some(status);
        assert(self@ =~= old(self)@.start_status(status));
    }

    fn abort_sysex(&mut self, out: &mut Vec<DecodedEvent>)
        ensures
            final(self)@ == old(self)@.abort_sysex().0,
            events_view(final(out)@) == events_view(old(out)@) + old(self)@.abort_sysex().1,
    {
        self.in_sysex = false;
        if self.sysex_overflow {
            self.sysex_overflow = false;
            assert(events_view(out@) =~= events_view(old(out)@) + Seq::<EventView>::empty());
            assert(self@ =~= old(self)@.abort_sysex().0);
            return;
        }
        let mut body: Vec<u8> = Vec::new();
        std::mem::swap(&mut body, &mut self.sysex_buf);
        let mut bytes: Vec<u8> = Vec::with_capacity(1);
        bytes.push(0xF0);
        let mut j: usize = 0;
        while j < body.len()
            invariant
                j <= body@.len(),
                bytes@ == seq![0xF0u8] + body@.subrange(0, j as int),
            decreases body@.len() - j,
        {
            bytes.push(body[j]);
            assert(body@.subrange(0, j + 1) =~= body@.subrange(0, j as int).push(body@[j as int]));
            j = j + 1;
        }
        assert(body@.subrange(0, j as int) =~= body@);
        let ev = DecodedEvent::Error(
            Error::Codec(CodecError::Parse { reason: ParseError::UnterminatedSysex, bytes }),
        );
        emit(out, ev);
        assert(seq![ev@] =~= Seq::empty().push(ev@));
        assert(self@ =~= old(self)@.abort_sysex().0);
    }

    fn system_common(&mut self, b: u8, out: &mut Vec<DecodedEvent>)
        requires
            0xF1 <= b <= 0xF7,
        ensures
            final(self)@ == old(self)@.system_common(b).0,
            events_view(final(out)@) == events_view(old(out)@) + old(self)@.system_common(b).1,
    {
        self.running_status = None;
        self.system_common_status = None;
        self.pending.clear();
        if b == 0xF6 {
            let ev = DecodedEvent::Message(MidiMessage::TuneRequest);
            emit(out, ev);
            assert(seq![ev@] =~= Seq::empty().push(ev@));
        } else if b <= 0xF3 {
            self.system_common_status = Some(b);
            assert(events_view(out@) =~= events_view(old(out)@) + Seq::<EventView>::empty());
        } else {
            let r = decode(&[b]);
            proof {
                assert([b]@ =~= seq![b]);
            }
            match r {
                Err(e) => {
                    let ev = DecodedEvent::Error(Error::Codec(e));
                    emit(out, ev);
                    assert(seq![ev@] =~= Seq::empty().push(ev@));
                },
                Ok(_) => {
                    assert(events_view(out@) =~= events_view(old(out)@) + Seq::<EventView>::empty());
                },
            }
        }
        assert(self@ =~= old(self)@.system_common(b).0);
    }
}

/// Feeding bytes in two packets is the same as feeding them in one: the
/// parser's outcome does not depend on where the input was split.
pub proof fn lemma_run_concat(s: ParserState, a: Seq<u8>, b: Seq<u8>)
    ensures
        run(s, a + b).0 == run(run(s, a).0, b).0,
        run(s, a + b).1 == run(s, a).1 + run(run(s, a).0, b).1,
    decreases b.len(),
{
    if b.len() == 0 {
        assert(a + b =~= a);
        assert(run(s, a).1 + Seq::<EventView>::empty() =~= run(s, a).1);
    } else {
        lemma_run_concat(s, a, b.drop_last());
        assert((a + b).drop_last() =~= a + b.drop_last());
        assert((a + b).last() == b.last());
        let mid = run(s, a).0;
        let (s1, e1) = run(mid, b.drop_last());
        let (s2, e2) = s1.step(b.last());
        assert(run(s, a).1 + (e1 + e2) =~= (run(s, a).1 + e1) + e2);
    }
}

/// A realtime byte (0xF8 and above) leaves the parser's state untouched and
/// reports at once what it decodes to, wherever it falls in the stream.
pub proof fn lemma_realtime_transparent(s: ParserState, a: Seq<u8>, b: u8, c: Seq<u8>)
    requires
        b >= 0xF8,
    ensures
        run(s, a + seq![b] + c).0 == run(s, a + c).0,
        run(s, a + seq![b] + c).1 == run(s, a).1 + seq![decoded_event(spec_decode(seq![b]))]
            + run(run(s, a).0, c).1,
{
    lemma_run_concat(s, a + seq![b], c);
    lemma_run_concat(s, a, seq![b]);
    lemma_run_concat(s, a, c);
    let mid = run(s, a).0;
    lemma_run_one(mid, b);
}

/// One byte run from a state.
proof fn lemma_run_one(s: ParserState, b: u8)
    ensures
        run(s, seq![b]) == s.step(b),
{
    let e = Seq::<u8>::empty();
    assert(run(s, e).0 == s);
    assert(run(s, e).1 == Seq::<EventView>::empty());
    assert(seq![b].drop_last() =~= e);
    assert(seq![b].last() == b);
    assert(Seq::<EventView>::empty() + s.step(b).1 =~= s.step(b).1);
}

/// Running `bytes` then `b`.
proof fn lemma_run_push(s: ParserState, bytes: Seq<u8>, b: u8)
    ensures
        run(s, bytes.push(b)).0 == run(s, bytes).0.step(b).0,
        run(s, bytes.push(b)).1 == run(s, bytes).1 + run(s, bytes).0.step(b).1,
{
    assert(bytes.push(b).drop_last() =~= bytes);
    assert(bytes.push(b).last() == b);
}

/// The state is outside a sysex and holds no orphaned bytes.
pub open spec fn idle(s: ParserState) -> bool {
    s.wf() && !s.in_sysex && s.orphan_len == 0
}

/// `w` is a complete message of a fixed-length status with 7-bit data bytes.
pub open spec fn complete_packet(w: Seq<u8>) -> bool {
    &&& w.len() >= 1
    &&& w[0] >= 0x80
    &&& w[0] != 0xF0
    &&& w[0] != 0xF7
    &&& spec_expected_len(w[0]) == Some(w.len() as usize)
    &&& forall|i: int| 1 <= i < w.len() ==> #[trigger] w[i] < 0x80
}

#[verifier::rlimit(30)]
proof fn lemma_packet_one(s: ParserState, w: Seq<u8>)
    requires
        idle(s),
        complete_packet(w),
        w.len() == 1,
    ensures
        run(s, w).1 == seq![decoded_event(spec_decode(w))],
{
    assert(w =~= seq![w[0]]);
    lemma_run_one(s, w[0]);
    let b = w[0];
    if b < 0xF8 {
        assert(b == 0xF6);
        assert(s.step(b).1 =~= Seq::<EventView>::empty() + seq![EventView::Message(MidiMessage::TuneRequest)]);
    }
}

#[verifier::rlimit(30)]
proof fn lemma_packet_two(s: ParserState, w: Seq<u8>)
    requires
        idle(s),
        complete_packet(w),
        w.len() == 2,
    ensures
        run(s, w).1 == seq![decoded_event(spec_decode(w))],
{
    assert(w =~= seq![w[0]].push(w[1]));
    assert(w[1] < 0x80);
    lemma_run_one(s, w[0]);
    lemma_run_push(s, seq![w[0]], w[1]);
    let s1 = s.step(w[0]).0;
    assert(s.step(w[0]).1 =~= Seq::<EventView>::empty());
    assert(s1.pending =~= Seq::<u8>::empty());
    assert(seq![w[0]] + s1.pending.push(w[1]) =~= w);
    assert(Seq::<EventView>::empty() + s1.step(w[1]).1 =~= s1.step(w[1]).1);
}

#[verifier::rlimit(40)]
proof fn lemma_packet_three(s: ParserState, w: Seq<u8>)
    requires
        idle(s),
        complete_packet(w),
        w.len() == 3,
    ensures
        run(s, w).1 == seq![decoded_event(spec_decode(w))],
{
    assert(w =~= seq![w[0]].push(w[1]).push(w[2]));
    assert(w[1] < 0x80);
    assert(w[2] < 0x80);
    lemma_run_one(s, w[0]);
    lemma_run_push(s, seq![w[0]], w[1]);
    lemma_run_push(s, seq![w[0]].push(w[1]), w[2]);
    let s1 = s.step(w[0]).0;
    let s2 = s1.step(w[1]).0;
    assert(s.step(w[0]).1 =~= Seq::<EventView>::empty());
    assert(s1.pending =~= Seq::<u8>::empty());
    assert(s1.step(w[1]).1 =~= Seq::<EventView>::empty());
    assert(s2.pending =~= seq![w[1]]);
    assert(seq![w[0]] + s2.pending.push(w[2]) =~= w);
    assert(Seq::<EventView>::empty() + Seq::<EventView>::empty() + s2.step(w[2]).1 =~= s2.step(w[2]).1);
}

/// A parser that is not inside a sysex and holds no orphaned bytes reports a
/// complete, well-formed message as exactly that message (a note-on with
/// velocity zero as the note-off it means).
pub proof fn lemma_message_from_idle(s: ParserState, m: MidiMessage)
    requires
        idle(s),
        m.wf(),
    ensures
        run(s, m.spec_wire()).1 == seq![EventView::Message(m.normalized())],
{
    crate::decode::lemma_message_roundtrip(m);
    crate::decode::lemma_wire_is_legal(m);
    let w = m.spec_wire();
    assert forall|i: int| 1 <= i < w.len() implies #[trigger] w[i] < 0x80 by {
        assert(w.subrange(1, w.len() as int)[i - 1] == w[i]);
    }
    assert(w[0] != 0xF0 && w[0] != 0xF7) by {
        assert(spec_expected_len(0xF0) is None);
        assert(spec_expected_len(0xF7) is None);
    }
    assert(complete_packet(w));
    if w.len() == 1 {
        lemma_packet_one(s, w);
    } else if w.len() == 2 {
        lemma_packet_two(s, w);
    } else {
        assert(w.len() == 3) by {
            assert(spec_expected_len(w[0]) matches Some(n) && n <= 3);
        }
        lemma_packet_three(s, w);
    }
}

/// After a sysex start byte and `k` body bytes, the parser is collecting
/// exactly those bytes and has reported nothing.
proof fn lemma_sysex_prefix(s: ParserState, body: Seq<u8>, k: int)
    requires
        idle(s),
        crate::sys_ex::valid_body(body),
        0 <= k <= body.len(),
    ensures
        run(s, seq![0xF0u8] + body.subrange(0, k)).0.in_sysex,
        !run(s, seq![0xF0u8] + body.subrange(0, k)).0.sysex_overflow,
        run(s, seq![0xF0u8] + body.subrange(0, k)).0.sysex_buf == body.subrange(0, k),
        run(s, seq![0xF0u8] + body.subrange(0, k)).1 == Seq::<EventView>::empty(),
    decreases k,
{
    if k == 0 {
        assert(seq![0xF0u8] + body.subrange(0, 0) =~= seq![0xF0u8]);
        lemma_run_one(s, 0xF0);
        assert(s.step(0xF0).1 =~= Seq::<EventView>::empty());
    } else {
        lemma_sysex_prefix(s, body, k - 1);
        let prev = seq![0xF0u8] + body.subrange(0, k - 1);
        assert(seq![0xF0u8] + body.subrange(0, k) =~= prev.push(body[k - 1]));
        lemma_run_push(s, prev, body[k - 1]);
        assert(body.subrange(0, k - 1).push(body[k - 1]) =~= body.subrange(0, k));
        assert(Seq::<EventView>::empty() + Seq::<EventView>::empty() =~= Seq::<EventView>::empty());
    }
}

/// A parser that is not inside a sysex and holds no orphaned bytes reports a
/// complete sysex frame of a valid body as exactly that sysex.
pub proof fn lemma_sysex_from_idle(s: ParserState, body: Seq<u8>)
    requires
        idle(s),
        crate::sys_ex::valid_body(body),
    ensures
        run(s, spec_frame(body)).1 == seq![EventView::Sysex(body)],
{
    lemma_sysex_prefix(s, body, body.len() as int);
    assert(body.subrange(0, body.len() as int) =~= body);
    let pre = seq![0xF0u8] + body;
    assert(spec_frame(body) =~= pre.push(0xF7));
    lemma_run_push(s, pre, 0xF7);
    SysEx::lemma_wire_roundtrip(body);
    assert(Seq::<EventView>::empty() + seq![EventView::Sysex(body)] =~= seq![EventView::Sysex(body)]);
}

/// A state collecting data bytes for a running channel-voice status, with
/// nothing pending yet, outside a sysex and with no orphaned bytes.
pub open spec fn awaiting_running_data(s: ParserState) -> bool {
    &&& idle(s)
    &&& s.system_common_status is None
    &&& s.running_status is Some
    &&& s.pending.len() == 0
}

/// Every byte of `d` is a data byte.
pub open spec fn data_bytes(d: Seq<u8>) -> bool {
    forall|i: int| 0 <= i < d.len() ==> #[trigger] d[i] < 0x80
}

/// Running status: while a channel-voice status runs, each group of as many
/// data bytes as that status takes reports exactly the message of that status
/// with those bytes, and leaves the parser as it was, so the status keeps
/// running for the next group, whatever the length of its messages.
#[verifier::rlimit(40)]
pub proof fn lemma_running_status_group(s: ParserState, d: Seq<u8>)
    requires
        awaiting_running_data(s),
        d.len() == data_len(s.running_status.unwrap()),
        data_bytes(d),
    ensures
        run(s, d).0 == s,
        run(s, d).1 == seq![decoded_event(spec_decode(seq![s.running_status.unwrap()] + d))],
{
    let rs = s.running_status.unwrap();
    assert(d.len() == 1 || d.len() == 2);
    assert(d[0] < 0x80);
    if d.len() == 1 {
        assert(d =~= seq![d[0]]);
        lemma_run_one(s, d[0]);
        assert(s.pending.push(d[0]) =~= seq![d[0]]);
        assert(seq![rs] + s.pending.push(d[0]) =~= seq![rs] + d);
        assert(ParserState { pending: Seq::empty(), ..s } == s) by {
            assert(s.pending =~= Seq::<u8>::empty());
        }
    } else {
        assert(d[1] < 0x80);
        assert(d =~= seq![d[0]].push(d[1]));
        lemma_run_one(s, d[0]);
        lemma_run_push(s, seq![d[0]], d[1]);
        let s1 = s.step(d[0]).0;
        assert(s.pending.push(d[0]) =~= seq![d[0]]);
        assert(s.step(d[0]).1 =~= Seq::<EventView>::empty());
        assert(s1.pending =~= seq![d[0]]);
        assert(s1.pending.push(d[1]) =~= d);
        assert(ParserState { pending: Seq::empty(), ..s1 } == s) by {
            assert(s.pending =~= Seq::<u8>::empty());
        }
        assert(Seq::<EventView>::empty() + s1.step(d[1]).1 =~= s1.step(d[1]).1);
    }
}

/// The messages that groups of data bytes under the running status `rs`
/// stand for, one per group.
pub open spec fn running_messages(rs: u8, groups: Seq<Seq<u8>>) -> Seq<EventView> {
    groups.map_values(|g: Seq<u8>| decoded_event(spec_decode(seq![rs] + g)))
}

/// Each group is as long as the messages of `rs` and holds only data bytes.
pub open spec fn running_groups(rs: u8, groups: Seq<Seq<u8>>) -> bool {
    forall|i: int| 0 <= i < groups.len() ==> (#[trigger] groups[i]).len() == data_len(rs) && data_bytes(groups[i])
}

/// While a channel-voice status runs, any number of groups of data bytes
/// report one message per group, in order, and leave the parser as it was.
pub proof fn lemma_running_status_groups(s: ParserState, groups: Seq<Seq<u8>>)
    requires
        awaiting_running_data(s),
        running_groups(s.running_status.unwrap(), groups),
    ensures
        run(s, groups.flatten()).0 == s,
        run(s, groups.flatten()).1 == running_messages(s.running_status.unwrap(), groups),
    decreases groups.len(),
{
    let rs = s.running_status.unwrap();
    if groups.len() == 0 {
        assert(running_messages(rs, groups) =~= Seq::<EventView>::empty());
    } else {
        let g = groups.first();
        let rest = groups.drop_first();
        assert(g == groups[0]);
        assert(running_groups(rs, rest)) by {
            assert forall|i: int| 0 <= i < rest.len() implies (#[trigger] rest[i]).len() == data_len(rs) && data_bytes(
                rest[i],
            ) by {
                assert(rest[i] == groups[i + 1]);
            }
        }
        lemma_running_status_group(s, g);
        lemma_running_status_groups(s, rest);
        lemma_run_concat(s, g, rest.flatten());
        assert(groups.flatten() == g + rest.flatten());
        assert(running_messages(rs, groups) =~= seq![decoded_event(spec_decode(seq![rs] + g))] + running_messages(
            rs,
            rest,
        ));
    }
}

/// A channel-voice status byte followed by k groups of as many data bytes as
/// its messages take reports k messages, one per group, each that status with
/// its group: the status keeps running over every group.
pub proof fn lemma_status_then_groups(s: ParserState, rs: u8, groups: Seq<Seq<u8>>)
    requires
        idle(s),
        0x80 <= rs < 0xF0,
        running_groups(rs, groups),
    ensures
        run(s, seq![rs] + groups.flatten()).1 == running_messages(rs, groups),
{
    lemma_run_one(s, rs);
    lemma_run_concat(s, seq![rs], groups.flatten());
    let t = s.step(rs).0;
    assert(s.step(rs).1 =~= Seq::<EventView>::empty());
    assert(t.pending =~= Seq::<u8>::empty());
    assert(awaiting_running_data(t));
    assert(t.running_status == Some(rs));
    lemma_running_status_groups(t, groups);
    assert(Seq::<EventView>::empty() + running_messages(rs, groups) =~= running_messages(rs, groups));
}

} // verus!
