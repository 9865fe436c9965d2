use vstd::prelude::*;

verus! {

/// How handing a value to one of a connection's streams went.
#[derive(Debug, Clone, Copy, PartialEq, Eq, Structural)]
pub enum SendOutcome {
    /// The stream took the value.
    Sent,
    /// The stream was full; the value was dropped.
    Full,
    /// The stream's receiver is gone.
    Closed,
    /// Another thread held the stream; the value was dropped.
    Busy,
}

/// The count after an outcome, and the count to report, if any: a dropped
/// value is counted (wrapping around, as an atomic counter does); a value the
/// stream took is followed by a report when values were dropped before.
pub open spec fn step(count: usize, outcome: SendOutcome) -> (usize, Option<usize>) {
    match outcome {
        SendOutcome::Sent => (count, if count > 0 {
            Some(count)
        } else {
            None
        }),
        SendOutcome::Full | SendOutcome::Busy => (vstd::wrapping::usize_specs::wrapping_add(count, 1), None),
        SendOutcome::Closed => (count, None),
    }
}

/// The count after a sequence of outcomes, none of them `Sent`.
pub open spec fn count_after(count: usize, outcomes: Seq<SendOutcome>) -> usize
    decreases outcomes.len(),
{
    if outcomes.len() == 0 {
        count
    } else {
        step(count_after(count, outcomes.drop_last()), outcomes.last()).0
    }
}

/// The number of outcomes that dropped a value.
pub open spec fn drop_count(outcomes: Seq<SendOutcome>) -> nat
    decreases outcomes.len(),
{
    if outcomes.len() == 0 {
        0
    } else {
        drop_count(outcomes.drop_last()) + (if outcomes.last() is Full || outcomes.last() is Busy {
            1nat
        } else {
            0nat
        })
    }
}

/// Drops are coalesced into one report: from a count of zero, after a run of
/// outcomes that took no value and dropped `n` of them (fewer than the
/// counter can hold), the next value a stream takes brings a report of
/// exactly `n` when `n` is not zero, and none otherwise.
pub proof fn lemma_drops_coalesce(outcomes: Seq<SendOutcome>)
    requires
        forall|i: int| 0 <= i < outcomes.len() ==> !(#[trigger] outcomes[i] is Sent),
        drop_count(outcomes) <= usize::MAX,
    ensures
        count_after(0, outcomes) == drop_count(outcomes),
        step(count_after(0, outcomes), SendOutcome::Sent).1 == (if drop_count(outcomes) > 0 {
            Some(drop_count(outcomes) as usize)
        } else {
            None
        }),
    decreases outcomes.len(),
{
    if outcomes.len() > 0 {
        let init = outcomes.drop_last();
        assert forall|i: int| 0 <= i < init.len() implies !(#[trigger] init[i] is Sent) by {
            assert(init[i] == outcomes[i]);
        }
        assert(!(outcomes[outcomes.len() - 1] is Sent));
        lemma_drops_coalesce(init);
    }
}

/// Counts the messages and sysex a connection's streams dropped because they
/// were full, and decides when the count is reported on the error stream.
#[derive(Debug)]
pub struct OverflowCounter {
    dropped: usize,
}

impl OverflowCounter {
    /// The number of dropped values not yet reported.
    pub closed spec fn count(&self) -> usize {
        self.dropped
    }

    pub fn new() -> (r: OverflowCounter)
        ensures
            r.count() == 0,
    {
        OverflowCounter { dropped: 0 }
    }

    /// The number of dropped values not yet reported.
    pub fn dropped(&self) -> (r: usize)
        ensures
            r == self.count(),
    {
        self.dropped
    }

    /// Takes note of how handing a message or a sysex to its stream went.
    /// A dropped value is counted (the count wraps around, as an atomic
    /// counter does). When the stream took the value and values were dropped
    /// before, returns the count, which is now to be reported.
    pub fn record(&mut self, outcome: SendOutcome) -> (r: Option<usize>)
        ensures
            (final(self).count(), r) == step(old(self).count(), outcome),
    {
        match outcome {
            SendOutcome::Sent => {
                if self.dropped > 0 {
                    Some(self.dropped)
                } else {
                    None
                }
            },
            SendOutcome::Full | SendOutcome::Busy => {
                self.dropped = self.dropped.wrapping_add(1);
                None
            },
            SendOutcome::Closed => None,
        }
    }

    /// Takes note of whether the report of `reported` dropped values reached
    /// the error stream: if it did, they are no longer counted.
    pub fn report_done(&mut self, reported: usize, delivered: bool)
        ensures
            delivered ==> final(self).count() == vstd::wrapping::usize_specs::wrapping_sub(old(self).count(), reported),
            !delivered ==> final(self).count() == old(self).count(),
    {
        if delivered {
            self.dropped = self.dropped.wrapping_sub(reported);
        }
    }
}

} // verus!
