use vstd::prelude::*;

use crate::blob::{Blob, BlobModel};

verus! {

/// The fixed number of upload rounds a batch may use before giving up.
pub const ATTEMPT_LIMIT: u32 = 3;

/// Mathematical value of a [`BatchState`]: the blobs still pending and the
/// number of rounds begun so far.
pub struct BatchModel {
    pub pending: Seq<BlobModel>,
    pub attempts: nat,
}

/// What the batch does once every write of a round has resolved.
#[derive(Clone, Copy, Debug, PartialEq, Eq, Structural)]
pub enum RoundDecision {
    /// Nothing is pending any more: the batch is done.
    AllWritten,
    /// Some writes failed and rounds are left: dispatch the pending set again.
    Retry,
    /// Some writes failed and the attempt limit is reached: give up, carrying
    /// the number of blobs that remain unwritten.
    RetryExhausted { unwritten: usize },
}

/// The decision the round loop takes in state `m`: success on an empty
/// pending set, exhaustion once the attempt limit is reached, a retry
/// otherwise.
pub open spec fn decision_of(m: BatchModel) -> RoundDecision {
    if m.pending.len() == 0 {
        RoundDecision::AllWritten
    } else if m.attempts >= ATTEMPT_LIMIT {
        RoundDecision::RetryExhausted { unwritten: m.pending.len() as usize }
    } else {
        RoundDecision::Retry
    }
}

/// The state of one batch-upload call between steps of the round loop: the
/// blobs that still need a (re)write, and how many rounds have begun.
///
/// The caller drives the loop: [`BatchState::begin_round`] hands out the
/// pending set for dispatch, each failed write comes back through
/// [`BatchState::record_failure`], and [`BatchState::round_decision`] then
/// says whether to stop or go round again. A write failure is absorbed here
/// by re-queuing the blob; it never aborts the round.
pub struct BatchState {
    pending: Vec<Blob>,
    attempts: u32,
}

impl View for BatchState {
    type V = BatchModel;

    closed spec fn view(&self) -> BatchModel {
        BatchModel { pending: self.pending.deep_view(), attempts: self.attempts as nat }
    }
}

impl BatchState {
    /// Accepts the batch: every blob is pending and no round has begun.
    pub fn new(blobs: Vec<Blob>) -> (s: BatchState)
        ensures
            s@.pending == blobs.deep_view(),
            s@.attempts == 0,
    {
        BatchState { pending: blobs, attempts: 0 }
    }

    /// Begins the next round: counts the attempt and hands the whole pending
    /// set over, to be dispatched as one concurrent write per blob. The
    /// failures the caller records before asking for the round's decision
    /// form the next pending set.
    pub fn begin_round(&mut self) -> (to_send: Vec<Blob>)
        requires
            old(self)@.attempts < ATTEMPT_LIMIT,
        ensures
            to_send.deep_view() == old(self)@.pending,
            final(self)@.pending == Seq::<BlobModel>::empty(),
            final(self)@.attempts == old(self)@.attempts + 1,
    {
        let mut sent: Vec<Blob> = Vec::new();
        core::mem::swap(&mut sent, &mut self.pending);
        self.attempts = self.attempts + 1;
        proof {
            assert(self.pending.deep_view() =~= Seq::<BlobModel>::empty());
        }
        sent
    }

    /// Records one failed write: the blob joins the pending set of the next
    /// round. Completions may be recorded in whatever order they arrive; the
    /// order never changes the outcome (see
    /// [`crate::model::lemma_order_independent`]).
    pub fn record_failure(&mut self, blob: Blob)
        ensures
            final(self)@.pending == old(self)@.pending.push(blob@),
            final(self)@.attempts == old(self)@.attempts,
    {
        self.pending.push(blob);
        proof {
            assert(self.pending.deep_view() =~= old(self).pending.deep_view().push(blob@));
        }
    }

    /// The decision once every write of the current round has resolved and
    /// every failure has been recorded.
    pub fn round_decision(&self) -> (d: RoundDecision)
        ensures
            d == decision_of(self@),
    {
        if self.pending.len() == 0 {
            RoundDecision::AllWritten
        } else if self.attempts >= ATTEMPT_LIMIT {
            RoundDecision::RetryExhausted { unwritten: self.pending.len() }
        } else {
            RoundDecision::Retry
        }
    }

    /// How many blobs still await a successful write.
    pub fn pending_count(&self) -> (n: usize)
        ensures
            n == self@.pending.len(),
    {
        self.pending.len()
    }

    /// How many rounds have begun.
    pub fn attempts(&self) -> (n: u32)
        ensures
            n == self@.attempts,
    {
        self.attempts
    }
}

} // verus!
