//! The batched syncer: which flush makes which write durable.
//!
//! Every caller that has written takes a ticket and waits until its ticket
//! is durable. Flushes run one at a time. A flush covers exactly the tickets
//! that were handed out before it began, so a caller is never released by a
//! flush that was already in flight when its write returned, and all callers
//! that arrive during one flush share the next.

use vstd::prelude::*;

verus! {

/// The state of the syncer as mathematical values.
pub ghost struct SyncState {
    /// How many tickets were handed out.
    pub submitted: nat,
    /// The flush in flight covers the tickets below this number.
    pub flushing: Option<nat>,
    /// The tickets below this number are durable.
    pub durable: nat,
}

/// The state after one more ticket was handed out.
pub open spec fn after_submit(s: SyncState) -> SyncState {
    SyncState { submitted: s.submitted + 1, ..s }
}

/// The state after a flush was asked to begin: it begins, covering every
/// ticket handed out so far, unless one is in flight or nothing waits.
pub open spec fn after_begin(s: SyncState) -> SyncState {
    if s.flushing is None && s.durable < s.submitted {
        SyncState { flushing: Some(s.submitted), ..s }
    } else {
        s
    }
}

/// The state after the flush in flight, if any, completed.
pub open spec fn after_finish(s: SyncState) -> SyncState {
    match s.flushing {
        Some(covered) => SyncState { durable: covered, flushing: None, ..s },
        None => s,
    }
}

/// Durable tickets were handed out, and so were those a flush covers.
pub open spec fn sync_state_wf(s: SyncState) -> bool {
    &&& s.durable <= s.submitted
    &&& s.flushing matches Some(covered) ==> s.durable <= covered <= s.submitted
}

/// A flush that is in flight when a ticket is handed out does not make that
/// ticket durable.
pub proof fn lemma_flush_in_flight_does_not_release(s: SyncState)
    requires
        sync_state_wf(s),
        s.flushing is Some,
    ensures
        after_finish(after_submit(s)).durable <= s.submitted,
        !(s.submitted < after_finish(after_submit(s)).durable),
{
}

/// A flush that begins after a ticket was handed out makes it durable, and
/// with it every ticket handed out before the flush began.
pub proof fn lemma_next_flush_releases(s: SyncState, ticket: nat)
    requires
        sync_state_wf(s),
        s.flushing is None,
        ticket <= s.submitted,
    ensures
        ticket < after_finish(after_begin(after_submit(s))).durable,
        sync_state_wf(after_finish(after_begin(after_submit(s)))),
{
}

/// The batched syncer.
pub struct BatchSync {
    submitted: u64,
    flushing: Option<u64>,
    durable: u64,
}

impl View for BatchSync {
    type V = SyncState;

    closed spec fn view(&self) -> SyncState {
        SyncState {
            submitted: self.submitted as nat,
            flushing: match self.flushing {
                Some(covered) => Some(covered as nat),
                None => None,
            },
            durable: self.durable as nat,
        }
    }
}

impl BatchSync {
    /// The state is well formed and its counts fit their machine type.
    pub closed spec fn wf(&self) -> bool {
        sync_state_wf(self@)
    }

    /// A syncer with no ticket handed out.
    pub fn new() -> (sync: BatchSync)
        ensures
            sync.wf(),
            sync@ == (SyncState { submitted: 0, flushing: None, durable: 0 }),
    {
        BatchSync { submitted: 0, flushing: None, durable: 0 }
    }

    /// Hands out the ticket of a caller whose write has returned. The tag is
    /// ignored. `None`, with nothing changed, if and only if the tickets
    /// are used up.
    pub fn submit(&mut self, tag: u64) -> (ticket: Option<u64>)
        requires
            old(self).wf(),
        ensures
            final(self).wf(),
            ticket is Some == (old(self)@.submitted < u64::MAX),
            ticket matches Some(t) ==> t == old(self)@.submitted && final(self)@ == after_submit(
                old(self)@,
            ),
            ticket is None ==> final(self)@ == old(self)@,
    {
        if self.submitted == u64::MAX {
            return None;
        }
        let ticket = self.submitted;
        self.submitted = self.submitted + 1;
        Some(ticket)
    }

    /// Asks for a flush to begin, and says whether one did: the caller then
    /// flushes and calls `finish_flush`.
    pub fn begin_flush(&mut self) -> (began: bool)
        requires
            old(self).wf(),
        ensures
            final(self).wf(),
            final(self)@ == after_begin(old(self)@),
            began == (old(self)@.flushing is None && old(self)@.durable < old(self)@.submitted),
    {
        if self.flushing.is_none() && self.durable < self.submitted {
            self.flushing = Some(self.submitted);
            true
        } else {
            false
        }
    }

    /// Records that the flush in flight completed, and says whether there
    /// was one.
    pub fn finish_flush(&mut self) -> (finished: bool)
        requires
            old(self).wf(),
        ensures
            final(self).wf(),
            final(self)@ == after_finish(old(self)@),
            finished == old(self)@.flushing is Some,
    {
        match self.flushing {
            Some(covered) => {
                self.durable = covered;
                self.flushing = None;
                true
            },
            None => false,
        }
    }

    /// Whether the write behind `ticket` is durable.
    pub fn is_durable(&self, ticket: u64) -> (durable: bool)
        ensures
            durable == (ticket < self@.durable),
    {
        ticket < self.durable
    }
}

} // verus!
