//! The asynchronous dispatch path. A [`crate::SystemBridge::broadcast_async`]
//! call takes a snapshot of the event's listener sequence and hands back an
//! [`AsyncBroadcast`]: a step machine the host drives. The host asks for the
//! next listener to invoke, awaits the invocation, and reports whether it
//! completed or failed; a failure settles the whole dispatch at once and the
//! remaining listeners are never handed out.

use vstd::prelude::*;
use crate::events::CallbackId;
use crate::events::Payload;

verus! {

/// One in-flight asynchronous dispatch: a snapshot of the listener sequence
/// taken at call time, the payload, and how far the sequential invocation
/// has advanced. The queue, the policies and the merge table play no part
/// here, and registry changes made after the snapshot do not reach it.
#[derive(Clone)]
pub struct AsyncBroadcast {
    snapshot: Vec<CallbackId>,
    payload: Payload,
    invoked: usize,
    failed: bool,
}

impl AsyncBroadcast {
    /// The listener sequence captured when the dispatch began.
    pub closed spec fn snapshot(self) -> Seq<CallbackId> {
        self.snapshot@
    }

    /// The payload every snapshotted listener is invoked with.
    pub closed spec fn payload(self) -> Payload {
        self.payload
    }

    /// How many snapshotted listeners have been invoked so far.
    pub closed spec fn invoked_count(self) -> int {
        self.invoked as int
    }

    /// Whether some invocation has failed; a failed dispatch is settled and
    /// hands out no further listeners.
    pub closed spec fn has_failed(self) -> bool {
        self.failed
    }

    /// Well-formedness: never more invocations than snapshotted listeners.
    pub closed spec fn wf(self) -> bool {
        self.invoked <= self.snapshot@.len()
    }

    /// A dispatch is settled once an invocation has failed or every
    /// snapshotted listener has completed.
    pub open spec fn is_settled(self) -> bool {
        self.has_failed() || self.invoked_count() == self.snapshot().len()
    }

    /// A dispatch has succeeded when every snapshotted listener completed
    /// without failure.
    pub open spec fn succeeded(self) -> bool {
        !self.has_failed() && self.invoked_count() == self.snapshot().len()
    }

    /// Begins a dispatch over a listener snapshot.
    pub fn begin(snapshot: Vec<CallbackId>, payload: Payload) -> (d: AsyncBroadcast)
        ensures
            d.wf(),
            d.snapshot() == snapshot@,
            d.payload() == payload,
            d.invoked_count() == 0,
            !d.has_failed(),
    {
        AsyncBroadcast { snapshot, payload, invoked: 0, failed: false }
    }

    /// The next listener to invoke, with the payload — in snapshot order,
    /// strictly one at a time — or `None` once the dispatch is settled: all
    /// listeners done, or an earlier invocation failed.
    pub fn next_listener(&self) -> (r: Option<(CallbackId, Payload)>)
        requires
            self.wf(),
        ensures
            !self.is_settled() ==> r == Some(
                (self.snapshot()[self.invoked_count()], self.payload()),
            ),
            self.is_settled() ==> r is None,
    {
        if self.failed || self.invoked >= self.snapshot.len() {
            None
        } else {
            Some((self.snapshot[self.invoked], self.payload))
        }
    }

    /// Records the awaited outcome of the current listener's invocation:
    /// on success the dispatch advances to the next listener; on failure it
    /// settles at once, so the remaining listeners are never invoked.
    pub fn complete(&mut self, success: bool)
        requires
            old(self).wf(),
            !old(self).is_settled(),
        ensures
            final(self).wf(),
            final(self).snapshot() == old(self).snapshot(),
            final(self).payload() == old(self).payload(),
            final(self).invoked_count() == old(self).invoked_count() + 1,
            final(self).has_failed() == !success,
    {
        let n = self.snapshot.len();
        assert(self.invoked < n);
        self.invoked = self.invoked + 1;
        self.failed = !success;
    }

    /// How many snapshotted listeners there are, for the host's bookkeeping.
    pub fn snapshot_len(&self) -> (n: usize)
        ensures
            n == self.snapshot().len(),
    {
        self.snapshot.len()
    }

    /// Whether the dispatch is settled, as an executable query.
    pub fn settled(&self) -> (b: bool)
        requires
            self.wf(),
        ensures
            b == self.is_settled(),
    {
        self.failed || self.invoked >= self.snapshot.len()
    }

    /// Whether the dispatch succeeded, as an executable query.
    pub fn ok(&self) -> (b: bool)
        requires
            self.wf(),
        ensures
            b == self.succeeded(),
    {
        !self.failed && self.invoked >= self.snapshot.len()
    }
}

} // verus!
