//! The event bus itself: a listener registry, a bounded delivery queue per
//! event, debounce and throttle policy state, and a merge table, all driven
//! by the dispatch operations.
//!
//! The bus is a pure state machine. Every operation that in a running system
//! would invoke listeners or touch the host's timer returns the work as
//! values: a sequence of [`Delivery`] records to perform and a sequence of
//! [`TimerCmd`] commands to hand to the timer capability. Timer firings come
//! back through [`SystemBridge::on_postpone_fired`] and
//! [`SystemBridge::on_pace_fired`] under the token the bus chose when it
//! scheduled them.

use vstd::prelude::*;
use vstd::hash_map::StringHashMap;
use crate::events::CallbackId;
use crate::events::Payload;
use crate::events::Delivery;
use crate::events::TimerCmd;
use crate::events::DispatchOutcome;
use crate::events::BridgeError;
use crate::dispatch::AsyncBroadcast;
use crate::model::PostponeState;
use crate::model::PaceState;
use crate::model::MergeEntry;
use crate::model::push_evict;
use crate::model::remove_all;
use crate::model::filter_kept;
use crate::model::pairs_for;
use crate::model::deliveries_for;
use crate::model::probe;
use crate::model::probe_from;
use crate::model::resolve;
use crate::model::resolve_merge;
use crate::model::lemma_remove_all_push;
use crate::model::lemma_filter_kept_push;
use crate::model::lemma_deliveries_push;

verus! {

/// The event bus. One instance owns, per event name, the ordered listener
/// sequence, the bounded payload queue, and the optional debounce and
/// throttle states, plus the bus-wide merge table and queue capacity.
pub struct SystemBridge {
    listeners: StringHashMap<Vec<CallbackId>>,
    queues: StringHashMap<Vec<Payload>>,
    queue_limit: usize,
    postpone_registry: StringHashMap<PostponeState>,
    pace_registry: StringHashMap<PaceState>,
    combined_streams: Vec<MergeEntry>,
    next_timer_token: u64,
}

/// A pending timer token, when present, lies below `bound`.
pub open spec fn pending_below(t: Option<u64>, bound: u64) -> bool {
    t matches Some(tok) ==> tok < bound
}

impl SystemBridge {
    /// The listener sequence of `evt`; an event never subscribed to has the
    /// empty sequence (absence and emptiness are not distinguished).
    pub closed spec fn listeners_at(self, evt: Seq<char>) -> Seq<CallbackId> {
        if self.listeners@.contains_key(evt) {
            self.listeners@[evt]@
        } else {
            Seq::empty()
        }
    }

    /// The pending payload queue of `evt`, oldest first; an event never
    /// broadcast to has the empty queue.
    pub closed spec fn queue_at(self, evt: Seq<char>) -> Seq<Payload> {
        if self.queues@.contains_key(evt) {
            self.queues@[evt]@
        } else {
            Seq::empty()
        }
    }

    /// The debounce state of `evt`, if that policy was configured for it.
    pub closed spec fn postpone_at(self, evt: Seq<char>) -> Option<PostponeState> {
        if self.postpone_registry@.contains_key(evt) {
            Some(self.postpone_registry@[evt])
        } else {
            None
        }
    }

    /// The throttle state of `evt`, if that policy was configured for it.
    pub closed spec fn pace_at(self, evt: Seq<char>) -> Option<PaceState> {
        if self.pace_registry@.contains_key(evt) {
            Some(self.pace_registry@[evt])
        } else {
            None
        }
    }

    /// The merge table, in insertion order.
    pub closed spec fn merge_entries(self) -> Seq<MergeEntry> {
        self.combined_streams@
    }

    /// The queue capacity shared by every event's queue.
    pub closed spec fn capacity(self) -> usize {
        self.queue_limit
    }

    /// The next timer token the bus will hand out. Tokens are consumed in
    /// increasing order, so every pending token lies below the cursor.
    pub closed spec fn timer_cursor(self) -> u64 {
        self.next_timer_token
    }

    /// Well-formedness: the capacity is positive, no queue exceeds it, and
    /// every pending timer token lies below the token cursor.
    pub closed spec fn wf(self) -> bool {
        &&& self.queue_limit >= 1
        &&& forall|k: Seq<char>|
            #[trigger] self.queues@.contains_key(k) ==> self.queues@[k]@.len()
                <= self.queue_limit
        &&& forall|k: Seq<char>|
            #[trigger] self.postpone_registry@.contains_key(k) ==> pending_below(
                self.postpone_registry@[k].timer,
                self.next_timer_token,
            )
        &&& forall|k: Seq<char>|
            #[trigger] self.pace_registry@.contains_key(k) ==> pending_below(
                self.pace_registry@[k].timer,
                self.next_timer_token,
            )
    }

    /// Creates a bus with the given shared queue capacity. A zero capacity
    /// is rejected with a configuration error; otherwise the bus starts with
    /// no listeners, no queued payloads, no policies and no merge entries.
    pub fn new(capacity: usize) -> (r: Result<SystemBridge, BridgeError>)
        ensures
            capacity == 0 ==> r == Err::<SystemBridge, BridgeError>(BridgeError::Configuration),
            capacity >= 1 ==> (r matches Ok(bridge) && {
                &&& bridge.wf()
                &&& bridge.capacity() == capacity
                &&& bridge.timer_cursor() == 0
                &&& forall|k: Seq<char>| bridge.listeners_at(k) == Seq::<CallbackId>::empty()
                &&& forall|k: Seq<char>| bridge.queue_at(k) == Seq::<Payload>::empty()
                &&& forall|k: Seq<char>| bridge.postpone_at(k) is None
                &&& forall|k: Seq<char>| bridge.pace_at(k) is None
                &&& bridge.merge_entries() == Seq::<MergeEntry>::empty()
            }),
    {
        if capacity == 0 {
            Err(BridgeError::Configuration)
        } else {
            Ok(SystemBridge {
                listeners: StringHashMap::new(),
                queues: StringHashMap::new(),
                queue_limit: capacity,
                postpone_registry: StringHashMap::new(),
                pace_registry: StringHashMap::new(),
                combined_streams: Vec::new(),
                next_timer_token: 0,
            })
        }
    }

    /// Appends `callback` to the listener sequence of `evt`, creating the
    /// entry on first subscription; duplicates are kept.
    pub fn add_listener(&mut self, evt: String, callback: CallbackId)
        requires
            old(self).wf(),
        ensures
            final(self).wf(),
            final(self).listeners_at(evt@) == old(self).listeners_at(evt@).push(callback),
            forall|k: Seq<char>|
                k != evt@ ==> final(self).listeners_at(k) == old(self).listeners_at(k),
            same_queues(*old(self), *final(self)),
            same_policies(*old(self), *final(self)),
            same_config(*old(self), *final(self)),
    {
        let mut entry: Vec<CallbackId> = match self.listeners.get(evt.as_str()) {
            Some(v) => copy_callbacks(v),
            None => Vec::new(),
        };
        entry.push(callback);
        self.listeners.insert(evt, entry);
    }

    /// Removes every listener of `evt` identity-equal to `callback`; a no-op
    /// when the event has no entry or no match.
    pub fn remove_listener(&mut self, evt: String, callback: CallbackId)
        requires
            old(self).wf(),
        ensures
            final(self).wf(),
            final(self).listeners_at(evt@) == remove_all(old(self).listeners_at(evt@), callback),
            forall|k: Seq<char>|
                k != evt@ ==> final(self).listeners_at(k) == old(self).listeners_at(k),
            same_queues(*old(self), *final(self)),
            same_policies(*old(self), *final(self)),
            same_config(*old(self), *final(self)),
    {
        let current: Option<Vec<CallbackId>> = match self.listeners.get(evt.as_str()) {
            Some(v) => Some(copy_callbacks(v)),
            None => None,
        };
        match current {
            Some(v) => {
                let ghost all = v@;
                let mut kept: Vec<CallbackId> = Vec::new();
                let mut i: usize = 0;
                assert(all.take(0) =~= Seq::<CallbackId>::empty());
                while i < v.len()
                    invariant
                        i <= v.len(),
                        v@ == all,
                        kept@ == remove_all(all.take(i as int), callback),
                    decreases v.len() - i,
                {
                    proof {
                        assert(all.take(i + 1) =~= all.take(i as int).push(all[i as int]));
                        lemma_remove_all_push(all.take(i as int), all[i as int], callback);
                    }
                    if v[i] != callback {
                        kept.push(v[i]);
                    }
                    i = i + 1;
                }
                assert(all.take(v.len() as int) =~= all);
                self.listeners.insert(evt, kept);
            },
            None => {
                assert(remove_all(Seq::<CallbackId>::empty(), callback)
                    == Seq::<CallbackId>::empty());
            },
        }
    }

    /// Truncates the listener sequence of `evt` to its first `limit`
    /// listeners by registration order; the tail is dropped, order is kept.
    pub fn pick(&mut self, evt: String, limit: u32)
        requires
            old(self).wf(),
        ensures
            final(self).wf(),
            final(self).listeners_at(evt@) == if limit as int <= old(self).listeners_at(
                evt@,
            ).len() {
                old(self).listeners_at(evt@).take(limit as int)
            } else {
                old(self).listeners_at(evt@)
            },
            forall|k: Seq<char>|
                k != evt@ ==> final(self).listeners_at(k) == old(self).listeners_at(k),
            same_queues(*old(self), *final(self)),
            same_policies(*old(self), *final(self)),
            same_config(*old(self), *final(self)),
    {
        let current: Option<Vec<CallbackId>> = match self.listeners.get(evt.as_str()) {
            Some(v) => Some(copy_callbacks(v)),
            None => None,
        };
        match current {
            Some(mut v) => {
                if limit as usize <= v.len() {
                    v.truncate(limit as usize);
                    assert(v@ == old(self).listeners_at(evt@).take(limit as int));
                }
                self.listeners.insert(evt, v);
            },
            None => {},
        }
    }

    /// Replaces the listener sequence of `evt` with `mapped`, the host's
    /// mapping of each existing listener to one new listener, in order. The
    /// host obtains the current sequence with [`Self::listeners_of`], applies
    /// its mapping callable to every element, and hands the results in here;
    /// if the mapping fails on any element the host makes no call, so the
    /// registry — this event's entry included — is left intact.
    pub fn transform(&mut self, evt: String, mapped: Vec<CallbackId>)
        requires
            old(self).wf(),
            mapped@.len() == old(self).listeners_at(evt@).len(),
        ensures
            final(self).wf(),
            final(self).listeners_at(evt@) == mapped@,
            forall|k: Seq<char>|
                k != evt@ ==> final(self).listeners_at(k) == old(self).listeners_at(k),
            same_queues(*old(self), *final(self)),
            same_policies(*old(self), *final(self)),
            same_config(*old(self), *final(self)),
    {
        let had_entry = match self.listeners.get(evt.as_str()) {
            Some(_) => true,
            None => false,
        };
        if had_entry {
            self.listeners.insert(evt, mapped);
        } else {
            assert(mapped@ =~= Seq::<CallbackId>::empty());
        }
    }

    /// Keeps only the listeners of `evt` whose keep flag holds, in order.
    /// The host evaluates its predicate callable on each element of
    /// [`Self::listeners_of`] and hands the flags in here; a predicate
    /// failure counts as `false` (the listener is dropped), never an error.
    pub fn conditional_filter(&mut self, evt: String, keep: Vec<bool>)
        requires
            old(self).wf(),
            keep@.len() == old(self).listeners_at(evt@).len(),
        ensures
            final(self).wf(),
            final(self).listeners_at(evt@) == filter_kept(old(self).listeners_at(evt@), keep@),
            forall|k: Seq<char>|
                k != evt@ ==> final(self).listeners_at(k) == old(self).listeners_at(k),
            same_queues(*old(self), *final(self)),
            same_policies(*old(self), *final(self)),
            same_config(*old(self), *final(self)),
    {
        let current: Option<Vec<CallbackId>> = match self.listeners.get(evt.as_str()) {
            Some(v) => Some(copy_callbacks(v)),
            None => None,
        };
        match current {
            Some(v) => {
                let ghost all = v@;
                let mut kept_cbs: Vec<CallbackId> = Vec::new();
                let mut i: usize = 0;
                assert(all.take(0) =~= Seq::<CallbackId>::empty());
                assert(keep@.take(0) =~= Seq::<bool>::empty());
                while i < v.len()
                    invariant
                        i <= v.len(),
                        v@ == all,
                        keep@.len() == all.len(),
                        kept_cbs@ == filter_kept(all.take(i as int), keep@.take(i as int)),
                    decreases v.len() - i,
                {
                    proof {
                        assert(all.take(i + 1) =~= all.take(i as int).push(all[i as int]));
                        assert(keep@.take(i + 1) =~= keep@.take(i as int).push(keep@[i as int]));
                        lemma_filter_kept_push(
                            all.take(i as int),
                            keep@.take(i as int),
                            all[i as int],
                            keep@[i as int],
                        );
                    }
                    if keep[i] {
                        kept_cbs.push(v[i]);
                    }
                    i = i + 1;
                }
                assert(all.take(v.len() as int) =~= all);
                assert(keep@.take(v.len() as int) =~= keep@);
                self.listeners.insert(evt, kept_cbs);
            },
            None => {
                assert(filter_kept(Seq::<CallbackId>::empty(), keep@)
                    == Seq::<CallbackId>::empty());
            },
        }
    }

    /// Installs a merge entry: broadcasts under `evt_a` or `evt_b` are
    /// redirected to `target`. Entries are kept in insertion order and
    /// resolution takes the first entry whose source pair contains the
    /// broadcast event, so earlier entries take priority.
    pub fn unify(&mut self, evt_a: String, evt_b: String, target: String)
        requires
            old(self).wf(),
        ensures
            final(self).wf(),
            final(self).merge_entries() == old(self).merge_entries().push(
                MergeEntry { source_a: evt_a, source_b: evt_b, target: target },
            ),
            same_listeners(*old(self), *final(self)),
            same_queues(*old(self), *final(self)),
            same_policies(*old(self), *final(self)),
            final(self).capacity() == old(self).capacity(),
    {
        self.combined_streams.push(MergeEntry { source_a: evt_a, source_b: evt_b, target });
    }

    /// Installs debounce ("postpone") state for `evt` with the given quiet
    /// interval: later broadcasts under `evt` are deferred to a timer. A
    /// zero interval is rejected with a configuration error and changes
    /// nothing. Reconfiguring resets the state, with no timer pending.
    pub fn delayed_broadcast(&mut self, evt: String, ms: u32) -> (r: Result<(), BridgeError>)
        requires
            old(self).wf(),
        ensures
            final(self).wf(),
            ms == 0 ==> r == Err::<(), BridgeError>(BridgeError::Configuration) && *final(self)
                == *old(self),
            ms >= 1 ==> {
                &&& r == Ok::<(), BridgeError>(())
                &&& final(self).postpone_at(evt@) == Some(
                    PostponeState { timer: None, interval_ms: ms },
                )
                &&& forall|k: Seq<char>|
                    k != evt@ ==> final(self).postpone_at(k) == old(self).postpone_at(k)
                &&& forall|k: Seq<char>| final(self).pace_at(k) == old(self).pace_at(k)
                &&& final(self).timer_cursor() == old(self).timer_cursor()
                &&& same_listeners(*old(self), *final(self))
                &&& same_queues(*old(self), *final(self))
                &&& same_config(*old(self), *final(self))
            },
    {
        if ms == 0 {
            Err(BridgeError::Configuration)
        } else {
            self.postpone_registry.insert(evt, PostponeState { timer: None, interval_ms: ms });
            Ok(())
        }
    }

    /// Installs throttle ("pace") state for `evt` with the given cooldown
    /// interval: the next broadcast under `evt` flushes immediately and
    /// opens a cooldown window. A zero interval is rejected with a
    /// configuration error and changes nothing. Reconfiguring resets the
    /// state, with no cooldown open and no timer pending.
    pub fn paced_broadcast(&mut self, evt: String, ms: u32) -> (r: Result<(), BridgeError>)
        requires
            old(self).wf(),
        ensures
            final(self).wf(),
            ms == 0 ==> r == Err::<(), BridgeError>(BridgeError::Configuration) && *final(self)
                == *old(self),
            ms >= 1 ==> {
                &&& r == Ok::<(), BridgeError>(())
                &&& final(self).pace_at(evt@) == Some(
                    PaceState { cooldown: false, interval_ms: ms, timer: None },
                )
                &&& forall|k: Seq<char>|
                    k != evt@ ==> final(self).pace_at(k) == old(self).pace_at(k)
                &&& forall|k: Seq<char>| final(self).postpone_at(k) == old(self).postpone_at(k)
                &&& final(self).timer_cursor() == old(self).timer_cursor()
                &&& same_listeners(*old(self), *final(self))
                &&& same_queues(*old(self), *final(self))
                &&& same_config(*old(self), *final(self))
            },
    {
        if ms == 0 {
            Err(BridgeError::Configuration)
        } else {
            self.pace_registry.insert(
                evt,
                PaceState { cooldown: false, interval_ms: ms, timer: None },
            );
            Ok(())
        }
    }

    /// The deliveries a flush of `evt` performs now: every queued payload,
    /// oldest first, to every current listener in registration order — or
    /// none at all while the event has no listeners.
    pub open spec fn flush_deliveries(self, evt: Seq<char>) -> Seq<Delivery> {
        if self.listeners_at(evt).len() > 0 {
            deliveries_for(self.queue_at(evt), self.listeners_at(evt))
        } else {
            Seq::empty()
        }
    }

    /// The queue of `evt` after a flush: drained when the event has
    /// listeners, untouched otherwise (payloads keep accumulating until
    /// listeners exist at some later flush).
    pub open spec fn queue_after_flush(self, evt: Seq<char>) -> Seq<Payload> {
        if self.listeners_at(evt).len() > 0 {
            Seq::empty()
        } else {
            self.queue_at(evt)
        }
    }

    /// Drains the queue of `evt` into delivery records, each queued payload
    /// to every current listener; leaves the queue untouched when there are
    /// no listeners.
    fn flush_queue(&mut self, evt: &str) -> (deliveries: Vec<Delivery>)
        requires
            old(self).wf(),
        ensures
            final(self).wf(),
            deliveries@ == old(self).flush_deliveries(evt@),
            final(self).queue_at(evt@) == old(self).queue_after_flush(evt@),
            forall|k: Seq<char>| k != evt@ ==> final(self).queue_at(k) == old(self).queue_at(k),
            same_listeners(*old(self), *final(self)),
            same_policies(*old(self), *final(self)),
            same_config(*old(self), *final(self)),
    {
        let cbs: Vec<CallbackId> = match self.listeners.get(evt) {
            Some(v) => copy_callbacks(v),
            None => Vec::new(),
        };
        if cbs.len() == 0 {
            return Vec::new();
        }
        let q: Vec<Payload> = match self.queues.get(evt) {
            Some(v) => copy_payloads(v),
            None => Vec::new(),
        };
        let out = build_deliveries(&q, &cbs);
        self.queues.insert(evt.to_owned(), Vec::new());
        out
    }

    /// The first merge entry, in insertion order, whose source pair
    /// contains `current_evt`, as its target name.
    fn probe_combination(&self, current_evt: &String) -> (r: Option<String>)
        ensures
            match r {
                Some(t) => probe(self.merge_entries(), current_evt@) == Some(t@),
                None => probe(self.merge_entries(), current_evt@) is None,
            },
    {
        let ghost merges = self.merge_entries();
        let mut i: usize = 0;
        while i < self.combined_streams.len()
            invariant
                i <= self.combined_streams.len(),
                merges == self.merge_entries(),
                probe(merges, current_evt@) == probe_from(merges, current_evt@, i as int),
            decreases self.combined_streams.len() - i,
        {
            let entry = &self.combined_streams[i];
            if entry.source_a == *current_evt || entry.source_b == *current_evt {
                return Some(entry.target.clone());
            }
            i = i + 1;
        }
        None
    }

    /// Follows merge redirections from `evt`, at most `fuel` of them; runs
    /// out of fuel only on a cyclic merge table.
    fn resolve_target(&self, evt: String, fuel: usize) -> (r: Result<String, BridgeError>)
        ensures
            match r {
                Ok(t) => resolve(self.merge_entries(), evt@, fuel as nat) == Some(t@),
                Err(e) => e == BridgeError::CyclicMerge && resolve(
                    self.merge_entries(),
                    evt@,
                    fuel as nat,
                ) is None,
            },
        decreases fuel,
    {
        match self.probe_combination(&evt) {
            None => Ok(evt),
            Some(next) => {
                if fuel == 0 {
                    Err(BridgeError::CyclicMerge)
                } else {
                    self.resolve_target(next, fuel - 1)
                }
            },
        }
    }

    /// Broadcasts `payload` under `evt`: resolves the merge table first,
    /// then enqueues the payload on the resolved event's bounded queue
    /// (dropping the oldest entry at capacity), and then either defers the
    /// flush to a debounce timer, applies the throttle rule, or flushes
    /// immediately. A merge cycle reachable from `evt` is refused with
    /// [`BridgeError::CyclicMerge`] and changes nothing.
    pub fn broadcast(&mut self, evt: String, payload: Payload) -> (r: Result<
        DispatchOutcome,
        BridgeError,
    >)
        requires
            old(self).wf(),
            old(self).timer_cursor() < u64::MAX,
        ensures
            final(self).wf(),
            same_listeners(*old(self), *final(self)),
            same_config(*old(self), *final(self)),
            match resolve_merge(old(self).merge_entries(), evt@) {
                None => r == Err::<DispatchOutcome, BridgeError>(BridgeError::CyclicMerge)
                    && *final(self) == *old(self),
                Some(t) => match r {
                    Ok(out) => broadcast_effects(*old(self), *final(self), t, payload, out),
                    Err(_) => false,
                },
            },
    {
        let fuel = self.combined_streams.len();
        let resolved = match self.resolve_target(evt, fuel) {
            Ok(t) => t,
            Err(e) => {
                return Err(e);
            },
        };
        let ghost t = resolved@;
        let mut q: Vec<Payload> = match self.queues.get(resolved.as_str()) {
            Some(v) => copy_payloads(v),
            None => Vec::new(),
        };
        if q.len() >= self.queue_limit {
            q.remove(0);
            assert(old(self).queue_at(t).drop_first() =~= old(self).queue_at(t).remove(0));
        }
        q.push(payload);
        assert(q@ == push_evict(old(self).queue_at(t), payload, old(self).capacity() as int));

        let postpone: Option<PostponeState> = match self.postpone_registry.get(resolved.as_str()) {
            Some(p) => Some(*p),
            None => None,
        };
        match postpone {
            Some(pd) => {
                self.queues.insert(resolved.clone(), q);
                let mut cmds: Vec<TimerCmd> = Vec::new();
                match pd.timer {
                    Some(tok) => cmds.push(TimerCmd::Cancel { token: tok }),
                    None => {},
                }
                let tok = self.next_timer_token;
                self.next_timer_token = tok + 1;
                cmds.push(TimerCmd::Schedule { token: tok, delay_ms: pd.interval_ms });
                self.postpone_registry.insert(
                    resolved,
                    PostponeState { timer: Some(tok), interval_ms: pd.interval_ms },
                );
                return Ok(DispatchOutcome { deliveries: Vec::new(), timer_cmds: cmds });
            },
            None => {},
        }

        let pace: Option<PaceState> = match self.pace_registry.get(resolved.as_str()) {
            Some(p) => Some(*p),
            None => None,
        };
        match pace {
            Some(pc) => {
                if pc.cooldown {
                    self.queues.insert(resolved.clone(), q);
                    return Ok(
                        DispatchOutcome { deliveries: Vec::new(), timer_cmds: Vec::new() },
                    );
                }
                let cbs: Vec<CallbackId> = match self.listeners.get(resolved.as_str()) {
                    Some(v) => copy_callbacks(v),
                    None => Vec::new(),
                };
                let mut deliveries: Vec<Delivery> = Vec::new();
                if cbs.len() > 0 {
                    deliveries = build_deliveries(&q, &cbs);
                    self.queues.insert(resolved.clone(), Vec::new());
                } else {
                    self.queues.insert(resolved.clone(), q);
                }
                let tok = self.next_timer_token;
                self.next_timer_token = tok + 1;
                let mut cmds: Vec<TimerCmd> = Vec::new();
                cmds.push(TimerCmd::Schedule { token: tok, delay_ms: pc.interval_ms });
                self.pace_registry.insert(
                    resolved,
                    PaceState { cooldown: true, interval_ms: pc.interval_ms, timer: Some(tok) },
                );
                return Ok(DispatchOutcome { deliveries, timer_cmds: cmds });
            },
            None => {},
        }

        let cbs: Vec<CallbackId> = match self.listeners.get(resolved.as_str()) {
            Some(v) => copy_callbacks(v),
            None => Vec::new(),
        };
        let mut deliveries: Vec<Delivery> = Vec::new();
        if cbs.len() > 0 {
            deliveries = build_deliveries(&q, &cbs);
            self.queues.insert(resolved.clone(), Vec::new());
        } else {
            self.queues.insert(resolved.clone(), q);
        }
        Ok(DispatchOutcome { deliveries, timer_cmds: Vec::new() })
    }

    /// Reports that the debounce timer scheduled under `token` for `evt`
    /// fired: the armed timer is cleared and the whole accumulated queue is
    /// flushed once. A token that is not the armed one — its timer was
    /// canceled by a later broadcast — changes nothing.
    pub fn on_postpone_fired(&mut self, evt: String, token: u64) -> (deliveries: Vec<Delivery>)
        requires
            old(self).wf(),
        ensures
            final(self).wf(),
            same_listeners(*old(self), *final(self)),
            same_config(*old(self), *final(self)),
            match old(self).postpone_at(evt@) {
                Some(pd) => if pd.timer == Some(token) {
                    &&& deliveries@ == old(self).flush_deliveries(evt@)
                    &&& final(self).queue_at(evt@) == old(self).queue_after_flush(evt@)
                    &&& forall|k: Seq<char>|
                        k != evt@ ==> final(self).queue_at(k) == old(self).queue_at(k)
                    &&& final(self).postpone_at(evt@) == Some(
                        PostponeState { timer: None, interval_ms: pd.interval_ms },
                    )
                    &&& forall|k: Seq<char>|
                        k != evt@ ==> final(self).postpone_at(k) == old(self).postpone_at(k)
                    &&& forall|k: Seq<char>| final(self).pace_at(k) == old(self).pace_at(k)
                    &&& final(self).timer_cursor() == old(self).timer_cursor()
                } else {
                    *final(self) == *old(self) && deliveries@ == Seq::<Delivery>::empty()
                },
                None => *final(self) == *old(self) && deliveries@ == Seq::<Delivery>::empty(),
            },
    {
        let postpone: Option<PostponeState> = match self.postpone_registry.get(evt.as_str()) {
            Some(p) => Some(*p),
            None => None,
        };
        match postpone {
            Some(pd) => {
                let armed = match pd.timer {
                    Some(tok) => tok == token,
                    None => false,
                };
                if armed {
                    self.postpone_registry.insert(
                        evt.clone(),
                        PostponeState { timer: None, interval_ms: pd.interval_ms },
                    );
                    self.flush_queue(evt.as_str())
                } else {
                    Vec::new()
                }
            },
            None => Vec::new(),
        }
    }

    /// Reports that the cooldown timer scheduled under `token` for `evt`
    /// fired: the cooldown window closes. Nothing is flushed — payloads
    /// queued during cooldown wait for the next broadcast. A token that is
    /// not the armed one changes nothing.
    pub fn on_pace_fired(&mut self, evt: String, token: u64)
        requires
            old(self).wf(),
        ensures
            final(self).wf(),
            same_listeners(*old(self), *final(self)),
            same_queues(*old(self), *final(self)),
            same_config(*old(self), *final(self)),
            final(self).timer_cursor() == old(self).timer_cursor(),
            forall|k: Seq<char>| final(self).postpone_at(k) == old(self).postpone_at(k),
            match old(self).pace_at(evt@) {
                Some(pc) => if pc.timer == Some(token) {
                    &&& final(self).pace_at(evt@) == Some(
                        PaceState { cooldown: false, interval_ms: pc.interval_ms, timer: None },
                    )
                    &&& forall|k: Seq<char>|
                        k != evt@ ==> final(self).pace_at(k) == old(self).pace_at(k)
                } else {
                    forall|k: Seq<char>| final(self).pace_at(k) == old(self).pace_at(k)
                },
                None => forall|k: Seq<char>| final(self).pace_at(k) == old(self).pace_at(k),
            },
    {
        let pace: Option<PaceState> = match self.pace_registry.get(evt.as_str()) {
            Some(p) => Some(*p),
            None => None,
        };
        match pace {
            Some(pc) => {
                let armed = match pc.timer {
                    Some(tok) => tok == token,
                    None => false,
                };
                if armed {
                    self.pace_registry.insert(
                        evt,
                        PaceState { cooldown: false, interval_ms: pc.interval_ms, timer: None },
                    );
                }
            },
            None => {},
        }
    }

    /// Begins an asynchronous dispatch of `payload` under `evt`: a snapshot
    /// of the event's current listener sequence is taken and handed back as
    /// a step machine for the host to drive, one awaited invocation at a
    /// time in registration order. The delivery queue, the policies and the
    /// merge table are bypassed entirely, and the bus itself is untouched;
    /// listeners added after this call are not included, listeners removed
    /// after it are still invoked.
    pub fn broadcast_async(&self, evt: String, payload: Payload) -> (d: AsyncBroadcast)
        ensures
            d.wf(),
            d.snapshot() == self.listeners_at(evt@),
            d.payload() == payload,
            d.invoked_count() == 0,
            !d.has_failed(),
    {
        AsyncBroadcast::begin(self.listeners_of(evt.as_str()), payload)
    }

    /// The payloads currently queued for `evt`, oldest first, as a snapshot.
    pub fn queued_payloads(&self, evt: &str) -> (r: Vec<Payload>)
        ensures
            r@ == self.queue_at(evt@),
    {
        match self.queues.get(evt) {
            Some(v) => copy_payloads(v),
            None => Vec::new(),
        }
    }

    /// The current listener sequence of `evt`, as a snapshot the host can
    /// iterate or map over.
    pub fn listeners_of(&self, evt: &str) -> (r: Vec<CallbackId>)
        ensures
            r@ == self.listeners_at(evt@),
    {
        match self.listeners.get(evt) {
            Some(v) => copy_callbacks(v),
            None => Vec::new(),
        }
    }
}

/// What one broadcast, already resolved by the merge table to the event
/// `t`, does to the bus and hands back to the host. First the payload is
/// pushed onto `t`'s bounded queue, oldest entry dropped at capacity. Then
/// exactly one of three branches applies: a debounce-configured event
/// delivers nothing now, cancels any pending flush timer and arms a fresh
/// one; a throttle-configured event delivers nothing during cooldown, and
/// otherwise flushes immediately, opens the cooldown and arms its end
/// timer; an unconfigured event flushes immediately with no timer work.
pub open spec fn broadcast_effects(
    pre: SystemBridge,
    post: SystemBridge,
    t: Seq<char>,
    payload: Payload,
    out: DispatchOutcome,
) -> bool {
    let pushed = push_evict(pre.queue_at(t), payload, pre.capacity() as int);
    &&& forall|k: Seq<char>| k != t ==> post.queue_at(k) == pre.queue_at(k)
    &&& match pre.postpone_at(t) {
        Some(pd) => {
            &&& out.deliveries@ == Seq::<Delivery>::empty()
            &&& post.queue_at(t) == pushed
            &&& post.postpone_at(t) == Some(
                PostponeState { timer: Some(pre.timer_cursor()), interval_ms: pd.interval_ms },
            )
            &&& forall|k: Seq<char>| k != t ==> post.postpone_at(k) == pre.postpone_at(k)
            &&& forall|k: Seq<char>| post.pace_at(k) == pre.pace_at(k)
            &&& post.timer_cursor() == pre.timer_cursor() + 1
            &&& out.timer_cmds@ == cancel_cmds(pd.timer).push(
                TimerCmd::Schedule { token: pre.timer_cursor(), delay_ms: pd.interval_ms },
            )
            &&& (pd.timer matches Some(tok) ==> tok != pre.timer_cursor())
        },
        None => match pre.pace_at(t) {
            Some(pc) => if pc.cooldown {
                &&& out.deliveries@ == Seq::<Delivery>::empty()
                &&& out.timer_cmds@ == Seq::<TimerCmd>::empty()
                &&& post.queue_at(t) == pushed
                &&& same_policies(pre, post)
            } else {
                &&& out.deliveries@ == flushed_deliveries(pushed, pre.listeners_at(t))
                &&& post.queue_at(t) == flushed_queue(pushed, pre.listeners_at(t))
                &&& post.pace_at(t) == Some(
                    PaceState {
                        cooldown: true,
                        interval_ms: pc.interval_ms,
                        timer: Some(pre.timer_cursor()),
                    },
                )
                &&& forall|k: Seq<char>| k != t ==> post.pace_at(k) == pre.pace_at(k)
                &&& forall|k: Seq<char>| post.postpone_at(k) == pre.postpone_at(k)
                &&& post.timer_cursor() == pre.timer_cursor() + 1
                &&& out.timer_cmds@ == seq![
                    TimerCmd::Schedule { token: pre.timer_cursor(), delay_ms: pc.interval_ms },
                ]
            },
            None => {
                &&& out.deliveries@ == flushed_deliveries(pushed, pre.listeners_at(t))
                &&& post.queue_at(t) == flushed_queue(pushed, pre.listeners_at(t))
                &&& out.timer_cmds@ == Seq::<TimerCmd>::empty()
                &&& same_policies(pre, post)
            },
        },
    }
}

/// The cancel command for a pending timer token, or no command at all.
pub open spec fn cancel_cmds(t: Option<u64>) -> Seq<TimerCmd> {
    match t {
        Some(tok) => seq![TimerCmd::Cancel { token: tok }],
        None => Seq::empty(),
    }
}

/// The deliveries of flushing queue `q` against listeners `cbs`: none while
/// there are no listeners.
pub open spec fn flushed_deliveries(q: Seq<Payload>, cbs: Seq<CallbackId>) -> Seq<Delivery> {
    if cbs.len() > 0 {
        deliveries_for(q, cbs)
    } else {
        Seq::empty()
    }
}

/// The queue left by flushing queue `q` against listeners `cbs`: drained
/// when there are listeners, untouched otherwise.
pub open spec fn flushed_queue(q: Seq<Payload>, cbs: Seq<CallbackId>) -> Seq<Payload> {
    if cbs.len() > 0 {
        Seq::empty()
    } else {
        q
    }
}

/// The two buses have the same listener sequence at every event.
pub open spec fn same_listeners(a: SystemBridge, b: SystemBridge) -> bool {
    forall|k: Seq<char>|
        #![trigger a.listeners_at(k)]
        #![trigger b.listeners_at(k)]
        a.listeners_at(k) == b.listeners_at(k)
}

/// The two buses have the same payload queue at every event.
pub open spec fn same_queues(a: SystemBridge, b: SystemBridge) -> bool {
    forall|k: Seq<char>|
        #![trigger a.queue_at(k)]
        #![trigger b.queue_at(k)]
        a.queue_at(k) == b.queue_at(k)
}

/// The two buses have the same debounce and throttle state at every event,
/// and the same timer token cursor.
pub open spec fn same_policies(a: SystemBridge, b: SystemBridge) -> bool {
    &&& forall|k: Seq<char>|
        #![trigger a.postpone_at(k)]
        #![trigger b.postpone_at(k)]
        a.postpone_at(k) == b.postpone_at(k)
    &&& forall|k: Seq<char>|
        #![trigger a.pace_at(k)]
        #![trigger b.pace_at(k)]
        a.pace_at(k) == b.pace_at(k)
    &&& a.timer_cursor() == b.timer_cursor()
}

/// The two buses have the same queue capacity and the same merge table.
pub open spec fn same_config(a: SystemBridge, b: SystemBridge) -> bool {
    &&& a.capacity() == b.capacity()
    &&& a.merge_entries() == b.merge_entries()
}

/// Builds the delivery records of one flush: each payload of `q`, oldest
/// first, paired with every listener of `cbs` in registration order.
fn build_deliveries(q: &Vec<Payload>, cbs: &Vec<CallbackId>) -> (out: Vec<Delivery>)
    ensures
        out@ == deliveries_for(q@, cbs@),
{
    let mut out: Vec<Delivery> = Vec::new();
    let mut i: usize = 0;
    proof {
        assert(q@.take(0) =~= Seq::<Payload>::empty());
        assert(deliveries_for(Seq::<Payload>::empty(), cbs@) == Seq::<Delivery>::empty());
    }
    while i < q.len()
        invariant
            i <= q.len(),
            out@ == deliveries_for(q@.take(i as int), cbs@),
        decreases q.len() - i,
    {
        let mut j: usize = 0;
        proof {
            assert(pairs_for(q@[i as int], cbs@).take(0) =~= Seq::<Delivery>::empty());
            assert(out@ + Seq::<Delivery>::empty() =~= out@);
        }
        while j < cbs.len()
            invariant
                i < q.len(),
                j <= cbs.len(),
                out@ == deliveries_for(q@.take(i as int), cbs@) + pairs_for(
                    q@[i as int],
                    cbs@,
                ).take(j as int),
            decreases cbs.len() - j,
        {
            proof {
                assert(pairs_for(q@[i as int], cbs@).take(j + 1) =~= pairs_for(
                    q@[i as int],
                    cbs@,
                ).take(j as int).push(
                    Delivery { listener: cbs@[j as int], payload: q@[i as int] },
                ));
            }
            out.push(Delivery { listener: cbs[j], payload: q[i] });
            j = j + 1;
        }
        proof {
            assert(pairs_for(q@[i as int], cbs@).take(cbs@.len() as int) =~= pairs_for(
                q@[i as int],
                cbs@,
            ));
            lemma_deliveries_push(q@.take(i as int), cbs@, q@[i as int]);
            assert(q@.take(i + 1) =~= q@.take(i as int).push(q@[i as int]));
        }
        i = i + 1;
    }
    assert(q@.take(q.len() as int) =~= q@);
    out
}

/// Copies a listener sequence element for element.
fn copy_callbacks(v: &Vec<CallbackId>) -> (r: Vec<CallbackId>)
    ensures
        r@ == v@,
{
    let mut r: Vec<CallbackId> = Vec::new();
    let mut i: usize = 0;
    while i < v.len()
        invariant
            i <= v.len(),
            r@ == v@.take(i as int),
        decreases v.len() - i,
    {
        assert(v@.take(i + 1) =~= v@.take(i as int).push(v@[i as int]));
        r.push(v[i]);
        i = i + 1;
    }
    assert(v@.take(v.len() as int) =~= v@);
    r
}

/// Copies a payload queue element for element.
fn copy_payloads(v: &Vec<Payload>) -> (r: Vec<Payload>)
    ensures
        r@ == v@,
{
    let mut r: Vec<Payload> = Vec::new();
    let mut i: usize = 0;
    while i < v.len()
        invariant
            i <= v.len(),
            r@ == v@.take(i as int),
        decreases v.len() - i,
    {
        assert(v@.take(i + 1) =~= v@.take(i as int).push(v@[i as int]));
        r.push(v[i]);
        i = i + 1;
    }
    assert(v@.take(v.len() as int) =~= v@);
    r
}

} // verus!
