//! Policy state records, merge entries, and the specification functions the
//! bus contracts are stated over: bounded queue insertion, flush delivery
//! order, listener-sequence edits, and merge resolution.

use vstd::prelude::*;
use crate::events::CallbackId;
use crate::events::Payload;
use crate::events::Delivery;

verus! {

/// Debounce ("postpone") state for one event: the token of the pending
/// flush timer, if one is armed, and the configured quiet interval.
#[derive(Clone, Copy, PartialEq, Eq, Debug)]
pub struct PostponeState {
    pub timer: Option<u64>,
    pub interval_ms: u32,
}

/// Throttle ("pace") state for one event: whether a cooldown window is
/// open, the configured cooldown length, and the token of the pending
/// cooldown-end timer, if one is armed.
#[derive(Clone, Copy, PartialEq, Eq, Debug)]
pub struct PaceState {
    pub cooldown: bool,
    pub interval_ms: u32,
    pub timer: Option<u64>,
}

/// One merge entry: broadcasts under either source name are redirected to
/// the target name. Entries are kept in insertion order, and resolution
/// takes the first entry whose source pair contains the event.
#[derive(PartialEq, Eq, Debug)]
pub struct MergeEntry {
    pub source_a: String,
    pub source_b: String,
    pub target: String,
}

/// Push onto a bounded FIFO: at capacity the oldest entry is dropped first,
/// so the queue never exceeds `limit` (for `limit >= 1`).
pub open spec fn push_evict(q: Seq<Payload>, p: Payload, limit: int) -> Seq<Payload> {
    if q.len() >= limit {
        q.drop_first().push(p)
    } else {
        q.push(p)
    }
}

/// The queue contents after broadcasting the payloads `ps`, oldest first,
/// onto an initially empty bounded queue, with no flush in between.
pub open spec fn queue_after(ps: Seq<Payload>, limit: int) -> Seq<Payload>
    decreases ps.len(),
{
    if ps.len() == 0 {
        Seq::empty()
    } else {
        push_evict(queue_after(ps.drop_last(), limit), ps.last(), limit)
    }
}

/// The deliveries of one payload to every listener, in registration order.
pub open spec fn pairs_for(p: Payload, cbs: Seq<CallbackId>) -> Seq<Delivery> {
    Seq::new(cbs.len(), |j: int| Delivery { listener: cbs[j], payload: p })
}

/// The deliveries of a full flush: each queued payload, oldest first, goes
/// to every listener in registration order before the next payload.
pub open spec fn deliveries_for(q: Seq<Payload>, cbs: Seq<CallbackId>) -> Seq<Delivery>
    decreases q.len(),
{
    if q.len() == 0 {
        Seq::empty()
    } else {
        pairs_for(q[0], cbs) + deliveries_for(q.drop_first(), cbs)
    }
}

/// The listener sequence with every occurrence of `cb` removed, order of
/// the remaining listeners kept.
pub open spec fn remove_all(s: Seq<CallbackId>, cb: CallbackId) -> Seq<CallbackId>
    decreases s.len(),
{
    if s.len() == 0 {
        Seq::empty()
    } else {
        let rest = remove_all(s.drop_first(), cb);
        if s[0] == cb {
            rest
        } else {
            seq![s[0]] + rest
        }
    }
}

/// The listener sequence filtered by per-position keep flags: position `i`
/// survives exactly when `keep[i]` holds, order kept.
pub open spec fn filter_kept(s: Seq<CallbackId>, keep: Seq<bool>) -> Seq<CallbackId>
    decreases s.len(),
{
    if s.len() == 0 {
        Seq::empty()
    } else {
        let rest = filter_kept(s.drop_first(), keep.drop_first());
        if keep[0] {
            seq![s[0]] + rest
        } else {
            rest
        }
    }
}

/// The first merge entry at or after position `i` whose source pair
/// contains `evt`, as its target; `None` when no entry matches.
pub open spec fn probe_from(merges: Seq<MergeEntry>, evt: Seq<char>, i: int) -> Option<Seq<char>>
    decreases merges.len() - i,
{
    if i < 0 || i >= merges.len() {
        None
    } else if merges[i].source_a@ == evt || merges[i].source_b@ == evt {
        Some(merges[i].target@)
    } else {
        probe_from(merges, evt, i + 1)
    }
}

/// The first merge entry whose source pair contains `evt`, as its target.
pub open spec fn probe(merges: Seq<MergeEntry>, evt: Seq<char>) -> Option<Seq<char>> {
    probe_from(merges, evt, 0)
}

/// Follow merge redirections from `evt` until a name matches no entry,
/// allowing at most `fuel` redirections; `None` means the chain did not
/// settle within `fuel` steps. With `fuel == merges.len()`, a chain that
/// does not settle must have used some entry twice and is therefore cyclic.
pub open spec fn resolve(merges: Seq<MergeEntry>, evt: Seq<char>, fuel: nat) -> Option<Seq<char>>
    decreases fuel,
{
    match probe(merges, evt) {
        None => Some(evt),
        Some(next) => if fuel == 0 {
            None
        } else {
            resolve(merges, next, (fuel - 1) as nat)
        },
    }
}

/// The fully resolved destination of a broadcast under `evt`, or `None`
/// when the merge entries form a cycle reachable from `evt`.
pub open spec fn resolve_merge(merges: Seq<MergeEntry>, evt: Seq<char>) -> Option<Seq<char>> {
    resolve(merges, evt, merges.len() as nat)
}

/// Appending one payload to the flush order appends its deliveries.
pub proof fn lemma_deliveries_push(q: Seq<Payload>, cbs: Seq<CallbackId>, p: Payload)
    ensures
        deliveries_for(q.push(p), cbs) == deliveries_for(q, cbs) + pairs_for(p, cbs),
    decreases q.len(),
{
    if q.len() == 0 {
        assert(q.push(p)[0] == p);
        assert(q.push(p).drop_first() =~= Seq::<Payload>::empty());
        assert(deliveries_for(Seq::<Payload>::empty(), cbs) == Seq::<Delivery>::empty());
        assert(deliveries_for(q.push(p), cbs) =~= pairs_for(p, cbs));
        assert(deliveries_for(q, cbs) + pairs_for(p, cbs) =~= pairs_for(p, cbs));
    } else {
        assert(q.push(p).drop_first() =~= q.drop_first().push(p));
        lemma_deliveries_push(q.drop_first(), cbs, p);
        assert(q.push(p)[0] == q[0]);
        assert(deliveries_for(q.push(p), cbs) =~= pairs_for(q[0], cbs) + (deliveries_for(
            q.drop_first(),
            cbs,
        ) + pairs_for(p, cbs)));
        assert(pairs_for(q[0], cbs) + (deliveries_for(q.drop_first(), cbs) + pairs_for(p, cbs))
            =~= (pairs_for(q[0], cbs) + deliveries_for(q.drop_first(), cbs)) + pairs_for(p, cbs));
    }
}

/// Appending one listener that is not the removed one keeps it at the end;
/// appending the removed one changes nothing.
pub proof fn lemma_remove_all_push(s: Seq<CallbackId>, x: CallbackId, cb: CallbackId)
    ensures
        remove_all(s.push(x), cb) == if x == cb {
            remove_all(s, cb)
        } else {
            remove_all(s, cb).push(x)
        },
    decreases s.len(),
{
    if s.len() == 0 {
        assert(s.push(x)[0] == x);
        assert(s.push(x).drop_first() =~= Seq::<CallbackId>::empty());
        assert(remove_all(Seq::<CallbackId>::empty(), cb) == Seq::<CallbackId>::empty());
        if x == cb {
            assert(remove_all(s.push(x), cb) =~= remove_all(s, cb));
        } else {
            assert(remove_all(s.push(x), cb) =~= remove_all(s, cb).push(x));
        }
    } else {
        assert(s.push(x).drop_first() =~= s.drop_first().push(x));
        lemma_remove_all_push(s.drop_first(), x, cb);
        assert(s.push(x)[0] == s[0]);
        if x == cb {
            if s[0] == cb {
            } else {
                assert(remove_all(s.push(x), cb) =~= remove_all(s, cb));
            }
        } else {
            if s[0] == cb {
            } else {
                assert(seq![s[0]] + remove_all(s.drop_first(), cb).push(x) =~= (seq![s[0]]
                    + remove_all(s.drop_first(), cb)).push(x));
            }
        }
    }
}

/// Appending one listener and its keep flag filters to the old result, with
/// the listener appended exactly when its flag holds.
pub proof fn lemma_filter_kept_push(
    s: Seq<CallbackId>,
    keep: Seq<bool>,
    x: CallbackId,
    b: bool,
)
    requires
        s.len() == keep.len(),
    ensures
        filter_kept(s.push(x), keep.push(b)) == if b {
            filter_kept(s, keep).push(x)
        } else {
            filter_kept(s, keep)
        },
    decreases s.len(),
{
    if s.len() == 0 {
        assert(s.push(x)[0] == x);
        assert(keep.push(b)[0] == b);
        assert(s.push(x).drop_first() =~= Seq::<CallbackId>::empty());
        assert(keep.push(b).drop_first() =~= Seq::<bool>::empty());
        assert(filter_kept(Seq::<CallbackId>::empty(), Seq::<bool>::empty())
            == Seq::<CallbackId>::empty());
        if b {
            assert(filter_kept(s.push(x), keep.push(b)) =~= filter_kept(s, keep).push(x));
        } else {
            assert(filter_kept(s.push(x), keep.push(b)) =~= filter_kept(s, keep));
        }
    } else {
        assert(s.push(x).drop_first() =~= s.drop_first().push(x));
        assert(keep.push(b).drop_first() =~= keep.drop_first().push(b));
        lemma_filter_kept_push(s.drop_first(), keep.drop_first(), x, b);
        assert(s.push(x)[0] == s[0]);
        assert(keep.push(b)[0] == keep[0]);
        if keep[0] {
            if b {
                assert(seq![s[0]] + filter_kept(s.drop_first(), keep.drop_first()).push(x)
                    =~= (seq![s[0]] + filter_kept(s.drop_first(), keep.drop_first())).push(x));
            }
        } else {
            if b {
            }
        }
    }
}

} // verus!
