//! Bus-wide laws, proved once and for all over the specification functions
//! that the operation contracts are stated in.

use vstd::prelude::*;
use crate::events::CallbackId;
use crate::events::Payload;
use crate::events::Delivery;
use crate::model::MergeEntry;
use crate::model::queue_after;
use crate::model::pairs_for;
use crate::model::deliveries_for;
use crate::model::remove_all;
use crate::model::probe;
use crate::model::resolve;
use crate::model::resolve_merge;
use crate::model::lemma_remove_all_push;

verus! {

/// A flush delivers each queued payload to every listener exactly once:
/// the delivery sequence has one entry per payload–listener pair, laid out
/// payload-major — all of the oldest payload's deliveries, in listener
/// registration order, before any of the next payload's.
pub proof fn lemma_flush_delivery_order(q: Seq<Payload>, cbs: Seq<CallbackId>)
    ensures
        deliveries_for(q, cbs).len() == q.len() * cbs.len(),
        forall|i: int, j: int|
            0 <= i < q.len() && 0 <= j < cbs.len() ==> deliveries_for(q, cbs)[i * cbs.len() + j]
                == (Delivery { listener: cbs[j], payload: q[i] }),
    decreases q.len(),
{
    let l = cbs.len() as int;
    if q.len() == 0 {
        assert(q.len() * cbs.len() == 0) by (nonlinear_arith)
            requires
                q.len() == 0,
        ;
    } else {
        let rest = q.drop_first();
        lemma_flush_delivery_order(rest, cbs);
        assert(rest.len() * l + l == q.len() * l) by (nonlinear_arith)
            requires
                rest.len() == q.len() - 1,
        ;
        assert forall|i: int, j: int| 0 <= i < q.len() && 0 <= j < l implies deliveries_for(
            q,
            cbs,
        )[i * l + j] == (Delivery { listener: cbs[j], payload: q[i] }) by {
            let front = pairs_for(q[0], cbs);
            let back = deliveries_for(rest, cbs);
            assert(deliveries_for(q, cbs) == front + back);
            if i == 0 {
                assert(i * l + j == j) by (nonlinear_arith)
                    requires
                        i == 0,
                ;
                assert((front + back)[j] == front[j]);
                assert(front[j] == Delivery { listener: cbs[j], payload: q[0] });
            } else {
                assert(i * l >= l && i * l + j - l == (i - 1) * l + j && (i - 1) * l + j
                    < rest.len() * l) by (nonlinear_arith)
                    requires
                        i >= 1,
                        0 <= j < l,
                        i < q.len(),
                        rest.len() == q.len() - 1,
                ;
                assert((front + back)[i * l + j] == back[i * l + j - l]);
                assert(back[(i - 1) * l + j] == Delivery {
                    listener: cbs[j],
                    payload: rest[i - 1],
                });
                assert(rest[i - 1] == q[i]);
            }
        }
    }
}

/// Bounded backpressure: after any run of broadcasts onto an initially
/// empty queue with no flush in between, the queue holds exactly the most
/// recent `limit` payloads — every older one was silently dropped — and all
/// of them when there were no more than `limit`.
pub proof fn lemma_bounded_queue(ps: Seq<Payload>, limit: int)
    requires
        limit >= 1,
    ensures
        queue_after(ps, limit) == if ps.len() <= limit {
            ps
        } else {
            ps.skip(ps.len() - limit)
        },
    decreases ps.len(),
{
    if ps.len() == 0 {
        assert(queue_after(ps, limit) =~= ps);
    } else {
        let prev = ps.drop_last();
        lemma_bounded_queue(prev, limit);
        if prev.len() < limit {
            assert(queue_after(prev, limit) == prev);
            assert(queue_after(ps, limit) =~= ps);
        } else if prev.len() == limit {
            assert(queue_after(prev, limit) == prev);
            assert(queue_after(ps, limit) =~= ps.skip(1));
        } else {
            let d = prev.len() - limit;
            assert(queue_after(prev, limit) == prev.skip(d));
            assert(prev.skip(d).len() == limit);
            assert(queue_after(ps, limit) == prev.skip(d).drop_first().push(ps.last()));
            assert(prev.skip(d).drop_first().push(ps.last()) =~= ps.skip(d + 1));
        }
    }
}

/// Merge redirection settles in one step: when `evt` is redirected to
/// `target` by the first matching merge entry and `target` itself matches
/// no entry, a broadcast under `evt` resolves exactly to `target` — never
/// to `evt` itself, whose own queue and listeners stay out of play.
pub proof fn lemma_merge_redirects(merges: Seq<MergeEntry>, evt: Seq<char>, target: Seq<char>)
    requires
        probe(merges, evt) == Some(target),
        probe(merges, target) is None,
    ensures
        resolve_merge(merges, evt) == Some(target),
{
    assert(merges.len() > 0);
    assert(resolve(merges, evt, merges.len() as nat) == resolve(
        merges,
        target,
        (merges.len() - 1) as nat,
    ));
}

/// Removing every listener absent from a sequence changes nothing.
pub proof fn lemma_remove_all_absent(s: Seq<CallbackId>, f: CallbackId)
    requires
        forall|i: int| 0 <= i < s.len() ==> s[i] != f,
    ensures
        remove_all(s, f) == s,
    decreases s.len(),
{
    if s.len() == 0 {
        assert(remove_all(s, f) =~= s);
    } else {
        assert(forall|i: int| 0 <= i < s.drop_first().len() ==> s.drop_first()[i] != f);
        lemma_remove_all_absent(s.drop_first(), f);
        assert(remove_all(s, f) =~= s);
    }
}

/// Subscribe–unsubscribe round trip: adding a listener and then removing it
/// by identity gives the same entry as removing it alone; when the entry
/// held no equal listener before — the empty entry included — it is left
/// exactly as it was, so an initially empty entry ends empty.
pub proof fn lemma_add_then_remove(s: Seq<CallbackId>, f: CallbackId)
    ensures
        remove_all(s.push(f), f) == remove_all(s, f),
        (forall|i: int| 0 <= i < s.len() ==> s[i] != f) ==> remove_all(s.push(f), f) == s,
{
    lemma_remove_all_push(s, f, f);
    if forall|i: int| 0 <= i < s.len() ==> s[i] != f {
        lemma_remove_all_absent(s, f);
    }
}

} // verus!
