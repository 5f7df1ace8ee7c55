use crate::registry::{
    evictions, holds_message, ids_unique, lemma_tick_evicts_once, lemma_ticked_from,
    lemma_ticked_unique, pending_in, registry_inserted, registry_ticked, survives, ticked,
    PendingEntry, RegistryView,
};
use vstd::prelude::*;
use vstd::seq_lib::{lemma_no_dup_in_concat, lemma_seq_concat_contains_all_elements};

verus! {

/// One registry operation on a single channel.
pub enum ChannelOp {
    Insert { message_id: u64, countdown: u16 },
    Tick,
}

/// The registry after `ops`, in order, on `channel_id`.
pub open spec fn run_channel(reg: RegistryView, channel_id: u64, ops: Seq<ChannelOp>) -> RegistryView
    decreases ops.len(),
{
    if ops.len() == 0 {
        reg
    } else {
        let before = run_channel(reg, channel_id, ops.drop_last());
        match ops.last() {
            ChannelOp::Insert { message_id, countdown } => registry_inserted(
                before,
                channel_id,
                message_id,
                countdown,
            ),
            ChannelOp::Tick => registry_ticked(before, channel_id),
        }
    }
}

/// No two inserts of `ops` name the same message.
pub open spec fn inserts_distinct(ops: Seq<ChannelOp>) -> bool {
    forall|i: int, j: int|
        0 <= i < j < ops.len() && ops[i] is Insert && ops[j] is Insert ==> ops[i]->message_id
            != ops[j]->message_id
}

/// The number of inserts of `ops` whose countdown is at least `extra` more
/// than the ticks that follow them.
pub open spec fn outlasting_by(ops: Seq<ChannelOp>, extra: int) -> nat
    decreases ops.len(),
{
    if ops.len() == 0 {
        0
    } else {
        match ops.last() {
            ChannelOp::Insert { countdown, .. } => outlasting_by(ops.drop_last(), extra) + if countdown
                >= extra {
                1nat
            } else {
                0nat
            },
            ChannelOp::Tick => outlasting_by(ops.drop_last(), extra + 1),
        }
    }
}

/// The inserts of `ops` that are still pending afterwards: an entry with
/// countdown `c` survives `c` ticks and is evicted by the next one.
pub open spec fn outlasting(ops: Seq<ChannelOp>) -> nat {
    outlasting_by(ops, 0)
}

pub open spec fn count_at_least(entries: Seq<PendingEntry>, bound: int) -> nat
    decreases entries.len(),
{
    if entries.len() == 0 {
        0
    } else {
        count_at_least(entries.drop_last(), bound) + if entries.last().remaining >= bound {
            1nat
        } else {
            0nat
        }
    }
}

proof fn lemma_count_all(entries: Seq<PendingEntry>)
    ensures
        count_at_least(entries, 0) == entries.len(),
    decreases entries.len(),
{
    if entries.len() > 0 {
        lemma_count_all(entries.drop_last());
    }
}

proof fn lemma_count_ticked(entries: Seq<PendingEntry>, bound: int)
    requires
        bound >= 0,
    ensures
        count_at_least(ticked(entries), bound) == count_at_least(entries, bound + 1),
    decreases entries.len(),
{
    if entries.len() > 0 {
        let rest = entries.drop_last();
        lemma_count_ticked(rest, bound);
        let e = entries.last();
        if e.remaining != 0 {
            let t = ticked(entries);
            assert(t == ticked(rest) + seq![survives(e)->0]);
            assert(t.drop_last() =~= ticked(rest));
        }
    }
}

proof fn lemma_ticked_empty(entries: Seq<PendingEntry>)
    requires
        entries.len() == 0,
    ensures
        ticked(entries).len() == 0,
{
}

proof fn lemma_pending_from_inserts(reg: RegistryView, channel_id: u64, ops: Seq<ChannelOp>, m: u64)
    requires
        pending_in(reg, channel_id).len() == 0,
        holds_message(pending_in(run_channel(reg, channel_id, ops), channel_id), m),
    ensures
        exists|i: int| 0 <= i < ops.len() && ops[i] is Insert && ops[i]->message_id == m,
    decreases ops.len(),
{
    if ops.len() == 0 {
    } else {
        let pre = ops.drop_last();
        let before = run_channel(reg, channel_id, pre);
        let p = pending_in(before, channel_id);
        match ops.last() {
            ChannelOp::Insert { message_id, countdown } => {
                if message_id == m {
                    assert(ops[ops.len() - 1] == ops.last());
                } else {
                    let q = pending_in(run_channel(reg, channel_id, ops), channel_id);
                    let k = choose|k: int| 0 <= k < q.len() && q[k].message_id == m;
                    if !holds_message(p, message_id) {
                        assert(q == p.push(PendingEntry { message_id, remaining: countdown }));
                        assert(q[k] == p[k]);
                    }
                    lemma_pending_from_inserts(reg, channel_id, pre, m);
                    let i = choose|i: int|
                        0 <= i < pre.len() && pre[i] is Insert && pre[i]->message_id == m;
                    assert(ops[i] == pre[i]);
                }
            },
            ChannelOp::Tick => {
                let q = pending_in(run_channel(reg, channel_id, ops), channel_id);
                if !before.contains_key(channel_id) {
                    lemma_ticked_empty(p);
                }
                assert(q == ticked(p));
                let k = choose|k: int| 0 <= k < q.len() && q[k].message_id == m;
                lemma_ticked_from(p, k);
                lemma_pending_from_inserts(reg, channel_id, pre, m);
                let i = choose|i: int|
                    0 <= i < pre.len() && pre[i] is Insert && pre[i]->message_id == m;
                assert(ops[i] == pre[i]);
            },
        }
    }
}

proof fn lemma_count_by(reg: RegistryView, channel_id: u64, ops: Seq<ChannelOp>, extra: int)
    requires
        pending_in(reg, channel_id).len() == 0,
        inserts_distinct(ops),
        extra >= 0,
    ensures
        count_at_least(pending_in(run_channel(reg, channel_id, ops), channel_id), extra)
            == outlasting_by(ops, extra),
    decreases ops.len(),
{
    if ops.len() > 0 {
        let pre = ops.drop_last();
        assert(inserts_distinct(pre)) by {
            assert forall|i: int, j: int|
                0 <= i < j < pre.len() && pre[i] is Insert && pre[j] is Insert implies pre[i]->message_id
                != pre[j]->message_id by {
                assert(pre[i] == ops[i] && pre[j] == ops[j]);
            }
        }
        let before = run_channel(reg, channel_id, pre);
        let p = pending_in(before, channel_id);
        match ops.last() {
            ChannelOp::Insert { message_id, countdown } => {
                lemma_count_by(reg, channel_id, pre, extra);
                if holds_message(p, message_id) {
                    lemma_pending_from_inserts(reg, channel_id, pre, message_id);
                    let i = choose|i: int|
                        0 <= i < pre.len() && pre[i] is Insert && pre[i]->message_id == message_id;
                    assert(ops[i] == pre[i]);
                    assert(ops[ops.len() - 1] == ops.last());
                    assert(false);
                }
                let q = pending_in(run_channel(reg, channel_id, ops), channel_id);
                assert(q.drop_last() =~= p);
            },
            ChannelOp::Tick => {
                lemma_count_by(reg, channel_id, pre, extra + 1);
                if !before.contains_key(channel_id) {
                    lemma_ticked_empty(p);
                }
                lemma_count_ticked(p, extra);
            },
        }
    }
}

/// Starting from a channel with nothing pending, after any sequence of
/// inserts (of distinct messages) and ticks, the channel holds exactly as
/// many entries as there are inserts whose countdown is at least the number
/// of ticks that followed them.
pub proof fn lemma_pending_count(reg: RegistryView, channel_id: u64, ops: Seq<ChannelOp>)
    requires
        pending_in(reg, channel_id).len() == 0,
        inserts_distinct(ops),
    ensures
        pending_in(run_channel(reg, channel_id, ops), channel_id).len() == outlasting(ops),
{
    lemma_count_by(reg, channel_id, ops, 0);
    lemma_count_all(pending_in(run_channel(reg, channel_id, ops), channel_id));
}

/// Whether some insert of `ops` names `message_id`.
pub open spec fn inserted_in(ops: Seq<ChannelOp>, message_id: u64) -> bool {
    exists|i: int| 0 <= i < ops.len() && ops[i] is Insert && ops[i]->message_id == message_id
}

/// The ids that the ticks of `ops` evicted from `channel_id`, in order.
pub open spec fn evicted_during(reg: RegistryView, channel_id: u64, ops: Seq<ChannelOp>) -> Seq<
    u64,
>
    decreases ops.len(),
{
    if ops.len() == 0 {
        Seq::empty()
    } else {
        let pre = ops.drop_last();
        match ops.last() {
            ChannelOp::Insert { .. } => evicted_during(reg, channel_id, pre),
            ChannelOp::Tick => evicted_during(reg, channel_id, pre) + evictions(
                pending_in(run_channel(reg, channel_id, pre), channel_id),
            ),
        }
    }
}

proof fn lemma_holds_push(p: Seq<PendingEntry>, e: PendingEntry, m: u64)
    ensures
        holds_message(p.push(e), m) <==> (holds_message(p, m) || e.message_id == m),
{
    let q = p.push(e);
    if holds_message(q, m) && e.message_id != m {
        let k = choose|k: int| 0 <= k < q.len() && q[k].message_id == m;
        assert(p[k] == q[k]);
    }
    if holds_message(p, m) {
        let k = choose|k: int| 0 <= k < p.len() && p[k].message_id == m;
        assert(q[k] == p[k]);
    }
    assert(q[p.len() as int] == e);
}

proof fn lemma_inserted_in_last(ops: Seq<ChannelOp>, m: u64)
    requires
        ops.len() > 0,
    ensures
        inserted_in(ops, m) <==> (inserted_in(ops.drop_last(), m) || (ops.last() is Insert
            && ops.last()->message_id == m)),
{
    let pre = ops.drop_last();
    if inserted_in(ops, m) {
        let i = choose|i: int| 0 <= i < ops.len() && ops[i] is Insert && ops[i]->message_id == m;
        if i < pre.len() {
            assert(pre[i] == ops[i]);
        }
    }
    if inserted_in(pre, m) {
        let i = choose|i: int| 0 <= i < pre.len() && pre[i] is Insert && pre[i]->message_id == m;
        assert(ops[i] == pre[i]);
    }
    assert(ops[ops.len() - 1] == ops.last());
}

/// Over any sequence of inserts (of distinct messages) and ticks on a
/// channel that starts empty, as they run one at a time: no message is
/// evicted twice, and every inserted message is either still pending or was
/// evicted, never both and never neither.
pub proof fn lemma_history_evicts_each_once(reg: RegistryView, channel_id: u64, ops: Seq<ChannelOp>)
    requires
        pending_in(reg, channel_id).len() == 0,
        inserts_distinct(ops),
    ensures
        ids_unique(pending_in(run_channel(reg, channel_id, ops), channel_id)),
        evicted_during(reg, channel_id, ops).no_duplicates(),
        forall|m: u64|
            !(holds_message(pending_in(run_channel(reg, channel_id, ops), channel_id), m)
                && #[trigger] evicted_during(reg, channel_id, ops).contains(m)),
        forall|m: u64|
            (holds_message(pending_in(run_channel(reg, channel_id, ops), channel_id), m)
                || evicted_during(reg, channel_id, ops).contains(m)) <==> #[trigger] inserted_in(
                ops,
                m,
            ),
    decreases ops.len(),
{
    if ops.len() == 0 {
        assert forall|m: u64| !holds_message(pending_in(reg, channel_id), m) by {}
    } else {
        let pre = ops.drop_last();
        assert(inserts_distinct(pre)) by {
            assert forall|i: int, j: int|
                0 <= i < j < pre.len() && pre[i] is Insert && pre[j] is Insert implies pre[i]->message_id
                != pre[j]->message_id by {
                assert(pre[i] == ops[i] && pre[j] == ops[j]);
            }
        }
        lemma_history_evicts_each_once(reg, channel_id, pre);
        let before = run_channel(reg, channel_id, pre);
        let p = pending_in(before, channel_id);
        let ev = evicted_during(reg, channel_id, pre);
        let q = pending_in(run_channel(reg, channel_id, ops), channel_id);
        let ev2 = evicted_during(reg, channel_id, ops);
        match ops.last() {
            ChannelOp::Insert { message_id, countdown } => {
                assert(!inserted_in(pre, message_id)) by {
                    if inserted_in(pre, message_id) {
                        let i = choose|i: int|
                            0 <= i < pre.len() && pre[i] is Insert && pre[i]->message_id
                                == message_id;
                        assert(ops[i] == pre[i]);
                        assert(ops[ops.len() - 1] == ops.last());
                    }
                }
                let e = PendingEntry { message_id, remaining: countdown };
                assert(q == p.push(e));
                assert(ids_unique(q)) by {
                    assert forall|i: int, j: int| 0 <= i < j < q.len() implies q[i].message_id
                        != q[j].message_id by {
                        if j == p.len() {
                            assert(q[i] == p[i]);
                            assert(holds_message(p, p[i].message_id));
                        }
                    }
                }
                assert forall|m: u64| #[trigger] inserted_in(ops, m) <==> (holds_message(q, m)
                    || ev2.contains(m)) by {
                    lemma_holds_push(p, e, m);
                    lemma_inserted_in_last(ops, m);
                    assert(inserted_in(pre, m) <==> (holds_message(p, m) || ev.contains(m)));
                }
                assert forall|m: u64| !(holds_message(q, m) && #[trigger] ev2.contains(m)) by {
                    lemma_holds_push(p, e, m);
                    assert(inserted_in(pre, m) <==> (holds_message(p, m) || ev.contains(m)));
                }
            },
            ChannelOp::Tick => {
                if !before.contains_key(channel_id) {
                    lemma_ticked_empty(p);
                    assert(evictions(p) =~= Seq::<u64>::empty());
                }
                assert(q == ticked(p));
                let ep = evictions(p);
                assert(ev2 == ev + ep);
                lemma_ticked_unique(p);
                lemma_tick_evicts_once(p, 0);
                assert forall|i: int, j: int| 0 <= i < ev.len() && 0 <= j < ep.len() implies ev[i]
                    != ep[j] by {
                    lemma_tick_evicts_once(p, ep[j]);
                    assert(ep.contains(ep[j]));
                    assert(ev.contains(ev[i]));
                }
                lemma_no_dup_in_concat(ev, ep);
                assert forall|m: u64| #[trigger] inserted_in(ops, m) <==> (holds_message(q, m)
                    || ev2.contains(m)) by {
                    lemma_tick_evicts_once(p, m);
                    lemma_inserted_in_last(ops, m);
                    lemma_seq_concat_contains_all_elements(ev, ep, m);
                    assert(inserted_in(pre, m) <==> (holds_message(p, m) || ev.contains(m)));
                }
                assert forall|m: u64| !(holds_message(q, m) && #[trigger] ev2.contains(m)) by {
                    lemma_tick_evicts_once(p, m);
                    lemma_seq_concat_contains_all_elements(ev, ep, m);
                    assert(inserted_in(pre, m) <==> (holds_message(p, m) || ev.contains(m)));
                }
            },
        }
    }
}

} // verus!
