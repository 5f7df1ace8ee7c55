use std::collections::HashMap;
use vstd::prelude::*;

verus! {

broadcast use vstd::std_specs::hash::group_hash_axioms;

/// One tagged message waiting in its source channel for deletion.
#[derive(Clone, Copy, Debug, PartialEq, Eq, Structural)]
pub struct PendingEntry {
    pub message_id: u64,
    /// Further channel messages that may pass before the entry is evicted.
    pub remaining: u16,
}

/// Abstract registry: channel id to its pending entries, in insertion order.
pub type RegistryView = Map<u64, Seq<PendingEntry>>;

/// The entries pending in a channel; a channel never touched has none.
pub open spec fn pending_in(reg: RegistryView, channel_id: u64) -> Seq<PendingEntry> {
    if reg.contains_key(channel_id) {
        reg[channel_id]
    } else {
        Seq::empty()
    }
}

pub open spec fn holds_message(entries: Seq<PendingEntry>, message_id: u64) -> bool {
    exists|i: int| 0 <= i < entries.len() && entries[i].message_id == message_id
}

/// No message id appears twice in one channel.
pub open spec fn ids_unique(entries: Seq<PendingEntry>) -> bool {
    forall|i: int, j: int|
        0 <= i < j < entries.len() ==> entries[i].message_id != entries[j].message_id
}

pub open spec fn evicts(e: PendingEntry) -> Option<u64> {
    if e.remaining == 0 {
        Some(e.message_id)
    } else {
        None
    }
}

pub open spec fn survives(e: PendingEntry) -> Option<PendingEntry> {
    if e.remaining == 0 {
        None
    } else {
        Some(PendingEntry { message_id: e.message_id, remaining: (e.remaining - 1) as u16 })
    }
}

/// Ids removed by one tick: the entries at zero, in insertion order.
pub open spec fn evictions(entries: Seq<PendingEntry>) -> Seq<u64> {
    entries.filter_map(|e: PendingEntry| evicts(e))
}

/// Entries left by one tick: the others, each one step closer to zero.
pub open spec fn ticked(entries: Seq<PendingEntry>) -> Seq<PendingEntry> {
    entries.filter_map(|e: PendingEntry| survives(e))
}

/// The registry after an insert; a message already pending in the channel
/// is left as it is.
pub open spec fn registry_inserted(
    reg: RegistryView,
    channel_id: u64,
    message_id: u64,
    countdown: u16,
) -> RegistryView {
    if holds_message(pending_in(reg, channel_id), message_id) {
        reg
    } else {
        reg.insert(
            channel_id,
            pending_in(reg, channel_id).push(
                PendingEntry { message_id: message_id, remaining: countdown },
            ),
        )
    }
}

/// The registry after one tick of a channel.
pub open spec fn registry_ticked(reg: RegistryView, channel_id: u64) -> RegistryView {
    if reg.contains_key(channel_id) {
        reg.insert(channel_id, ticked(reg[channel_id]))
    } else {
        reg
    }
}

/// Per-channel pending tagged messages and their countdowns.
pub struct CountdownRegistry {
    channels: HashMap<u64, Vec<PendingEntry>>,
}

impl View for CountdownRegistry {
    type V = RegistryView;

    closed spec fn view(&self) -> RegistryView {
        Map::new(|c: u64| self.channels@.contains_key(c), |c: u64| self.channels@[c]@)
    }
}

impl CountdownRegistry {
    /// An empty registry.
    pub fn new() -> (r: Self)
        ensures
            r@ == Map::<u64, Seq<PendingEntry>>::empty(),
    {
        let r = CountdownRegistry { channels: HashMap::new() };
        assert(r@ =~= Map::<u64, Seq<PendingEntry>>::empty());
        r
    }

    fn take_channel(&mut self, channel_id: u64) -> (entries: Vec<PendingEntry>)
        ensures
            entries@ == pending_in(old(self)@, channel_id),
            final(self)@ == old(self)@.remove(channel_id),
    {
        let taken = self.channels.remove(&channel_id);
        assert(self@ =~= old(self)@.remove(channel_id));
        match taken {
            Some(v) => v,
            None => Vec::new(),
        }
    }

    fn put_channel(&mut self, channel_id: u64, entries: Vec<PendingEntry>)
        ensures
            final(self)@ == old(self)@.insert(channel_id, entries@),
    {
        self.channels.insert(channel_id, entries);
        assert(self@ =~= old(self)@.insert(channel_id, entries@));
    }

    /// Whether `message_id` is pending in `channel_id`.
    pub fn is_pending(&self, channel_id: u64, message_id: u64) -> (r: bool)
        ensures
            r == holds_message(pending_in(self@, channel_id), message_id),
    {
        match self.channels.get(&channel_id) {
            None => false,
            Some(v) => {
                let mut i: usize = 0;
                while i < v.len()
                    invariant
                        v@ == pending_in(self@, channel_id),
                        i <= v.len(),
                        forall|j: int| 0 <= j < i ==> v@[j].message_id != message_id,
                    decreases v.len() - i,
                {
                    if v[i].message_id == message_id {
                        return true;
                    }
                    i = i + 1;
                }
                false
            },
        }
    }

    /// A copy of the entries pending in `channel_id`, in insertion order.
    pub fn pending(&self, channel_id: u64) -> (r: Vec<PendingEntry>)
        ensures
            r@ == pending_in(self@, channel_id),
    {
        match self.channels.get(&channel_id) {
            None => Vec::new(),
            Some(v) => v.clone(),
        }
    }

    /// Registers `message_id` in `channel_id` with `initial_countdown`.
    /// A message already pending there is left untouched, so a second tag
    /// never starts a second countdown; the result tells whether it was added.
    pub fn insert(&mut self, channel_id: u64, message_id: u64, initial_countdown: u16) -> (added:
        bool)
        ensures
            added == !holds_message(pending_in(old(self)@, channel_id), message_id),
            final(self)@ == registry_inserted(old(self)@, channel_id, message_id, initial_countdown),
    {
        let present = self.is_pending(channel_id, message_id);
        if present {
            return false;
        }
        let mut entries = self.take_channel(channel_id);
        entries.push(PendingEntry { message_id, remaining: initial_countdown });
        self.put_channel(channel_id, entries);
        assert(self@ =~= registry_inserted(old(self)@, channel_id, message_id, initial_countdown));
        true
    }

    /// One message was posted in `channel_id`: every entry at zero there is
    /// removed and its id returned, in insertion order; every other entry
    /// counts down by one. Other channels are untouched.
    pub fn tick_and_evict(&mut self, channel_id: u64) -> (evicted: Vec<u64>)
        ensures
            evicted@ == evictions(pending_in(old(self)@, channel_id)),
            final(self)@ == registry_ticked(old(self)@, channel_id),
            pending_in(old(self)@, channel_id).len() == 0 ==> evicted@.len() == 0 && final(self)@
                == old(self)@,
    {
        let contains = self.channels.contains_key(&channel_id);
        if !contains {
            return Vec::new();
        }
        let entries = self.take_channel(channel_id);
        let mut kept: Vec<PendingEntry> = Vec::new();
        let mut evicted: Vec<u64> = Vec::new();
        let mut i: usize = 0;
        while i < entries.len()
            invariant
                i <= entries.len(),
                kept@ == ticked(entries@.take(i as int)),
                evicted@ == evictions(entries@.take(i as int)),
            decreases entries.len() - i,
        {
            let e = entries[i];
            proof {
                entries@.lemma_filter_map_take_succ(|e: PendingEntry| survives(e), i as int);
                entries@.lemma_filter_map_take_succ(|e: PendingEntry| evicts(e), i as int);
            }
            if e.remaining == 0 {
                evicted.push(e.message_id);
            } else {
                kept.push(PendingEntry { message_id: e.message_id, remaining: e.remaining - 1 });
            }
            i = i + 1;
        }
        assert(entries@.take(entries@.len() as int) =~= entries@);
        self.put_channel(channel_id, kept);
        assert(self@ =~= registry_ticked(old(self)@, channel_id));
        if entries.len() == 0 {
            assert(ticked(entries@) =~= entries@);
            assert(old(self)@.contains_key(channel_id));
            assert(self@ =~= old(self)@);
        }
        evicted
    }
}

/// Every entry left by a tick comes from an entry that was there before.
pub proof fn lemma_ticked_from(entries: Seq<PendingEntry>, k: int)
    requires
        0 <= k < ticked(entries).len(),
    ensures
        exists|i: int|
            0 <= i < entries.len() && entries[i].message_id == ticked(entries)[k].message_id
                && entries[i].remaining == ticked(entries)[k].remaining + 1,
    decreases entries.len(),
{
    let rest = entries.drop_last();
    if k < ticked(rest).len() {
        lemma_ticked_from(rest, k);
        let i = choose|i: int|
            0 <= i < rest.len() && rest[i].message_id == ticked(rest)[k].message_id
                && rest[i].remaining == ticked(rest)[k].remaining + 1;
        assert(entries[i] == rest[i]);
    } else {
        assert(entries[entries.len() - 1] == entries.last());
    }
}

/// A tick keeps message ids distinct.
pub proof fn lemma_ticked_unique(entries: Seq<PendingEntry>)
    requires
        ids_unique(entries),
    ensures
        ids_unique(ticked(entries)),
    decreases entries.len(),
{
    if entries.len() > 0 {
        let rest = entries.drop_last();
        assert(ids_unique(rest));
        lemma_ticked_unique(rest);
        if entries.last().remaining != 0 {
            let t = ticked(entries);
            assert forall|i: int, j: int|
                0 <= i < j < t.len() implies t[i].message_id != t[j].message_id by {
                if j == t.len() - 1 {
                    lemma_ticked_from(rest, i);
                    let a = choose|a: int|
                        0 <= a < rest.len() && rest[a].message_id == ticked(rest)[i].message_id
                            && rest[a].remaining == ticked(rest)[i].remaining + 1;
                    assert(entries[a] == rest[a]);
                }
            }
        }
    }
}

/// Every channel of the registry holds distinct message ids.
pub open spec fn registry_unique(reg: RegistryView) -> bool {
    forall|c: u64| #[trigger] reg.contains_key(c) ==> ids_unique(reg[c])
}

/// Inserts and ticks keep message ids distinct in every channel.
pub proof fn lemma_operations_keep_ids_unique(
    reg: RegistryView,
    channel_id: u64,
    message_id: u64,
    countdown: u16,
)
    requires
        registry_unique(reg),
    ensures
        registry_unique(registry_inserted(reg, channel_id, message_id, countdown)),
        registry_unique(registry_ticked(reg, channel_id)),
{
    let p = pending_in(reg, channel_id);
    if !holds_message(p, message_id) {
        let q = p.push(PendingEntry { message_id, remaining: countdown });
        assert forall|i: int, j: int| 0 <= i < j < q.len() implies q[i].message_id
            != q[j].message_id by {
            if j == p.len() {
                assert(q[i] == p[i]);
            }
        }
    }
    if reg.contains_key(channel_id) {
        lemma_ticked_unique(reg[channel_id]);
    }
}

/// An entry inserted with countdown zero is evicted by the very next tick
/// of its channel, and is gone afterwards.
pub proof fn lemma_zero_countdown_evicted_next_tick(
    reg: RegistryView,
    channel_id: u64,
    message_id: u64,
)
    requires
        !holds_message(pending_in(reg, channel_id), message_id),
    ensures
        evictions(pending_in(registry_inserted(reg, channel_id, message_id, 0), channel_id)).contains(
            message_id,
        ),
        !holds_message(
            pending_in(
                registry_ticked(registry_inserted(reg, channel_id, message_id, 0), channel_id),
                channel_id,
            ),
            message_id,
        ),
{
    let p = pending_in(reg, channel_id);
    let q = p.push(PendingEntry { message_id, remaining: 0 });
    assert(q.drop_last() =~= p);
    let ev = evictions(q);
    assert(ev == evictions(p) + seq![message_id]);
    assert(ev[ev.len() - 1] == message_id);
    assert(ticked(q) == ticked(p));
    if holds_message(ticked(p), message_id) {
        let k = choose|k: int| 0 <= k < ticked(p).len() && ticked(p)[k].message_id == message_id;
        lemma_ticked_from(p, k);
    }
}

/// An accepted insert is never lost: right after it, the message is
/// pending in its channel.
pub proof fn lemma_insert_not_lost(reg: RegistryView, channel_id: u64, message_id: u64, countdown: u16)
    ensures
        holds_message(
            pending_in(registry_inserted(reg, channel_id, message_id, countdown), channel_id),
            message_id,
        ),
{
    let p = pending_in(reg, channel_id);
    if !holds_message(p, message_id) {
        let q = p.push(PendingEntry { message_id, remaining: countdown });
        assert(q[p.len() as int].message_id == message_id);
    }
}

/// A tick accounts for each pending message exactly once: it is either
/// evicted or kept, never both, and no id is evicted twice. A kept message
/// can thus only be evicted by a later tick, and an evicted one not again
/// unless it is tagged anew.
pub proof fn lemma_tick_evicts_once(entries: Seq<PendingEntry>, message_id: u64)
    requires
        ids_unique(entries),
    ensures
        holds_message(entries, message_id) <==> (evictions(entries).contains(message_id)
            || holds_message(ticked(entries), message_id)),
        !(evictions(entries).contains(message_id) && holds_message(ticked(entries), message_id)),
        evictions(entries).no_duplicates(),
    decreases entries.len(),
{
    if entries.len() > 0 {
        let rest = entries.drop_last();
        let e = entries.last();
        assert(ids_unique(rest));
        lemma_tick_evicts_once(rest, message_id);
        lemma_tick_evicts_once(rest, e.message_id);
        assert(entries[entries.len() - 1] == e);
        assert(holds_message(entries, message_id) <==> (holds_message(rest, message_id)
            || e.message_id == message_id)) by {
            if holds_message(entries, message_id) && e.message_id != message_id {
                let k = choose|k: int|
                    0 <= k < entries.len() && entries[k].message_id == message_id;
                assert(rest[k] == entries[k]);
            }
            if holds_message(rest, message_id) {
                let k = choose|k: int| 0 <= k < rest.len() && rest[k].message_id == message_id;
                assert(rest[k] == entries[k]);
            }
        }
        assert(!holds_message(rest, e.message_id)) by {
            if holds_message(rest, e.message_id) {
                let k = choose|k: int| 0 <= k < rest.len() && rest[k].message_id == e.message_id;
                assert(entries[k] == rest[k]);
            }
        }
        let er = evictions(rest);
        let tr = ticked(rest);
        if e.remaining == 0 {
            assert(evictions(entries) == er + seq![e.message_id]);
            assert(ticked(entries) == tr);
            let ev = evictions(entries);
            assert(ev.contains(message_id) <==> (er.contains(message_id) || e.message_id
                == message_id)) by {
                if ev.contains(message_id) {
                    let k = choose|k: int| 0 <= k < ev.len() && ev[k] == message_id;
                    if k < er.len() {
                        assert(er[k] == ev[k]);
                    }
                }
                if er.contains(message_id) {
                    let k = choose|k: int| 0 <= k < er.len() && er[k] == message_id;
                    assert(ev[k] == er[k]);
                }
                assert(ev[er.len() as int] == e.message_id);
            }
        } else {
            let d = PendingEntry { message_id: e.message_id, remaining: (e.remaining - 1) as u16 };
            assert(evictions(entries) == er);
            assert(ticked(entries) == tr + seq![d]);
            let t = ticked(entries);
            assert(holds_message(t, message_id) <==> (holds_message(tr, message_id)
                || e.message_id == message_id)) by {
                if holds_message(t, message_id) {
                    let k = choose|k: int| 0 <= k < t.len() && t[k].message_id == message_id;
                    if k < tr.len() {
                        assert(tr[k] == t[k]);
                    }
                }
                if holds_message(tr, message_id) {
                    let k = choose|k: int| 0 <= k < tr.len() && tr[k].message_id == message_id;
                    assert(t[k] == tr[k]);
                }
                assert(t[tr.len() as int] == d);
            }
        }
    }
}

} // verus!
