//! What holds of every dispatch, stated over the list's model and proved.
use vstd::prelude::*;
use crate::listener::ListenerItem;
use crate::list::{next_live, ids_increasing, has_id};

verus! {

/// The identifiers of the not-finished listeners at or after position `pos`,
/// in list order: the listeners a dispatch from `pos` reaches when none of them
/// stops propagation.
pub open spec fn live_ids<W>(entries: Seq<(u64, ListenerItem<W>)>, pos: int) -> Seq<u64>
    decreases entries.len() - pos,
{
    if pos >= entries.len() {
        Seq::empty()
    } else if pos >= 0 && !entries[pos].1.is_done() {
        seq![entries[pos].0].add(live_ids(entries, pos + 1))
    } else {
        live_ids(entries, pos + 1)
    }
}

/// The cursor of a dispatch lands on the first not-finished listener at or
/// after it, passing over finished ones only.
pub proof fn lemma_next_live<W>(entries: Seq<(u64, ListenerItem<W>)>, pos: int)
    requires
        0 <= pos,
    ensures
        pos <= entries.len() ==> pos <= next_live(entries, pos) <= entries.len(),
        next_live(entries, pos) < entries.len() ==> !entries[next_live(entries, pos)].1.is_done(),
        forall|j: int| pos <= j < next_live(entries, pos) ==> entries[j].1.is_done(),
    decreases entries.len() - pos,
{
    if pos < entries.len() && entries[pos].1.is_done() {
        lemma_next_live(entries, pos + 1);
    }
}

/// Changing a listener before the cursor does not move where the cursor lands.
proof fn lemma_next_live_frame<W>(
    entries: Seq<(u64, ListenerItem<W>)>,
    i: int,
    x: (u64, ListenerItem<W>),
    pos: int,
)
    requires
        0 <= i < pos,
        i < entries.len(),
    ensures
        next_live(entries.update(i, x), pos) == next_live(entries, pos),
        live_ids(entries.update(i, x), pos) == live_ids(entries, pos),
    decreases entries.len() - pos,
{
    if pos < entries.len() {
        lemma_next_live_frame(entries, i, x, pos + 1);
    }
}

/// Registration order: one step of a dispatch reaches the first not-finished
/// listener after the cursor, and whatever that listener does, the rest of the
/// dispatch reaches exactly the remaining not-finished listeners, in order.
/// So a dispatch in which every listener lets the event propagate delivers it
/// to every not-finished listener, each once, in list order, which is
/// registration order.
pub proof fn lemma_delivery_in_registration_order<W>(
    entries: Seq<(u64, ListenerItem<W>)>,
    pos: int,
    after: ListenerItem<W>,
)
    requires
        0 <= pos,
        next_live(entries, pos) < entries.len(),
    ensures
        ({
            let k = next_live(entries, pos);
            live_ids(entries, pos) == seq![entries[k].0].add(
                live_ids(entries.update(k, (entries[k].0, after)), k + 1),
            )
        }),
    decreases entries.len() - pos,
{
    let k = next_live(entries, pos);
    if entries[pos].1.is_done() {
        lemma_delivery_in_registration_order(entries, pos + 1, after);
    } else {
        lemma_next_live_frame(entries, k, (entries[k].0, after), k + 1);
    }
}

/// The listeners a dispatch reaches come in strictly increasing identifier
/// order, that is, in the order they registered in.
pub proof fn lemma_live_ids_increasing<W>(entries: Seq<(u64, ListenerItem<W>)>, pos: int)
    requires
        0 <= pos,
        ids_increasing(entries),
    ensures
        forall|a: int, b: int|
            0 <= a < b < live_ids(entries, pos).len() ==> #[trigger] live_ids(entries, pos)[a]
                < #[trigger] live_ids(entries, pos)[b],
        pos < entries.len() ==> forall|a: int|
            0 <= a < live_ids(entries, pos).len() ==> entries[pos].0 <= #[trigger] live_ids(
                entries,
                pos,
            )[a],
    decreases entries.len() - pos,
{
    if pos < entries.len() {
        lemma_live_ids_increasing(entries, pos + 1);
        let rest = live_ids(entries, pos + 1);
        let s = live_ids(entries, pos);
        if pos + 1 < entries.len() {
            assert(entries[pos].0 < entries[pos + 1].0);
        }
        if !entries[pos].1.is_done() {
            assert forall|a: int| 0 <= a < s.len() implies entries[pos].0 <= #[trigger] s[a] by {
                if a > 0 {
                    assert(s[a] == rest[a - 1]);
                }
            }
            assert forall|a: int, b: int| 0 <= a < b < s.len() implies #[trigger] s[a]
                < #[trigger] s[b] by {
                assert(s[b] == rest[b - 1]);
                if a > 0 {
                    assert(s[a] == rest[a - 1]);
                }
            }
        }
    }
}

/// Every not-finished listener at or after `pos` is reached by a dispatch
/// from `pos` in which nobody stops propagation.
pub proof fn lemma_live_reached<W>(entries: Seq<(u64, ListenerItem<W>)>, pos: int, j: int)
    requires
        0 <= pos <= j < entries.len(),
        !entries[j].1.is_done(),
    ensures
        live_ids(entries, pos).contains(entries[j].0),
    decreases j - pos,
{
    if pos < j {
        lemma_live_reached(entries, pos + 1, j);
        let rest = live_ids(entries, pos + 1);
        let k = choose|k: int| 0 <= k < rest.len() && rest[k] == entries[j].0;
        if !entries[pos].1.is_done() {
            assert(live_ids(entries, pos)[k + 1] == entries[j].0);
        }
    } else {
        assert(live_ids(entries, pos)[0] == entries[j].0);
    }
}

/// Selective stop: when the listener at position `k` stops propagation, the
/// dispatch ends there, but every listener stays registered, and every
/// not-finished listener after it is reached by the next dispatch (which
/// starts from the front).
pub proof fn lemma_stop_withholds_only_current_event<W>(
    entries: Seq<(u64, ListenerItem<W>)>,
    k: int,
    after: ListenerItem<W>,
    j: int,
)
    requires
        0 <= k < j < entries.len(),
        !entries[j].1.is_done(),
    ensures
        live_ids(entries.update(k, (entries[k].0, after)), 0).contains(entries[j].0),
{
    let e2 = entries.update(k, (entries[k].0, after));
    lemma_live_reached(e2, 0, j);
}

/// A finished listener is never reached: no dispatch step lands on it.
pub proof fn lemma_finished_not_reached<W>(entries: Seq<(u64, ListenerItem<W>)>, pos: int, i: int)
    requires
        0 <= pos,
        0 <= i < entries.len(),
        entries[i].1.is_done(),
    ensures
        next_live(entries, pos) != i,
{
    lemma_next_live(entries, pos);
}

/// A listener that was unlinked (or never registered) is never reached: no
/// dispatch step lands on a listener registered under its identifier.
pub proof fn lemma_removed_not_reached<W>(entries: Seq<(u64, ListenerItem<W>)>, pos: int, id: u64)
    requires
        0 <= pos,
        !has_id(entries, id),
    ensures
        next_live(entries, pos) < entries.len() ==> entries[next_live(entries, pos)].0 != id,
        !live_ids(entries, pos).contains(id),
    decreases entries.len() - pos,
{
    lemma_next_live(entries, pos);
    if pos < entries.len() {
        lemma_removed_not_reached(entries, pos + 1, id);
    }
}

/// Two lists that agree from position `pos` on have a dispatch from `pos`
/// land on the same place and reach the same listeners.
pub proof fn lemma_agree_from<W>(
    a: Seq<(u64, ListenerItem<W>)>,
    b: Seq<(u64, ListenerItem<W>)>,
    pos: int,
)
    requires
        0 <= pos,
        a.len() == b.len(),
        forall|i: int| pos <= i < a.len() ==> a[i] == b[i],
    ensures
        next_live(a, pos) == next_live(b, pos),
        live_ids(a, pos) == live_ids(b, pos),
    decreases a.len() - pos,
{
    if pos < a.len() {
        lemma_agree_from(a, b, pos + 1);
    }
}

/// Where the cursor finds no not-finished listener, a dispatch reaches nobody.
pub proof fn lemma_live_empty<W>(entries: Seq<(u64, ListenerItem<W>)>, pos: int)
    requires
        0 <= pos,
        next_live(entries, pos) >= entries.len(),
    ensures
        live_ids(entries, pos).len() == 0,
    decreases entries.len() - pos,
{
    if pos < entries.len() {
        lemma_live_empty(entries, pos + 1);
    }
}

/// Listeners only leave a dispatch's reach: where identifiers stay in place
/// and no finished listener becomes unfinished, every listener reached from
/// `pos` afterwards was reached from `pos` before.
pub proof fn lemma_live_shrinks<W>(
    a: Seq<(u64, ListenerItem<W>)>,
    b: Seq<(u64, ListenerItem<W>)>,
    pos: int,
    id: u64,
)
    requires
        0 <= pos,
        a.len() == b.len(),
        forall|i: int| 0 <= i < a.len() ==> #[trigger] b[i].0 == a[i].0,
        forall|i: int| 0 <= i < a.len() && a[i].1.is_done() ==> #[trigger] b[i].1.is_done(),
        live_ids(b, pos).contains(id),
    ensures
        live_ids(a, pos).contains(id),
    decreases a.len() - pos,
{
    if pos < a.len() {
        let lb = live_ids(b, pos);
        let n = choose|n: int| 0 <= n < lb.len() && lb[n] == id;
        if !b[pos].1.is_done() && n == 0 {
            assert(live_ids(a, pos)[0] == id);
        } else {
            if !b[pos].1.is_done() {
                assert(live_ids(b, pos + 1)[n - 1] == id);
            }
            lemma_live_shrinks(a, b, pos + 1, id);
            let la = live_ids(a, pos + 1);
            let m = choose|m: int| 0 <= m < la.len() && la[m] == id;
            if !a[pos].1.is_done() {
                assert(live_ids(a, pos)[m + 1] == id);
            }
        }
    }
}

} // verus!
