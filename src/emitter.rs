use vstd::prelude::*;
use crate::flow::ControlFlow;
use crate::list::{ListenerList, next_live};
use crate::dispatch::{
    live_ids, lemma_agree_from, lemma_delivery_in_registration_order, lemma_live_empty,
    lemma_live_shrinks, lemma_next_live,
};
use crate::listener::{ListenerItem, lemma_item_ext};

verus! {

/// A cursor that delivers one event at a time to successive not-finished
/// listeners of a [`ListenerList`], in registration order.
///
/// A dispatch stops early, at the listener that stopped propagation; that
/// listener and the later ones stay registered for the next dispatch.
#[derive(Debug)]
pub struct EventEmitter {
    pos: usize,
    stopped: bool,
}

impl EventEmitter {
    /// Where the cursor stands in the list.
    pub closed spec fn position(&self) -> int {
        self.pos as int
    }

    /// Whether a listener stopped propagation of this dispatch.
    pub closed spec fn is_stopped(&self) -> bool {
        self.stopped
    }

    /// A cursor at the front of the list.
    pub fn new() -> (r: EventEmitter)
        ensures
            r.position() == 0,
            !r.is_stopped(),
    {
        EventEmitter { pos: 0, stopped: false }
    }

    /// Where the cursor stands in the list.
    pub fn cursor(&self) -> (r: usize)
        ensures
            r == self.position(),
    {
        self.pos
    }

    /// Whether a listener stopped propagation of this dispatch.
    pub fn stopped(&self) -> (r: bool)
        ensures
            r == self.is_stopped(),
    {
        self.stopped
    }

    /// Deliver one event to the next not-finished listener.
    ///
    /// `invoke` receives the listener's identifier and the control value the
    /// dispatch starts from, and returns it as the listener left it. The first
    /// component of the result is `None` when nothing was left to deliver to,
    /// or when the listener stopped propagation (the cursor then stays put and
    /// delivers nothing more). The second is the resumption handle to wake: the
    /// listener's own, exactly when it has just finished.
    pub fn emit_next<W, F>(&mut self, list: &mut ListenerList<W>, invoke: F) -> (r: (
        Option<()>,
        Option<W>,
    )) where F: FnOnce(u64, ControlFlow) -> ControlFlow
        requires
            old(list).wf(),
            ({
                let k = next_live(old(list)@, old(self).position());
                !old(self).is_stopped() && k < old(list)@.len() ==> forall|flow: ControlFlow|
                    invoke.requires((old(list)@[k].0, flow))
            }),
        ensures
            final(list).wf(),
            final(list).next_id() == old(list).next_id(),
            ({
                let k = next_live(old(list)@, old(self).position());
                if old(self).is_stopped() || k >= old(list)@.len() {
                    &&& r == (None::<()>, None::<W>)
                    &&& final(list)@ == old(list)@
                    &&& *final(self) == *old(self)
                } else {
                    let id = old(list)@[k].0;
                    let item = old(list)@[k].1;
                    exists|seed: ControlFlow, out: ControlFlow|
                        ({
                            &&& seed.is_fresh()
                            &&& invoke.ensures((id, seed), out)
                            &&& final(list)@.len() == old(list)@.len()
                            &&& final(list)@[k].0 == id
                            &&& item.after(out, final(list)@[k].1)
                            &&& final(list)@ == old(list)@.update(k, final(list)@[k])
                            &&& r.1 == item.woken(out)
                            &&& if out.propagates() {
                                &&& r.0 == Some(())
                                &&& final(self).position() == k + 1
                                &&& !final(self).is_stopped()
                            } else {
                                &&& r.0 is None
                                &&& final(self).position() == k
                                &&& final(self).is_stopped()
                            }
                        })
                }
            }),
    {
        if self.stopped {
            return (None, None);
        }
        let len = list.len();
        let mut k: usize = self.pos;
        while k < len && list.is_done_at(k)
            invariant
                len == list@.len(),
                list.wf(),
                self.pos <= k,
                next_live(list@, k as int) == next_live(list@, self.pos as int),
            decreases len - k,
        {
            k = k + 1;
        }
        if k >= len {
            return (None, None);
        }
        let id = list.id_at(k);
        let seed = list.flow_at(k);
        let out = invoke(id, seed);
        let (propagates, woken) = list.poll_at(k, out);
        if propagates {
            self.pos = k + 1;
            (Some(()), woken)
        } else {
            self.pos = k;
            self.stopped = true;
            (None, woken)
        }
    }
}

/// Deliver one event to every listener it reaches: from the front of the list,
/// to each not-finished listener in registration order, until one stops
/// propagation.
///
/// Returns the identifiers of the listeners reached, in order, and the
/// resumption handles to wake (of the listeners that finished on this event).
/// Every listener stays registered. When no listener stops propagation, the
/// event reaches exactly the not-finished ones; when none finishes either,
/// the next event reaches the very same listeners.
pub fn emit_all<W, F>(list: &mut ListenerList<W>, invoke: &F) -> (r: (Vec<u64>, Vec<W>))
    where F: Fn(u64, ControlFlow) -> ControlFlow
    requires
        old(list).wf(),
        forall|id: u64, flow: ControlFlow|
            live_ids(old(list)@, 0).contains(id) ==> invoke.requires((id, flow)),
    ensures
        final(list).wf(),
        final(list).next_id() == old(list).next_id(),
        final(list)@.len() == old(list)@.len(),
        forall|i: int| 0 <= i < old(list)@.len() ==> #[trigger] final(list)@[i].0 == old(list)@[i].0,
        forall|i: int|
            0 <= i < old(list)@.len() && old(list)@[i].1.is_done()
                ==> #[trigger] final(list)@[i].1.is_done(),
        r.0@.len() <= live_ids(old(list)@, 0).len(),
        r.0@ == live_ids(old(list)@, 0).take(r.0@.len() as int),
        r.0@.len() < live_ids(old(list)@, 0).len() ==> r.0@.len() > 0 && exists|
            flow: ControlFlow,
            out: ControlFlow,
        | invoke.ensures((r.0@.last(), flow), out) && flow.is_fresh() && !out.propagates(),
        (forall|id: u64, flow: ControlFlow, out: ControlFlow|
            invoke.ensures((id, flow), out) && flow.is_fresh() ==> out.propagates()) ==> r.0@ == live_ids(
            old(list)@,
            0,
        ),
        (forall|id: u64, flow: ControlFlow, out: ControlFlow|
            invoke.ensures((id, flow), out) && flow.is_fresh() ==> !out.is_done()) ==> final(list)@ == old(list)@,
{
    let ghost orig = list@;
    let ghost live = live_ids(orig, 0);
    let mut reached: Vec<u64> = Vec::new();
    let mut woken: Vec<W> = Vec::new();
    let mut emitter = EventEmitter::new();
    proof {
        assert(reached@.add(live) =~= live);
    }
    loop
        invariant
            list.wf(),
            list.next_id() == old(list).next_id(),
            list@.len() == orig.len(),
            orig == old(list)@,
            live == live_ids(orig, 0),
            forall|i: int| 0 <= i < orig.len() ==> #[trigger] list@[i].0 == orig[i].0,
            forall|i: int| emitter.position() <= i < orig.len() ==> list@[i] == orig[i],
            forall|i: int|
                0 <= i < orig.len() && orig[i].1.is_done() ==> #[trigger] list@[i].1.is_done(),
            0 <= emitter.position() <= orig.len(),
            !emitter.is_stopped(),
            reached@.add(live_ids(orig, emitter.position())) == live,
            (forall|id: u64, flow: ControlFlow, out: ControlFlow|
                invoke.ensures((id, flow), out) && flow.is_fresh() ==> !out.is_done()) ==> list@ == orig,
            forall|id: u64, flow: ControlFlow|
                live.contains(id) ==> invoke.requires((id, flow)),
        decreases orig.len() - emitter.position(),
    {
        let ghost pos = emitter.position();
        let ghost before = list@;
        let ghost k = next_live(orig, pos);
        proof {
            lemma_next_live(orig, pos);
            lemma_agree_from(before, orig, pos);
            if k < orig.len() {
                lemma_delivery_in_registration_order(orig, pos, orig[k].1);
                assert(orig.update(k, (orig[k].0, orig[k].1)) =~= orig);
                assert(live[reached@.len() as int] == orig[k].0);
            }
        }
        let call = |id: u64, flow: ControlFlow| -> (out: ControlFlow)
            requires
                invoke.requires((id, flow)),
            ensures
                invoke.ensures((id, flow), out),
            {
                let out = invoke(id, flow);
                out
            };
        let (step, wake) = emitter.emit_next(list, call);
        if let Some(w) = wake {
            woken.push(w);
        }
        if step.is_none() && !emitter.stopped() {
            proof {
                lemma_live_empty(orig, pos);
                assert(reached@.add(live_ids(orig, pos)) =~= reached@);
                assert(live.take(reached@.len() as int) =~= reached@);
            }
            return (reached, woken);
        }
        let at = if emitter.stopped() { emitter.cursor() } else { emitter.cursor() - 1 };
        let id = list.id_at(at);
        proof {
            assert(at == k);
            lemma_delivery_in_registration_order(orig, pos, orig[k].1);
            assert(orig.update(k, (orig[k].0, orig[k].1)) =~= orig);
            if forall|id: u64, flow: ControlFlow, out: ControlFlow|
                invoke.ensures((id, flow), out) && flow.is_fresh() ==> !out.is_done() {
                let (seed, out) = choose|seed: ControlFlow, out: ControlFlow|
                    seed.is_fresh() && call.ensures((orig[k].0, seed), out) && before[k].1.after(
                        out,
                        list@[k].1,
                    );
                assert(invoke.ensures((orig[k].0, seed), out));
                lemma_item_ext(before[k].1, list@[k].1);
                assert(list@ =~= before);
            }
        }
        let ghost prev = reached@;
        reached.push(id);
        proof {
            assert(reached@.add(live_ids(orig, k + 1)) =~= prev.add(live_ids(orig, pos)));
        }
        if step.is_none() {
            proof {
                let (seed, out) = choose|seed: ControlFlow, out: ControlFlow|
                    call.ensures((id, seed), out) && seed.is_fresh() && !out.propagates();
                assert(invoke.ensures((reached@.last(), seed), out));
                assert(live =~= reached@.add(live_ids(orig, k + 1)));
                assert(live.take(reached@.len() as int) =~= reached@);
            }
            return (reached, woken);
        }
    }
}

/// Deliver each of `events`, in order, to every listener it reaches (see
/// [`emit_all`]).
///
/// Returns, for each event, the identifiers of the listeners it reached, and
/// the resumption handles to wake. The closure is only ever called for
/// listeners that were registered and not finished when the run began. Where
/// no listener finishes during the run, the list is left as it was, each
/// event reaches the not-finished listeners in registration order up to and
/// including the first that stops its propagation, and an event that nobody
/// stops reaches every one of them.
pub fn emit_events<W, E, F>(list: &mut ListenerList<W>, events: &Vec<E>, invoke: &F) -> (r: (
    Vec<Vec<u64>>,
    Vec<W>,
)) where F: Fn(&E, u64, ControlFlow) -> ControlFlow
    requires
        old(list).wf(),
        forall|e: &E, id: u64, flow: ControlFlow|
            live_ids(old(list)@, 0).contains(id) ==> invoke.requires((e, id, flow)),
    ensures
        final(list).wf(),
        final(list).next_id() == old(list).next_id(),
        final(list)@.len() == old(list)@.len(),
        forall|i: int| 0 <= i < old(list)@.len() ==> #[trigger] final(list)@[i].0 == old(list)@[i].0,
        r.0@.len() == events@.len(),
        (forall|e: &E, id: u64, flow: ControlFlow, out: ControlFlow|
            invoke.ensures((e, id, flow), out) && flow.is_fresh() ==> !out.is_done()) ==> {
            &&& final(list)@ == old(list)@
            &&& forall|j: int|
                0 <= j < events@.len() ==> reached_by(
                    old(list)@,
                    #[trigger] r.0@[j]@,
                    |id: u64, flow: ControlFlow, out: ControlFlow|
                        invoke.ensures((&events@[j], id, flow), out),
                )
        },
{
    let ghost orig = list@;
    let ghost live = live_ids(orig, 0);
    let mut reached: Vec<Vec<u64>> = Vec::new();
    let mut woken: Vec<W> = Vec::new();
    let mut j: usize = 0;
    while j < events.len()
        invariant
            j <= events@.len(),
            reached@.len() == j,
            list.wf(),
            list.next_id() == old(list).next_id(),
            list@.len() == orig.len(),
            orig == old(list)@,
            live == live_ids(orig, 0),
            forall|i: int| 0 <= i < orig.len() ==> #[trigger] list@[i].0 == orig[i].0,
            forall|i: int|
                0 <= i < orig.len() && orig[i].1.is_done() ==> #[trigger] list@[i].1.is_done(),
            forall|e: &E, id: u64, flow: ControlFlow|
                live.contains(id) ==> invoke.requires((e, id, flow)),
            (forall|e: &E, id: u64, flow: ControlFlow, out: ControlFlow|
                invoke.ensures((e, id, flow), out) && flow.is_fresh() ==> !out.is_done()) ==> {
                &&& list@ == orig
                &&& forall|k: int|
                    0 <= k < j ==> reached_by(
                        orig,
                        #[trigger] reached@[k]@,
                        |id: u64, flow: ControlFlow, out: ControlFlow|
                            invoke.ensures((&events@[k], id, flow), out),
                    )
            },
        decreases events@.len() - j,
    {
        let event = &events[j];
        let call = |id: u64, flow: ControlFlow| -> (out: ControlFlow)
            requires
                invoke.requires((event, id, flow)),
            ensures
                invoke.ensures((event, id, flow), out),
            {
                let out = invoke(event, id, flow);
                out
            };
        proof {
            assert forall|id: u64, flow: ControlFlow|
                live_ids(list@, 0).contains(id) implies call.requires((id, flow)) by {
                lemma_live_shrinks(orig, list@, 0, id);
            }
        }
        let ghost before = list@;
        let ghost prev = reached@;
        let (ids, mut w) = emit_all(list, &call);
        woken.append(&mut w);
        reached.push(ids);
        proof {
            let outcome = |id: u64, flow: ControlFlow, out: ControlFlow|
                invoke.ensures((&events@[j as int], id, flow), out);
            assert forall|id: u64, flow: ControlFlow, out: ControlFlow|
                call.ensures((id, flow), out) implies outcome(id, flow, out) by {}
            if forall|e: &E, id: u64, flow: ControlFlow, out: ControlFlow|
                invoke.ensures((e, id, flow), out) && flow.is_fresh() ==> !out.is_done() {
                assert forall|id: u64, flow: ControlFlow, out: ControlFlow|
                    call.ensures((id, flow), out) && flow.is_fresh() implies !out.is_done() by {
                    assert(outcome(id, flow, out));
                }
                assert(list@ == orig);
                let got = reached@[j as int]@;
                if got.len() < live.len() {
                    let (flow, out) = choose|flow: ControlFlow, out: ControlFlow|
                        call.ensures((got.last(), flow), out) && flow.is_fresh() && !out.propagates();
                    assert(outcome(got.last(), flow, out));
                }
                if forall|id: u64, flow: ControlFlow, out: ControlFlow|
                    #[trigger] outcome(id, flow, out) && flow.is_fresh() ==> out.propagates() {
                    assert forall|id: u64, flow: ControlFlow, out: ControlFlow|
                        call.ensures((id, flow), out) && flow.is_fresh() implies out.propagates() by {
                        assert(outcome(id, flow, out));
                    }
                }
                assert(reached_by(orig, got, outcome));
                assert forall|k: int| 0 <= k < j + 1 implies reached_by(
                    orig,
                    #[trigger] reached@[k]@,
                    |id: u64, flow: ControlFlow, out: ControlFlow|
                        invoke.ensures((&events@[k], id, flow), out),
                ) by {
                    if k < j {
                        assert(reached@[k] == prev[k]);
                    }
                }
            }
        }
        j = j + 1;
    }
    (reached, woken)
}

/// What one dispatch of a run did, where `outcome(id, flow, out)` says that
/// the listener `id`, handed `flow`, may have left it as `out`: it reached the
/// not-finished listeners of `entries` in order, stopping only after one that
/// may have stopped propagation, and reached them all where none could.
pub open spec fn reached_by<W>(
    entries: Seq<(u64, ListenerItem<W>)>,
    ids: Seq<u64>,
    outcome: spec_fn(u64, ControlFlow, ControlFlow) -> bool,
) -> bool {
    &&& ids.len() <= live_ids(entries, 0).len()
    &&& ids == live_ids(entries, 0).take(ids.len() as int)
    &&& ids.len() < live_ids(entries, 0).len() ==> ids.len() > 0 && exists|
        flow: ControlFlow,
        out: ControlFlow,
    | #[trigger] outcome(ids.last(), flow, out) && flow.is_fresh() && !out.propagates()
    &&& (forall|id: u64, flow: ControlFlow, out: ControlFlow|
        #[trigger] outcome(id, flow, out) && flow.is_fresh() ==> out.propagates()) ==> ids
        == live_ids(entries, 0)
}

} // verus!
