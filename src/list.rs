use vstd::prelude::*;
use crate::flow::ControlFlow;
use crate::listener::ListenerItem;

verus! {

/// One registered listener and the identifier it was registered under.
#[derive(Debug)]
struct Slot<W> {
    id: u64,
    item: ListenerItem<W>,
}

/// The registered listeners, in registration order.
///
/// Each listener is addressed by the identifier handed out when it was pushed;
/// identifiers grow with registration order and are never handed out twice.
#[derive(Debug)]
pub struct ListenerList<W> {
    slots: Vec<Slot<W>>,
    next_id: u64,
}

/// The position of the first not-finished listener at or after `pos`
/// (the length of `entries` if there is none).
pub open spec fn next_live<W>(entries: Seq<(u64, ListenerItem<W>)>, pos: int) -> int
    decreases entries.len() - pos,
{
    if pos >= entries.len() {
        entries.len() as int
    } else if pos >= 0 && !entries[pos].1.is_done() {
        pos
    } else {
        next_live(entries, pos + 1)
    }
}

/// Identifiers strictly increase along the sequence.
pub open spec fn ids_increasing<W>(entries: Seq<(u64, ListenerItem<W>)>) -> bool {
    forall|i: int, j: int| 0 <= i < j < entries.len() ==> entries[i].0 < entries[j].0
}

/// Whether `id` names a listener of `entries`.
pub open spec fn has_id<W>(entries: Seq<(u64, ListenerItem<W>)>, id: u64) -> bool {
    exists|i: int| 0 <= i < entries.len() && entries[i].0 == id
}

impl<W> ListenerList<W> {
    /// The listeners in registration order, each with its identifier.
    pub closed spec fn view(&self) -> Seq<(u64, ListenerItem<W>)> {
        self.slots@.map_values(|s: Slot<W>| (s.id, s.item))
    }

    /// The identifier the next registration receives.
    pub closed spec fn next_id(&self) -> u64 {
        self.next_id
    }

    pub open spec fn wf(&self) -> bool {
        &&& ids_increasing(self@)
        &&& forall|i: int| 0 <= i < self@.len() ==> self@[i].0 < self.next_id()
    }

    pub fn new() -> (r: ListenerList<W>)
        ensures
            r.wf(),
            r@.len() == 0,
            r.next_id() == 0,
    {
        ListenerList { slots: Vec::new(), next_id: 0 }
    }

    /// Number of listeners currently registered.
    pub fn len(&self) -> (r: usize)
        ensures
            r == self@.len(),
    {
        self.slots.len()
    }

    /// Register a new listener at the back of the list.
    ///
    /// Returns its identifier, or `None` once every identifier has been used.
    pub fn push_back(&mut self) -> (r: Option<u64>)
        requires
            old(self).wf(),
        ensures
            final(self).wf(),
            old(self).next_id() == u64::MAX ==> r is None && final(self)@ == old(self)@,
            old(self).next_id() < u64::MAX ==> {
                &&& r == Some(old(self).next_id())
                &&& final(self).next_id() == old(self).next_id() + 1
                &&& final(self)@.len() == old(self)@.len() + 1
                &&& final(self)@.drop_last() == old(self)@
                &&& final(self)@.last().0 == old(self).next_id()
                &&& final(self)@.last().1.is_fresh()
            },
    {
        if self.next_id == u64::MAX {
            return None;
        }
        let id = self.next_id;
        self.slots.push(Slot { id, item: ListenerItem::new() });
        self.next_id = id + 1;
        proof {
            assert(self@.drop_last() =~= old(self)@);
            assert(self@ =~= old(self)@.push((id, self@.last().1)));
        }
        Some(id)
    }

    /// The position of the listener registered under `id`, if it is registered.
    pub fn position(&self, id: u64) -> (r: Option<usize>)
        ensures
            r is None <==> !has_id(self@, id),
            r matches Some(i) ==> i < self@.len() && self@[i as int].0 == id,
    {
        let mut i: usize = 0;
        while i < self.slots.len()
            invariant
                i <= self@.len(),
                self@.len() == self.slots@.len(),
                forall|j: int| 0 <= j < i ==> self@[j].0 != id,
            decreases self.slots.len() - i,
        {
            if self.slots[i].id == id {
                assert(self@[i as int].0 == id);
                return Some(i);
            }
            i = i + 1;
        }
        None
    }

    /// Whether the listener at position `i` has finished.
    pub fn is_done_at(&self, i: usize) -> (r: bool)
        requires
            i < self@.len(),
        ensures
            r == self@[i as int].1.is_done(),
    {
        self.slots[i].item.done()
    }

    /// The identifier of the listener at position `i`.
    pub fn id_at(&self, i: usize) -> (r: u64)
        requires
            i < self@.len(),
        ensures
            r == self@[i as int].0,
    {
        self.slots[i].id
    }

    /// The control value a dispatch to the listener at position `i` starts from.
    pub fn flow_at(&self, i: usize) -> (r: ControlFlow)
        requires
            i < self@.len(),
        ensures
            r.seeded() == self@[i as int].1.is_done(),
            r.is_done() == self@[i as int].1.is_done(),
            r.propagates(),
    {
        self.slots[i].item.flow()
    }

    /// Record the outcome `flow` of a dispatch to the listener at position `i`
    /// (see [`ListenerItem::poll`]).
    pub fn poll_at(&mut self, i: usize, flow: ControlFlow) -> (r: (bool, Option<W>))
        requires
            old(self).wf(),
            i < old(self)@.len(),
        ensures
            final(self).wf(),
            final(self).next_id() == old(self).next_id(),
            final(self)@.len() == old(self)@.len(),
            final(self)@[i as int].0 == old(self)@[i as int].0,
            old(self)@[i as int].1.after(flow, final(self)@[i as int].1),
            final(self)@ == old(self)@.update(i as int, final(self)@[i as int]),
            r.0 == flow.propagates(),
            r.1 == old(self)@[i as int].1.woken(flow),
    {
        let r = self.slots[i].item.poll(flow);
        proof {
            assert(self@ =~= old(self)@.update(i as int, self@[i as int]));
        }
        r
    }

    /// Identifiers name at most one listener.
    pub proof fn lemma_id_unique(&self, i: int)
        requires
            self.wf(),
            0 <= i < self@.len(),
        ensures
            forall|j: int| 0 <= j < self@.len() && self@[j].0 == self@[i].0 ==> j == i,
    {
        assert forall|j: int| 0 <= j < self@.len() && self@[j].0 == self@[i].0 implies j == i by {
            if j < i {
                assert(self@[j].0 < self@[i].0);
            } else if j > i {
                assert(self@[i].0 < self@[j].0);
            }
        }
    }

    /// Unlink the listener registered under `id`.
    ///
    /// Returns whether it was registered; the others keep their order.
    pub fn remove(&mut self, id: u64) -> (r: bool)
        requires
            old(self).wf(),
        ensures
            final(self).wf(),
            final(self).next_id() == old(self).next_id(),
            r == has_id(old(self)@, id),
            !has_id(final(self)@, id),
            r ==> exists|i: int|
                0 <= i < old(self)@.len() && old(self)@[i].0 == id && final(self)@ == old(self)@.remove(i),
            !r ==> final(self)@ == old(self)@,
    {
        match self.position(id) {
            None => false,
            Some(i) => {
                self.slots.remove(i);
                proof {
                    assert(self@ =~= old(self)@.remove(i as int));
                    assert forall|j: int| 0 <= j < self@.len() implies self@[j].0 != id by {
                        if j < i {
                            assert(old(self)@[j].0 < old(self)@[i as int].0);
                        } else {
                            assert(old(self)@[j + 1].0 > old(self)@[i as int].0);
                        }
                    }
                }
                true
            },
        }
    }

    /// Whether the listener registered under `id` has finished
    /// (`None` if it is not registered).
    pub fn is_done(&self, id: u64) -> (r: Option<bool>)
        requires
            self.wf(),
        ensures
            r is None <==> !has_id(self@, id),
            forall|i: int|
                0 <= i < self@.len() && self@[i].0 == id ==> r == Some(self@[i].1.is_done()),
    {
        match self.position(id) {
            None => None,
            Some(i) => {
                proof {
                    self.lemma_id_unique(i as int);
                }
                Some(self.slots[i].item.done())
            },
        }
    }

    /// Store the resumption handle of the listener registered under `id`.
    ///
    /// Returns whether it is registered; the list is unchanged otherwise.
    pub fn update_waker(&mut self, id: u64, waker: W) -> (r: bool)
        requires
            old(self).wf(),
        ensures
            final(self).wf(),
            final(self).next_id() == old(self).next_id(),
            r == has_id(old(self)@, id),
            !r ==> final(self)@ == old(self)@,
            final(self)@.len() == old(self)@.len(),
            forall|i: int|
                0 <= i < old(self)@.len() ==> if old(self)@[i].0 == id {
                    final(self)@[i].0 == id && final(self)@[i].1.is_done() == old(self)@[i].1.is_done() && final(self)@[i].1.waker() == Some(waker)
                } else {
                    final(self)@[i] == old(self)@[i]
                },
    {
        match self.position(id) {
            None => false,
            Some(i) => {
                self.slots[i].item.update_waker(waker);
                proof {
                    assert(self@ =~= old(self)@.update(i as int, (id, self@[i as int].1)));
                    assert forall|j: int| 0 <= j < old(self)@.len() && j != i implies old(self)@[j].0 != id by {
                        if j < i {
                            assert(old(self)@[j].0 < old(self)@[i as int].0);
                        } else {
                            assert(old(self)@[j].0 > old(self)@[i as int].0);
                        }
                    }
                }
                true
            },
        }
    }
}

} // verus!
