use vstd::prelude::*;
use crate::list::{ListenerList, has_id};
use crate::listener::ListenerItem;

verus! {

/// Where a listener's waiting task stands with respect to the list.
#[derive(Debug, Clone, Copy, PartialEq, Eq, Structural)]
pub enum HandleState {
    /// Not resumed yet: nothing is linked.
    Unregistered,
    /// Linked under this identifier.
    Registered(u64),
    /// Finished or released: nothing is linked any more.
    Detached,
}

/// What a resumption of the waiting task decides.
#[derive(Debug, Clone, Copy, PartialEq, Eq, Structural)]
pub struct PollStep {
    /// The state the task is in afterwards.
    pub state: HandleState,
    /// Whether the task has resolved.
    pub ready: bool,
}

/// The outcome of resuming the task of the listener registered under `id`:
/// a finished listener is unlinked and the task resolves; any other keeps
/// `waker` and the task waits.
pub open spec fn registered_poll<W>(
    before: Seq<(u64, ListenerItem<W>)>,
    after: Seq<(u64, ListenerItem<W>)>,
    id: u64,
    waker: W,
    r: PollStep,
) -> bool {
    exists|i: int|
        #![trigger before[i]]
        {
            &&& 0 <= i < before.len()
            &&& before[i].0 == id
            &&& if before[i].1.is_done() {
                &&& r == (PollStep { state: HandleState::Detached, ready: true })
                &&& after == before.remove(i)
            } else {
                &&& r == (PollStep { state: HandleState::Registered(id), ready: false })
                &&& after.len() == before.len()
                &&& after[i].0 == id
                &&& !after[i].1.is_done()
                &&& after[i].1.waker() == Some(waker)
                &&& after == before.update(i, after[i])
            }
        }
}

/// Resume a listener's waiting task whose resumption handle is now `waker`.
///
/// On the first resumption the listener is linked at the back of the list.
/// A registered listener that has finished is unlinked and the task resolves;
/// one that has not keeps `waker` as its resumption handle and waits.
pub fn poll_handle<W>(list: &mut ListenerList<W>, state: HandleState, waker: W) -> (r: PollStep)
    requires
        old(list).wf(),
    ensures
        final(list).wf(),
        state is Unregistered && old(list).next_id() < u64::MAX ==> {
            &&& r == (PollStep {
                state: HandleState::Registered(old(list).next_id()),
                ready: false,
            })
            &&& final(list)@.len() == old(list)@.len() + 1
            &&& final(list)@.drop_last() == old(list)@
            &&& final(list)@.last().0 == old(list).next_id()
            &&& !final(list)@.last().1.is_done()
            &&& final(list)@.last().1.waker() == Some(waker)
        },
        state is Unregistered && old(list).next_id() == u64::MAX ==> {
            &&& r == (PollStep { state: HandleState::Unregistered, ready: false })
            &&& final(list)@ == old(list)@
        },
        state matches HandleState::Registered(id) ==> if !has_id(old(list)@, id) {
            &&& r == (PollStep { state: HandleState::Detached, ready: true })
            &&& final(list)@ == old(list)@
        } else {
            registered_poll(old(list)@, final(list)@, id, waker, r)
        },
        state is Detached ==> {
            &&& r == (PollStep { state: HandleState::Detached, ready: true })
            &&& final(list)@ == old(list)@
        },
{
    match state {
        HandleState::Unregistered => {
            match list.push_back() {
                None => PollStep { state: HandleState::Unregistered, ready: false },
                Some(id) => {
                    let ghost pushed = list@;
                    list.update_waker(id, waker);
                    proof {
                        let n = pushed.len() - 1;
                        assert(pushed[n].0 == id);
                        assert forall|j: int| 0 <= j < n implies pushed[j].0 != id by {
                            assert(pushed[j] == old(list)@[j]);
                        }
                        assert(list@.drop_last() =~= pushed.drop_last());
                    }
                    PollStep { state: HandleState::Registered(id), ready: false }
                },
            }
        },
        HandleState::Registered(id) => {
            match list.position(id) {
                None => PollStep { state: HandleState::Detached, ready: true },
                Some(i) => {
                    proof {
                        list.lemma_id_unique(i as int);
                    }
                    if list.is_done_at(i) {
                        list.remove(id);
                        assert(list@ == old(list)@.remove(i as int));
                        let r = PollStep { state: HandleState::Detached, ready: true };
                        assert(old(list)@[i as int].0 == id);
                        assert(registered_poll(old(list)@, list@, id, waker, r));
                        r
                    } else {
                        list.update_waker(id, waker);
                        assert(list@ =~= old(list)@.update(i as int, list@[i as int]));
                        let r = PollStep { state: HandleState::Registered(id), ready: false };
                        assert(old(list)@[i as int].0 == id);
                        assert(registered_poll(old(list)@, list@, id, waker, r));
                        r
                    }
                },
            }
        },
        HandleState::Detached => PollStep { state: HandleState::Detached, ready: true },
    }
}

/// Release a listener's waiting task, finished or not: whatever it has linked
/// is unlinked, so no later dispatch reaches it.
pub fn release_handle<W>(list: &mut ListenerList<W>, state: HandleState) -> (r: HandleState)
    requires
        old(list).wf(),
    ensures
        final(list).wf(),
        r == HandleState::Detached,
        match state {
            HandleState::Registered(id) => {
                &&& !has_id(final(list)@, id)
                &&& has_id(old(list)@, id) ==> exists|i: int|
                    0 <= i < old(list)@.len() && old(list)@[i].0 == id
                        && final(list)@ == old(list)@.remove(i)
                &&& !has_id(old(list)@, id) ==> final(list)@ == old(list)@
            },
            _ => final(list)@ == old(list)@,
        },
{
    if let HandleState::Registered(id) = state {
        list.remove(id);
    }
    HandleState::Detached
}

} // verus!
