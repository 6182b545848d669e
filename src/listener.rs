use vstd::prelude::*;
use crate::flow::ControlFlow;

verus! {

/// The state of one registered listener: whether it has finished, and the
/// handle (of type `W`) that resumes its waiting task.
#[derive(Debug)]
pub struct ListenerItem<W> {
    done: bool,
    waker: Option<W>,
}

impl<W> ListenerItem<W> {
    /// Whether the listener has finished.
    pub closed spec fn is_done(&self) -> bool {
        self.done
    }

    /// The stored resumption handle, if any.
    pub closed spec fn waker(&self) -> Option<W> {
        self.waker
    }

    /// A listener that has just been registered: not finished, nothing to wake.
    pub open spec fn is_fresh(&self) -> bool {
        !self.is_done() && self.waker() is None
    }

    /// What the listener becomes once a dispatch ends with `flow`.
    pub open spec fn after(&self, flow: ControlFlow, next: ListenerItem<W>) -> bool {
        &&& next.is_done() == (self.is_done() || flow.is_done())
        &&& if flow.is_done() && !self.is_done() {
            next.waker() is None
        } else {
            next.waker() == self.waker()
        }
    }

    /// The handle to wake once a dispatch ends with `flow`: the stored one,
    /// exactly when the listener has just become finished.
    pub open spec fn woken(&self, flow: ControlFlow) -> Option<W> {
        if flow.is_done() && !self.is_done() {
            self.waker()
        } else {
            None
        }
    }

    pub fn new() -> (r: ListenerItem<W>)
        ensures
            r.is_fresh(),
    {
        ListenerItem { done: false, waker: None }
    }

    /// Whether the listener has finished.
    pub fn done(&self) -> (r: bool)
        ensures
            r == self.is_done(),
    {
        self.done
    }

    /// Store the handle that resumes the waiting task.
    pub fn update_waker(&mut self, waker: W)
        ensures
            final(self).is_done() == old(self).is_done(),
            final(self).waker() == Some(waker),
    {
        self.waker = Some(waker);
    }

    /// The control value a dispatch to this listener starts from.
    pub fn flow(&self) -> (r: ControlFlow)
        ensures
            r.seeded() == self.is_done(),
            r.is_done() == self.is_done(),
            r.propagates(),
    {
        ControlFlow::new(self.done)
    }

    /// Record the outcome `flow` of a dispatch to this listener.
    ///
    /// Returns whether the event propagates further, and the handle to wake:
    /// a handle is handed out only on the transition to finished.
    pub fn poll(&mut self, flow: ControlFlow) -> (r: (bool, Option<W>))
        ensures
            old(self).after(flow, *final(self)),
            r.0 == flow.propagates(),
            r.1 == old(self).woken(flow),
    {
        let mut woken: Option<W> = None;
        if flow.is_finished() && !self.done {
            self.done = true;
            woken = self.waker.take();
        }
        (flow.propagation(), woken)
    }
}

/// A listener's state is its finished flag and its resumption handle.
pub proof fn lemma_item_ext<W>(a: ListenerItem<W>, b: ListenerItem<W>)
    requires
        a.is_done() == b.is_done(),
        a.waker() == b.waker(),
    ensures
        a == b,
{
}

} // verus!
