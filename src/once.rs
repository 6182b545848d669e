use vstd::prelude::*;
use crate::flow::ControlFlow;

verus! {

/// Finish the listener when its closure produced a result.
///
/// This is how a listener written as `(event) -> Option<R>` drives its control
/// value: `Some` marks it finished, `None` leaves it as it was.
pub fn finish_on_some<R>(out: &Option<R>, flow: &mut ControlFlow)
    ensures
        final(flow).is_done() == (old(flow).is_done() || out is Some),
        final(flow).propagates() == old(flow).propagates(),
{
    if out.is_some() {
        flow.set_done();
    }
}

/// The state of a listener that resolves with the first result its closure
/// produces and ignores every event after it.
#[derive(Debug)]
pub struct Once<R> {
    result: Option<R>,
}

impl<R> Once<R> {
    /// The result kept so far.
    pub closed spec fn value(&self) -> Option<R> {
        self.result
    }

    pub fn new() -> (r: Once<R>)
        ensures
            r.value() is None,
    {
        Once { result: None }
    }

    /// Hand one event to `listener`, unless a result is kept already.
    ///
    /// Once a result is kept the closure is not called any more and the listener
    /// is marked finished; otherwise its output, if any, becomes the result and
    /// finishes the listener.
    pub fn deliver<F>(&mut self, listener: F, flow: &mut ControlFlow)
        where F: FnOnce() -> Option<R>
        requires
            old(self).value() is None ==> listener.requires(()),
        ensures
            final(flow).propagates() == old(flow).propagates(),
            old(self).value() is Some ==> {
                &&& final(self).value() == old(self).value()
                &&& final(flow).is_done()
            },
            old(self).value() is None ==> exists|out: Option<R>|
                {
                    &&& listener.ensures((), out)
                    &&& final(self).value() == out
                    &&& final(flow).is_done() == (old(flow).is_done() || out is Some)
                },
    {
        if self.result.is_some() {
            flow.set_done();
            return;
        }
        let out = listener();
        finish_on_some(&out, flow);
        self.result = out;
    }

    /// Whether a result is kept.
    pub fn is_settled(&self) -> (r: bool)
        ensures
            r == self.value() is Some,
    {
        self.result.is_some()
    }

    /// The kept result, if any.
    pub fn into_result(self) -> (r: Option<R>)
        ensures
            r == self.value(),
    {
        self.result
    }
}

} // verus!
