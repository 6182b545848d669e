use vstd::prelude::*;

verus! {

/// Control of the current listener's behaviour during one dispatch.
///
/// A fresh value is made for every closure invocation: `done` is seeded from the
/// listener's finished state and propagation starts enabled.
#[derive(Debug, Clone, Copy)]
pub struct ControlFlow {
    seeded_done: bool,
    done: bool,
    propagation: bool,
}

impl ControlFlow {
    /// Whether the listener is (or has now been marked) finished.
    pub closed spec fn is_done(&self) -> bool {
        self.done
    }

    /// The listener's finished state when the dispatch started.
    pub closed spec fn seeded(&self) -> bool {
        self.seeded_done
    }

    /// Whether the current event goes on to later listeners.
    pub closed spec fn propagates(&self) -> bool {
        self.propagation
    }

    /// The value a dispatch hands to a not-finished listener.
    pub open spec fn is_fresh(&self) -> bool {
        &&& !self.seeded()
        &&& !self.is_done()
        &&& self.propagates()
    }

    /// The value handed to a listener whose finished state is `done`.
    pub fn new(done: bool) -> (r: ControlFlow)
        ensures
            r.seeded() == done,
            r.is_done() == done,
            r.propagates(),
    {
        ControlFlow { seeded_done: done, done, propagation: true }
    }

    /// Stop propagation of the current event.
    pub fn stop_propagation(&mut self)
        ensures
            !final(self).propagates(),
            final(self).is_done() == old(self).is_done(),
            final(self).seeded() == old(self).seeded(),
    {
        if self.propagation {
            self.propagation = false;
        }
    }

    /// Check if the listener was finished already when this dispatch started;
    /// marking it finished during the dispatch does not change the answer.
    pub fn done(&self) -> (r: bool)
        ensures
            r == self.seeded(),
    {
        self.seeded_done
    }

    /// Whether the listener has been marked finished, before or during this
    /// dispatch.
    pub fn is_finished(&self) -> (r: bool)
        ensures
            r == self.is_done(),
    {
        self.done
    }

    /// Mark the listener as finished.
    pub fn set_done(&mut self)
        ensures
            final(self).is_done(),
            final(self).propagates() == old(self).propagates(),
            final(self).seeded() == old(self).seeded(),
    {
        if !self.done {
            self.done = true;
        }
    }

    /// Whether the current event continues to later listeners.
    pub fn propagation(&self) -> (r: bool)
        ensures
            r == self.propagates(),
    {
        self.propagation
    }
}

} // verus!
