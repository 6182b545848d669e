use event_source::emitter::EventEmitter;
use event_source::handle::{poll_handle, release_handle, HandleState, PollStep};
use event_source::list::ListenerList;

#[test]
fn first_poll_registers_and_waits() {
    let mut list: ListenerList<u32> = ListenerList::new();
    let step = poll_handle(&mut list, HandleState::Unregistered, 1);
    assert_eq!(step, PollStep { state: HandleState::Registered(0), ready: false });
    assert_eq!(list.len(), 1);
    assert_eq!(list.is_done(0), Some(false));
}

#[test]
fn finished_listener_resolves_and_unlinks() {
    let mut list: ListenerList<u32> = ListenerList::new();
    let step = poll_handle(&mut list, HandleState::Unregistered, 1);
    let mut emitter = EventEmitter::new();
    let (_, wake) = emitter.emit_next(&mut list, |_, mut flow| {
        flow.set_done();
        flow
    });
    assert_eq!(wake, Some(1));
    let step = poll_handle(&mut list, step.state, 2);
    assert_eq!(step, PollStep { state: HandleState::Detached, ready: true });
    assert_eq!(list.len(), 0);
}

#[test]
fn waiting_listener_refreshes_waker() {
    let mut list: ListenerList<u32> = ListenerList::new();
    let step = poll_handle(&mut list, HandleState::Unregistered, 1);
    let step = poll_handle(&mut list, step.state, 9);
    assert_eq!(step, PollStep { state: HandleState::Registered(0), ready: false });
    let mut emitter = EventEmitter::new();
    let (_, wake) = emitter.emit_next(&mut list, |_, mut flow| {
        flow.set_done();
        flow
    });
    assert_eq!(wake, Some(9));
}

#[test]
fn release_unlinks_pending_listener() {
    let mut list: ListenerList<u32> = ListenerList::new();
    let step = poll_handle(&mut list, HandleState::Unregistered, 1);
    let other = poll_handle(&mut list, HandleState::Unregistered, 2);
    assert_eq!(release_handle(&mut list, step.state), HandleState::Detached);
    assert_eq!(list.len(), 1);
    let mut reached = Vec::new();
    let mut emitter = EventEmitter::new();
    while emitter
        .emit_next(&mut list, |id, flow| {
            reached.push(id);
            flow
        })
        .0
        .is_some()
    {}
    assert_eq!(reached, vec![1]);
    assert_eq!(other.state, HandleState::Registered(1));
}

#[test]
fn release_of_unregistered_changes_nothing() {
    let mut list: ListenerList<u32> = ListenerList::new();
    poll_handle(&mut list, HandleState::Unregistered, 1);
    assert_eq!(release_handle(&mut list, HandleState::Unregistered), HandleState::Detached);
    assert_eq!(release_handle(&mut list, HandleState::Detached), HandleState::Detached);
    assert_eq!(list.len(), 1);
}

#[test]
fn detached_handle_stays_resolved() {
    let mut list: ListenerList<u32> = ListenerList::new();
    let step = poll_handle(&mut list, HandleState::Detached, 1);
    assert_eq!(step, PollStep { state: HandleState::Detached, ready: true });
    assert_eq!(list.len(), 0);
}
