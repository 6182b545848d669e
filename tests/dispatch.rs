use event_source::emitter::EventEmitter;
use event_source::flow::ControlFlow;
use event_source::list::ListenerList;
use event_source::once::{finish_on_some, Once};

/// Deliver `event` to every listener it reaches; `on_event` plays the part of
/// the listeners' closures. Returns the handles that were woken.
fn broadcast<F>(list: &mut ListenerList<u32>, event: i32, mut on_event: F) -> Vec<u32>
where
    F: FnMut(u64, i32, &mut ControlFlow),
{
    let mut woken = Vec::new();
    let mut emitter = EventEmitter::new();
    loop {
        let (step, wake) = emitter.emit_next(list, |id, mut flow| {
            on_event(id, event, &mut flow);
            flow
        });
        if let Some(w) = wake {
            woken.push(w);
        }
        if step.is_none() {
            break;
        }
    }
    woken
}

#[test]
fn stop_propagation_scenario() {
    let mut list: ListenerList<u32> = ListenerList::new();
    let mut seen_a = Vec::new();
    let mut seen_b = Vec::new();
    let a = list.push_back().unwrap();
    let mut b = None;
    for event in [1, 2, 3] {
        if event == 2 {
            b = list.push_back();
        }
        broadcast(&mut list, event, |id, ev, flow| {
            if id == a {
                seen_a.push(ev);
                if ev == 2 {
                    flow.stop_propagation();
                }
            } else if Some(id) == b {
                seen_b.push(ev);
            }
        });
    }
    assert_eq!(seen_a, vec![1, 2, 3]);
    assert_eq!(seen_b, vec![3]);
}

#[test]
fn fifo_delivery_in_registration_order() {
    let mut list: ListenerList<u32> = ListenerList::new();
    let ids: Vec<u64> = (0..4).map(|_| list.push_back().unwrap()).collect();
    let mut log = Vec::new();
    for event in [10, 20, 30] {
        broadcast(&mut list, event, |id, ev, _| log.push((id, ev)));
    }
    let mut expected = Vec::new();
    for event in [10, 20, 30] {
        for id in &ids {
            expected.push((*id, event));
        }
    }
    assert_eq!(log, expected);
}

#[test]
fn stop_withholds_only_current_event() {
    let mut list: ListenerList<u32> = ListenerList::new();
    let first = list.push_back().unwrap();
    let second = list.push_back().unwrap();
    let mut seen = Vec::new();
    for event in [1, 2, 3] {
        broadcast(&mut list, event, |id, ev, flow| {
            if id == first && ev == 2 {
                flow.stop_propagation();
            }
            if id == second {
                seen.push(ev);
            }
        });
    }
    assert_eq!(seen, vec![1, 3]);
    assert_eq!(list.len(), 2);
}

#[test]
fn emitter_after_stop_delivers_nothing() {
    let mut list: ListenerList<u32> = ListenerList::new();
    list.push_back().unwrap();
    list.push_back().unwrap();
    let mut emitter = EventEmitter::new();
    let (step, _) = emitter.emit_next(&mut list, |_, mut flow| {
        flow.stop_propagation();
        flow
    });
    assert!(step.is_none());
    let mut called = false;
    let (step, wake) = emitter.emit_next(&mut list, |_, flow| {
        called = true;
        flow
    });
    assert!(step.is_none());
    assert!(wake.is_none());
    assert!(!called);
}

#[test]
fn empty_list_delivers_nothing() {
    let mut list: ListenerList<u32> = ListenerList::new();
    let mut emitter = EventEmitter::new();
    let mut called = false;
    let (step, wake) = emitter.emit_next(&mut list, |_, flow| {
        called = true;
        flow
    });
    assert!(step.is_none());
    assert!(wake.is_none());
    assert!(!called);
}

#[test]
fn auto_finish_on_first_some() {
    let mut list: ListenerList<u32> = ListenerList::new();
    let id = list.push_back().unwrap();
    assert!(list.update_waker(id, 7));
    let mut seen = Vec::new();
    let mut woken = Vec::new();
    for event in [1, 2, 3, 4] {
        woken.extend(broadcast(&mut list, event, |_, ev, flow| {
            seen.push(ev);
            let out = if ev == 2 { Some(()) } else { None };
            finish_on_some(&out, flow);
        }));
    }
    assert_eq!(seen, vec![1, 2]);
    assert_eq!(woken, vec![7]);
    assert_eq!(list.is_done(id), Some(true));
}

#[test]
fn finish_wakes_exactly_once() {
    let mut list: ListenerList<u32> = ListenerList::new();
    let id = list.push_back().unwrap();
    list.update_waker(id, 5);
    let woken = broadcast(&mut list, 1, |_, _, flow| flow.set_done());
    assert_eq!(woken, vec![5]);
    let woken = broadcast(&mut list, 2, |_, _, flow| flow.set_done());
    assert!(woken.is_empty());
}

#[test]
fn no_wake_without_finish() {
    let mut list: ListenerList<u32> = ListenerList::new();
    let id = list.push_back().unwrap();
    list.update_waker(id, 5);
    let woken = broadcast(&mut list, 1, |_, _, _| {});
    assert!(woken.is_empty());
    assert_eq!(list.is_done(id), Some(false));
}

#[test]
fn once_keeps_first_result() {
    let mut list: ListenerList<u32> = ListenerList::new();
    let id = list.push_back().unwrap();
    let mut once: Once<i32> = Once::new();
    let mut calls = 0;
    for event in [1, 5, 6, 7, 8, 9] {
        broadcast(&mut list, event, |_, ev, flow| {
            once.deliver(
                || {
                    calls += 1;
                    if ev > 4 { Some(ev * 10) } else { None }
                },
                flow,
            );
        });
    }
    assert_eq!(calls, 2);
    assert!(once.is_settled());
    assert_eq!(once.into_result(), Some(50));
    assert_eq!(list.is_done(id), Some(true));
}

#[test]
fn once_ignores_later_output() {
    let mut once: Once<i32> = Once::new();
    let mut flow = ControlFlow::new(false);
    once.deliver(|| Some(1), &mut flow);
    assert!(flow.is_finished());
    assert!(!flow.done());
    let mut flow = ControlFlow::new(false);
    once.deliver(|| Some(2), &mut flow);
    assert!(flow.is_finished());
    assert_eq!(once.into_result(), Some(1));
}

#[test]
fn cancelled_listener_never_reached() {
    let mut list: ListenerList<u32> = ListenerList::new();
    let keep = list.push_back().unwrap();
    let gone = list.push_back().unwrap();
    let mut counter_gone = 0;
    let mut counter_keep = 0;
    broadcast(&mut list, 0, |id, _, _| {
        if id == gone {
            counter_gone += 1;
        } else if id == keep {
            counter_keep += 1;
        }
    });
    assert!(list.remove(gone));
    assert!(!list.remove(gone));
    for event in 1..100 {
        broadcast(&mut list, event, |id, _, _| {
            if id == gone {
                counter_gone += 1;
            } else if id == keep {
                counter_keep += 1;
            }
        });
    }
    assert_eq!(counter_gone, 1);
    assert_eq!(counter_keep, 100);
    assert_eq!(list.is_done(gone), None);
    assert!(!list.update_waker(gone, 1));
}

#[test]
fn identifiers_are_not_reused() {
    let mut list: ListenerList<u32> = ListenerList::new();
    let a = list.push_back().unwrap();
    assert!(list.remove(a));
    let b = list.push_back().unwrap();
    assert_eq!(a, 0);
    assert_eq!(b, 1);
    assert_eq!(list.position(b), Some(0));
    assert_eq!(list.position(a), None);
}

#[test]
fn removal_keeps_order_of_others() {
    let mut list: ListenerList<u32> = ListenerList::new();
    let ids: Vec<u64> = (0..5).map(|_| list.push_back().unwrap()).collect();
    assert!(list.remove(ids[2]));
    let mut log = Vec::new();
    broadcast(&mut list, 1, |id, _, _| log.push(id));
    assert_eq!(log, vec![ids[0], ids[1], ids[3], ids[4]]);
}

#[test]
fn control_flow_setters_are_idempotent() {
    let mut flow = ControlFlow::new(false);
    assert!(!flow.done());
    assert!(flow.propagation());
    flow.set_done();
    flow.set_done();
    assert!(flow.is_finished());
    assert!(!flow.done());
    assert!(flow.propagation());
    flow.stop_propagation();
    flow.stop_propagation();
    assert!(!flow.propagation());
    assert!(flow.is_finished());
    let seeded = ControlFlow::new(true);
    assert!(seeded.done());
    assert!(seeded.is_finished());
}
