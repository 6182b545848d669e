use event_source::emitter::EventEmitter;
use event_source::handle::{poll_handle, release_handle, HandleState};
use event_source::list::ListenerList;

struct Lcg(u64);

impl Lcg {
    fn next(&mut self) -> u64 {
        self.0 = self.0.wrapping_mul(6364136223846793005).wrapping_add(1442695040888963407);
        self.0 >> 33
    }
}

struct Consumer {
    state: HandleState,
    seen: Vec<(usize, u64)>,
    registered_at: Option<Vec<u64>>,
}

#[test]
fn interleaved_producers_and_consumers_keep_the_list_consistent() {
    let mut rng = Lcg(42);
    let mut list: ListenerList<u32> = ListenerList::new();
    let mut consumers: Vec<Consumer> = Vec::new();
    let producers = 3;
    let mut counters = vec![0u64; producers];
    for _ in 0..2000 {
        match rng.next() % 4 {
            0 => {
                let step = poll_handle(&mut list, HandleState::Unregistered, consumers.len() as u32);
                consumers.push(Consumer {
                    state: step.state,
                    seen: Vec::new(),
                    registered_at: Some(counters.clone()),
                });
            }
            1 if !consumers.is_empty() => {
                let k = (rng.next() as usize) % consumers.len();
                consumers[k].state = release_handle(&mut list, consumers[k].state);
                consumers[k].registered_at = None;
            }
            _ => {
                let p = (rng.next() as usize) % producers;
                counters[p] += 1;
                let value = counters[p];
                let mut emitter = EventEmitter::new();
                loop {
                    let (step, _) = emitter.emit_next(&mut list, |id, flow| {
                        consumers[id as usize].seen.push((p, value));
                        flow
                    });
                    if step.is_none() {
                        break;
                    }
                }
            }
        }
    }
    let mut live = 0;
    for c in &consumers {
        if let Some(start) = &c.registered_at {
            live += 1;
            for p in 0..producers {
                let got: Vec<u64> = c.seen.iter().filter(|(q, _)| *q == p).map(|(_, v)| *v).collect();
                let expected: Vec<u64> = (start[p] + 1..=counters[p]).collect();
                assert_eq!(got, expected);
            }
        }
    }
    assert_eq!(list.len(), live);
}
