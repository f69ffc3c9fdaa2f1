use otway::event::{Invocation, Listener, Queue};

#[test]
fn handlers_receive_matching_events_in_queue_order() {
    let mut q: Queue<u32> = Queue::new();
    let mut l = Listener::new(0);
    l.on(1, 10, 100);
    l.on(2, 10, 200);
    q.emit(1, 10, 7);
    q.emit(2, 10, 8);
    q.emit(1, 10, 9);
    q.emit(1, 11, 10); // wrong tag: matches nobody
    q.emit(3, 10, 11); // wrong source: matches nobody
    let sched = l.begin_dispatch(&q);
    l.end_dispatch();
    // per subscription in registration order, its events in emission order
    assert_eq!(
        sched,
        vec![
            Invocation { handler: 100, event: 0 },
            Invocation { handler: 100, event: 2 },
            Invocation { handler: 200, event: 1 },
        ]
    );
}

#[test]
fn registering_again_replaces_the_handler() {
    let mut q: Queue<u32> = Queue::new();
    let mut l = Listener::new(0);
    l.on(1, 10, 100);
    l.on(1, 10, 300);
    assert!(l.contains(1, 10));
    q.emit(1, 10, 0);
    let sched = l.begin_dispatch(&q);
    l.end_dispatch();
    assert_eq!(sched, vec![Invocation { handler: 300, event: 0 }]);
}

#[test]
fn remove_detaches_by_key() {
    let mut l = Listener::new(0);
    l.on(1, 10, 100);
    l.on(1, 11, 101);
    assert!(l.remove(1, 10));
    assert!(!l.remove(1, 10));
    assert!(!l.contains(1, 10));
    assert!(l.contains(1, 11));
}

#[test]
fn late_on_takes_effect_only_next_pass() {
    let mut q: Queue<u32> = Queue::new();
    let mut l = Listener::new(0);
    l.on(1, 10, 100);
    q.emit(1, 10, 0);
    q.emit(1, 10, 1);
    q.emit(1, 11, 2);
    let first_pass = l.begin_dispatch(&q);
    // a handler subscribes another handler during the pass, under a new key
    l.late_on(1, 11, 999);
    // the new handler is not invoked in this pass, though a matching event
    // sits in it
    assert!(first_pass.iter().all(|inv| inv.handler != 999));
    assert_eq!(
        first_pass,
        vec![
            Invocation { handler: 100, event: 0 },
            Invocation { handler: 100, event: 1 },
        ]
    );
    l.end_dispatch();
    // the next pass sees the deferred subscription
    q.emit(1, 11, 3);
    let second_pass = l.begin_dispatch(&q);
    l.end_dispatch();
    assert_eq!(second_pass, vec![Invocation { handler: 999, event: 3 }]);
}

#[test]
fn late_on_under_a_taken_key_replaces_the_handler_next_pass() {
    let mut q: Queue<u32> = Queue::new();
    let mut l = Listener::new(0);
    l.on(1, 10, 100);
    q.emit(1, 10, 0);
    let first_pass = l.begin_dispatch(&q);
    l.late_on(1, 10, 999);
    assert_eq!(first_pass, vec![Invocation { handler: 100, event: 0 }]);
    l.end_dispatch();
    q.emit(1, 10, 1);
    let second_pass = l.begin_dispatch(&q);
    l.end_dispatch();
    assert_eq!(second_pass, vec![Invocation { handler: 999, event: 1 }]);
}

#[test]
fn late_remove_takes_effect_only_next_pass() {
    let mut q: Queue<u32> = Queue::new();
    let mut l = Listener::new(0);
    l.on(1, 10, 100);
    q.emit(1, 10, 0);
    let first_pass = l.begin_dispatch(&q);
    l.late_remove(1, 10);
    assert_eq!(first_pass, vec![Invocation { handler: 100, event: 0 }]);
    l.end_dispatch();
    assert!(!l.contains(1, 10));
    q.emit(1, 10, 1);
    let second_pass = l.begin_dispatch(&q);
    l.end_dispatch();
    assert!(second_pass.is_empty());
}

#[test]
fn a_pass_covers_only_events_not_yet_seen() {
    let mut q: Queue<u32> = Queue::new();
    q.emit(1, 10, 0);
    // a listener created now does not see already-queued events
    let mut l = Listener::new(q.len());
    l.on(1, 10, 100);
    let sched = l.begin_dispatch(&q);
    l.end_dispatch();
    assert!(sched.is_empty());
    // an event emitted during a pass is processed on the next pass, not
    // re-entrantly
    q.emit(1, 10, 1);
    let sched = l.begin_dispatch(&q);
    q.emit(1, 10, 2);
    l.end_dispatch();
    assert_eq!(sched, vec![Invocation { handler: 100, event: 1 }]);
    let sched = l.begin_dispatch(&q);
    l.end_dispatch();
    assert_eq!(sched, vec![Invocation { handler: 100, event: 2 }]);
}

#[test]
fn queue_payloads_are_reachable_by_index() {
    let mut q: Queue<u32> = Queue::new();
    q.emit(4, 10, 77);
    assert_eq!(q.len(), 1);
    assert_eq!(q.source_of(0), 4);
    assert_eq!(q.tag_of(0), 10);
    assert_eq!(*q.payload_of(0), 77);
    *q.payload_mut(0) = 78;
    assert_eq!(*q.payload_of(0), 78);
    assert_eq!(q.source_of(0), 4);
}
