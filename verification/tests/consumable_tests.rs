use otway::consumable::ConsumableEvent;

#[test]
fn exactly_one_of_many_claims_succeeds() {
    // three listeners, queried in a fixed order, all with satisfied
    // predicates: exactly the first receives the payload
    let mut event = ConsumableEvent::new(17u32);
    let mut granted = 0;
    let mut outcomes = Vec::new();
    for _listener in 0..3 {
        let r = event.with(|_d| true).copied();
        if r.is_some() {
            granted += 1;
        }
        outcomes.push(r);
    }
    assert_eq!(granted, 1);
    assert_eq!(outcomes, vec![Some(17), None, None]);
}

#[test]
fn rejecting_predicate_does_not_consume() {
    let mut event = ConsumableEvent::new(5u64);
    assert!(event.with(|_d| false).is_none());
    // the event is still unconsumed, so an approving claim succeeds
    assert_eq!(event.with(|_d| true).copied(), Some(5));
    assert!(event.with(|_d| true).is_none());
}

#[test]
fn predicate_sees_the_payload() {
    let mut event = ConsumableEvent::new(10u64);
    assert!(event.with(|d| *d > 100).is_none());
    assert_eq!(event.with(|d| *d == 10).copied(), Some(10));
}

#[test]
fn get_returns_the_payload_regardless_of_consumption() {
    let mut event = ConsumableEvent::new((3u8, 4u8));
    assert_eq!(*event.get(), (3, 4));
    assert!(event.with(|_d| true).is_some());
    // consumed, but the raw payload stays readable
    assert_eq!(*event.get(), (3, 4));
    assert!(event.with(|_d| true).is_none());
    assert_eq!(*event.get(), (3, 4));
}
