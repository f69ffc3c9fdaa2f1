use otway::aux::Aux;
use otway::event::Queue;
use otway::input::{event_tag, EventData, TransformEvent, TAG_FOCUS_CHANGED, TAG_TRANSFORM};
use otway::tree::Tree;

fn make_aux(tree: &mut Tree) -> Aux<u32> {
    let central = tree.create(None);
    Aux {
        data: 0,
        id: 1000,
        queue: Queue::new(),
        central_widget: central,
        focus_widget: None,
    }
}

#[test]
fn grab_focus_twice_emits_exactly_one_focus_change() {
    let mut tree = Tree::new();
    let mut aux = make_aux(&mut tree);
    let a = tree.create(None);
    aux.grab_focus(Some(a));
    aux.grab_focus(Some(a));
    assert_eq!(aux.focus_widget, Some(a));
    // exactly one focus-changed event, from none to a, addressed from the
    // context's own identity
    assert_eq!(aux.queue.len(), 1);
    assert_eq!(aux.queue.source_of(0), 1000);
    assert_eq!(aux.queue.tag_of(0), TAG_FOCUS_CHANGED);
    match aux.queue.payload_of(0) {
        EventData::FocusChanged(fc) => {
            assert_eq!(fc.old_focus, None);
            assert_eq!(fc.new_focus, Some(a));
        }
        _ => panic!("expected a focus-changed payload"),
    }
}

#[test]
fn grab_focus_swaps_old_and_new() {
    let mut tree = Tree::new();
    let mut aux = make_aux(&mut tree);
    let a = tree.create(None);
    let b = tree.create(None);
    aux.grab_focus(Some(a));
    aux.grab_focus(Some(b));
    assert_eq!(aux.queue.len(), 2);
    match aux.queue.payload_of(1) {
        EventData::FocusChanged(fc) => {
            assert_eq!(fc.old_focus, Some(a));
            assert_eq!(fc.new_focus, Some(b));
        }
        _ => panic!("expected a focus-changed payload"),
    }
    // dropping focus entirely also counts as a change
    aux.grab_focus(None);
    assert_eq!(aux.queue.len(), 3);
    assert_eq!(aux.focus_widget, None);
    aux.grab_focus(None);
    assert_eq!(aux.queue.len(), 3);
}

#[test]
fn has_focus_is_an_identity_comparison() {
    let mut tree = Tree::new();
    let mut aux = make_aux(&mut tree);
    let a = tree.create(None);
    let b = tree.create(None);
    assert!(!aux.has_focus(&a));
    aux.grab_focus(Some(a));
    assert!(aux.has_focus(&a));
    assert!(!aux.has_focus(&b));
}

#[test]
fn emit_tags_events_by_their_payload_kind() {
    let mut tree = Tree::new();
    let mut aux = make_aux(&mut tree);
    let e = EventData::Transform(TransformEvent);
    assert_eq!(event_tag(&e), TAG_TRANSFORM);
    aux.emit(42, e);
    assert_eq!(aux.queue.len(), 1);
    assert_eq!(aux.queue.source_of(0), 42);
    assert_eq!(aux.queue.tag_of(0), TAG_TRANSFORM);
}

#[test]
fn listen_starts_after_the_queued_events() {
    let mut tree = Tree::new();
    let mut aux = make_aux(&mut tree);
    aux.emit(1, EventData::User(7, 8));
    let mut l = aux.listen();
    l.on(1, otway::input::TAG_USER, 100);
    let sched = l.begin_dispatch(&aux.queue);
    l.end_dispatch();
    assert!(sched.is_empty());
}
