use otway::aux::Aux;
use otway::consumable::ConsumableEvent;
use otway::event::Queue;
use otway::geom::{Point, Rect, Size};
use otway::input::{
    EventData, KeyInput, MouseButton, MousePressEvent, TAG_BEGIN_HOVER, TAG_MOUSE_PRESS, TAG_PRESS,
};
use otway::kit::{
    claim_if_focused, focus_on_changed, focus_on_interaction, handle_mouse_move,
    handle_mouse_press, handle_mouse_release, interaction_forwarder, interaction_handler,
    invisible_to_input, keyboard_forwarder, keyboard_handler, focus_handler, FocusConfig,
    FocusEvent, FocusMouseTrigger, InteractionEvent, InteractionMask, KeyboardEvent,
};
use otway::node::{Id, Visibility};
use otway::tree::Tree;

fn make_aux(tree: &mut Tree) -> Aux<u32> {
    let central = tree.create(None);
    Aux {
        data: 0,
        id: 1000,
        queue: Queue::new(),
        central_widget: central,
        focus_widget: None,
    }
}

fn mask_all() -> InteractionMask {
    InteractionMask {
        press: true,
        release: true,
        begin_hover: true,
        end_hover: true,
    }
}

#[test]
fn invisible_to_input_covers_the_undrawn_modes() {
    assert!(!invisible_to_input(Visibility::All));
    assert!(!invisible_to_input(Visibility::NoLayout));
    assert!(!invisible_to_input(Visibility::NoChildren));
    assert!(invisible_to_input(Visibility::NoSelf));
    assert!(invisible_to_input(Visibility::Invisible));
    assert!(invisible_to_input(Visibility::Gone));
}

#[test]
fn front_widget_claims_the_press_and_the_rest_observe_consumed() {
    // three sibling nodes A (front), B, C (back), all subscribed to the same
    // pointer-down; traversal order is front to back
    let mut tree = Tree::new();
    let mut aux = make_aux(&mut tree);
    let root = aux.central_widget;
    let c = tree.create(Some(root));
    let b = tree.create(Some(root));
    let a = tree.create(Some(root));
    let mut listeners = vec![
        (c.id(), interaction_handler(&aux, 3, 30, 300)),
        (b.id(), interaction_handler(&aux, 2, 20, 200)),
        (a.id(), interaction_handler(&aux, 1, 10, 100)),
    ];
    // the shared bounds contain the press point for all three widgets
    let bounds = Rect::new(Point::new(0, 0), Size::new(100, 100));
    let press_at = Point::new(10, 10);
    let src = aux.id;
    aux.emit(
        src,
        EventData::MousePress(MousePressEvent(ConsumableEvent::new((
            MouseButton::Left,
            press_at,
        )))),
    );
    // one frame: dispatch in update order (front-most last child first)
    let order = tree.update_order(root.id());
    let mut fired = Vec::new();
    for id in order {
        let Some((_, listener)) = listeners.iter_mut().find(|(wid, _)| *wid == id) else {
            continue;
        };
        let schedule = listener.begin_dispatch(&aux.queue);
        for inv in schedule {
            let EventData::MousePress(MousePressEvent(ev)) = aux.queue.payload_mut(inv.event)
            else {
                panic!("unexpected payload");
            };
            let mut common = tree.checkout(id).unwrap();
            let outcome = handle_mouse_press(&mut common, bounds, mask_all(), false, ev);
            tree.checkin(id, common);
            if let Some(InteractionEvent::Press(pos)) = outcome {
                fired.push((id, pos));
            }
        }
        listener.end_dispatch();
    }
    // A (front) received the claim; B and C observed "already consumed"
    assert_eq!(fired, vec![(a.id(), press_at)]);
    let pressed = |tree: &mut Tree, id: u64| {
        tree.with(id, |cm| {
            let p = cm.interaction().pressed;
            (cm, p)
        })
        .unwrap()
    };
    assert!(pressed(&mut tree, a.id()));
    assert!(!pressed(&mut tree, b.id()));
    assert!(!pressed(&mut tree, c.id()));
}

#[test]
fn interaction_handler_registers_the_three_mouse_subscriptions() {
    let mut tree = Tree::new();
    let mut aux = make_aux(&mut tree);
    let l = interaction_handler(&aux, 1, 2, 3);
    let mut l = l;
    aux.emit(
        aux.id,
        EventData::MousePress(MousePressEvent(ConsumableEvent::new((
            MouseButton::Left,
            Point::new(0, 0),
        )))),
    );
    let sched = l.begin_dispatch(&aux.queue);
    l.end_dispatch();
    assert_eq!(sched.len(), 1);
    assert_eq!(sched[0].handler, 1);
}

#[test]
fn press_requires_left_button_inside_bounds() {
    let mut tree = Tree::new();
    let a = tree.create(None);
    let bounds = Rect::new(Point::new(0, 0), Size::new(10, 10));
    // wrong button: nothing happens and nothing is consumed
    let mut ev = ConsumableEvent::new((MouseButton::Right, Point::new(5, 5)));
    let mut common = tree.checkout(a.id()).unwrap();
    assert!(handle_mouse_press(&mut common, bounds, mask_all(), false, &mut ev).is_none());
    // outside the bounds: nothing happens either
    let mut ev = ConsumableEvent::new((MouseButton::Left, Point::new(50, 5)));
    assert!(handle_mouse_press(&mut common, bounds, mask_all(), false, &mut ev).is_none());
    assert!(!common.interaction().pressed);
    // left button inside: press fires
    let mut ev = ConsumableEvent::new((MouseButton::Left, Point::new(5, 5)));
    assert_eq!(
        handle_mouse_press(&mut common, bounds, mask_all(), false, &mut ev),
        Some(InteractionEvent::Press(Point::new(5, 5)))
    );
    assert!(common.interaction().pressed);
    // release resets the pressed state
    let mut ev = ConsumableEvent::new((MouseButton::Left, Point::new(5, 5)));
    assert_eq!(
        handle_mouse_release(&mut common, bounds, mask_all(), false, &mut ev),
        Some(InteractionEvent::Release(Point::new(5, 5)))
    );
    assert!(!common.interaction().pressed);
    tree.checkin(a.id(), common);
}

#[test]
fn masked_or_invisible_widgets_ignore_presses() {
    let mut tree = Tree::new();
    let a = tree.create(None);
    let bounds = Rect::new(Point::new(0, 0), Size::new(10, 10));
    let mut common = tree.checkout(a.id()).unwrap();
    let mut ev = ConsumableEvent::new((MouseButton::Left, Point::new(5, 5)));
    let off = InteractionMask {
        press: false,
        ..mask_all()
    };
    assert!(handle_mouse_press(&mut common, bounds, off, false, &mut ev).is_none());
    common.set_visible(Visibility::Invisible);
    assert!(handle_mouse_press(&mut common, bounds, mask_all(), false, &mut ev).is_none());
    // ignore_visibility overrides the visibility check
    assert_eq!(
        handle_mouse_press(&mut common, bounds, mask_all(), true, &mut ev),
        Some(InteractionEvent::Press(Point::new(5, 5)))
    );
    tree.checkin(a.id(), common);
}

#[test]
fn mouse_move_tracks_hover_transitions() {
    let mut tree = Tree::new();
    let a = tree.create(None);
    let bounds = Rect::new(Point::new(0, 0), Size::new(10, 10));
    let mut common = tree.checkout(a.id()).unwrap();
    // cursor enters
    let mut ev = ConsumableEvent::new(Point::new(5, 5));
    assert_eq!(
        handle_mouse_move(&mut common, bounds, mask_all(), false, &mut ev),
        Some(InteractionEvent::BeginHover(Point::new(5, 5)))
    );
    assert!(common.interaction().hovered);
    // cursor stays inside: no transition
    let mut ev = ConsumableEvent::new(Point::new(6, 6));
    assert!(handle_mouse_move(&mut common, bounds, mask_all(), false, &mut ev).is_none());
    // cursor leaves: the position is read without consuming
    let mut ev = ConsumableEvent::new(Point::new(50, 50));
    assert_eq!(
        handle_mouse_move(&mut common, bounds, mask_all(), false, &mut ev),
        Some(InteractionEvent::EndHover(Point::new(50, 50)))
    );
    assert!(!common.interaction().hovered);
    tree.checkin(a.id(), common);
}

#[test]
fn forwarders_emit_the_widget_level_events() {
    let mut tree = Tree::new();
    let mut aux = make_aux(&mut tree);
    interaction_forwarder(mask_all(), 7, &mut aux, InteractionEvent::Press(Point::new(1, 2)));
    assert_eq!(aux.queue.len(), 1);
    assert_eq!(aux.queue.source_of(0), 7);
    assert_eq!(aux.queue.tag_of(0), TAG_PRESS);
    // a masked-out interaction is not forwarded
    let off = InteractionMask {
        begin_hover: false,
        ..mask_all()
    };
    interaction_forwarder(off, 7, &mut aux, InteractionEvent::BeginHover(Point::new(1, 2)));
    assert_eq!(aux.queue.len(), 1);
    interaction_forwarder(
        mask_all(),
        7,
        &mut aux,
        InteractionEvent::BeginHover(Point::new(1, 2)),
    );
    assert_eq!(aux.queue.tag_of(1), TAG_BEGIN_HOVER);
    keyboard_forwarder(7, &mut aux, KeyboardEvent::Text('x'));
    assert_eq!(aux.queue.len(), 3);
    match aux.queue.payload_of(2) {
        EventData::WidgetText(t) => assert_eq!(t.0, 'x'),
        _ => panic!("expected a widget text payload"),
    }
}

#[test]
fn focus_steps_follow_the_configured_trigger() {
    let mut tree = Tree::new();
    let mut aux = make_aux(&mut tree);
    let a = tree.create(None);
    let config = FocusConfig {
        mouse_trigger: FocusMouseTrigger::Press,
        interaction_handler: a.id(),
    };
    // a release does not grab focus under a press trigger
    focus_on_interaction(&mut aux, config, a, FocusMouseTrigger::Release);
    assert_eq!(aux.focus_widget, None);
    focus_on_interaction(&mut aux, config, a, FocusMouseTrigger::Press);
    assert_eq!(aux.focus_widget, Some(a));
}

#[test]
fn focus_changed_step_reports_gained_and_lost() {
    let mut tree = Tree::new();
    let a = tree.create(None);
    let b = tree.create(None);
    let evt = otway::input::FocusChangedEvent {
        old_focus: Some(a),
        new_focus: Some(b),
    };
    assert_eq!(focus_on_changed(&evt, a), Some(FocusEvent::Lost));
    assert_eq!(focus_on_changed(&evt, b), Some(FocusEvent::Gained));
    let c = tree.create(None);
    assert_eq!(focus_on_changed(&evt, c), None);
}

#[test]
fn keyboard_events_reach_only_the_focused_visible_widget() {
    // focused and visible: the key event is claimed and delivered
    let mut ev = ConsumableEvent::new(KeyInput::Return);
    assert_eq!(
        claim_if_focused(Visibility::All, true, &mut ev),
        Some(KeyInput::Return)
    );
    // a second widget observes the consumed event
    assert_eq!(claim_if_focused(Visibility::All, true, &mut ev), None);
    // an unfocused widget does not consume
    let mut ev = ConsumableEvent::new(KeyInput::A);
    assert_eq!(claim_if_focused(Visibility::All, false, &mut ev), None);
    assert_eq!(
        claim_if_focused(Visibility::All, true, &mut ev),
        Some(KeyInput::A)
    );
    // an invisible widget never sees input
    let mut ev = ConsumableEvent::new(KeyInput::B);
    assert_eq!(claim_if_focused(Visibility::Invisible, true, &mut ev), None);
}

#[test]
fn handler_constructors_subscribe_under_the_right_keys() {
    let mut tree = Tree::new();
    let aux = make_aux(&mut tree);
    let l = keyboard_handler(&aux, 1, 2, 3);
    assert!(l.contains(aux.id, otway::input::TAG_KEY_PRESS));
    assert!(l.contains(aux.id, otway::input::TAG_KEY_RELEASE));
    assert!(l.contains(aux.id, otway::input::TAG_TEXT));
    let config = FocusConfig {
        mouse_trigger: FocusMouseTrigger::Press,
        interaction_handler: 55,
    };
    let l = focus_handler(&aux, config, 1, 2, 3);
    assert!(l.contains(55, TAG_PRESS));
    assert!(l.contains(55, otway::input::TAG_RELEASE));
    assert!(l.contains(aux.id, otway::input::TAG_FOCUS_CHANGED));
    let l = interaction_handler(&aux, 1, 2, 3);
    assert!(l.contains(aux.id, TAG_MOUSE_PRESS));
    assert!(l.contains(aux.id, otway::input::TAG_MOUSE_RELEASE));
    assert!(l.contains(aux.id, otway::input::TAG_MOUSE_MOVE));
}
