//! Input-handler helpers shared by widgets.
//!
//! The interaction, focus and keyboard handlers each register a fixed set of
//! subscriptions on a fresh listener and hand every per-event decision to a
//! verified step function: given the widget's state and the queued event,
//! the step claims the event where appropriate, updates the interaction
//! state and says which widget-level event follows. The unverified widget
//! layer runs the steps from its handler closures and forwards the results
//! through the `*_forwarder` functions.

use vstd::prelude::*;

use crate::aux::Aux;
use crate::consumable::ConsumableEvent;
use crate::event::{Listener, Subscription};
use crate::geom::{rect_contains, Point, Rect};
use crate::input::{
    EventData, KeyInput, MouseButton, TAG_BEGIN_HOVER, TAG_END_HOVER, TAG_FOCUS_CHANGED,
    TAG_FOCUS_GAINED, TAG_FOCUS_LOST, TAG_KEY_PRESS, TAG_KEY_RELEASE, TAG_MOUSE_MOVE,
    TAG_MOUSE_PRESS, TAG_MOUSE_RELEASE, TAG_PRESS, TAG_RELEASE, TAG_TEXT, TAG_WIDGET_KEY_PRESS,
    TAG_WIDGET_KEY_RELEASE, TAG_WIDGET_TEXT,
};
use crate::node::{Common, Visibility};
use crate::tree::CommonRef;

verus! {

/// The widget was pressed.
pub struct PressEvent(pub Point);

/// The widget was released from its press ([`PressEvent`]).
pub struct ReleaseEvent(pub Point);

/// The cursor entered the widget boundaries.
pub struct BeginHoverEvent(pub Point);

/// The cursor left the widget boundaries.
pub struct EndHoverEvent(pub Point);

/// The widget gained focus.
pub struct FocusGainedEvent;

/// The widget lost focus.
pub struct FocusLostEvent;

/// A key was pressed while the widget had focus.
pub struct KeyPressEvent(pub KeyInput);

/// A key was released while the widget had focus.
pub struct KeyReleaseEvent(pub KeyInput);

/// A character was typed while the widget had focus.
pub struct TextEvent(pub char);

/// An interaction a widget reacts to.
#[derive(Clone, Copy, Debug, PartialEq, Eq, Structural)]
pub enum InteractionEvent {
    Press(Point),
    Release(Point),
    BeginHover(Point),
    EndHover(Point),
}

/// Which interactions a handler reacts to.
#[derive(Clone, Copy, Debug, PartialEq, Eq, Structural)]
pub struct InteractionMask {
    pub press: bool,
    pub release: bool,
    pub begin_hover: bool,
    pub end_hover: bool,
}

impl Default for InteractionMask {
    /// All interactions.
    fn default() -> (r: InteractionMask)
        ensures
            r == (InteractionMask { press: true, release: true, begin_hover: true, end_hover: true }),
    {
        InteractionMask { press: true, release: true, begin_hover: true, end_hover: true }
    }
}

/// A focus transition a widget reacts to.
#[derive(Clone, Copy, Debug, PartialEq, Eq, Structural)]
pub enum FocusEvent {
    Gained,
    Lost,
}

/// Which mouse interaction grabs focus.
#[derive(Clone, Copy, Debug, PartialEq, Eq, Structural)]
pub enum FocusMouseTrigger {
    Press,
    Release,
}

impl Default for FocusMouseTrigger {
    fn default() -> (r: FocusMouseTrigger)
        ensures
            r == FocusMouseTrigger::Press,
    {
        FocusMouseTrigger::Press
    }
}

/// Configuration of a focus handler.
#[derive(Clone, Copy, Debug, PartialEq, Eq, Structural)]
pub struct FocusConfig {
    pub mouse_trigger: FocusMouseTrigger,
    /// The identity of the widget which emits the interaction events. This
    /// should almost always be the widget attaching the focus handler.
    pub interaction_handler: u64,
}

/// A keyboard event a widget reacts to.
#[derive(Clone, Copy, Debug, PartialEq, Eq, Structural)]
pub enum KeyboardEvent {
    KeyPress(KeyInput),
    KeyRelease(KeyInput),
    Text(char),
}

/// Whether a node with visibility `v` does not take part in input handling.
pub open spec fn invisible_to_input_spec(v: Visibility) -> bool {
    v == Visibility::NoSelf || v == Visibility::Invisible || v == Visibility::Gone
}

/// Returns whether a node with visibility `v` is invisible to input: not
/// drawn itself, or fully invisible.
pub fn invisible_to_input(v: Visibility) -> (r: bool)
    ensures
        r == invisible_to_input_spec(v),
{
    v == Visibility::NoSelf || v == Visibility::Invisible || v == Visibility::Gone
}

/// Registers the three mouse-interaction subscriptions — press, release and
/// move events from the context's own identity — on a fresh listener, routed
/// to the given handler handles.
pub fn interaction_handler<T>(
    aux: &Aux<T>,
    press_handler: u64,
    release_handler: u64,
    move_handler: u64,
) -> (r: Listener)
    ensures
        r.wf(),
        r.subs_spec() == seq![
            Subscription { source: aux.id, tag: TAG_MOUSE_PRESS, handler: press_handler },
            Subscription { source: aux.id, tag: TAG_MOUSE_RELEASE, handler: release_handler },
            Subscription { source: aux.id, tag: TAG_MOUSE_MOVE, handler: move_handler },
        ],
        r.late_spec() == Seq::<crate::event::LateOp>::empty(),
        r.seen_spec() == aux.queue.len_spec(),
        !r.in_dispatch(),
{
    let mut l = aux.listen();
    l.on(aux.id, TAG_MOUSE_PRESS, press_handler);
    l.on(aux.id, TAG_MOUSE_RELEASE, release_handler);
    l.on(aux.id, TAG_MOUSE_MOVE, move_handler);
    proof {
        assert(l.subs_spec() =~= seq![
            Subscription { source: aux.id, tag: TAG_MOUSE_PRESS, handler: press_handler },
            Subscription { source: aux.id, tag: TAG_MOUSE_RELEASE, handler: release_handler },
            Subscription { source: aux.id, tag: TAG_MOUSE_MOVE, handler: move_handler },
        ]);
    }
    l
}

/// Whether a press or release at `pos` with button `btn` applies to a widget
/// with bounds `bounds`: left button, inside the bounds.
pub open spec fn press_applies(bounds: Rect, btn: MouseButton, pos: Point) -> bool {
    btn == MouseButton::Left && rect_contains(bounds, pos)
}

/// The press step of the interaction handler: on a left-button press inside
/// `bounds` of a widget visible to input, claims the event, records the
/// widget as pressed and returns the press interaction; otherwise changes
/// nothing (though another claim may already have consumed the event).
pub fn handle_mouse_press(
    common: &mut Common,
    bounds: Rect,
    mask: InteractionMask,
    ignore_visibility: bool,
    event: &mut ConsumableEvent<(MouseButton, Point)>,
) -> (r: Option<InteractionEvent>)
    ensures
        final(event).data_spec() == old(event).data_spec(),
        !mask.press ==> r is None && *final(common) == *old(common) && *final(event) == *old(
            event,
        ),
        (!ignore_visibility && invisible_to_input_spec(old(common).visible_spec())) ==> r is None
            && *final(common) == *old(common) && *final(event) == *old(event),
        r matches Some(ie) ==> {
            &&& mask.press
            &&& (ignore_visibility || !invisible_to_input_spec(old(common).visible_spec()))
            &&& !old(event).consumed_spec()
            &&& final(event).consumed_spec()
            &&& press_applies(bounds, old(event).data_spec().0, old(event).data_spec().1)
            &&& ie == InteractionEvent::Press(old(event).data_spec().1)
            &&& Common::same_but_interaction(*old(common), *final(common))
            &&& final(common).interaction_spec() == (crate::node::Interaction {
                pressed: true,
                ..old(common).interaction_spec()
            })
        },
        (r is None && mask.press && (ignore_visibility || !invisible_to_input_spec(
            old(common).visible_spec(),
        ))) ==> {
            &&& *final(common) == *old(common)
            &&& final(event).consumed_spec() == old(event).consumed_spec()
            &&& (old(event).consumed_spec() || !press_applies(
                bounds,
                old(event).data_spec().0,
                old(event).data_spec().1,
            ))
        },
{
    if !mask.press {
        return None;
    }
    if !ignore_visibility && invisible_to_input(common.visible()) {
        return None;
    }
    let pred = |d: &(MouseButton, Point)| -> (res: bool)
        ensures
            res == press_applies(bounds, d.0, d.1),
        { d.0 == MouseButton::Left && bounds.contains(d.1) };
    match event.with(pred) {
        Some(d) => {
            let pos = d.1;
            common.set_pressed(true);
            Some(InteractionEvent::Press(pos))
        },
        None => None,
    }
}

/// The release step of the interaction handler: as the press step, but
/// records the widget as released.
pub fn handle_mouse_release(
    common: &mut Common,
    bounds: Rect,
    mask: InteractionMask,
    ignore_visibility: bool,
    event: &mut ConsumableEvent<(MouseButton, Point)>,
) -> (r: Option<InteractionEvent>)
    ensures
        final(event).data_spec() == old(event).data_spec(),
        !mask.release ==> r is None && *final(common) == *old(common) && *final(event) == *old(
            event,
        ),
        (!ignore_visibility && invisible_to_input_spec(old(common).visible_spec())) ==> r is None
            && *final(common) == *old(common) && *final(event) == *old(event),
        r matches Some(ie) ==> {
            &&& mask.release
            &&& (ignore_visibility || !invisible_to_input_spec(old(common).visible_spec()))
            &&& !old(event).consumed_spec()
            &&& final(event).consumed_spec()
            &&& press_applies(bounds, old(event).data_spec().0, old(event).data_spec().1)
            &&& ie == InteractionEvent::Release(old(event).data_spec().1)
            &&& Common::same_but_interaction(*old(common), *final(common))
            &&& final(common).interaction_spec() == (crate::node::Interaction {
                pressed: false,
                ..old(common).interaction_spec()
            })
        },
        (r is None && mask.release && (ignore_visibility || !invisible_to_input_spec(
            old(common).visible_spec(),
        ))) ==> {
            &&& *final(common) == *old(common)
            &&& final(event).consumed_spec() == old(event).consumed_spec()
            &&& (old(event).consumed_spec() || !press_applies(
                bounds,
                old(event).data_spec().0,
                old(event).data_spec().1,
            ))
        },
{
    if !mask.release {
        return None;
    }
    if !ignore_visibility && invisible_to_input(common.visible()) {
        return None;
    }
    let pred = |d: &(MouseButton, Point)| -> (res: bool)
        ensures
            res == press_applies(bounds, d.0, d.1),
        { d.0 == MouseButton::Left && bounds.contains(d.1) };
    match event.with(pred) {
        Some(d) => {
            let pos = d.1;
            common.set_pressed(false);
            Some(InteractionEvent::Release(pos))
        },
        None => None,
    }
}

/// The move step of the interaction handler: tracks whether the cursor
/// hovers inside `bounds` (claiming the move event when it does) and reports
/// the hover transition, if any.
pub fn handle_mouse_move(
    common: &mut Common,
    bounds: Rect,
    mask: InteractionMask,
    ignore_visibility: bool,
    event: &mut ConsumableEvent<Point>,
) -> (r: Option<InteractionEvent>)
    ensures
        final(event).data_spec() == old(event).data_spec(),
        (!mask.begin_hover && !mask.end_hover) ==> r is None && *final(common) == *old(common)
            && *final(event) == *old(event),
        (!ignore_visibility && invisible_to_input_spec(old(common).visible_spec())) ==> r is None
            && *final(common) == *old(common) && *final(event) == *old(event),
        ((mask.begin_hover || mask.end_hover) && (ignore_visibility || !invisible_to_input_spec(
            old(common).visible_spec(),
        ))) ==> {
            let was = old(common).interaction_spec().hovered;
            let now = final(common).interaction_spec().hovered;
            let pos = old(event).data_spec();
            &&& Common::same_but_interaction(*old(common), *final(common))
            &&& final(common).interaction_spec().pressed == old(common).interaction_spec().pressed
            &&& (now ==> !old(event).consumed_spec() && final(event).consumed_spec()
                && rect_contains(bounds, pos))
            &&& (!now ==> final(event).consumed_spec() == old(event).consumed_spec() && (old(
                event,
            ).consumed_spec() || !rect_contains(bounds, pos)))
            &&& r == (if was != now {
                if was {
                    Some(InteractionEvent::EndHover(pos))
                } else {
                    Some(InteractionEvent::BeginHover(pos))
                }
            } else {
                None::<InteractionEvent>
            })
        },
{
    if !mask.begin_hover && !mask.end_hover {
        return None;
    }
    if !ignore_visibility && invisible_to_input(common.visible()) {
        return None;
    }
    let was_hovered = common.interaction().hovered;
    let pred = |p: &Point| -> (res: bool)
        ensures
            res == rect_contains(bounds, *p),
        { bounds.contains(*p) };
    let pos = match event.with(pred) {
        Some(p) => {
            let pos = *p;
            common.set_hovered(true);
            pos
        },
        None => {
            common.set_hovered(false);
            *event.get()
        },
    };
    if was_hovered != common.interaction().hovered {
        if was_hovered {
            Some(InteractionEvent::EndHover(pos))
        } else {
            Some(InteractionEvent::BeginHover(pos))
        }
    } else {
        None
    }
}

/// Forwards an interaction to the queue as the matching widget-level event,
/// where the mask allows it, on behalf of the widget with identity `id`.
pub fn interaction_forwarder<T>(
    mask: InteractionMask,
    id: u64,
    aux: &mut Aux<T>,
    event: InteractionEvent,
)
    ensures
        final(aux).data == old(aux).data,
        final(aux).id == old(aux).id,
        final(aux).central_widget == old(aux).central_widget,
        final(aux).focus_widget == old(aux).focus_widget,
        final(aux).queue.events_spec() == (match event {
            InteractionEvent::Press(pos) => if mask.press {
                old(aux).queue.events_spec().push(
                    crate::event::Event {
                        source: id,
                        tag: TAG_PRESS,
                        payload: EventData::Press(PressEvent(pos)),
                    },
                )
            } else {
                old(aux).queue.events_spec()
            },
            InteractionEvent::Release(pos) => if mask.release {
                old(aux).queue.events_spec().push(
                    crate::event::Event {
                        source: id,
                        tag: TAG_RELEASE,
                        payload: EventData::Release(ReleaseEvent(pos)),
                    },
                )
            } else {
                old(aux).queue.events_spec()
            },
            InteractionEvent::BeginHover(pos) => if mask.begin_hover {
                old(aux).queue.events_spec().push(
                    crate::event::Event {
                        source: id,
                        tag: TAG_BEGIN_HOVER,
                        payload: EventData::BeginHover(BeginHoverEvent(pos)),
                    },
                )
            } else {
                old(aux).queue.events_spec()
            },
            InteractionEvent::EndHover(pos) => if mask.end_hover {
                old(aux).queue.events_spec().push(
                    crate::event::Event {
                        source: id,
                        tag: TAG_END_HOVER,
                        payload: EventData::EndHover(EndHoverEvent(pos)),
                    },
                )
            } else {
                old(aux).queue.events_spec()
            },
        }),
{
    match event {
        InteractionEvent::Press(pos) => {
            if mask.press {
                aux.emit(id, EventData::Press(PressEvent(pos)));
            }
        },
        InteractionEvent::Release(pos) => {
            if mask.release {
                aux.emit(id, EventData::Release(ReleaseEvent(pos)));
            }
        },
        InteractionEvent::BeginHover(pos) => {
            if mask.begin_hover {
                aux.emit(id, EventData::BeginHover(BeginHoverEvent(pos)));
            }
        },
        InteractionEvent::EndHover(pos) => {
            if mask.end_hover {
                aux.emit(id, EventData::EndHover(EndHoverEvent(pos)));
            }
        },
    }
}

/// Registers the three focus subscriptions on a fresh listener: widget-level
/// press and release events from the interaction handler named by the
/// configuration, and focus-changed events from the context.
pub fn focus_handler<T>(
    aux: &Aux<T>,
    config: FocusConfig,
    press_handler: u64,
    release_handler: u64,
    changed_handler: u64,
) -> (r: Listener)
    ensures
        r.wf(),
        r.subs_spec() == seq![
            Subscription { source: config.interaction_handler, tag: TAG_PRESS, handler: press_handler },
            Subscription {
                source: config.interaction_handler,
                tag: TAG_RELEASE,
                handler: release_handler,
            },
            Subscription { source: aux.id, tag: TAG_FOCUS_CHANGED, handler: changed_handler },
        ],
        r.late_spec() == Seq::<crate::event::LateOp>::empty(),
        r.seen_spec() == aux.queue.len_spec(),
        !r.in_dispatch(),
{
    let mut l = aux.listen();
    l.on(config.interaction_handler, TAG_PRESS, press_handler);
    l.on(config.interaction_handler, TAG_RELEASE, release_handler);
    l.on(aux.id, TAG_FOCUS_CHANGED, changed_handler);
    proof {
        assert(l.subs_spec() =~= seq![
            Subscription {
                source: config.interaction_handler,
                tag: TAG_PRESS,
                handler: press_handler,
            },
            Subscription {
                source: config.interaction_handler,
                tag: TAG_RELEASE,
                handler: release_handler,
            },
            Subscription { source: aux.id, tag: TAG_FOCUS_CHANGED, handler: changed_handler },
        ]);
    }
    l
}

/// The press/release step of the focus handler: grabs focus for the widget
/// when the configured mouse trigger fires.
pub fn focus_on_interaction<T>(
    aux: &mut Aux<T>,
    config: FocusConfig,
    me: CommonRef,
    trigger: FocusMouseTrigger,
)
    ensures
        config.mouse_trigger == trigger ==> Aux::grab_focus_claims(
            *old(aux),
            *final(aux),
            Some(me),
        ),
        config.mouse_trigger != trigger ==> *final(aux) == *old(aux),
{
    if config.mouse_trigger == trigger {
        aux.grab_focus(Some(me));
    }
}

/// The focus-changed step of the focus handler: reports a lost focus when
/// the outgoing widget is `me`, a gained focus when the incoming one is.
pub fn focus_on_changed(evt: &crate::input::FocusChangedEvent, me: CommonRef) -> (r: Option<
    FocusEvent,
>)
    ensures
        r == (if evt.old_focus == Some(me) {
            Some(FocusEvent::Lost)
        } else if evt.new_focus == Some(me) {
            Some(FocusEvent::Gained)
        } else {
            None::<FocusEvent>
        }),
{
    let lost = match &evt.old_focus {
        Some(f) => {
            proof {
                crate::tree::lemma_commonref_eq(*f, me);
            }
            f.id() == me.id()
        },
        None => false,
    };
    if lost {
        return Some(FocusEvent::Lost);
    }
    let gained = match &evt.new_focus {
        Some(f) => {
            proof {
                crate::tree::lemma_commonref_eq(*f, me);
            }
            f.id() == me.id()
        },
        None => false,
    };
    if gained {
        Some(FocusEvent::Gained)
    } else {
        None
    }
}

/// Forwards a focus transition to the queue as the matching widget-level
/// event, on behalf of the widget with identity `id`.
pub fn focus_forwarder<T>(id: u64, aux: &mut Aux<T>, event: FocusEvent)
    ensures
        final(aux).data == old(aux).data,
        final(aux).id == old(aux).id,
        final(aux).central_widget == old(aux).central_widget,
        final(aux).focus_widget == old(aux).focus_widget,
        final(aux).queue.events_spec() == (match event {
            FocusEvent::Gained => old(aux).queue.events_spec().push(
                crate::event::Event {
                    source: id,
                    tag: TAG_FOCUS_GAINED,
                    payload: EventData::FocusGained(FocusGainedEvent),
                },
            ),
            FocusEvent::Lost => old(aux).queue.events_spec().push(
                crate::event::Event {
                    source: id,
                    tag: TAG_FOCUS_LOST,
                    payload: EventData::FocusLost(FocusLostEvent),
                },
            ),
        }),
{
    match event {
        FocusEvent::Gained => {
            aux.emit(id, EventData::FocusGained(FocusGainedEvent));
        },
        FocusEvent::Lost => {
            aux.emit(id, EventData::FocusLost(FocusLostEvent));
        },
    }
}

/// Registers the three keyboard subscriptions — key press, key release and
/// text events from the context's own identity — on a fresh listener.
pub fn keyboard_handler<T>(
    aux: &Aux<T>,
    key_press_handler: u64,
    key_release_handler: u64,
    text_handler: u64,
) -> (r: Listener)
    ensures
        r.wf(),
        r.subs_spec() == seq![
            Subscription { source: aux.id, tag: TAG_KEY_PRESS, handler: key_press_handler },
            Subscription { source: aux.id, tag: TAG_KEY_RELEASE, handler: key_release_handler },
            Subscription { source: aux.id, tag: TAG_TEXT, handler: text_handler },
        ],
        r.late_spec() == Seq::<crate::event::LateOp>::empty(),
        r.seen_spec() == aux.queue.len_spec(),
        !r.in_dispatch(),
{
    let mut l = aux.listen();
    l.on(aux.id, TAG_KEY_PRESS, key_press_handler);
    l.on(aux.id, TAG_KEY_RELEASE, key_release_handler);
    l.on(aux.id, TAG_TEXT, text_handler);
    proof {
        assert(l.subs_spec() =~= seq![
            Subscription { source: aux.id, tag: TAG_KEY_PRESS, handler: key_press_handler },
            Subscription { source: aux.id, tag: TAG_KEY_RELEASE, handler: key_release_handler },
            Subscription { source: aux.id, tag: TAG_TEXT, handler: text_handler },
        ]);
    }
    l
}

/// The common step of the keyboard handler: a widget visible to input that
/// holds the focus claims the key event and receives its payload.
pub fn claim_if_focused<T: Copy>(
    visible: Visibility,
    has_focus: bool,
    event: &mut ConsumableEvent<T>,
) -> (r: Option<T>)
    ensures
        final(event).data_spec() == old(event).data_spec(),
        invisible_to_input_spec(visible) ==> r is None && *final(event) == *old(event),
        r matches Some(k) ==> {
            &&& !invisible_to_input_spec(visible)
            &&& has_focus
            &&& !old(event).consumed_spec()
            &&& final(event).consumed_spec()
            &&& k == old(event).data_spec()
        },
        (r is None && !invisible_to_input_spec(visible)) ==> {
            &&& final(event).consumed_spec() == old(event).consumed_spec()
            &&& (old(event).consumed_spec() || !has_focus)
        },
{
    if invisible_to_input(visible) {
        return None;
    }
    let pred = |_k: &T| -> (res: bool)
        ensures
            res == has_focus,
        { has_focus };
    match event.with(pred) {
        Some(k) => Some(*k),
        None => None,
    }
}

/// Forwards a keyboard event to the queue as the matching widget-level
/// event, on behalf of the widget with identity `id`.
pub fn keyboard_forwarder<T>(id: u64, aux: &mut Aux<T>, event: KeyboardEvent)
    ensures
        final(aux).data == old(aux).data,
        final(aux).id == old(aux).id,
        final(aux).central_widget == old(aux).central_widget,
        final(aux).focus_widget == old(aux).focus_widget,
        final(aux).queue.events_spec() == (match event {
            KeyboardEvent::KeyPress(k) => old(aux).queue.events_spec().push(
                crate::event::Event {
                    source: id,
                    tag: TAG_WIDGET_KEY_PRESS,
                    payload: EventData::WidgetKeyPress(KeyPressEvent(k)),
                },
            ),
            KeyboardEvent::KeyRelease(k) => old(aux).queue.events_spec().push(
                crate::event::Event {
                    source: id,
                    tag: TAG_WIDGET_KEY_RELEASE,
                    payload: EventData::WidgetKeyRelease(KeyReleaseEvent(k)),
                },
            ),
            KeyboardEvent::Text(c) => old(aux).queue.events_spec().push(
                crate::event::Event {
                    source: id,
                    tag: TAG_WIDGET_TEXT,
                    payload: EventData::WidgetText(TextEvent(c)),
                },
            ),
        }),
{
    match event {
        KeyboardEvent::KeyPress(k) => {
            aux.emit(id, EventData::WidgetKeyPress(KeyPressEvent(k)));
        },
        KeyboardEvent::KeyRelease(k) => {
            aux.emit(id, EventData::WidgetKeyRelease(KeyReleaseEvent(k)));
        },
        KeyboardEvent::Text(c) => {
            aux.emit(id, EventData::WidgetText(TextEvent(c)));
        },
    }
}

} // verus!
