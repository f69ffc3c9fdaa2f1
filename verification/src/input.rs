//! Raw input events and the union of event payloads.
//!
//! The input backend produces press/release/move/key/text events; each is
//! wrapped in a [`crate::consumable::ConsumableEvent`] (pointer and key
//! events) or a plain struct, and emitted tagged with the application
//! context's own identity before any node-level dispatch. Every event kind
//! carries a tag constant, so that listeners can subscribe by
//! (source identity, event kind).

use vstd::prelude::*;

use crate::consumable::ConsumableEvent;
use crate::geom::Point;
use crate::tree::CommonRef;

verus! {

/// Event-kind tag: a mouse button was pressed down.
pub const TAG_MOUSE_PRESS: u64 = 1;

/// Event-kind tag: a mouse button was released.
pub const TAG_MOUSE_RELEASE: u64 = 2;

/// Event-kind tag: the cursor was moved.
pub const TAG_MOUSE_MOVE: u64 = 3;

/// Event-kind tag: a keyboard key was pressed down.
pub const TAG_KEY_PRESS: u64 = 4;

/// Event-kind tag: a keyboard key was released.
pub const TAG_KEY_RELEASE: u64 = 5;

/// Event-kind tag: a printable character was typed.
pub const TAG_TEXT: u64 = 6;

/// Event-kind tag: the focused widget changed.
pub const TAG_FOCUS_CHANGED: u64 = 7;

/// Event-kind tag: a widget was pressed.
pub const TAG_PRESS: u64 = 8;

/// Event-kind tag: a widget was released from its press.
pub const TAG_RELEASE: u64 = 9;

/// Event-kind tag: the cursor entered a widget's boundaries.
pub const TAG_BEGIN_HOVER: u64 = 10;

/// Event-kind tag: the cursor left a widget's boundaries.
pub const TAG_END_HOVER: u64 = 11;

/// Event-kind tag: a widget gained focus.
pub const TAG_FOCUS_GAINED: u64 = 12;

/// Event-kind tag: a widget lost focus.
pub const TAG_FOCUS_LOST: u64 = 13;

/// Event-kind tag: a key press delivered to the focused widget.
pub const TAG_WIDGET_KEY_PRESS: u64 = 14;

/// Event-kind tag: a key release delivered to the focused widget.
pub const TAG_WIDGET_KEY_RELEASE: u64 = 15;

/// Event-kind tag: a character delivered to the focused widget.
pub const TAG_WIDGET_TEXT: u64 = 16;

/// Event-kind tag: a widget's geometry changed.
pub const TAG_TRANSFORM: u64 = 17;

/// Event-kind tag: an application-defined event.
pub const TAG_USER: u64 = 18;

/// A mouse button was pressed down.
pub struct MousePressEvent(pub ConsumableEvent<(MouseButton, Point)>);

/// A mouse button was released. Always paired with a prior
/// [`MousePressEvent`].
pub struct MouseReleaseEvent(pub ConsumableEvent<(MouseButton, Point)>);

/// The mouse/cursor was moved.
pub struct MouseMoveEvent(pub ConsumableEvent<Point>);

/// A keyboard key was pressed down.
pub struct KeyPressEvent(pub ConsumableEvent<KeyInput>);

/// A keyboard key was released. Always paired with a prior
/// [`KeyPressEvent`].
pub struct KeyReleaseEvent(pub ConsumableEvent<KeyInput>);

/// A printable character was typed.
pub struct TextEvent(pub ConsumableEvent<char>);

/// A widget's geometry changed.
pub struct TransformEvent;

/// The focused widget changed; both the outgoing and the incoming widget are
/// observable.
pub struct FocusChangedEvent {
    pub old_focus: Option<CommonRef>,
    pub new_focus: Option<CommonRef>,
}

/// Clickable button on a mouse.
#[derive(Clone, Copy, Debug, PartialEq, Eq, Structural, Hash)]
pub enum MouseButton {
    Left,
    Middle,
    Right,
    Other(u8),
}

/// Key on a keyboard.
///
/// The clipboard-copy key is named `CopyKey`: plain `Copy` cannot be an
/// item name here.
#[derive(Clone, Copy, Debug, PartialEq, Eq, Structural, Hash)]
pub enum KeyInput {
    Key1,
    Key2,
    Key3,
    Key4,
    Key5,
    Key6,
    Key7,
    Key8,
    Key9,
    Key0,
    A,
    B,
    C,
    D,
    E,
    F,
    G,
    H,
    I,
    J,
    K,
    L,
    M,
    N,
    O,
    P,
    Q,
    R,
    S,
    T,
    U,
    V,
    W,
    X,
    Y,
    Z,
    Escape,
    F1,
    F2,
    F3,
    F4,
    F5,
    F6,
    F7,
    F8,
    F9,
    F10,
    F11,
    F12,
    F13,
    F14,
    F15,
    F16,
    F17,
    F18,
    F19,
    F20,
    F21,
    F22,
    F23,
    F24,
    Snapshot,
    Scroll,
    Pause,
    Insert,
    Home,
    Delete,
    End,
    PageDown,
    PageUp,
    Left,
    Up,
    Right,
    Down,
    Back,
    Return,
    Space,
    Compose,
    Caret,
    Numlock,
    Numpad0,
    Numpad1,
    Numpad2,
    Numpad3,
    Numpad4,
    Numpad5,
    Numpad6,
    Numpad7,
    Numpad8,
    Numpad9,
    AbntC1,
    AbntC2,
    Add,
    Apostrophe,
    Apps,
    At,
    Ax,
    Backslash,
    Calculator,
    Capital,
    Colon,
    Comma,
    Convert,
    Decimal,
    Divide,
    Equals,
    Grave,
    Kana,
    Kanji,
    LAlt,
    LBracket,
    LControl,
    LShift,
    LWin,
    Mail,
    MediaSelect,
    MediaStop,
    Minus,
    Multiply,
    Mute,
    MyComputer,
    NavigateForward,
    NavigateBackward,
    NextTrack,
    NoConvert,
    NumpadComma,
    NumpadEnter,
    NumpadEquals,
    OEM102,
    Period,
    PlayPause,
    Power,
    PrevTrack,
    RAlt,
    RBracket,
    RControl,
    RShift,
    RWin,
    Semicolon,
    Slash,
    Sleep,
    Stop,
    Subtract,
    Sysrq,
    Tab,
    Underline,
    Unlabeled,
    VolumeDown,
    VolumeUp,
    Wake,
    WebBack,
    WebFavorites,
    WebForward,
    WebHome,
    WebRefresh,
    WebSearch,
    WebStop,
    Yen,
    CopyKey,
    Paste,
    Cut,
}

/// The payload of one queued event: the closed union of the event kinds the
/// core and the widget helpers emit, plus an application escape hatch
/// carrying a tag and an opaque word.
pub enum EventData {
    MousePress(MousePressEvent),
    MouseRelease(MouseReleaseEvent),
    MouseMove(MouseMoveEvent),
    KeyPress(KeyPressEvent),
    KeyRelease(KeyReleaseEvent),
    Text(TextEvent),
    FocusChanged(FocusChangedEvent),
    Press(crate::kit::PressEvent),
    Release(crate::kit::ReleaseEvent),
    BeginHover(crate::kit::BeginHoverEvent),
    EndHover(crate::kit::EndHoverEvent),
    FocusGained(crate::kit::FocusGainedEvent),
    FocusLost(crate::kit::FocusLostEvent),
    WidgetKeyPress(crate::kit::KeyPressEvent),
    WidgetKeyRelease(crate::kit::KeyReleaseEvent),
    WidgetText(crate::kit::TextEvent),
    Transform(TransformEvent),
    User(u64, u64),
}

/// The event-kind tag of a payload.
pub open spec fn event_tag_spec(e: &EventData) -> u64 {
    match e {
        EventData::MousePress(_) => TAG_MOUSE_PRESS,
        EventData::MouseRelease(_) => TAG_MOUSE_RELEASE,
        EventData::MouseMove(_) => TAG_MOUSE_MOVE,
        EventData::KeyPress(_) => TAG_KEY_PRESS,
        EventData::KeyRelease(_) => TAG_KEY_RELEASE,
        EventData::Text(_) => TAG_TEXT,
        EventData::FocusChanged(_) => TAG_FOCUS_CHANGED,
        EventData::Press(_) => TAG_PRESS,
        EventData::Release(_) => TAG_RELEASE,
        EventData::BeginHover(_) => TAG_BEGIN_HOVER,
        EventData::EndHover(_) => TAG_END_HOVER,
        EventData::FocusGained(_) => TAG_FOCUS_GAINED,
        EventData::FocusLost(_) => TAG_FOCUS_LOST,
        EventData::WidgetKeyPress(_) => TAG_WIDGET_KEY_PRESS,
        EventData::WidgetKeyRelease(_) => TAG_WIDGET_KEY_RELEASE,
        EventData::WidgetText(_) => TAG_WIDGET_TEXT,
        EventData::Transform(_) => TAG_TRANSFORM,
        EventData::User(_, _) => TAG_USER,
    }
}

/// Returns the event-kind tag of a payload, under which listeners subscribe
/// to it.
pub fn event_tag(e: &EventData) -> (r: u64)
    ensures
        r == event_tag_spec(e),
{
    match e {
        EventData::MousePress(_) => TAG_MOUSE_PRESS,
        EventData::MouseRelease(_) => TAG_MOUSE_RELEASE,
        EventData::MouseMove(_) => TAG_MOUSE_MOVE,
        EventData::KeyPress(_) => TAG_KEY_PRESS,
        EventData::KeyRelease(_) => TAG_KEY_RELEASE,
        EventData::Text(_) => TAG_TEXT,
        EventData::FocusChanged(_) => TAG_FOCUS_CHANGED,
        EventData::Press(_) => TAG_PRESS,
        EventData::Release(_) => TAG_RELEASE,
        EventData::BeginHover(_) => TAG_BEGIN_HOVER,
        EventData::EndHover(_) => TAG_END_HOVER,
        EventData::FocusGained(_) => TAG_FOCUS_GAINED,
        EventData::FocusLost(_) => TAG_FOCUS_LOST,
        EventData::WidgetKeyPress(_) => TAG_WIDGET_KEY_PRESS,
        EventData::WidgetKeyRelease(_) => TAG_WIDGET_KEY_RELEASE,
        EventData::WidgetText(_) => TAG_WIDGET_TEXT,
        EventData::Transform(_) => TAG_TRANSFORM,
        EventData::User(_, _) => TAG_USER,
    }
}

} // verus!
