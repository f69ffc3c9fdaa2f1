//! The per-widget node record and its small satellite types.
//!
//! A [`Common`] holds everything widget-agnostic about one widget: its
//! immutable unique identity, its rectangle, its visibility and update modes,
//! an optional layout slot, a repaint-flag carrier and an optional type-tagged
//! payload set once at construction.

use vstd::prelude::*;

use crate::geom::{Point, Rect, Size};

verus! {

/// Visibility mode of a node, gating rendering and layout participation.
#[derive(Clone, Copy, Debug, PartialEq, Eq, Structural)]
pub enum Visibility {
    /// The widget and its children are visible to rendering and layout.
    All,
    /// The widget and its children are visible to rendering but are ignored
    /// during layout.
    NoLayout,
    /// The children are not visible to rendering.
    NoChildren,
    /// The widget is not visible to rendering, but its children are.
    NoSelf,
    /// The widget and its children are not visually visible, but are visible
    /// during layout.
    Invisible,
    /// The widget and its children are not visually visible, nor do they
    /// take part in layout.
    Gone,
}

impl Default for Visibility {
    /// Nodes start fully visible.
    fn default() -> (r: Visibility)
        ensures
            r == Visibility::All,
    {
        Visibility::All
    }
}

/// How a node's geometry relates to its attached layout slot.
#[derive(Clone, Copy, Debug, PartialEq, Eq, Structural)]
pub enum LayoutMode {
    /// The size of the layout and the size of the widget are independent of
    /// each other.
    IndependentSize,
    /// The size of the layout will follow the size of the widget.
    Fill,
    /// The size of the widget will follow the size of the layout.
    Shrink,
}

impl Default for LayoutMode {
    fn default() -> (r: LayoutMode)
        ensures
            r == LayoutMode::IndependentSize,
    {
        LayoutMode::IndependentSize
    }
}

/// How a widget may accept focus.
#[derive(Clone, Copy, Debug, PartialEq, Eq, Structural)]
pub enum FocusMode {
    /// The widget can only accept focus using keyboard input.
    TabFocus,
    /// The widget can only accept focus using mouse input.
    ClickFocus,
    /// The widget can accept focus using either keyboard or mouse input.
    TabOrClick,
    /// The widget cannot accept focus.
    NoFocus,
}

impl Default for FocusMode {
    fn default() -> (r: FocusMode)
        ensures
            r == FocusMode::TabOrClick,
    {
        FocusMode::TabOrClick
    }
}

/// The sizing/positioning slot a layout engine attaches to a node.
///
/// The layout engine itself is an outside collaborator; the node only reads
/// and writes the slot's rectangle.
#[derive(Clone, Copy, Debug, PartialEq, Eq, Structural)]
pub struct LayoutSlot {
    pub rect: Rect,
}

impl LayoutSlot {
    pub fn new(rect: Rect) -> (r: LayoutSlot)
        ensures
            r == (LayoutSlot { rect }),
    {
        LayoutSlot { rect }
    }

    /// Pushes a size into the slot; `None` leaves the slot's extent alone.
    pub fn set_size(&mut self, size: Option<Size>)
        ensures
            final(self).rect.origin == old(self).rect.origin,
            final(self).rect.size == (match size {
                Option::Some(s) => s,
                Option::None => old(self).rect.size,
            }),
    {
        match size {
            Option::Some(s) => {
                self.rect.size = s;
            },
            Option::None => {},
        }
    }

    /// Returns the slot's rectangle.
    pub fn rect(&self) -> (r: Rect)
        ensures
            r == self.rect,
    {
        self.rect
    }
}

/// The repaint-flag carrier of one node.
///
/// The display-command store of the drawing backend lives outside the
/// verified core; the node only tracks whether a repaint is pending.
#[derive(Clone, Copy, Debug, PartialEq, Eq, Structural)]
pub struct CommandGroup {
    will_repaint: bool,
}

impl CommandGroup {
    /// Flags a pending repaint.
    pub fn repaint(&mut self)
        ensures
            final(self).will_repaint_spec(),
    {
        self.will_repaint = true;
    }

    /// Returns whether a repaint is pending.
    pub fn will_repaint(&self) -> (r: bool)
        ensures
            r == self.will_repaint_spec(),
    {
        self.will_repaint
    }

    /// Spec-level access to the pending-repaint flag.
    pub closed spec fn will_repaint_spec(&self) -> bool {
        self.will_repaint
    }

    /// Clears the pending repaint, once the drawing backend has painted.
    pub fn mark_painted(&mut self)
        ensures
            !final(self).will_repaint_spec(),
    {
        self.will_repaint = false;
    }
}

impl Default for CommandGroup {
    /// A fresh command group has a repaint pending, so that the first frame
    /// paints the node.
    fn default() -> (r: CommandGroup)
        ensures
            r.will_repaint_spec(),
    {
        CommandGroup { will_repaint: true }
    }
}

/// Interaction state of one widget.
#[derive(Clone, Copy, Debug, PartialEq, Eq, Structural)]
pub struct Interaction {
    pub pressed: bool,
    pub hovered: bool,
}

impl Default for Interaction {
    /// Neither pressed nor hovered.
    fn default() -> (r: Interaction)
        ensures
            r == (Interaction { pressed: false, hovered: false }),
    {
        Interaction { pressed: false, hovered: false }
    }
}

impl Interaction {
    /// Returns true if the widget has been pressed down by the cursor.
    pub fn pressed(&self) -> (r: bool)
        ensures
            r == self.pressed,
    {
        self.pressed
    }

    /// Returns true if the widget has been hovered over by the cursor.
    pub fn hovered(&self) -> (r: bool)
        ensures
            r == self.hovered,
    {
        self.hovered
    }
}

/// A type-tagged payload attached to a node at construction.
///
/// Arbitrary dynamically-typed payloads of the unverified layer are carried
/// as a type tag plus an opaque word; a read succeeds only when the asked-for
/// tag matches.
#[derive(Clone, Copy, Debug, PartialEq, Eq, Structural)]
pub struct Info {
    pub tag: u64,
    pub data: u64,
}

/// Keyboard modifier keys state.
#[derive(Clone, Copy, Debug, PartialEq, Eq, Structural)]
pub struct KeyModifiers {
    pub shift: bool,
    pub ctrl: bool,
    pub alt: bool,
    pub logo: bool,
}

/// The core, widget-agnostic record underlying one widget.
///
/// The identity is immutable for the node's lifetime; geometry mutators keep
/// the repaint flag and the layout slot in step with the rectangle.
pub struct Common {
    id: u64,
    rect: Rect,
    layout: Option<LayoutSlot>,
    layout_mode: LayoutMode,
    visible: Visibility,
    updates: bool,
    cmds: CommandGroup,
    info: Option<Info>,
    interaction: Interaction,
}

impl Common {
    /// The node's unique identity.
    pub closed spec fn id_spec(&self) -> u64 {
        self.id
    }

    /// The node's rectangle.
    pub closed spec fn rect_spec(&self) -> Rect {
        self.rect
    }

    /// The node's layout slot, if a layout is attached.
    pub closed spec fn layout_spec(&self) -> Option<LayoutSlot> {
        self.layout
    }

    /// The node's layout mode.
    pub closed spec fn layout_mode_spec(&self) -> LayoutMode {
        self.layout_mode
    }

    /// The node's visibility mode.
    pub closed spec fn visible_spec(&self) -> Visibility {
        self.visible
    }

    /// Whether the node takes part in updates.
    pub closed spec fn updates_spec(&self) -> bool {
        self.updates
    }

    /// The node's repaint-flag carrier.
    pub closed spec fn cmds_spec(&self) -> CommandGroup {
        self.cmds
    }

    /// The node's optional type-tagged payload.
    pub closed spec fn info_spec(&self) -> Option<Info> {
        self.info
    }

    /// The node's interaction state.
    pub closed spec fn interaction_spec(&self) -> Interaction {
        self.interaction
    }

    /// Returns the interaction state, maintained by the input handlers.
    pub fn interaction(&self) -> (r: Interaction)
        ensures
            r == self.interaction_spec(),
    {
        self.interaction
    }

    /// Everything but the interaction state is unchanged between `a` and `b`.
    pub open spec fn same_but_interaction(a: Common, b: Common) -> bool {
        &&& a.id_spec() == b.id_spec()
        &&& a.rect_spec() == b.rect_spec()
        &&& a.layout_spec() == b.layout_spec()
        &&& a.layout_mode_spec() == b.layout_mode_spec()
        &&& a.visible_spec() == b.visible_spec()
        &&& a.updates_spec() == b.updates_spec()
        &&& a.cmds_spec() == b.cmds_spec()
        &&& a.info_spec() == b.info_spec()
    }

    /// Records whether the widget is currently pressed down by the cursor.
    pub fn set_pressed(&mut self, pressed: bool)
        ensures
            Common::same_but_interaction(*old(self), *final(self)),
            final(self).interaction_spec() == (Interaction {
                pressed,
                ..old(self).interaction_spec()
            }),
    {
        self.interaction.pressed = pressed;
    }

    /// Records whether the cursor currently hovers over the widget.
    pub fn set_hovered(&mut self, hovered: bool)
        ensures
            Common::same_but_interaction(*old(self), *final(self)),
            final(self).interaction_spec() == (Interaction {
                hovered,
                ..old(self).interaction_spec()
            }),
    {
        self.interaction.hovered = hovered;
    }

    /// Everything but the rectangle, the repaint flag and the layout slot is
    /// unchanged between `a` and `b`.
    pub open spec fn same_but_geometry(a: Common, b: Common) -> bool {
        &&& a.id_spec() == b.id_spec()
        &&& a.layout_mode_spec() == b.layout_mode_spec()
        &&& a.visible_spec() == b.visible_spec()
        &&& a.updates_spec() == b.updates_spec()
        &&& a.info_spec() == b.info_spec()
        &&& a.interaction_spec() == b.interaction_spec()
    }

    /// Everything but the visibility and update modes is unchanged between
    /// `a` and `b`.
    pub open spec fn same_but_visibility(a: Common, b: Common) -> bool {
        &&& a.id_spec() == b.id_spec()
        &&& a.rect_spec() == b.rect_spec()
        &&& a.layout_spec() == b.layout_spec()
        &&& a.layout_mode_spec() == b.layout_mode_spec()
        &&& a.cmds_spec() == b.cmds_spec()
        &&& a.info_spec() == b.info_spec()
        &&& a.interaction_spec() == b.interaction_spec()
    }

    /// Creates a node record carrying the given identity.
    ///
    /// Identities are handed out by the owning tree, which keeps them unique;
    /// this constructor is not public so that no record with a foreign
    /// identity can be forged.
    pub(crate) fn new_with_id(id: u64, info: Option<Info>) -> (r: Common)
        ensures
            r.id_spec() == id,
            r.rect_spec() == (Rect {
                origin: Point { x: 0, y: 0 },
                size: Size { width: 0, height: 0 },
            }),
            r.layout_spec() is None,
            r.layout_mode_spec() == LayoutMode::IndependentSize,
            r.visible_spec() == Visibility::All,
            r.updates_spec(),
            r.cmds_spec().will_repaint_spec(),
            r.info_spec() == info,
            r.interaction_spec() == (Interaction { pressed: false, hovered: false }),
    {
        Common {
            id,
            rect: Rect::default(),
            layout: Option::None,
            layout_mode: LayoutMode::IndependentSize,
            visible: Visibility::All,
            updates: true,
            cmds: CommandGroup { will_repaint: true },
            info,
            interaction: Interaction { pressed: false, hovered: false },
        }
    }

    /// The rectangle and layout slot a geometry mutation settles on:
    /// `Fill` pushes the node's size into the layout slot, `Shrink` pulls the
    /// slot's size back into the rectangle, `IndependentSize` leaves the slot
    /// alone.
    pub open spec fn geometry_after(
        rect: Rect,
        layout: Option<LayoutSlot>,
        mode: LayoutMode,
    ) -> (Rect, Option<LayoutSlot>) {
        match layout {
            Option::Some(slot) => match mode {
                LayoutMode::IndependentSize => (rect, Option::Some(slot)),
                LayoutMode::Fill => (
                    rect,
                    Option::Some(LayoutSlot { rect: Rect { origin: slot.rect.origin, size: rect.size } }),
                ),
                LayoutMode::Shrink => (
                    Rect { origin: rect.origin, size: slot.rect.size },
                    Option::Some(slot),
                ),
            },
            Option::None => (rect, Option::None),
        }
    }

    /// The node's state after a geometry mutation to rectangle `rect`:
    /// the rectangle is updated, a repaint is flagged, and the layout-driven
    /// size is recomputed.
    pub open spec fn geometry_mutated(pre: Common, post: Common, rect: Rect) -> bool {
        &&& Common::same_but_geometry(pre, post)
        &&& post.cmds_spec().will_repaint_spec()
        &&& (post.rect_spec(), post.layout_spec()) == Common::geometry_after(
            rect,
            pre.layout_spec(),
            pre.layout_mode_spec(),
        )
    }

    /// Recomputes the layout-driven size after the rectangle or the layout
    /// mode changed.
    fn update_layout_size(&mut self)
        ensures
            Common::same_but_geometry(*old(self), *final(self)),
            final(self).cmds_spec() == old(self).cmds_spec(),
            (final(self).rect_spec(), final(self).layout_spec()) == Common::geometry_after(
                old(self).rect_spec(),
                old(self).layout_spec(),
                old(self).layout_mode_spec(),
            ),
    {
        let size = self.rect.size;
        let mut layout_size: Option<Size> = Option::None;
        match &mut self.layout {
            Option::Some(slot) => {
                match self.layout_mode {
                    LayoutMode::IndependentSize => {
                        slot.set_size(Option::None);
                    },
                    LayoutMode::Fill => {
                        slot.set_size(Option::Some(size));
                    },
                    LayoutMode::Shrink => {
                        layout_size = Option::Some(slot.rect().size);
                    },
                }
            },
            Option::None => {},
        }
        match layout_size {
            Option::Some(s) => {
                self.rect.size = s;
            },
            Option::None => {},
        }
    }

    /// Changes the widget rectangle, flags a repaint and recomputes the
    /// layout-driven size.
    pub fn set_rect(&mut self, rect: Rect)
        ensures
            Common::geometry_mutated(*old(self), *final(self), rect),
    {
        self.rect = rect;
        self.repaint();
        self.update_layout_size();
    }

    /// Returns the widget rectangle.
    pub fn rect(&self) -> (r: Rect)
        ensures
            r == self.rect_spec(),
    {
        self.rect
    }

    /// Changes the widget rectangle size, flags a repaint and recomputes the
    /// layout-driven size.
    pub fn set_size(&mut self, size: Size)
        ensures
            Common::geometry_mutated(
                *old(self),
                *final(self),
                Rect { origin: old(self).rect_spec().origin, size },
            ),
    {
        self.rect.size = size;
        self.repaint();
        self.update_layout_size();
    }

    /// Returns the widget rectangle size.
    pub fn size(&self) -> (r: Size)
        ensures
            r == self.rect_spec().size,
    {
        self.rect.size
    }

    /// Changes the widget rectangle position, flags a repaint and recomputes
    /// the layout-driven size, as every geometry mutator does.
    pub fn set_position(&mut self, position: Point)
        ensures
            Common::geometry_mutated(
                *old(self),
                *final(self),
                Rect { origin: position, size: old(self).rect_spec().size },
            ),
    {
        self.rect.origin = position;
        self.repaint();
        self.update_layout_size();
    }

    /// Returns the widget rectangle position.
    pub fn position(&self) -> (r: Point)
        ensures
            r == self.rect_spec().origin,
    {
        self.rect.origin
    }

    /// Sets the visibility for this widget.
    pub fn set_visible(&mut self, visible: Visibility)
        ensures
            Common::same_but_visibility(*old(self), *final(self)),
            final(self).updates_spec() == old(self).updates_spec(),
            final(self).visible_spec() == visible,
    {
        self.visible = visible;
    }

    /// Returns the visibility for this widget.
    pub fn visible(&self) -> (r: Visibility)
        ensures
            r == self.visible_spec(),
    {
        self.visible
    }

    /// Sets the updating mode for this widget.
    pub fn set_updates(&mut self, updates: bool)
        ensures
            Common::same_but_visibility(*old(self), *final(self)),
            final(self).visible_spec() == old(self).visible_spec(),
            final(self).updates_spec() == updates,
    {
        self.updates = updates;
    }

    /// Returns the updating mode for this widget.
    pub fn updates(&self) -> (r: bool)
        ensures
            r == self.updates_spec(),
    {
        self.updates
    }

    /// Returns the display command group (here: the repaint-flag carrier).
    pub fn command_group(&mut self) -> (r: &mut CommandGroup)
        ensures
            *r == old(self).cmds_spec(),
            Common::same_but_geometry(*old(self), *final(self)),
            final(self).rect_spec() == old(self).rect_spec(),
            final(self).layout_spec() == old(self).layout_spec(),
            final(self).visible_spec() == old(self).visible_spec(),
            final(self).updates_spec() == old(self).updates_spec(),
            final(self).cmds_spec() == *final(r),
    {
        &mut self.cmds
    }

    /// Flags a repaint for the command group.
    pub fn repaint(&mut self)
        ensures
            Common::same_but_geometry(*old(self), *final(self)),
            final(self).rect_spec() == old(self).rect_spec(),
            final(self).layout_spec() == old(self).layout_spec(),
            final(self).cmds_spec().will_repaint_spec(),
    {
        self.cmds.repaint();
    }

    /// Returns whether a repaint is pending.
    pub fn will_repaint(&self) -> (r: bool)
        ensures
            r == self.cmds_spec().will_repaint_spec(),
    {
        self.cmds.will_repaint()
    }

    /// Clears the pending repaint, once the drawing backend has painted.
    pub fn mark_painted(&mut self)
        ensures
            Common::same_but_geometry(*old(self), *final(self)),
            final(self).rect_spec() == old(self).rect_spec(),
            final(self).layout_spec() == old(self).layout_spec(),
            !final(self).cmds_spec().will_repaint_spec(),
    {
        self.cmds.mark_painted();
    }

    /// Returns the stored payload's word if the payload exists and its tag
    /// matches, otherwise `None`.
    pub fn info(&self, tag: u64) -> (r: Option<u64>)
        ensures
            r == (match self.info_spec() {
                Option::Some(i) => if i.tag == tag {
                    Option::Some(i.data)
                } else {
                    Option::None
                },
                Option::None => Option::None::<u64>,
            }),
    {
        match &self.info {
            Option::Some(i) => {
                if i.tag == tag {
                    Option::Some(i.data)
                } else {
                    Option::None
                }
            },
            Option::None => Option::None,
        }
    }

    /// Returns `true` if there is additional information with the given tag.
    pub fn info_is_type(&self, tag: u64) -> (r: bool)
        ensures
            r == (match self.info_spec() {
                Option::Some(i) => i.tag == tag,
                Option::None => false,
            }),
    {
        match &self.info {
            Option::Some(i) => i.tag == tag,
            Option::None => false,
        }
    }

    /// Changes the widget's layout slot; `None` removes the existing layout.
    pub fn set_layout(&mut self, layout: Option<LayoutSlot>)
        ensures
            Common::same_but_geometry(*old(self), *final(self)),
            final(self).cmds_spec() == old(self).cmds_spec(),
            final(self).rect_spec() == old(self).rect_spec(),
            final(self).layout_spec() == layout,
    {
        self.layout = layout;
    }

    /// Returns the widget's layout slot, if any.
    pub fn layout_mut(&mut self) -> (r: &mut Option<LayoutSlot>)
        ensures
            *r == old(self).layout_spec(),
            Common::same_but_geometry(*old(self), *final(self)),
            final(self).rect_spec() == old(self).rect_spec(),
            final(self).cmds_spec() == old(self).cmds_spec(),
            final(self).layout_spec() == *final(r),
    {
        &mut self.layout
    }

    /// Changes the layout mode and recomputes the layout-driven size.
    pub fn set_layout_mode(&mut self, mode: LayoutMode)
        ensures
            final(self).id_spec() == old(self).id_spec(),
            final(self).visible_spec() == old(self).visible_spec(),
            final(self).updates_spec() == old(self).updates_spec(),
            final(self).info_spec() == old(self).info_spec(),
            final(self).interaction_spec() == old(self).interaction_spec(),
            final(self).cmds_spec() == old(self).cmds_spec(),
            final(self).layout_mode_spec() == mode,
            (final(self).rect_spec(), final(self).layout_spec()) == Common::geometry_after(
                old(self).rect_spec(),
                old(self).layout_spec(),
                mode,
            ),
    {
        self.layout_mode = mode;
        self.update_layout_size();
    }

    /// Returns the layout mode.
    pub fn layout_mode(&self) -> (r: LayoutMode)
        ensures
            r == self.layout_mode_spec(),
    {
        self.layout_mode
    }
}

/// Stable identity of an event source.
pub trait Id {
    /// The identity, unique across all nodes of one session.
    fn id(&self) -> u64;
}

impl Id for u64 {
    fn id(&self) -> (r: u64)
        ensures
            r == *self,
    {
        *self
    }
}

impl Id for Common {
    /// Returns the unique identity assigned to this node.
    fn id(&self) -> (r: u64)
        ensures
            r == self.id_spec(),
    {
        self.id
    }
}

} // verus!
