//! The application context: process-wide state for one session.
//!
//! An [`Aux`] holds the user payload, the context's own emitter identity,
//! the global event queue, a handle to the central widget and the currently
//! focused widget, if any. It is constructed once at startup and passed by
//! exclusive reference through every update and draw call.

use vstd::prelude::*;

use crate::event::{Event, Listener, Queue};
use crate::input::{event_tag, event_tag_spec, EventData, FocusChangedEvent, TAG_FOCUS_CHANGED};
use crate::tree::CommonRef;

verus! {

/// Global auxiliary state for one application session.
///
/// `T` is the additional application data to be stored.
pub struct Aux<T> {
    /// Additional miscellaneous data.
    pub data: T,
    /// This context's own emitter identity, used for events the context
    /// emits on its own behalf (raw input, focus changes).
    pub id: u64,
    /// The global queue.
    pub queue: Queue<EventData>,
    /// Top-level (or near top-level) widget which fills the entire window.
    pub central_widget: CommonRef,
    /// The widget that currently has focus, if any.
    pub focus_widget: Option<CommonRef>,
}

impl<T> Aux<T> {
    /// Creates a new [`Listener`] that will see the events emitted from now
    /// on.
    pub fn listen(&self) -> (r: Listener)
        ensures
            r.wf(),
            r.subs_spec() == Seq::<crate::event::Subscription>::empty(),
            r.late_spec() == Seq::<crate::event::LateOp>::empty(),
            r.seen_spec() == self.queue.len_spec(),
            !r.in_dispatch(),
    {
        Listener::new(self.queue.len())
    }

    /// Emits an event to the global queue on behalf of the node with
    /// identity `source`, under the payload's own event-kind tag.
    pub fn emit(&mut self, source: u64, e: EventData)
        ensures
            final(self).data == old(self).data,
            final(self).id == old(self).id,
            final(self).central_widget == old(self).central_widget,
            final(self).focus_widget == old(self).focus_widget,
            final(self).queue.events_spec() == old(self).queue.events_spec().push(
                Event { source, tag: event_tag_spec(&e), payload: e },
            ),
    {
        let tag = event_tag(&e);
        self.queue.emit(source, tag, e);
    }

    /// What grabbing focus does: when `focus` is already the focused widget
    /// nothing happens at all; otherwise the stored focus is swapped and
    /// exactly one focus-changed event — carrying both the outgoing and the
    /// incoming widget — is emitted from the context's own identity.
    pub open spec fn grab_focus_claims(pre: Aux<T>, post: Aux<T>, focus: Option<CommonRef>) -> bool {
        &&& post.data == pre.data
        &&& post.id == pre.id
        &&& post.central_widget == pre.central_widget
        &&& if pre.focus_widget == focus {
            &&& post.focus_widget == pre.focus_widget
            &&& post.queue.events_spec() == pre.queue.events_spec()
        } else {
            &&& post.focus_widget == focus
            &&& post.queue.events_spec() == pre.queue.events_spec().push(
                Event {
                    source: pre.id,
                    tag: TAG_FOCUS_CHANGED,
                    payload: EventData::FocusChanged(
                        FocusChangedEvent { old_focus: pre.focus_widget, new_focus: focus },
                    ),
                },
            )
        }
    }

    /// Moves the focus to `focus` (or to nothing): a no-op if `focus`
    /// already holds it, otherwise the old and new focus are swapped and one
    /// focus-changed event is emitted.
    pub fn grab_focus(&mut self, focus: Option<CommonRef>)
        ensures
            Aux::grab_focus_claims(*old(self), *final(self), focus),
    {
        let same = match (&self.focus_widget, &focus) {
            (Some(a), Some(b)) => a.id() == b.id(),
            (None, None) => true,
            _ => false,
        };
        proof {
            assert(same == (self.focus_widget == focus)) by {
                match (self.focus_widget, focus) {
                    (Some(a), Some(b)) => {
                        crate::tree::lemma_commonref_eq(a, b);
                    },
                    _ => {},
                }
            };
        }
        if !same {
            let old_focus = self.focus_widget;
            self.focus_widget = focus;
            let id = self.id;
            self.emit(
                id,
                EventData::FocusChanged(FocusChangedEvent { old_focus, new_focus: focus }),
            );
        }
    }

    /// Returns whether `common` is the currently focused widget: an identity
    /// comparison against the stored reference.
    pub fn has_focus(&self, common: &CommonRef) -> (r: bool)
        ensures
            r == (self.focus_widget == Some(*common)),
    {
        match &self.focus_widget {
            Some(f) => {
                let r = f.id() == common.id();
                proof {
                    crate::tree::lemma_commonref_eq(*f, *common);
                }
                r
            },
            None => false,
        }
    }
}

impl crate::node::Common {
    /// Emits an event to the global queue on behalf of this node's
    /// identity.
    pub fn emit<T>(&self, aux: &mut Aux<T>, event: EventData)
        ensures
            final(aux).data == old(aux).data,
            final(aux).id == old(aux).id,
            final(aux).central_widget == old(aux).central_widget,
            final(aux).focus_widget == old(aux).focus_widget,
            final(aux).queue.events_spec() == old(aux).queue.events_spec().push(
                Event { source: self.id_spec(), tag: event_tag_spec(&event), payload: event },
            ),
    {
        let id = crate::node::Id::id(self);
        aux.emit(id, event);
    }
}

/// Focus round-trip: grabbing focus for the same widget twice emits exactly
/// one focus-changed event — the first grab swaps and emits, the second is a
/// no-op.
pub proof fn lemma_focus_round_trip<T>(s0: Aux<T>, s1: Aux<T>, s2: Aux<T>, a: Option<CommonRef>)
    requires
        s0.focus_widget != a,
        Aux::grab_focus_claims(s0, s1, a),
        Aux::grab_focus_claims(s1, s2, a),
    ensures
        s2.focus_widget == a,
        s2.queue.events_spec() == s0.queue.events_spec().push(
            Event {
                source: s0.id,
                tag: TAG_FOCUS_CHANGED,
                payload: EventData::FocusChanged(
                    FocusChangedEvent { old_focus: s0.focus_widget, new_focus: a },
                ),
            },
        ),
{
}

} // verus!
