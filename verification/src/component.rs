//! The component system: typed, per-node attached behavior units.
//!
//! A node owns a set of components keyed by component kind — at most one
//! instance per kind; inserting again overwrites. Components are dispatched
//! as a secondary pass, independent of the node's own update: the table is
//! checked out for the pass and back in afterwards, and any table operation
//! attempted while it is checked out fails with
//! [`ComponentError::UpdateInProgress`] rather than re-entering.

use vstd::prelude::*;

verus! {

/// A failed component-table operation.
#[derive(Clone, Copy, Debug, PartialEq, Eq, Structural)]
pub enum ComponentError {
    /// A component dispatch pass holds the table; recoverable by retrying
    /// later (for example, next frame).
    UpdateInProgress,
    /// No component of the requested kind is attached to this widget;
    /// recoverable by choosing a default or skipping.
    MissingComponent,
}

impl ComponentError {
    /// A short description of the failure.
    pub fn message(&self) -> (r: &'static str)
    {
        match self {
            ComponentError::UpdateInProgress => "a component update is in progress",
            ComponentError::MissingComponent => "component kind does not exist for this widget",
        }
    }
}

/// Whether the table holds a component keyed by `tag`.
pub open spec fn has_component<C>(table: Seq<(u64, C)>, tag: u64) -> bool {
    exists|w: int| 0 <= w < table.len() && (#[trigger] table[w]).0 == tag
}

/// The index of the component keyed by `tag`; meaningful when present (with
/// distinct tags it is unique).
pub open spec fn component_index<C>(table: Seq<(u64, C)>, tag: u64) -> int {
    choose|w: int| 0 <= w < table.len() && (#[trigger] table[w]).0 == tag
}

/// Component tags are pairwise distinct.
pub open spec fn tags_distinct<C>(table: Seq<(u64, C)>) -> bool {
    forall|w1: int, w2: int|
        0 <= w1 < w2 < table.len() ==> (#[trigger] table[w1]).0 != (#[trigger] table[w2]).0
}

/// The table after inserting a component under `tag`: an existing component
/// of the same kind is overwritten, otherwise the new one is appended.
pub open spec fn insert_component_spec<C>(table: Seq<(u64, C)>, tag: u64, c: C) -> Seq<(u64, C)> {
    if has_component(table, tag) {
        table.update(component_index(table, tag), (tag, c))
    } else {
        table.push((tag, c))
    }
}

/// Inserting keeps tags distinct.
pub proof fn lemma_insert_component_distinct<C>(table: Seq<(u64, C)>, tag: u64, c: C)
    requires
        tags_distinct(table),
    ensures
        tags_distinct(insert_component_spec(table, tag, c)),
{
    if has_component(table, tag) {
        let w = component_index(table, tag);
        let post = table.update(w, (tag, c));
        assert forall|w1: int, w2: int| 0 <= w1 < w2 < post.len() implies (
        #[trigger] post[w1]).0 != (#[trigger] post[w2]).0 by {
            assert(table[w1].0 == post[w1].0 || w1 == w);
            assert(table[w2].0 == post[w2].0 || w2 == w);
        };
    } else {
        let post = table.push((tag, c));
        assert forall|w1: int, w2: int| 0 <= w1 < w2 < post.len() implies (
        #[trigger] post[w1]).0 != (#[trigger] post[w2]).0 by {
            if w2 == table.len() {
                assert(post[w1] == table[w1]);
                assert(post[w2] == (tag, c));
                assert(table[w1].0 != tag);
            }
        };
    }
}

/// The per-node component table: behavior units keyed by component kind.
///
/// The unverified layer holds each component's behavior; here a component is
/// its kind tag plus a payload `C` (typically a handle to the behavior
/// object). The table is absent while a dispatch pass has it checked out.
pub struct ComponentList<C> {
    components: Option<Vec<(u64, C)>>,
}

impl<C> ComponentList<C> {
    /// Whether a dispatch pass holds the table.
    pub closed spec fn checked_out(&self) -> bool {
        self.components is None
    }

    /// The components, in insertion order; meaningful while the table is in
    /// place.
    pub closed spec fn table_spec(&self) -> Seq<(u64, C)> {
        self.components->0@
    }

    /// The table is well formed: component kinds are pairwise distinct.
    pub open spec fn wf(&self) -> bool {
        !self.checked_out() ==> tags_distinct(self.table_spec())
    }

    /// A fresh, empty component table.
    pub fn new() -> (r: ComponentList<C>)
        ensures
            r.wf(),
            !r.checked_out(),
            r.table_spec() == Seq::<(u64, C)>::empty(),
    {
        ComponentList { components: Some(Vec::new()) }
    }

    /// Finds the position of the component keyed by `tag`.
    fn position_of(&self, tag: u64) -> (r: Option<usize>)
        requires
            self.wf(),
            !self.checked_out(),
        ensures
            r is Some <==> has_component(self.table_spec(), tag),
            r matches Some(w) ==> w as int == component_index(self.table_spec(), tag) && (
            w as int) < self.table_spec().len(),
    {
        let table = match &self.components {
            Some(t) => t,
            None => {
                return None;
            },
        };
        let n = table.len();
        let mut w: usize = 0;
        while w < n
            invariant
                self.wf(),
                !self.checked_out(),
                table@ == self.table_spec(),
                n as int == self.table_spec().len(),
                w <= n,
                forall|v: int| 0 <= v < w as int ==> (#[trigger] self.table_spec()[v]).0 != tag,
            decreases n - w,
        {
            if table[w].0 == tag {
                proof {
                    let k = component_index(self.table_spec(), tag);
                    assert(has_component(self.table_spec(), tag));
                    if k != w as int {
                        assert(self.table_spec()[k].0 == tag);
                        assert(false);
                    }
                }
                return Some(w);
            }
            w = w + 1;
        }
        proof {
            if has_component(self.table_spec(), tag) {
                let k = component_index(self.table_spec(), tag);
                assert(self.table_spec()[k].0 == tag);
                assert(false);
            }
        }
        None
    }

    /// Inserts a component under its kind tag; a component of the same kind
    /// is overwritten. Fails with [`ComponentError::UpdateInProgress`] when
    /// a dispatch pass holds the table.
    pub fn push(&mut self, tag: u64, component: C) -> (r: Result<(), ComponentError>)
        requires
            old(self).wf(),
        ensures
            final(self).wf(),
            r is Ok <==> !old(self).checked_out(),
            r is Err ==> r == Result::<(), ComponentError>::Err(ComponentError::UpdateInProgress)
                && *final(self) == *old(self),
            r is Ok ==> !final(self).checked_out() && final(self).table_spec()
                == insert_component_spec(old(self).table_spec(), tag, component),
    {
        if self.components.is_some() {
            let w = self.position_of(tag);
            let table = match &mut self.components {
                Some(t) => t,
                None => {
                    return Err(ComponentError::UpdateInProgress);
                },
            };
            match w {
                Some(w) => {
                    table[w] = (tag, component);
                },
                None => {
                    table.push((tag, component));
                },
            }
            proof {
                lemma_insert_component_distinct(old(self).table_spec(), tag, component);
            }
            Ok(())
        } else {
            Err(ComponentError::UpdateInProgress)
        }
    }

    /// As [`ComponentList::push`], consuming and returning the table, for
    /// builder-style construction. The table must be in place.
    pub fn and_push(self, tag: u64, component: C) -> (r: ComponentList<C>)
        requires
            self.wf(),
            !self.checked_out(),
        ensures
            r.wf(),
            !r.checked_out(),
            r.table_spec() == insert_component_spec(self.table_spec(), tag, component),
    {
        let mut this = self;
        let res = this.push(tag, component);
        proof {
            assert(res is Ok);
        }
        this
    }

    /// Returns the component keyed by `tag`, failing with
    /// [`ComponentError::UpdateInProgress`] while a dispatch pass holds the
    /// table and with [`ComponentError::MissingComponent`] when no component
    /// of that kind is attached.
    pub fn get(&self, tag: u64) -> (r: Result<&C, ComponentError>)
        requires
            self.wf(),
        ensures
            self.checked_out() ==> r == Result::<&C, ComponentError>::Err(
                ComponentError::UpdateInProgress,
            ),
            !self.checked_out() && !has_component(self.table_spec(), tag) ==> r == Result::<
                &C,
                ComponentError,
            >::Err(ComponentError::MissingComponent),
            !self.checked_out() && has_component(self.table_spec(), tag) ==> (r matches Ok(c) && *c
                == self.table_spec()[component_index(self.table_spec(), tag)].1),
    {
        if self.components.is_none() {
            return Err(ComponentError::UpdateInProgress);
        }
        let w = match self.position_of(tag) {
            Some(w) => w,
            None => {
                return Err(ComponentError::MissingComponent);
            },
        };
        match &self.components {
            Some(t) => Ok(&t[w].1),
            None => Err(ComponentError::UpdateInProgress),
        }
    }

    /// As [`ComponentList::get`], with mutable access to the component.
    pub fn get_mut(&mut self, tag: u64) -> (r: Result<&mut C, ComponentError>)
        requires
            old(self).wf(),
        ensures
            final(self).wf(),
            old(self).checked_out() ==> *final(self) == *old(self) && (r matches Err(e) && e
                == ComponentError::UpdateInProgress),
            !old(self).checked_out() && !has_component(old(self).table_spec(), tag) ==> {
                &&& *final(self) == *old(self)
                &&& (r matches Err(e) && e == ComponentError::MissingComponent)
            },
            !old(self).checked_out() && has_component(old(self).table_spec(), tag) ==> (
            r matches Ok(c) && {
                let w = component_index(old(self).table_spec(), tag);
                &&& *c == old(self).table_spec()[w].1
                &&& !final(self).checked_out()
                &&& final(self).table_spec() == old(self).table_spec().update(
                    w,
                    (tag, *final(c)),
                )
            }),
    {
        if self.components.is_none() {
            return Err(ComponentError::UpdateInProgress);
        }
        let w = match self.position_of(tag) {
            Some(w) => w,
            None => {
                return Err(ComponentError::MissingComponent);
            },
        };
        match &mut self.components {
            Some(t) => {
                let entry = &mut t[w];
                Ok(&mut entry.1)
            },
            None => Err(ComponentError::UpdateInProgress),
        }
    }

    /// Opens a component dispatch pass: checks the table out and hands it to
    /// the caller, which dispatches each component in order and returns the
    /// table through [`ComponentList::end_dispatch`]. Fails with
    /// [`ComponentError::UpdateInProgress`] when a pass is already holding
    /// the table — the guard against recursive dispatch on one node.
    pub fn begin_dispatch(&mut self) -> (r: Result<Vec<(u64, C)>, ComponentError>)
        requires
            old(self).wf(),
        ensures
            final(self).wf(),
            r is Ok <==> !old(self).checked_out(),
            r is Err ==> r == Result::<Vec<(u64, C)>, ComponentError>::Err(
                ComponentError::UpdateInProgress,
            ) && *final(self) == *old(self),
            r matches Ok(t) ==> t@ == old(self).table_spec() && final(self).checked_out(),
    {
        if self.components.is_some() {
            match self.components.take() {
                Some(t) => Ok(t),
                None => Err(ComponentError::UpdateInProgress),
            }
        } else {
            Err(ComponentError::UpdateInProgress)
        }
    }

    /// Closes a component dispatch pass, returning the table.
    pub fn end_dispatch(&mut self, table: Vec<(u64, C)>)
        requires
            old(self).wf(),
            old(self).checked_out(),
            tags_distinct(table@),
        ensures
            final(self).wf(),
            !final(self).checked_out(),
            final(self).table_spec() == table@,
    {
        self.components = Some(table);
    }
}

} // verus!
