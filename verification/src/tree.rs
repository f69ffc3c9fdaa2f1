//! The node tree: an arena of widget nodes.
//!
//! The tree owns every node of one session. It hands out monotonically
//! increasing, never reused identities; grants exclusive, non-reentrant
//! access to a node's record through a take/put pair; counts the owning
//! handles of each node so that the last release only *marks* the node for
//! detachment; and defers the actual unlinking to [`Tree::sweep`], run at a
//! safe point between traversals, so that a traversal in progress is never
//! invalidated.

use vstd::prelude::*;

use crate::node::{Common, Info};

verus! {

/// An exclusive-access attempt found the node already checked out.
///
/// This signals a logic error — two overlapping accesses to the same node —
/// and is surfaced to the caller rather than silently corrupting state.
#[derive(Clone, Copy, Debug, PartialEq, Eq, Structural)]
pub struct ReentrancyError;

/// A handle to a node of the tree: the core of a widget type, not the widget
/// type itself.
///
/// Equality between handles is equality of the underlying node identity.
#[derive(Clone, Copy, Debug, PartialEq, Eq, Structural, Hash)]
pub struct CommonRef {
    id: u64,
}

impl CommonRef {
    /// The identity of the node this handle refers to.
    pub closed spec fn id_spec(&self) -> u64 {
        self.id
    }

    /// Returns the identity of the node this handle refers to.
    pub fn id(&self) -> (r: u64)
        ensures
            r == self.id_spec(),
    {
        self.id
    }
}

/// Equality between handles is equality of the underlying node identity.
pub proof fn lemma_commonref_eq(a: CommonRef, b: CommonRef)
    ensures
        (a == b) == (a.id_spec() == b.id_spec()),
{
}

impl crate::node::Id for CommonRef {
    fn id(&self) -> (r: u64)
        ensures
            r == self.id_spec(),
    {
        self.id
    }
}

/// One arena slot: the node record (absent while checked out), the tree
/// structure around it, the owning-handle count and the lifecycle flags.
pub(crate) struct Entry {
    pub(crate) common: Option<Common>,
    pub(crate) children: Vec<u64>,
    pub(crate) parent: Option<u64>,
    pub(crate) strong: u64,
    pub(crate) live: bool,
    pub(crate) marked: bool,
    pub(crate) kind: u64,
}

/// The arena of nodes of one session.
pub struct Tree {
    pub(crate) entries: Vec<Entry>,
}

impl Tree {
    /// Number of identities handed out so far (live or not).
    pub open(crate) spec fn len_spec(&self) -> int {
        self.entries.len() as int
    }

    /// Whether `id` names a node of this tree.
    pub open spec fn valid_id(&self, id: u64) -> bool {
        (id as int) < self.len_spec()
    }

    /// Whether the node record is in place (not checked out).
    pub open(crate) spec fn available(&self, i: int) -> bool {
        self.entries@[i].common is Some
    }

    /// The node record at `i`; meaningful only while it is available.
    pub open(crate) spec fn node(&self, i: int) -> Common {
        self.entries@[i].common->0
    }

    /// The ordered child identities of node `i`, back-most first.
    pub open(crate) spec fn children_spec(&self, i: int) -> Seq<u64> {
        self.entries@[i].children@
    }

    /// The raw (non-owning) parent link of node `i`.
    pub open(crate) spec fn parent_link(&self, i: int) -> Option<u64> {
        self.entries@[i].parent
    }

    /// The owning-handle count of node `i`.
    pub open(crate) spec fn strong_spec(&self, i: int) -> u64 {
        self.entries@[i].strong
    }

    /// Whether node `i` is still attached (not yet removed by a sweep).
    pub open(crate) spec fn is_live(&self, i: int) -> bool {
        self.entries@[i].live
    }

    /// Whether node `i` is marked for detachment.
    pub open(crate) spec fn is_marked(&self, i: int) -> bool {
        self.entries@[i].marked
    }

    /// The widget-kind tag of node `i`, used by the type-directed visitor.
    pub open(crate) spec fn kind_spec(&self, i: int) -> u64 {
        self.entries@[i].kind
    }

    /// The slot `i` is identical in `a` and `b`.
    pub open spec fn entry_same(a: &Tree, b: &Tree, i: int) -> bool {
        &&& a.available(i) == b.available(i)
        &&& a.node(i) == b.node(i)
        &&& a.children_spec(i) == b.children_spec(i)
        &&& a.parent_link(i) == b.parent_link(i)
        &&& a.strong_spec(i) == b.strong_spec(i)
        &&& a.is_live(i) == b.is_live(i)
        &&& a.is_marked(i) == b.is_marked(i)
        &&& a.kind_spec(i) == b.kind_spec(i)
    }

    /// The slot `i` is identical in `a` and `b` but for the node record.
    pub open spec fn entry_same_but_common(a: &Tree, b: &Tree, i: int) -> bool {
        &&& a.children_spec(i) == b.children_spec(i)
        &&& a.parent_link(i) == b.parent_link(i)
        &&& a.strong_spec(i) == b.strong_spec(i)
        &&& a.is_live(i) == b.is_live(i)
        &&& a.is_marked(i) == b.is_marked(i)
        &&& a.kind_spec(i) == b.kind_spec(i)
    }

    /// Structural consistency of slot `i`:
    /// - an available record carries the slot's own identity;
    /// - children are younger than their parent and within bounds;
    /// - a child's parent link names the node whose child list holds it;
    /// - a live node's children are live;
    /// - a parent is older than its child, and a live child with a live
    ///   parent really is in that parent's child list.
    pub open spec fn entry_ok(&self, i: int) -> bool {
        &&& (self.available(i) ==> self.node(i).id_spec() == i as u64)
        &&& (forall|k: int|
            0 <= k < self.children_spec(i).len() ==> i < (#[trigger] self.children_spec(i)[k]) as int
                && (self.children_spec(i)[k] as int) < self.len_spec())
        &&& (forall|k: int|
            0 <= k < self.children_spec(i).len() ==> self.parent_link(
                #[trigger] self.children_spec(i)[k] as int,
            ) == Some(i as u64))
        &&& (self.is_live(i) ==> forall|k: int|
            0 <= k < self.children_spec(i).len() ==> self.is_live(
                #[trigger] self.children_spec(i)[k] as int,
            ))
        &&& (match self.parent_link(i) {
            Some(p) => {
                &&& (p as int) < i
                &&& (self.is_live(i) && self.is_live(p as int) ==> self.children_spec(
                    p as int,
                ).contains(i as u64))
            },
            None => true,
        })
    }

    /// The tree is well formed: every slot is structurally consistent.
    pub open spec fn wf(&self) -> bool {
        forall|i: int| 0 <= i < self.len_spec() ==> #[trigger] self.entry_ok(i)
    }

    /// A fresh tree with no nodes.
    pub fn new() -> (r: Tree)
        ensures
            r.wf(),
            r.len_spec() == 0,
    {
        Tree { entries: Vec::new() }
    }

    /// Returns the number of identities handed out so far.
    pub fn node_count(&self) -> (r: usize)
        ensures
            r as int == self.len_spec(),
    {
        self.entries.len()
    }

    /// Returns whether the node is still attached.
    pub fn live(&self, id: u64) -> (r: bool)
        requires
            self.valid_id(id),
        ensures
            r == self.is_live(id as int),
    {
        self.entries[id as usize].live
    }

    /// Returns whether the node is marked for detachment.
    pub fn is_marked_for_detach(&self, id: u64) -> (r: bool)
        requires
            self.valid_id(id),
        ensures
            r == self.is_marked(id as int),
    {
        self.entries[id as usize].marked
    }

    /// Returns the owning-handle count of the node.
    pub fn strong_count(&self, id: u64) -> (r: u64)
        requires
            self.valid_id(id),
        ensures
            r == self.strong_spec(id as int),
    {
        self.entries[id as usize].strong
    }

    /// Returns the widget-kind tag of the node.
    pub fn kind(&self, id: u64) -> (r: u64)
        requires
            self.valid_id(id),
        ensures
            r == self.kind_spec(id as int),
    {
        self.entries[id as usize].kind
    }

    /// Returns the ordered child handles of the node.
    pub fn children(&self, id: u64) -> (r: Vec<u64>)
        requires
            self.valid_id(id),
        ensures
            r@ == self.children_spec(id as int),
    {
        let mut out: Vec<u64> = Vec::new();
        let list = &self.entries[id as usize].children;
        let mut k: usize = 0;
        while k < list.len()
            invariant
                k <= list.len(),
                out@ == list@.subrange(0, k as int),
                list@ == self.children_spec(id as int),
            decreases list.len() - k,
        {
            out.push(list[k]);
            proof {
                assert(out@ =~= list@.subrange(0, k as int + 1));
            }
            k = k + 1;
        }
        proof {
            assert(out@ =~= list@);
        }
        out
    }

    /// Creates a new node as an implied child of `parent`, with optional
    /// type-tagged `info` and a widget-kind tag.
    ///
    /// The new node's identity is the next never-used one; the creator holds
    /// the single owning handle.
    pub fn create_with_info(&mut self, parent: Option<CommonRef>, info: Option<Info>, kind: u64) -> (r:
        CommonRef)
        requires
            old(self).wf(),
            old(self).len_spec() < usize::MAX as int,
            match parent {
                Some(p) => old(self).valid_id(p.id_spec()) && old(self).is_live(p.id_spec() as int),
                None => true,
            },
        ensures
            final(self).wf(),
            final(self).len_spec() == old(self).len_spec() + 1,
            r.id_spec() == old(self).len_spec() as u64,
            // the fresh slot
            final(self).available(r.id_spec() as int),
            final(self).node(r.id_spec() as int).id_spec() == r.id_spec(),
            final(self).node(r.id_spec() as int).info_spec() == info,
            // the fresh record carries the defaults of a new node
            final(self).node(r.id_spec() as int).visible_spec()
                == crate::node::Visibility::All,
            final(self).node(r.id_spec() as int).updates_spec(),
            final(self).node(r.id_spec() as int).rect_spec() == (crate::geom::Rect {
                origin: crate::geom::Point { x: 0, y: 0 },
                size: crate::geom::Size { width: 0, height: 0 },
            }),
            final(self).node(r.id_spec() as int).layout_spec() is None,
            final(self).node(r.id_spec() as int).layout_mode_spec()
                == crate::node::LayoutMode::IndependentSize,
            final(self).node(r.id_spec() as int).cmds_spec().will_repaint_spec(),
            final(self).node(r.id_spec() as int).interaction_spec() == (crate::node::Interaction {
                pressed: false,
                hovered: false,
            }),
            final(self).children_spec(r.id_spec() as int) == Seq::<u64>::empty(),
            final(self).parent_link(r.id_spec() as int) == (match parent {
                Some(p) => Some(p.id_spec()),
                None => None::<u64>,
            }),
            final(self).strong_spec(r.id_spec() as int) == 1,
            final(self).is_live(r.id_spec() as int),
            !final(self).is_marked(r.id_spec() as int),
            final(self).kind_spec(r.id_spec() as int) == kind,
            // the parent gains the new node as its last child
            match parent {
                Some(p) => final(self).children_spec(p.id_spec() as int) == old(
                    self,
                ).children_spec(p.id_spec() as int).push(r.id_spec()),
                None => true,
            },
            // every other slot is untouched
            forall|i: int|
                0 <= i < old(self).len_spec() && (match parent {
                    Some(p) => i != p.id_spec() as int,
                    None => true,
                }) ==> #[trigger] Tree::entry_same(old(self), final(self), i),
            match parent {
                Some(p) => {
                    let pi = p.id_spec() as int;
                    &&& final(self).available(pi) == old(self).available(pi)
                    &&& final(self).node(pi) == old(self).node(pi)
                    &&& final(self).parent_link(pi) == old(self).parent_link(pi)
                    &&& final(self).strong_spec(pi) == old(self).strong_spec(pi)
                    &&& final(self).is_live(pi) == old(self).is_live(pi)
                    &&& final(self).is_marked(pi) == old(self).is_marked(pi)
                    &&& final(self).kind_spec(pi) == old(self).kind_spec(pi)
                },
                None => true,
            },
    {
        let id64: u64 = self.entries.len() as u64;
        let entry = Entry {
            common: Some(Common::new_with_id(id64, info)),
            children: Vec::new(),
            parent: match parent {
                Some(p) => Some(p.id()),
                None => None,
            },
            strong: 1,
            live: true,
            marked: false,
            kind,
        };
        self.entries.push(entry);
        match parent {
            Some(p) => {
                let pi = p.id() as usize;
                self.entries[pi].children.push(id64);
            },
            None => {},
        }
        proof {
            let post = self;
            let pre = old(self);
            assert forall|i: int| 0 <= i < post.len_spec() implies #[trigger] post.entry_ok(
                i,
            ) by {
                if i < pre.len_spec() {
                    assert(pre.entry_ok(i));
                    match parent {
                        Some(p) => {
                            let pid = p.id_spec() as int;
                            if i == pid {
                                let oldc = pre.children_spec(i);
                                let newc = post.children_spec(i);
                                assert(newc == oldc.push(id64));
                                assert forall|k: int| 0 <= k < newc.len() implies {
                                    &&& i < (#[trigger] newc[k]) as int
                                    &&& (newc[k] as int) < post.len_spec()
                                    &&& post.parent_link(newc[k] as int) == Some(i as u64)
                                    &&& (post.is_live(i) ==> post.is_live(newc[k] as int))
                                } by {
                                    if k < oldc.len() {
                                        assert(newc[k] == oldc[k]);
                                    } else {
                                        assert(newc[k] == id64);
                                    }
                                };
                                match post.parent_link(i) {
                                    Some(q) => {
                                        if post.is_live(i) && post.is_live(q as int) {
                                            let oldpc = pre.children_spec(q as int);
                                            assert(pre.children_spec(q as int).contains(i as u64));
                                            let w = choose|w: int|
                                                0 <= w < oldpc.len() && oldpc[w] == i as u64;
                                            assert(post.children_spec(q as int)[w] == i as u64);
                                        }
                                    },
                                    None => {},
                                }
                            } else {
                                assert(Tree::entry_same(pre, post, i));
                                match post.parent_link(i) {
                                    Some(q) => {
                                        if post.is_live(i) && post.is_live(q as int) {
                                            let oldpc = pre.children_spec(q as int);
                                            assert(oldpc.contains(i as u64));
                                            let w = choose|w: int|
                                                0 <= w < oldpc.len() && oldpc[w] == i as u64;
                                            assert(post.children_spec(q as int)[w] == i as u64);
                                        }
                                    },
                                    None => {},
                                }
                            }
                        },
                        None => {
                            assert(Tree::entry_same(pre, post, i));
                            match post.parent_link(i) {
                                Some(q) => {
                                    if post.is_live(i) && post.is_live(q as int) {
                                        assert(pre.children_spec(q as int).contains(i as u64));
                                        let oldpc = pre.children_spec(q as int);
                                        let w = choose|w: int|
                                            0 <= w < oldpc.len() && oldpc[w] == i as u64;
                                        assert(post.children_spec(q as int)[w] == i as u64);
                                    }
                                },
                                None => {},
                            }
                        },
                    }
                } else {
                    assert(i == pre.len_spec());
                    assert(post.children_spec(i).len() == 0);
                    match post.parent_link(i) {
                        Some(q) => {
                            assert(q == (match parent {
                                Some(p) => p.id_spec(),
                                None => arbitrary::<u64>(),
                            }));
                            assert(post.children_spec(q as int).contains(i as u64)) by {
                                let newc = post.children_spec(q as int);
                                assert(newc[newc.len() - 1] == i as u64);
                            };
                        },
                        None => {},
                    }
                }
            };
        }
        CommonRef { id: id64 }
    }

    /// Creates a new node as an implied child of `parent`.
    pub fn create(&mut self, parent: Option<CommonRef>) -> (r: CommonRef)
        requires
            old(self).wf(),
            old(self).len_spec() < usize::MAX as int,
            match parent {
                Some(p) => old(self).valid_id(p.id_spec()) && old(self).is_live(p.id_spec() as int),
                None => true,
            },
        ensures
            final(self).wf(),
            final(self).len_spec() == old(self).len_spec() + 1,
            r.id_spec() == old(self).len_spec() as u64,
            final(self).available(r.id_spec() as int),
            final(self).node(r.id_spec() as int).id_spec() == r.id_spec(),
            final(self).node(r.id_spec() as int).info_spec() is None,
            // the fresh record carries the defaults of a new node
            final(self).node(r.id_spec() as int).visible_spec()
                == crate::node::Visibility::All,
            final(self).node(r.id_spec() as int).updates_spec(),
            final(self).node(r.id_spec() as int).rect_spec() == (crate::geom::Rect {
                origin: crate::geom::Point { x: 0, y: 0 },
                size: crate::geom::Size { width: 0, height: 0 },
            }),
            final(self).node(r.id_spec() as int).layout_spec() is None,
            final(self).node(r.id_spec() as int).layout_mode_spec()
                == crate::node::LayoutMode::IndependentSize,
            final(self).node(r.id_spec() as int).cmds_spec().will_repaint_spec(),
            final(self).node(r.id_spec() as int).interaction_spec() == (crate::node::Interaction {
                pressed: false,
                hovered: false,
            }),
            final(self).children_spec(r.id_spec() as int) == Seq::<u64>::empty(),
            final(self).parent_link(r.id_spec() as int) == (match parent {
                Some(p) => Some(p.id_spec()),
                None => None::<u64>,
            }),
            final(self).strong_spec(r.id_spec() as int) == 1,
            final(self).is_live(r.id_spec() as int),
            !final(self).is_marked(r.id_spec() as int),
            match parent {
                Some(p) => final(self).children_spec(p.id_spec() as int) == old(
                    self,
                ).children_spec(p.id_spec() as int).push(r.id_spec()),
                None => true,
            },
            forall|i: int|
                0 <= i < old(self).len_spec() && (match parent {
                    Some(p) => i != p.id_spec() as int,
                    None => true,
                }) ==> #[trigger] Tree::entry_same(old(self), final(self), i),
            match parent {
                Some(p) => {
                    let pi = p.id_spec() as int;
                    &&& final(self).available(pi) == old(self).available(pi)
                    &&& final(self).node(pi) == old(self).node(pi)
                    &&& final(self).parent_link(pi) == old(self).parent_link(pi)
                    &&& final(self).strong_spec(pi) == old(self).strong_spec(pi)
                    &&& final(self).is_live(pi) == old(self).is_live(pi)
                    &&& final(self).is_marked(pi) == old(self).is_marked(pi)
                    &&& final(self).kind_spec(pi) == old(self).kind_spec(pi)
                },
                None => true,
            },
    {
        self.create_with_info(parent, None, 0)
    }

    /// What a checkout of `id` does, as a relation between the state before
    /// (`pre`), the state after (`post`) and whether the attempt succeeded:
    /// it succeeds exactly when the record is in place, takes it, and touches
    /// nothing else; a failed attempt changes nothing at all.
    pub open spec fn checkout_claims(pre: Tree, post: Tree, id: u64, ok: bool) -> bool {
        &&& (ok <==> pre.available(id as int))
        &&& (ok ==> {
            &&& post.len_spec() == pre.len_spec()
            &&& !post.available(id as int)
            &&& Tree::entry_same_but_common(&pre, &post, id as int)
            &&& forall|i: int|
                0 <= i < pre.len_spec() && i != id as int ==> #[trigger] Tree::entry_same(
                    &pre,
                    &post,
                    i,
                )
        })
        &&& (!ok ==> post == pre)
    }

    /// What a checkin of record `c` under `id` does: the record is in place
    /// again and nothing else changed.
    pub open spec fn checkin_claims(pre: Tree, post: Tree, id: u64, c: Common) -> bool {
        &&& post.len_spec() == pre.len_spec()
        &&& post.available(id as int)
        &&& post.node(id as int) == c
        &&& Tree::entry_same_but_common(&pre, &post, id as int)
        &&& forall|i: int|
            0 <= i < pre.len_spec() && i != id as int ==> #[trigger] Tree::entry_same(
                &pre,
                &post,
                i,
            )
    }

    /// Takes exclusive access to the node record.
    ///
    /// Fails with [`ReentrancyError`] — without touching anything — when the
    /// record is already checked out, which is exactly the nested-access
    /// case; succeeds otherwise, leaving the slot empty until
    /// [`Tree::checkin`] returns the record.
    pub fn checkout(&mut self, id: u64) -> (r: Result<Common, ReentrancyError>)
        requires
            old(self).wf(),
            old(self).valid_id(id),
        ensures
            final(self).wf(),
            final(self).len_spec() == old(self).len_spec(),
            Tree::checkout_claims(*old(self), *final(self), id, r is Ok),
            r matches Ok(c) ==> c == old(self).node(id as int) && c.id_spec() == id,
    {
        let i = id as usize;
        if self.entries[i].common.is_some() {
            let c = self.entries[i].common.take().unwrap();
            proof {
                assert(old(self).entry_ok(id as int));
                let post = self;
                let pre = old(self);
                assert forall|j: int| 0 <= j < post.len_spec() implies #[trigger] post.entry_ok(
                    j,
                ) by {
                    assert(pre.entry_ok(j));
                    assert(post.children_spec(j) == pre.children_spec(j));
                    assert(post.parent_link(j) == pre.parent_link(j));
                    if j != id as int {
                        assert(Tree::entry_same(pre, post, j));
                    }
                };
            }
            Ok(c)
        } else {
            Err(ReentrancyError)
        }
    }

    /// Returns exclusive access to the node record.
    ///
    /// The record must be the one taken for this identity: node identities
    /// are immutable, so the record still carries `id`.
    pub fn checkin(&mut self, id: u64, c: Common)
        requires
            old(self).wf(),
            old(self).valid_id(id),
            !old(self).available(id as int),
            c.id_spec() == id,
        ensures
            final(self).wf(),
            Tree::checkin_claims(*old(self), *final(self), id, c),
    {
        let i = id as usize;
        self.entries[i].common = Some(c);
        proof {
            let post = self;
            let pre = old(self);
            assert forall|j: int| 0 <= j < post.len_spec() implies #[trigger] post.entry_ok(j) by {
                assert(pre.entry_ok(j));
                assert(post.children_spec(j) == pre.children_spec(j));
                assert(post.parent_link(j) == pre.parent_link(j));
                if j != id as int {
                    assert(Tree::entry_same(pre, post, j));
                }
            };
        }
    }

    /// Mutably accesses the node record through a closure, within the call:
    /// takes exclusive access, runs `f`, returns the record and hands `f`'s
    /// result to the caller.
    ///
    /// An access while another is in flight fails with [`ReentrancyError`]
    /// and runs nothing. The closure must hand the record back under its own
    /// identity; every record mutator keeps the identity, which is immutable
    /// for the node's lifetime.
    pub fn with<R, F: FnOnce(Common) -> (Common, R)>(&mut self, id: u64, f: F) -> (r: Result<
        R,
        ReentrancyError,
    >)
        requires
            old(self).wf(),
            old(self).valid_id(id),
            old(self).available(id as int) ==> call_requires(f, (old(self).node(id as int),)),
            forall|c2: Common, out: R|
                call_ensures(f, (old(self).node(id as int),), (c2, out)) ==> c2.id_spec() == id,
        ensures
            final(self).wf(),
            final(self).len_spec() == old(self).len_spec(),
            r is Ok <==> old(self).available(id as int),
            r matches Ok(out) ==> {
                &&& final(self).available(id as int)
                &&& call_ensures(f, (old(self).node(id as int),), (final(self).node(id as int), out))
                &&& Tree::entry_same_but_common(old(self), final(self), id as int)
                &&& forall|i: int|
                    0 <= i < old(self).len_spec() && i != id as int
                        ==> #[trigger] Tree::entry_same(old(self), final(self), i)
            },
            r is Err ==> *final(self) == *old(self),
    {
        match self.checkout(id) {
            Ok(c) => {
                let ghost mid: Tree = *self;
                let (c2, out) = f(c);
                self.checkin(id, c2);
                proof {
                    assert forall|i: int|
                        0 <= i < old(self).len_spec() && i != id as int
                            implies #[trigger] Tree::entry_same(old(self), self, i) by {
                        assert(Tree::entry_same(old(self), &mid, i));
                        assert(Tree::entry_same(&mid, self, i));
                    };
                }
                Ok(out)
            },
            Err(e) => Err(e),
        }
    }

    /// Records one more owning handle of the node.
    pub fn clone_handle(&mut self, id: u64)
        requires
            old(self).wf(),
            old(self).valid_id(id),
            old(self).strong_spec(id as int) < u64::MAX,
        ensures
            final(self).wf(),
            final(self).len_spec() == old(self).len_spec(),
            final(self).strong_spec(id as int) == old(self).strong_spec(id as int) + 1,
            final(self).available(id as int) == old(self).available(id as int),
            final(self).node(id as int) == old(self).node(id as int),
            final(self).children_spec(id as int) == old(self).children_spec(id as int),
            final(self).parent_link(id as int) == old(self).parent_link(id as int),
            final(self).is_live(id as int) == old(self).is_live(id as int),
            final(self).is_marked(id as int) == old(self).is_marked(id as int),
            final(self).kind_spec(id as int) == old(self).kind_spec(id as int),
            forall|i: int|
                0 <= i < old(self).len_spec() && i != id as int ==> #[trigger] Tree::entry_same(
                    old(self),
                    final(self),
                    i,
                ),
    {
        let i = id as usize;
        let s = self.entries[i].strong;
        self.entries[i].strong = s + 1;
        proof {
            let post = self;
            let pre = old(self);
            assert forall|j: int| 0 <= j < post.len_spec() implies #[trigger] post.entry_ok(j) by {
                assert(pre.entry_ok(j));
                assert(post.children_spec(j) == pre.children_spec(j));
                assert(post.parent_link(j) == pre.parent_link(j));
                if j != id as int {
                    assert(Tree::entry_same(pre, post, j));
                }
            };
        }
    }

    /// What releasing one owning handle of `id` does: the count drops by
    /// one; when the last handle goes the node is *marked* for detachment
    /// and nothing else happens — every child list, every parent link and
    /// every node record is exactly as before.
    pub open spec fn release_claims(pre: Tree, post: Tree, id: u64) -> bool {
        &&& post.len_spec() == pre.len_spec()
        &&& post.strong_spec(id as int) == pre.strong_spec(id as int) - 1
        &&& post.is_marked(id as int) == (pre.is_marked(id as int) || pre.strong_spec(id as int)
            == 1)
        &&& post.available(id as int) == pre.available(id as int)
        &&& post.node(id as int) == pre.node(id as int)
        &&& post.children_spec(id as int) == pre.children_spec(id as int)
        &&& post.parent_link(id as int) == pre.parent_link(id as int)
        &&& post.is_live(id as int) == pre.is_live(id as int)
        &&& post.kind_spec(id as int) == pre.kind_spec(id as int)
        &&& forall|i: int|
            0 <= i < pre.len_spec() && i != id as int ==> #[trigger] Tree::entry_same(
                &pre,
                &post,
                i,
            )
    }

    /// Releases one owning handle of the node.
    ///
    /// When the last handle goes, the node is only *marked* for detachment:
    /// it stays in its parent's child list, and a traversal already under way
    /// is not disturbed. The actual unlinking happens in [`Tree::sweep`].
    pub fn release_handle(&mut self, id: u64)
        requires
            old(self).wf(),
            old(self).valid_id(id),
            old(self).strong_spec(id as int) >= 1,
        ensures
            final(self).wf(),
            Tree::release_claims(*old(self), *final(self), id),
    {
        let i = id as usize;
        let s = self.entries[i].strong;
        self.entries[i].strong = s - 1;
        if s == 1 {
            self.entries[i].marked = true;
        }
        proof {
            let post = self;
            let pre = old(self);
            assert forall|j: int| 0 <= j < post.len_spec() implies #[trigger] post.entry_ok(j) by {
                assert(pre.entry_ok(j));
                assert(post.children_spec(j) == pre.children_spec(j));
                assert(post.parent_link(j) == pre.parent_link(j));
                if j != id as int {
                    assert(Tree::entry_same(pre, post, j));
                }
            };
        }
    }

    /// Marks the node for detachment at the next sweep.
    pub fn mark_for_detach(&mut self, id: u64)
        requires
            old(self).wf(),
            old(self).valid_id(id),
        ensures
            final(self).wf(),
            final(self).len_spec() == old(self).len_spec(),
            final(self).is_marked(id as int),
            final(self).available(id as int) == old(self).available(id as int),
            final(self).node(id as int) == old(self).node(id as int),
            final(self).children_spec(id as int) == old(self).children_spec(id as int),
            final(self).parent_link(id as int) == old(self).parent_link(id as int),
            final(self).strong_spec(id as int) == old(self).strong_spec(id as int),
            final(self).is_live(id as int) == old(self).is_live(id as int),
            final(self).kind_spec(id as int) == old(self).kind_spec(id as int),
            forall|i: int|
                0 <= i < old(self).len_spec() && i != id as int ==> #[trigger] Tree::entry_same(
                    old(self),
                    final(self),
                    i,
                ),
    {
        let i = id as usize;
        self.entries[i].marked = true;
        proof {
            let post = self;
            let pre = old(self);
            assert forall|j: int| 0 <= j < post.len_spec() implies #[trigger] post.entry_ok(j) by {
                assert(pre.entry_ok(j));
                assert(post.children_spec(j) == pre.children_spec(j));
                assert(post.parent_link(j) == pre.parent_link(j));
                if j != id as int {
                    assert(Tree::entry_same(pre, post, j));
                }
            };
        }
    }

    /// Sets the widget-kind tag of the node, used by the type-directed
    /// visitor.
    pub fn set_kind(&mut self, id: u64, kind: u64)
        requires
            old(self).wf(),
            old(self).valid_id(id),
        ensures
            final(self).wf(),
            final(self).len_spec() == old(self).len_spec(),
            final(self).kind_spec(id as int) == kind,
            final(self).available(id as int) == old(self).available(id as int),
            final(self).node(id as int) == old(self).node(id as int),
            final(self).children_spec(id as int) == old(self).children_spec(id as int),
            final(self).parent_link(id as int) == old(self).parent_link(id as int),
            final(self).strong_spec(id as int) == old(self).strong_spec(id as int),
            final(self).is_live(id as int) == old(self).is_live(id as int),
            final(self).is_marked(id as int) == old(self).is_marked(id as int),
            forall|i: int|
                0 <= i < old(self).len_spec() && i != id as int ==> #[trigger] Tree::entry_same(
                    old(self),
                    final(self),
                    i,
                ),
    {
        let i = id as usize;
        self.entries[i].kind = kind;
        proof {
            let post = self;
            let pre = old(self);
            assert forall|j: int| 0 <= j < post.len_spec() implies #[trigger] post.entry_ok(j) by {
                assert(pre.entry_ok(j));
                assert(post.children_spec(j) == pre.children_spec(j));
                assert(post.parent_link(j) == pre.parent_link(j));
                if j != id as int {
                    assert(Tree::entry_same(pre, post, j));
                }
            };
        }
    }

    /// Whether node `c` survives a sweep: it is live and not marked.
    pub open spec fn survives(&self, c: u64) -> bool {
        self.is_live(c as int) && !self.is_marked(c as int)
    }

    /// Of the first `k` children of `i`, those that survive a sweep, in
    /// order.
    pub open spec fn surviving_prefix(&self, i: int, k: int) -> Seq<u64>
        decreases k,
    {
        if k <= 0 {
            Seq::empty()
        } else {
            let c = self.children_spec(i)[k - 1];
            if self.survives(c) {
                self.surviving_prefix(i, k - 1).push(c)
            } else {
                self.surviving_prefix(i, k - 1)
            }
        }
    }

    /// The children of `i` that survive a sweep, in order.
    pub open spec fn surviving_children(&self, i: int) -> Seq<u64> {
        self.surviving_prefix(i, self.children_spec(i).len() as int)
    }

    /// Every survivor in a surviving prefix comes from the child list and
    /// survives.
    pub proof fn lemma_surviving_prefix_src(&self, i: int, k: int, x: int)
        requires
            0 <= k <= self.children_spec(i).len(),
            0 <= x < self.surviving_prefix(i, k).len(),
        ensures
            exists|w: int|
                0 <= w < k && #[trigger] self.children_spec(i)[w] == self.surviving_prefix(i, k)[x]
                    && self.survives(self.children_spec(i)[w]),
        decreases k,
    {
        if k > 0 {
            let c = self.children_spec(i)[k - 1];
            if self.survives(c) && x == self.surviving_prefix(i, k).len() - 1 {
                assert(self.children_spec(i)[k - 1] == self.surviving_prefix(i, k)[x]);
            } else {
                self.lemma_surviving_prefix_src(i, k - 1, x);
            }
        }
    }

    /// A surviving child is kept in the surviving prefix.
    pub proof fn lemma_surviving_prefix_keeps(&self, i: int, k: int, w: int)
        requires
            0 <= w < k <= self.children_spec(i).len(),
            self.survives(self.children_spec(i)[w]),
        ensures
            self.surviving_prefix(i, k).contains(self.children_spec(i)[w]),
        decreases k,
    {
        if w == k - 1 {
            assert(self.surviving_prefix(i, k)[self.surviving_prefix(i, k).len() - 1]
                == self.children_spec(i)[w]);
        } else {
            self.lemma_surviving_prefix_keeps(i, k - 1, w);
            let pfx = self.surviving_prefix(i, k - 1);
            let q = choose|q: int| 0 <= q < pfx.len() && pfx[q] == self.children_spec(i)[w];
            assert(self.surviving_prefix(i, k)[q] == self.children_spec(i)[w]);
        }
    }

    /// What one sweep does: a node stays live exactly when it was live and
    /// not marked for detachment; each surviving node's child list keeps, in
    /// order, exactly the children that survive; and nothing else of any
    /// slot changes — records, parent links, handle counts, marks and kinds
    /// stay as they were.
    pub open spec fn sweep_claims(pre: Tree, post: Tree) -> bool {
        &&& post.len_spec() == pre.len_spec()
        &&& forall|i: int|
            0 <= i < pre.len_spec() ==> #[trigger] post.is_live(i) == (pre.is_live(i)
                && !pre.is_marked(i))
        &&& forall|i: int|
            0 <= i < pre.len_spec() ==> {
                &&& #[trigger] post.available(i) == pre.available(i)
                &&& post.node(i) == pre.node(i)
                &&& post.parent_link(i) == pre.parent_link(i)
                &&& post.strong_spec(i) == pre.strong_spec(i)
                &&& post.is_marked(i) == pre.is_marked(i)
                &&& post.kind_spec(i) == pre.kind_spec(i)
            }
        &&& forall|i: int|
            0 <= i < pre.len_spec() && post.is_live(i) ==> #[trigger] post.children_spec(i)
                == pre.surviving_children(i)
        &&& forall|i: int|
            0 <= i < pre.len_spec() && !post.is_live(i) ==> #[trigger] post.children_spec(i)
                == pre.children_spec(i)
    }

    /// Removes every node marked for detachment: run at a safe point
    /// between traversals.
    ///
    /// Marked nodes stop being live and leave their parents' child lists;
    /// everything else — including the records of the removed nodes, which
    /// owning handles may still access — stays as it was.
    pub fn sweep(&mut self)
        requires
            old(self).wf(),
        ensures
            final(self).wf(),
            Tree::sweep_claims(*old(self), *final(self)),
    {
        let ghost pre: Tree = *old(self);
        let n = self.entries.len();
        // first pass: marked nodes stop being live
        let mut i: usize = 0;
        while i < n
            invariant
                pre.wf(),
                n as int == pre.len_spec(),
                self.len_spec() == pre.len_spec(),
                i <= n,
                forall|j: int|
                    0 <= j < i as int ==> #[trigger] self.is_live(j) == (pre.is_live(j)
                        && !pre.is_marked(j)),
                forall|j: int|
                    i as int <= j < n as int ==> #[trigger] self.is_live(j) == pre.is_live(j),
                forall|j: int|
                    0 <= j < n as int ==> {
                        &&& #[trigger] self.available(j) == pre.available(j)
                        &&& self.node(j) == pre.node(j)
                        &&& self.children_spec(j) == pre.children_spec(j)
                        &&& self.parent_link(j) == pre.parent_link(j)
                        &&& self.strong_spec(j) == pre.strong_spec(j)
                        &&& self.is_marked(j) == pre.is_marked(j)
                        &&& self.kind_spec(j) == pre.kind_spec(j)
                    },
            decreases n - i,
        {
            let ghost before: Tree = *self;
            if self.entries[i].marked && self.entries[i].live {
                self.entries[i].live = false;
            }
            proof {
                assert forall|j: int| 0 <= j < n as int && j != i as int implies Tree::entry_same(
                    &before,
                    self,
                    j,
                ) by {};
                assert(before.available(i as int) == pre.available(i as int));
                assert(before.is_live(i as int) == pre.is_live(i as int));
                assert(before.is_marked(i as int) == pre.is_marked(i as int));
                assert(before.node(i as int) == pre.node(i as int));
                assert(before.children_spec(i as int) == pre.children_spec(i as int));
                assert(before.parent_link(i as int) == pre.parent_link(i as int));
                assert(before.strong_spec(i as int) == pre.strong_spec(i as int));
                assert(before.kind_spec(i as int) == pre.kind_spec(i as int));
                assert forall|j: int| 0 <= j < i as int implies #[trigger] self.is_live(j) == (
                pre.is_live(j) && !pre.is_marked(j)) by {
                    assert(Tree::entry_same(&before, self, j));
                    assert(before.is_live(j) == (pre.is_live(j) && !pre.is_marked(j)));
                };
                assert forall|j: int| i as int + 1 <= j < n as int implies #[trigger] self.is_live(
                    j,
                ) == pre.is_live(j) by {
                    assert(Tree::entry_same(&before, self, j));
                    assert(before.is_live(j) == pre.is_live(j));
                };
                assert(self.is_live(i as int) == (pre.is_live(i as int) && !pre.is_marked(
                    i as int,
                )));
                assert forall|j: int| 0 <= j < n as int implies {
                    &&& #[trigger] self.available(j) == pre.available(j)
                    &&& self.node(j) == pre.node(j)
                    &&& self.children_spec(j) == pre.children_spec(j)
                    &&& self.parent_link(j) == pre.parent_link(j)
                    &&& self.strong_spec(j) == pre.strong_spec(j)
                    &&& self.is_marked(j) == pre.is_marked(j)
                    &&& self.kind_spec(j) == pre.kind_spec(j)
                } by {
                    if j != i as int {
                        assert(Tree::entry_same(&before, self, j));
                    }
                    assert(before.available(j) == pre.available(j));
                    assert(before.node(j) == pre.node(j));
                    assert(before.children_spec(j) == pre.children_spec(j));
                    assert(before.parent_link(j) == pre.parent_link(j));
                    assert(before.strong_spec(j) == pre.strong_spec(j));
                    assert(before.is_marked(j) == pre.is_marked(j));
                    assert(before.kind_spec(j) == pre.kind_spec(j));
                };
            }
            i = i + 1;
        }
        proof {
            assert forall|j: int|
                0 <= j < n as int implies #[trigger] self.children_spec(j) == pre.children_spec(
                j,
            ) by {
                assert(self.available(j) == pre.available(j));
            };
        }
        // second pass: surviving nodes keep only surviving children
        let mut i: usize = 0;
        while i < n
            invariant
                pre.wf(),
                n as int == pre.len_spec(),
                self.len_spec() == pre.len_spec(),
                i <= n,
                forall|j: int|
                    0 <= j < n as int ==> #[trigger] self.is_live(j) == (pre.is_live(j)
                        && !pre.is_marked(j)),
                forall|j: int|
                    0 <= j < n as int ==> {
                        &&& #[trigger] self.available(j) == pre.available(j)
                        &&& self.node(j) == pre.node(j)
                        &&& self.parent_link(j) == pre.parent_link(j)
                        &&& self.strong_spec(j) == pre.strong_spec(j)
                        &&& self.is_marked(j) == pre.is_marked(j)
                        &&& self.kind_spec(j) == pre.kind_spec(j)
                    },
                forall|j: int|
                    0 <= j < i as int && self.is_live(j) ==> #[trigger] self.children_spec(j)
                        == pre.surviving_children(j),
                forall|j: int|
                    0 <= j < i as int && !self.is_live(j) ==> #[trigger] self.children_spec(j)
                        == pre.children_spec(j),
                forall|j: int|
                    i as int <= j < n as int ==> #[trigger] self.children_spec(j)
                        == pre.children_spec(j),
            decreases n - i,
        {
            if self.entries[i].live {
                proof {
                    assert(pre.entry_ok(i as int));
                    assert forall|j: int| 0 <= j < n as int implies {
                        &&& #[trigger] self.available(j) == pre.available(j)
                        &&& self.node(j) == pre.node(j)
                        &&& self.parent_link(j) == pre.parent_link(j)
                        &&& self.strong_spec(j) == pre.strong_spec(j)
                        &&& self.is_marked(j) == pre.is_marked(j)
                        &&& self.kind_spec(j) == pre.kind_spec(j)
                    } by {
                        assert(self.available(j) == pre.available(j));
                    };
                }
                let m = self.entries[i].children.len();
                let mut kept_children: Vec<u64> = Vec::new();
                let mut k: usize = 0;
                while k < m
                    invariant
                        pre.wf(),
                        n as int == pre.len_spec(),
                        self.len_spec() == pre.len_spec(),
                        i < n,
                        k <= m,
                        m as int == self.children_spec(i as int).len(),
                        self.children_spec(i as int) == pre.children_spec(i as int),
                        forall|j: int|
                            0 <= j < n as int ==> #[trigger] self.is_live(j) == (pre.is_live(j)
                                && !pre.is_marked(j)),
                        forall|j: int|
                            0 <= j < n as int ==> {
                                &&& #[trigger] self.available(j) == pre.available(j)
                                &&& self.node(j) == pre.node(j)
                                &&& self.parent_link(j) == pre.parent_link(j)
                                &&& self.strong_spec(j) == pre.strong_spec(j)
                                &&& self.is_marked(j) == pre.is_marked(j)
                                &&& self.kind_spec(j) == pre.kind_spec(j)
                            },
                        forall|j: int|
                            0 <= j < i as int && self.is_live(j) ==> #[trigger] self.children_spec(
                                j,
                            ) == pre.surviving_children(j),
                        forall|j: int|
                            0 <= j < i as int && !self.is_live(j) ==> #[trigger] self.children_spec(
                                j,
                            ) == pre.children_spec(j),
                        forall|j: int|
                            i as int <= j < n as int ==> #[trigger] self.children_spec(j)
                                == pre.children_spec(j),
                        kept_children@ == pre.surviving_prefix(i as int, k as int),
                        forall|x: int|
                            0 <= x < pre.children_spec(i as int).len() ==> (i as int) < (
                            #[trigger] pre.children_spec(i as int)[x] as int) && (pre.children_spec(
                                i as int,
                            )[x] as int) < n as int,
                    decreases m - k,
                {
                    let c = self.entries[i].children[k];
                    let live_child = self.entries[c as usize].live;
                    proof {
                        let chs = pre.children_spec(i as int);
                        assert(chs[k as int] == c);
                        assert((i as int) < c as int && (c as int) < n as int);
                        assert(self.is_live(c as int) == (pre.is_live(c as int) && !pre.is_marked(
                            c as int,
                        )));
                        assert(self.available(c as int) == pre.available(c as int));
                        assert(self.is_marked(c as int) == pre.is_marked(c as int));
                        assert(live_child == pre.survives(c)) by {
                            if pre.is_marked(c as int) {
                                assert(!self.is_live(c as int));
                            }
                        };
                        assert(pre.surviving_prefix(i as int, k as int + 1) == if pre.survives(c) {
                            pre.surviving_prefix(i as int, k as int).push(c)
                        } else {
                            pre.surviving_prefix(i as int, k as int)
                        });
                    }
                    if live_child {
                        kept_children.push(c);
                    }
                    k = k + 1;
                }
                proof {
                    assert(kept_children@ == pre.surviving_children(i as int));
                }
                let ghost before_set: Tree = *self;
                self.entries[i].children = kept_children;
                proof {
                    assert forall|j: int|
                        0 <= j < n as int && j != i as int implies Tree::entry_same(
                        &before_set,
                        self,
                        j,
                    ) by {};
                    assert forall|j: int| 0 <= j < n as int implies {
                        &&& #[trigger] self.available(j) == pre.available(j)
                        &&& self.node(j) == pre.node(j)
                        &&& self.parent_link(j) == pre.parent_link(j)
                        &&& self.strong_spec(j) == pre.strong_spec(j)
                        &&& self.is_marked(j) == pre.is_marked(j)
                        &&& self.kind_spec(j) == pre.kind_spec(j)
                        &&& self.is_live(j) == (pre.is_live(j) && !pre.is_marked(j))
                    } by {
                        if j != i as int {
                            assert(Tree::entry_same(&before_set, self, j));
                        }
                        assert(before_set.available(j) == pre.available(j));
                        assert(before_set.node(j) == pre.node(j));
                        assert(before_set.parent_link(j) == pre.parent_link(j));
                        assert(before_set.strong_spec(j) == pre.strong_spec(j));
                        assert(before_set.is_marked(j) == pre.is_marked(j));
                        assert(before_set.kind_spec(j) == pre.kind_spec(j));
                        assert(before_set.is_live(j) == (pre.is_live(j) && !pre.is_marked(j)));
                    };
                    assert forall|j: int|
                        0 <= j < n as int && j != i as int implies #[trigger] self.children_spec(
                        j,
                    ) == before_set.children_spec(j) by {
                        assert(Tree::entry_same(&before_set, self, j));
                    };
                    assert forall|j: int|
                        0 <= j < n as int implies #[trigger] self.is_live(j) == (pre.is_live(j)
                        && !pre.is_marked(j)) by {
                        if j != i as int {
                            assert(Tree::entry_same(&before_set, self, j));
                        }
                        assert(before_set.is_live(j) == (pre.is_live(j) && !pre.is_marked(j)));
                    };
                    assert(self.children_spec(i as int) == pre.surviving_children(i as int));
                }
            }
            i = i + 1;
        }
        proof {
            let post = self;
            assert forall|j: int| 0 <= j < post.len_spec() implies #[trigger] post.entry_ok(j) by {
                assert(pre.entry_ok(j));
                assert(post.available(j) == pre.available(j));
                assert(post.is_live(j) == (pre.is_live(j) && !pre.is_marked(j)));
                let oldc = pre.children_spec(j);
                let newc = post.children_spec(j);
                if post.is_live(j) {
                    assert(newc == pre.surviving_children(j));
                    assert forall|k: int| 0 <= k < newc.len() implies {
                        &&& j < (#[trigger] newc[k]) as int
                        &&& (newc[k] as int) < post.len_spec()
                        &&& post.parent_link(newc[k] as int) == Some(j as u64)
                        &&& post.is_live(newc[k] as int)
                    } by {
                        pre.lemma_surviving_prefix_src(j, oldc.len() as int, k);
                        let w = choose|w: int|
                            0 <= w < oldc.len() && #[trigger] oldc[w] == newc[k] && pre.survives(
                                oldc[w],
                            );
                        assert(j < oldc[w] as int && (oldc[w] as int) < pre.len_spec());
                        assert(post.available(newc[k] as int) == pre.available(newc[k] as int));
                        assert(post.parent_link(newc[k] as int) == pre.parent_link(
                            newc[k] as int,
                        ));
                    };
                    match post.parent_link(j) {
                        Some(p) => {
                            if post.is_live(p as int) {
                                assert(pre.is_live(j) && pre.is_live(p as int));
                                assert(pre.children_spec(p as int).contains(j as u64));
                                let oldpc = pre.children_spec(p as int);
                                let w = choose|w: int| 0 <= w < oldpc.len() && oldpc[w] == j as u64;
                                assert(pre.survives(j as u64));
                                pre.lemma_surviving_prefix_keeps(p as int, oldpc.len() as int, w);
                                assert(post.children_spec(p as int).contains(j as u64));
                            }
                        },
                        None => {},
                    }
                } else {
                    assert(newc == oldc);
                    assert forall|k: int| 0 <= k < newc.len() implies {
                        &&& j < (#[trigger] newc[k]) as int
                        &&& (newc[k] as int) < post.len_spec()
                        &&& post.parent_link(newc[k] as int) == Some(j as u64)
                    } by {
                        assert(pre.children_spec(j)[k] == newc[k]);
                        assert(post.available(newc[k] as int) == pre.available(newc[k] as int));
                        assert(post.parent_link(newc[k] as int) == pre.parent_link(
                            newc[k] as int,
                        ));
                    };
                    match post.parent_link(j) {
                        Some(p) => {
                            assert((p as int) < j);
                        },
                        None => {},
                    }
                }
                assert(post.available(j) ==> post.node(j).id_spec() == j as u64);
                assert(forall|k: int|
                    0 <= k < post.children_spec(j).len() ==> j < (
                    #[trigger] post.children_spec(j)[k]) as int && (post.children_spec(j)[k] as int)
                        < post.len_spec());
                assert(forall|k: int|
                    0 <= k < post.children_spec(j).len() ==> post.parent_link(
                        #[trigger] post.children_spec(j)[k] as int,
                    ) == Some(j as u64));
                assert(post.is_live(j) ==> forall|k: int|
                    0 <= k < post.children_spec(j).len() ==> post.is_live(
                        #[trigger] post.children_spec(j)[k] as int,
                    ));
                assert(match post.parent_link(j) {
                    Some(p) => {
                        &&& (p as int) < j
                        &&& (post.is_live(j) && post.is_live(p as int) ==> post.children_spec(
                            p as int,
                        ).contains(j as u64))
                    },
                    None => true,
                });
            };
        }
    }

    /// The parent of `i` after the read-time liveness check: the raw link,
    /// or nothing when the link's target has already been removed.
    pub open spec fn effective_parent(&self, i: int) -> Option<u64> {
        match self.parent_link(i) {
            Some(p) => if self.is_live(p as int) {
                Some(p)
            } else {
                None
            },
            None => None,
        }
    }

    /// Returns a handle to the parent node.
    ///
    /// The back-reference is non-owning: when the parent has already been
    /// removed the link fails to resolve and `None` is returned, as for a
    /// root.
    pub fn parent_of(&self, id: u64) -> (r: Option<CommonRef>)
        requires
            self.wf(),
            self.valid_id(id),
        ensures
            r is Some <==> self.effective_parent(id as int) is Some,
            r matches Some(p) ==> {
                &&& Some(p.id_spec()) == self.effective_parent(id as int)
                &&& p.id_spec() < id
                &&& self.valid_id(p.id_spec())
                &&& self.is_live(p.id_spec() as int)
            },
    {
        proof {
            assert(self.entry_ok(id as int));
        }
        match self.entries[id as usize].parent {
            Some(p) => {
                if self.entries[p as usize].live {
                    Some(CommonRef { id: p })
                } else {
                    None
                }
            },
            None => None,
        }
    }
}

/// Node identities of one session are pairwise distinct: two live slots never
/// carry the same identity, because every record carries the identity of its
/// own slot.
pub proof fn lemma_node_ids_unique(t: &Tree, i: int, j: int)
    requires
        t.wf(),
        0 <= i < t.len_spec(),
        0 <= j < t.len_spec(),
        i != j,
        t.available(i),
        t.available(j),
    ensures
        t.node(i).id_spec() != t.node(j).id_spec(),
{
    assert(t.entry_ok(i));
    assert(t.entry_ok(j));
}

/// Exclusive access is single-occupant and non-reentrant.
///
/// Over any run of accesses to one node — a first checkout taking the tree
/// from `s0` to `s1`, a nested attempt taking it from `s1` to `s2`, and the
/// matching checkin taking it from `s2` to `s3` — the first access succeeds,
/// the nested attempt always fails with [`ReentrancyError`] and changes
/// nothing, and once the record is returned an access succeeds again.
pub proof fn lemma_exclusive_access(
    s0: Tree,
    s1: Tree,
    s2: Tree,
    s3: Tree,
    id: u64,
    ok1: bool,
    ok2: bool,
    c: Common,
)
    requires
        s0.valid_id(id),
        s0.available(id as int),
        Tree::checkout_claims(s0, s1, id, ok1),
        Tree::checkout_claims(s1, s2, id, ok2),
        Tree::checkin_claims(s2, s3, id, c),
    ensures
        ok1,
        !ok2,
        s2 == s1,
        s3.available(id as int),
{
}

} // verus!
