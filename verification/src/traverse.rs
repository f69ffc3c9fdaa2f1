//! Ordered tree traversal.
//!
//! Update propagation visits children before the parent, in reverse child
//! order; draw propagation visits the parent first, then children in forward
//! order, gated by each node's visibility. The traversal functions compute
//! the exact visiting order as data; the unverified widget layer then makes
//! the `update`/`draw` calls in that order.

use vstd::prelude::*;

use crate::node::Visibility;
use crate::tree::Tree;

verus! {

/// Whether a node with visibility `v` draws itself.
pub open spec fn draws_self(v: Visibility) -> bool {
    v != Visibility::NoSelf && v != Visibility::Invisible && v != Visibility::Gone
}

/// Whether a node with visibility `v` lets its children draw.
pub open spec fn draws_children(v: Visibility) -> bool {
    v != Visibility::NoChildren && v != Visibility::Invisible && v != Visibility::Gone
}

impl Tree {
    /// Every node record of the tree is in place (no access in flight):
    /// traversals run at such safe points.
    pub open spec fn all_available(&self) -> bool {
        forall|i: int| 0 <= i < self.len_spec() ==> #[trigger] self.available(i)
    }

    /// The update order of the subtree rooted at `i`: every child subtree,
    /// in reverse child order, then `i` itself — so children finish reacting
    /// to this frame's events before the parent observes their state.
    pub open spec fn update_order_spec(&self, i: int) -> Seq<u64>
        decreases self.len_spec() - i, 1int, 0int,
            when self.wf() && 0 <= i < self.len_spec()
    {
        self.update_order_children(i, self.children_spec(i).len() as int).push(i as u64)
    }

    /// The update order contributed by the first `k` children of `i`,
    /// visited back to front: position `k - 1` first, position `0` last.
    pub open spec fn update_order_children(&self, i: int, k: int) -> Seq<u64>
        decreases self.len_spec() - i, 0int, k,
            when self.wf() && 0 <= i < self.len_spec() && 0 <= k <= self.children_spec(i).len()
            via Self::update_order_children_decreases
    {
        if k <= 0 {
            Seq::empty()
        } else {
            self.update_order_spec(self.children_spec(i)[k - 1] as int) + self.update_order_children(
                i,
                k - 1,
            )
        }
    }

    /// The draw order of the subtree rooted at `i`: `i` first (background),
    /// then children front to back (foreground) — painter's algorithm —
    /// except where the node's visibility suppresses its own draw or the
    /// descent into its children.
    pub open spec fn draw_order_spec(&self, i: int) -> Seq<u64>
        decreases self.len_spec() - i, 1int, 0int,
            when self.wf() && 0 <= i < self.len_spec()
    {
        let head: Seq<u64> = if draws_self(self.node(i).visible_spec()) {
            seq![i as u64]
        } else {
            Seq::empty()
        };
        if draws_children(self.node(i).visible_spec()) {
            head + self.draw_order_children(i, 0)
        } else {
            head
        }
    }

    #[via_fn]
    proof fn update_order_children_decreases(&self, i: int, k: int) {
        assert(self.entry_ok(i));
    }

    /// The draw order contributed by the children of `i` from position `k`
    /// on, in forward order.
    pub open spec fn draw_order_children(&self, i: int, k: int) -> Seq<u64>
        decreases self.len_spec() - i, 0int, self.children_spec(i).len() - k,
            when self.wf() && 0 <= i < self.len_spec() && 0 <= k <= self.children_spec(i).len()
            via Self::draw_order_children_decreases
    {
        if k >= self.children_spec(i).len() {
            Seq::empty()
        } else {
            self.draw_order_spec(self.children_spec(i)[k] as int) + self.draw_order_children(
                i,
                k + 1,
            )
        }
    }

    #[via_fn]
    proof fn draw_order_children_decreases(&self, i: int, k: int) {
        assert(self.entry_ok(i));
    }

    /// Appends the update order of the subtree rooted at `i` to `out`.
    fn update_order_rec(&self, i: u64, out: &mut Vec<u64>)
        requires
            self.wf(),
            self.valid_id(i),
        ensures
            final(out)@ == old(out)@ + self.update_order_spec(i as int),
        decreases self.len_spec() - i as int,
    {
        proof {
            assert(self.entry_ok(i as int));
        }
        let list_len = self.entries[i as usize].children.len();
        let mut k: usize = list_len;
        while k > 0
            invariant
                self.wf(),
                self.valid_id(i),
                k <= list_len,
                list_len as int == self.children_spec(i as int).len(),
                out@ + self.update_order_children(i as int, k as int) == old(out)@
                    + self.update_order_children(i as int, list_len as int),
            decreases k,
        {
            proof {
                assert(self.entry_ok(i as int));
            }
            let c = self.entries[i as usize].children[k - 1];
            let ghost prev = out@;
            self.update_order_rec(c, out);
            proof {
                assert(out@ + self.update_order_children(i as int, k as int - 1) == prev
                    + self.update_order_children(i as int, k as int)) by {
                    assert(out@ == prev + self.update_order_spec(c as int));
                    assert(self.update_order_children(i as int, k as int) == self.update_order_spec(
                        c as int,
                    ) + self.update_order_children(i as int, k as int - 1));
                    assert((prev + self.update_order_spec(c as int))
                        + self.update_order_children(i as int, k as int - 1) =~= prev
                        + (self.update_order_spec(c as int) + self.update_order_children(
                        i as int,
                        k as int - 1,
                    )));
                };
            }
            k = k - 1;
        }
        out.push(i);
        proof {
            assert(out@ =~= old(out)@ + self.update_order_spec(i as int));
        }
    }

    /// Returns the order in which the nodes of the subtree rooted at `root`
    /// receive their `update` call: children before parents, in reverse
    /// child order.
    pub fn update_order(&self, root: u64) -> (r: Vec<u64>)
        requires
            self.wf(),
            self.valid_id(root),
        ensures
            r@ == self.update_order_spec(root as int),
    {
        let mut out: Vec<u64> = Vec::new();
        self.update_order_rec(root, &mut out);
        proof {
            assert(out@ =~= self.update_order_spec(root as int));
        }
        out
    }

    /// Appends the draw order of the subtree rooted at `i` to `out`.
    fn draw_order_rec(&self, i: u64, out: &mut Vec<u64>)
        requires
            self.wf(),
            self.valid_id(i),
            self.all_available(),
        ensures
            final(out)@ == old(out)@ + self.draw_order_spec(i as int),
        decreases self.len_spec() - i as int,
    {
        proof {
            assert(self.entry_ok(i as int));
            assert(self.available(i as int));
        }
        let v = match &self.entries[i as usize].common {
            Some(c) => c.visible(),
            None => Visibility::All,
        };
        let ghost head: Seq<u64> = if draws_self(v) {
            seq![i]
        } else {
            Seq::empty()
        };
        if !(v == Visibility::NoSelf || v == Visibility::Invisible || v == Visibility::Gone) {
            out.push(i);
            proof {
                assert(out@ =~= old(out)@ + head);
            }
        }
        if !(v == Visibility::NoChildren || v == Visibility::Invisible || v == Visibility::Gone) {
            let list_len = self.entries[i as usize].children.len();
            let mut k: usize = 0;
            while k < list_len
                invariant
                    self.wf(),
                    self.valid_id(i),
                    self.all_available(),
                    k <= list_len,
                    list_len as int == self.children_spec(i as int).len(),
                    out@ + self.draw_order_children(i as int, k as int) == old(out)@ + head
                        + self.draw_order_children(i as int, 0),
                decreases list_len - k,
            {
                proof {
                    assert(self.entry_ok(i as int));
                }
                let c = self.entries[i as usize].children[k];
                let ghost prev = out@;
                self.draw_order_rec(c, out);
                proof {
                    assert(out@ + self.draw_order_children(i as int, k as int + 1) == prev
                        + self.draw_order_children(i as int, k as int)) by {
                        assert(out@ == prev + self.draw_order_spec(c as int));
                        assert(self.draw_order_children(i as int, k as int) == self.draw_order_spec(
                            c as int,
                        ) + self.draw_order_children(i as int, k as int + 1));
                        assert((prev + self.draw_order_spec(c as int))
                            + self.draw_order_children(i as int, k as int + 1) =~= prev
                            + (self.draw_order_spec(c as int) + self.draw_order_children(
                            i as int,
                            k as int + 1,
                        )));
                    };
                }
                k = k + 1;
            }
            proof {
                assert(self.draw_order_children(i as int, list_len as int) =~= Seq::<u64>::empty());
                assert(out@ =~= out@ + self.draw_order_children(i as int, list_len as int));
                assert(out@ =~= old(out)@ + self.draw_order_spec(i as int));
            }
        } else {
            proof {
                assert(out@ =~= old(out)@ + self.draw_order_spec(i as int));
            }
        }
    }

    /// Returns the order in which the nodes of the subtree rooted at `root`
    /// receive their `draw` call: parents before children, in forward child
    /// order, skipping what the visibility modes suppress.
    pub fn draw_order(&self, root: u64) -> (r: Vec<u64>)
        requires
            self.wf(),
            self.valid_id(root),
            self.all_available(),
        ensures
            r@ == self.draw_order_spec(root as int),
    {
        let mut out: Vec<u64> = Vec::new();
        self.draw_order_rec(root, &mut out);
        proof {
            assert(out@ =~= self.draw_order_spec(root as int));
        }
        out
    }
}


impl Tree {
    /// Whether `j` lies in the subtree rooted at `i` (including `i` itself).
    pub open spec fn in_subtree(&self, i: int, j: int) -> bool
        decreases self.len_spec() - i,
            when self.wf() && 0 <= i < self.len_spec()
            via Self::in_subtree_decreases
    {
        i == j || exists|m: int|
            0 <= m < self.children_spec(i).len() && self.in_subtree(
                #[trigger] self.children_spec(i)[m] as int,
                j,
            )
    }

    #[via_fn]
    proof fn in_subtree_decreases(&self, i: int, j: int) {
        assert(self.entry_ok(i));
    }

    /// Whether `j` lies in the subtree of one of the first `k` children of
    /// `i`.
    pub open spec fn subtree_prefix(&self, i: int, k: int, j: int) -> bool {
        exists|m: int|
            0 <= m < k && m < self.children_spec(i).len() && self.in_subtree(
                #[trigger] self.children_spec(i)[m] as int,
                j,
            )
    }

    /// Whether `j` is a strict descendant of `i`.
    pub open spec fn in_strict_subtree(&self, i: int, j: int) -> bool {
        self.subtree_prefix(i, self.children_spec(i).len() as int, j)
    }

    /// Pushes the visibility mode of `w` down to every strict descendant,
    /// overwriting whatever mode each held; nothing else of any node
    /// changes.
    /// Two trees with the same structure (length and child lists) have the
    /// same subtrees.
    pub proof fn lemma_subtree_congruence(a: &Tree, b: &Tree, i: int, j: int)
        requires
            a.wf(),
            b.wf(),
            a.len_spec() == b.len_spec(),
            0 <= i < a.len_spec(),
            forall|x: int| 0 <= x < a.len_spec() ==> #[trigger] a.children_spec(x)
                == b.children_spec(x),
        ensures
            a.in_subtree(i, j) == b.in_subtree(i, j),
        decreases a.len_spec() - i,
    {
        assert(a.entry_ok(i));
        assert(b.entry_ok(i));
        if a.in_subtree(i, j) && i != j {
            let m = choose|m: int|
                0 <= m < a.children_spec(i).len() && a.in_subtree(
                    #[trigger] a.children_spec(i)[m] as int,
                    j,
                );
            Tree::lemma_subtree_congruence(a, b, a.children_spec(i)[m] as int, j);
            assert(b.in_subtree(b.children_spec(i)[m] as int, j));
        }
        if b.in_subtree(i, j) && i != j {
            let m = choose|m: int|
                0 <= m < b.children_spec(i).len() && b.in_subtree(
                    #[trigger] b.children_spec(i)[m] as int,
                    j,
                );
            Tree::lemma_subtree_congruence(a, b, b.children_spec(i)[m] as int, j);
            assert(a.in_subtree(a.children_spec(i)[m] as int, j));
        }
    }

    /// As [`Tree::lemma_subtree_congruence`], for strict subtrees.
    pub proof fn lemma_strict_subtree_congruence(a: &Tree, b: &Tree, i: int, j: int)
        requires
            a.wf(),
            b.wf(),
            a.len_spec() == b.len_spec(),
            0 <= i < a.len_spec(),
            forall|x: int| 0 <= x < a.len_spec() ==> #[trigger] a.children_spec(x)
                == b.children_spec(x),
        ensures
            a.in_strict_subtree(i, j) == b.in_strict_subtree(i, j),
    {
        assert(a.entry_ok(i));
        if a.in_strict_subtree(i, j) {
            let m = choose|m: int|
                0 <= m < a.children_spec(i).len() && a.in_subtree(
                    #[trigger] a.children_spec(i)[m] as int,
                    j,
                );
            Tree::lemma_subtree_congruence(a, b, a.children_spec(i)[m] as int, j);
            assert(b.in_subtree(b.children_spec(i)[m] as int, j));
        }
        if b.in_strict_subtree(i, j) {
            let m = choose|m: int|
                0 <= m < b.children_spec(i).len() && b.in_subtree(
                    #[trigger] b.children_spec(i)[m] as int,
                    j,
                );
            Tree::lemma_subtree_congruence(a, b, b.children_spec(i)[m] as int, j);
            assert(a.in_subtree(a.children_spec(i)[m] as int, j));
        }
    }

    /// A node of a child's subtree is a strict descendant.
    pub proof fn lemma_subtree_step(&self, i: int, m: int, j: int)
        requires
            self.wf(),
            0 <= i < self.len_spec(),
            0 <= m < self.children_spec(i).len(),
            self.in_subtree(self.children_spec(i)[m] as int, j),
        ensures
            self.in_strict_subtree(i, j),
    {
    }

    /// A strict descendant reached through `i` lies in some child's subtree;
    /// this unfolds [`Tree::in_subtree`] one step.
    pub proof fn lemma_subtree_unfold(&self, i: int, j: int)
        requires
            self.wf(),
            0 <= i < self.len_spec(),
            self.in_subtree(i, j),
            i != j,
        ensures
            self.in_strict_subtree(i, j),
    {
        assert(self.entry_ok(i));
        let m = choose|m: int|
            0 <= m < self.children_spec(i).len() && self.in_subtree(
                #[trigger] self.children_spec(i)[m] as int,
                j,
            );
        self.lemma_subtree_step(i, m, j);
    }

    /// Pushes the visibility mode of `w` down to every strict descendant,
    /// overwriting whatever mode each held; nothing else of any node
    /// changes.
    pub fn propagate_visibility(&mut self, w: u64)
        requires
            old(self).wf(),
            old(self).valid_id(w),
            old(self).all_available(),
        ensures
            final(self).wf(),
            final(self).all_available(),
            final(self).len_spec() == old(self).len_spec(),
            forall|j: int|
                0 <= j < old(self).len_spec() ==> #[trigger] Tree::entry_same_but_common(
                    old(self),
                    final(self),
                    j,
                ) && final(self).available(j) == old(self).available(j),
            forall|j: int|
                0 <= j < old(self).len_spec() && old(self).in_strict_subtree(w as int, j)
                    ==> crate::node::Common::same_but_visibility(
                    old(self).node(j),
                    #[trigger] final(self).node(j),
                ) && final(self).node(j).visible_spec() == old(self).node(
                    w as int,
                ).visible_spec() && final(self).node(j).updates_spec() == old(self).node(
                    j,
                ).updates_spec(),
            forall|j: int|
                0 <= j < old(self).len_spec() && !old(self).in_strict_subtree(w as int, j)
                    ==> #[trigger] final(self).node(j) == old(self).node(j),
        decreases old(self).len_spec() - w as int,
    {
        proof {
            assert(self.entry_ok(w as int));
            assert(self.available(w as int));
        }
        let v = match &self.entries[w as usize].common {
            Some(c) => c.visible(),
            None => Visibility::All,
        };
        let list_len = self.entries[w as usize].children.len();
        let mut k: usize = 0;
        while k < list_len
            invariant
                self.wf(),
                self.all_available(),
                old(self).wf(),
                old(self).valid_id(w),
                old(self).all_available(),
                self.len_spec() == old(self).len_spec(),
                k <= list_len,
                list_len as int == old(self).children_spec(w as int).len(),
                v == old(self).node(w as int).visible_spec(),
                forall|j: int|
                    0 <= j < old(self).len_spec() ==> #[trigger] Tree::entry_same_but_common(
                        old(self),
                        self,
                        j,
                    ) && self.available(j) == old(self).available(j),
                forall|j: int|
                    0 <= j < old(self).len_spec() && old(self).subtree_prefix(w as int, k as int, j)
                        ==> crate::node::Common::same_but_visibility(
                        old(self).node(j),
                        #[trigger] self.node(j),
                    ) && self.node(j).visible_spec() == v && self.node(j).updates_spec() == old(
                        self,
                    ).node(j).updates_spec(),
                forall|j: int|
                    0 <= j < old(self).len_spec() && !old(self).subtree_prefix(w as int, k as int, j)
                        ==> #[trigger] self.node(j) == old(self).node(j),
            decreases list_len - k,
        {
            proof {
                assert(old(self).entry_ok(w as int));
                assert(Tree::entry_same_but_common(old(self), self, w as int));
            }
            let ghost pre_iter: Tree = *self;
            let c = self.entries[w as usize].children[k];
            proof {
                assert(old(self).children_spec(w as int)[k as int] == c);
                assert((w as int) < c as int && (c as int) < old(self).len_spec());
                assert(self.available(c as int));
            }
            let mut com = self.entries[c as usize].common.take().unwrap();
            com.set_visible(v);
            self.entries[c as usize].common = Some(com);
            proof {
                let mid = self;
                assert forall|j: int| 0 <= j < mid.len_spec() implies #[trigger] mid.entry_ok(
                    j,
                ) by {
                    assert(pre_iter.entry_ok(j));
                    assert(mid.children_spec(j) == pre_iter.children_spec(j));
                    assert(mid.parent_link(j) == pre_iter.parent_link(j));
                    if j != c as int {
                        assert(Tree::entry_same(&pre_iter, mid, j));
                    }
                };
                assert forall|j: int| 0 <= j < mid.len_spec() implies #[trigger] mid.available(
                    j,
                ) by {
                    if j != c as int {
                        assert(Tree::entry_same(&pre_iter, mid, j));
                        assert(pre_iter.available(j));
                    }
                };
                assert forall|x: int|
                    0 <= x < mid.len_spec() implies #[trigger] Tree::entry_same_but_common(
                    &pre_iter,
                    mid,
                    x,
                ) by {
                    if x != c as int {
                        assert(Tree::entry_same(&pre_iter, mid, x));
                    }
                };
                assert(mid.node(c as int).visible_spec() == v);
                assert(crate::node::Common::same_but_visibility(
                    pre_iter.node(c as int),
                    mid.node(c as int),
                ));
            }
            let ghost pre_rec: Tree = *self;
            self.propagate_visibility(c);
            proof {
                let post = self;
                let pre = old(self);
                // the structure never changed between any two of the states,
                // so the subtree predicates coincide on all of them
                assert forall|x: int| 0 <= x < pre.len_spec() implies #[trigger] pre.children_spec(
                    x,
                ) == pre_rec.children_spec(x) by {
                    assert(Tree::entry_same_but_common(pre, &pre_iter, x));
                    assert(Tree::entry_same_but_common(&pre_iter, &pre_rec, x));
                };
                assert forall|x: int| 0 <= x < pre.len_spec() implies #[trigger] pre.children_spec(
                    x,
                ) == post.children_spec(x) by {
                    assert(Tree::entry_same_but_common(&pre_rec, post, x));
                    assert(Tree::entry_same_but_common(pre, &pre_iter, x));
                    assert(Tree::entry_same_but_common(&pre_iter, &pre_rec, x));
                };
                // frame of the whole loop body
                assert forall|j: int|
                    0 <= j < pre.len_spec() implies #[trigger] Tree::entry_same_but_common(
                    pre,
                    post,
                    j,
                ) && post.available(j) == pre.available(j) by {
                    assert(Tree::entry_same_but_common(pre, &pre_iter, j));
                    assert(Tree::entry_same_but_common(&pre_iter, &pre_rec, j));
                    assert(Tree::entry_same_but_common(&pre_rec, post, j));
                    assert(pre_iter.available(j) == pre.available(j));
                    assert(pre_rec.available(j));
                    assert(post.available(j));
                };
                // visibility settled on the subtrees of children up to `k`
                assert forall|j: int|
                    0 <= j < pre.len_spec() && pre.subtree_prefix(
                        w as int,
                        k as int + 1,
                        j,
                    ) implies crate::node::Common::same_but_visibility(
                    pre.node(j),
                    #[trigger] post.node(j),
                ) && post.node(j).visible_spec() == v && post.node(j).updates_spec() == pre.node(
                    j,
                ).updates_spec() by {
                    let m = choose|m: int|
                        0 <= m < k as int + 1 && m < pre.children_spec(w as int).len()
                            && pre.in_subtree(#[trigger] pre.children_spec(w as int)[m] as int, j);
                    Tree::lemma_subtree_congruence(
                        pre,
                        &pre_rec,
                        pre.children_spec(w as int)[m] as int,
                        j,
                    );
                    if m < k as int {
                        // handled before this iteration; the recursive call
                        // touched only the subtree of `c`
                        assert(pre.subtree_prefix(w as int, k as int, j));
                        if pre_rec.in_strict_subtree(c as int, j) {
                            assert(pre_rec.node(c as int).visible_spec() == v);
                        } else {
                            assert(post.node(j) == pre_rec.node(j));
                            assert(pre_iter.node(j).visible_spec() == v);
                        }
                    } else {
                        // `j` lies in the subtree of `c`
                        assert(pre.in_subtree(c as int, j));
                        assert(pre_rec.in_subtree(c as int, j));
                        if j == c as int {
                            if pre_rec.in_strict_subtree(c as int, j) {
                                assert(pre_rec.node(c as int).visible_spec() == v);
                            } else {
                                assert(post.node(j) == pre_rec.node(j));
                            }
                        } else {
                            pre_rec.lemma_subtree_unfold(c as int, j);
                            assert(pre_rec.in_strict_subtree(c as int, j));
                            assert(pre_rec.node(c as int).visible_spec() == v);
                        }
                    }
                };
                // nodes under no processed child are untouched
                assert forall|j: int|
                    0 <= j < pre.len_spec() && !pre.subtree_prefix(
                        w as int,
                        k as int + 1,
                        j,
                    ) implies #[trigger] post.node(j) == pre.node(j) by {
                    assert(!pre.subtree_prefix(w as int, k as int, j));
                    assert(pre_iter.node(j) == pre.node(j));
                    assert(pre.children_spec(w as int)[k as int] == c);
                    assert(!pre.in_subtree(c as int, j));
                    assert(j != c as int);
                    assert(pre_rec.node(j) == pre.node(j));
                    Tree::lemma_subtree_congruence(pre, &pre_rec, c as int, j);
                    assert(!pre_rec.in_subtree(c as int, j));
                    assert(!pre_rec.in_strict_subtree(c as int, j)) by {
                        assert(pre_rec.entry_ok(c as int));
                        if pre_rec.in_strict_subtree(c as int, j) {
                            assert(pre_rec.in_subtree(c as int, j));
                        }
                    };
                    assert(post.node(j) == pre_rec.node(j));
                };
            }
            k = k + 1;
        }
        proof {
            let post = self;
            let pre = old(self);
            assert forall|j: int|
                0 <= j < pre.len_spec() && pre.in_strict_subtree(w as int, j)
                    implies pre.subtree_prefix(w as int, list_len as int, j) by {};
            assert forall|j: int|
                0 <= j < pre.len_spec() && !pre.in_strict_subtree(w as int, j)
                    implies !pre.subtree_prefix(w as int, list_len as int, j) by {};
        }
    }


    /// Pushes a pending repaint of `w` down to its direct children (never
    /// up, and not further down): each child's repaint flag is set exactly
    /// when `w`'s was pending.
    pub fn propagate_repaint(&mut self, w: u64)
        requires
            old(self).wf(),
            old(self).valid_id(w),
            old(self).all_available(),
        ensures
            final(self).wf(),
            final(self).all_available(),
            final(self).len_spec() == old(self).len_spec(),
            forall|j: int|
                0 <= j < old(self).len_spec() ==> #[trigger] Tree::entry_same_but_common(
                    old(self),
                    final(self),
                    j,
                ) && final(self).available(j) == old(self).available(j),
            !old(self).node(w as int).cmds_spec().will_repaint_spec() ==> forall|j: int|
                0 <= j < old(self).len_spec() ==> #[trigger] final(self).node(j) == old(self).node(
                    j,
                ),
            old(self).node(w as int).cmds_spec().will_repaint_spec() ==> forall|j: int|
                0 <= j < old(self).len_spec() ==> {
                    let pre_node = old(self).node(j);
                    let post_node = #[trigger] final(self).node(j);
                    &&& (old(self).children_spec(w as int).contains(j as u64) ==> {
                        &&& crate::node::Common::same_but_geometry(pre_node, post_node)
                        &&& post_node.rect_spec() == pre_node.rect_spec()
                        &&& post_node.layout_spec() == pre_node.layout_spec()
                        &&& post_node.cmds_spec().will_repaint_spec()
                    })
                    &&& (!old(self).children_spec(w as int).contains(j as u64) ==> post_node
                        == pre_node)
                },
    {
        proof {
            assert(self.entry_ok(w as int));
            assert(self.available(w as int));
        }
        let pending = match &self.entries[w as usize].common {
            Some(c) => c.will_repaint(),
            None => false,
        };
        if !pending {
            return ;
        }
        let list_len = self.entries[w as usize].children.len();
        let mut k: usize = 0;
        while k < list_len
            invariant
                self.wf(),
                self.all_available(),
                old(self).wf(),
                old(self).valid_id(w),
                old(self).all_available(),
                old(self).node(w as int).cmds_spec().will_repaint_spec(),
                self.len_spec() == old(self).len_spec(),
                k <= list_len,
                list_len as int == old(self).children_spec(w as int).len(),
                forall|j: int|
                    0 <= j < old(self).len_spec() ==> #[trigger] Tree::entry_same_but_common(
                        old(self),
                        self,
                        j,
                    ) && self.available(j) == old(self).available(j),
                forall|j: int|
                    0 <= j < old(self).len_spec() && (exists|m: int|
                        0 <= m < k as int && old(self).children_spec(w as int)[m] == j as u64) ==> {
                        &&& crate::node::Common::same_but_geometry(
                            old(self).node(j),
                            #[trigger] self.node(j),
                        )
                        &&& self.node(j).rect_spec() == old(self).node(j).rect_spec()
                        &&& self.node(j).layout_spec() == old(self).node(j).layout_spec()
                        &&& self.node(j).cmds_spec().will_repaint_spec()
                    },
                forall|j: int|
                    0 <= j < old(self).len_spec() && !(exists|m: int|
                        0 <= m < k as int && old(self).children_spec(w as int)[m] == j as u64)
                        ==> #[trigger] self.node(j) == old(self).node(j),
            decreases list_len - k,
        {
            proof {
                assert(old(self).entry_ok(w as int));
                assert(Tree::entry_same_but_common(old(self), self, w as int));
            }
            let ghost pre_iter: Tree = *self;
            let c = self.entries[w as usize].children[k];
            proof {
                assert(old(self).children_spec(w as int)[k as int] == c);
                assert((w as int) < c as int && (c as int) < old(self).len_spec());
                assert(self.available(c as int));
            }
            let mut com = self.entries[c as usize].common.take().unwrap();
            com.repaint();
            self.entries[c as usize].common = Some(com);
            proof {
                let mid = self;
                assert forall|j: int| 0 <= j < mid.len_spec() implies #[trigger] mid.entry_ok(
                    j,
                ) by {
                    assert(pre_iter.entry_ok(j));
                    assert(mid.children_spec(j) == pre_iter.children_spec(j));
                    assert(mid.parent_link(j) == pre_iter.parent_link(j));
                    if j != c as int {
                        assert(Tree::entry_same(&pre_iter, mid, j));
                    }
                };
                assert forall|j: int| 0 <= j < mid.len_spec() implies #[trigger] mid.available(
                    j,
                ) by {
                    if j != c as int {
                        assert(Tree::entry_same(&pre_iter, mid, j));
                        assert(pre_iter.available(j));
                    }
                };
                assert forall|x: int|
                    0 <= x < mid.len_spec() implies #[trigger] Tree::entry_same_but_common(
                    old(self),
                    mid,
                    x,
                ) by {
                    assert(Tree::entry_same_but_common(old(self), &pre_iter, x));
                    if x != c as int {
                        assert(Tree::entry_same(&pre_iter, mid, x));
                    }
                };
                assert forall|j: int|
                    0 <= j < old(self).len_spec() && (exists|m: int|
                        0 <= m < k as int + 1 && old(self).children_spec(w as int)[m]
                            == j as u64) implies {
                    &&& crate::node::Common::same_but_geometry(
                        old(self).node(j),
                        #[trigger] self.node(j),
                    )
                    &&& self.node(j).rect_spec() == old(self).node(j).rect_spec()
                    &&& self.node(j).layout_spec() == old(self).node(j).layout_spec()
                    &&& self.node(j).cmds_spec().will_repaint_spec()
                } by {
                    let m = choose|m: int|
                        0 <= m < k as int + 1 && old(self).children_spec(w as int)[m] == j as u64;
                    if j == c as int {
                        assert(crate::node::Common::same_but_geometry(
                            pre_iter.node(j),
                            mid.node(j),
                        ));
                        if exists|m2: int|
                            0 <= m2 < k as int && old(self).children_spec(w as int)[m2]
                                == j as u64 {
                            assert(crate::node::Common::same_but_geometry(
                                old(self).node(j),
                                pre_iter.node(j),
                            ));
                        } else {
                            assert(pre_iter.node(j) == old(self).node(j));
                        }
                    } else {
                        assert(m < k as int);
                        assert(exists|m2: int|
                            0 <= m2 < k as int && old(self).children_spec(w as int)[m2]
                                == j as u64);
                        assert(Tree::entry_same(&pre_iter, mid, j));
                        assert(mid.node(j) == pre_iter.node(j));
                    }
                };
                assert forall|j: int|
                    0 <= j < old(self).len_spec() && !(exists|m: int|
                        0 <= m < k as int + 1 && old(self).children_spec(w as int)[m]
                            == j as u64) implies #[trigger] mid.node(j) == old(self).node(j) by {
                    assert(!(exists|m2: int|
                        0 <= m2 < k as int && old(self).children_spec(w as int)[m2] == j as u64));
                    assert(j != c as int);
                    assert(Tree::entry_same(&pre_iter, mid, j));
                    assert(pre_iter.node(j) == old(self).node(j));
                };
            }
            k = k + 1;
        }
    }
}


/// When the visitor stops: never, entirely on the first match, or only
/// skipping a matched node's children.
#[derive(Clone, Copy, Debug, PartialEq, Eq, Structural)]
pub enum VisitorBreakpoint {
    /// The visitor walks every widget, including the children of visited
    /// widgets.
    Never,
    /// The visitor returns entirely on the first visit.
    FirstVisit,
    /// The visitor walks every widget, but not the children of visited
    /// widgets.
    EachVisit,
}

impl Tree {
    /// The nodes of kind `kind` in the subtree under `i` (excluding `i`), in
    /// depth-first order, each matched node before its own children.
    pub open spec fn visit_all_spec(&self, i: int, kind: u64) -> Seq<u64>
        decreases self.len_spec() - i, 1int, 0int,
            when self.wf() && 0 <= i < self.len_spec()
    {
        self.visit_all_children(i, 0, kind)
    }

    /// As [`Tree::visit_all_spec`], over the children of `i` from position
    /// `k` on.
    pub open spec fn visit_all_children(&self, i: int, k: int, kind: u64) -> Seq<u64>
        decreases self.len_spec() - i, 0int, self.children_spec(i).len() - k,
            when self.wf() && 0 <= i < self.len_spec() && 0 <= k <= self.children_spec(i).len()
            via Self::visit_all_children_decreases
    {
        if k >= self.children_spec(i).len() {
            Seq::empty()
        } else {
            let c = self.children_spec(i)[k];
            (if self.kind_spec(c as int) == kind {
                seq![c]
            } else {
                Seq::empty()
            }) + self.visit_all_spec(c as int, kind) + self.visit_all_children(i, k + 1, kind)
        }
    }

    #[via_fn]
    proof fn visit_all_children_decreases(&self, i: int, k: int, kind: u64) {
        assert(self.entry_ok(i));
    }

    /// The nodes of kind `kind` under `i`, in depth-first order, where the
    /// children of a matched node are not searched.
    pub open spec fn visit_skip_spec(&self, i: int, kind: u64) -> Seq<u64>
        decreases self.len_spec() - i, 1int, 0int,
            when self.wf() && 0 <= i < self.len_spec()
    {
        self.visit_skip_children(i, 0, kind)
    }

    /// As [`Tree::visit_skip_spec`], over the children of `i` from position
    /// `k` on.
    pub open spec fn visit_skip_children(&self, i: int, k: int, kind: u64) -> Seq<u64>
        decreases self.len_spec() - i, 0int, self.children_spec(i).len() - k,
            when self.wf() && 0 <= i < self.len_spec() && 0 <= k <= self.children_spec(i).len()
            via Self::visit_skip_children_decreases
    {
        if k >= self.children_spec(i).len() {
            Seq::empty()
        } else {
            let c = self.children_spec(i)[k];
            (if self.kind_spec(c as int) == kind {
                seq![c]
            } else {
                self.visit_skip_spec(c as int, kind)
            }) + self.visit_skip_children(i, k + 1, kind)
        }
    }

    #[via_fn]
    proof fn visit_skip_children_decreases(&self, i: int, k: int, kind: u64) {
        assert(self.entry_ok(i));
    }

    /// Appends the full visiting order under `i` to `out`.
    fn visit_all_rec(&self, i: u64, kind: u64, out: &mut Vec<u64>)
        requires
            self.wf(),
            self.valid_id(i),
        ensures
            final(out)@ == old(out)@ + self.visit_all_spec(i as int, kind),
        decreases self.len_spec() - i as int,
    {
        proof {
            assert(self.entry_ok(i as int));
        }
        let list_len = self.entries[i as usize].children.len();
        let mut k: usize = 0;
        while k < list_len
            invariant
                self.wf(),
                self.valid_id(i),
                k <= list_len,
                list_len as int == self.children_spec(i as int).len(),
                out@ + self.visit_all_children(i as int, k as int, kind) == old(out)@
                    + self.visit_all_children(i as int, 0, kind),
            decreases list_len - k,
        {
            proof {
                assert(self.entry_ok(i as int));
            }
            let c = self.entries[i as usize].children[k];
            let ghost prev = out@;
            let ghost matched: Seq<u64> = if self.kind_spec(c as int) == kind {
                seq![c]
            } else {
                Seq::empty()
            };
            if self.entries[c as usize].kind == kind {
                out.push(c);
            }
            proof {
                assert(out@ =~= prev + matched);
            }
            let ghost prev2 = out@;
            self.visit_all_rec(c, kind, out);
            proof {
                assert(self.visit_all_children(i as int, k as int, kind) == (matched
                    + self.visit_all_spec(c as int, kind)) + self.visit_all_children(
                    i as int,
                    k as int + 1,
                    kind,
                ));
                assert(out@ + self.visit_all_children(i as int, k as int + 1, kind) =~= prev
                    + self.visit_all_children(i as int, k as int, kind));
            }
            k = k + 1;
        }
        proof {
            assert(self.visit_all_children(i as int, list_len as int, kind) =~= Seq::<
                u64,
            >::empty());
            assert(out@ =~= old(out)@ + self.visit_all_spec(i as int, kind));
        }
    }

    /// Appends the skipping visiting order under `i` to `out`.
    fn visit_skip_rec(&self, i: u64, kind: u64, out: &mut Vec<u64>)
        requires
            self.wf(),
            self.valid_id(i),
        ensures
            final(out)@ == old(out)@ + self.visit_skip_spec(i as int, kind),
        decreases self.len_spec() - i as int,
    {
        proof {
            assert(self.entry_ok(i as int));
        }
        let list_len = self.entries[i as usize].children.len();
        let mut k: usize = 0;
        while k < list_len
            invariant
                self.wf(),
                self.valid_id(i),
                k <= list_len,
                list_len as int == self.children_spec(i as int).len(),
                out@ + self.visit_skip_children(i as int, k as int, kind) == old(out)@
                    + self.visit_skip_children(i as int, 0, kind),
            decreases list_len - k,
        {
            proof {
                assert(self.entry_ok(i as int));
            }
            let c = self.entries[i as usize].children[k];
            let ghost prev = out@;
            if self.entries[c as usize].kind == kind {
                out.push(c);
                proof {
                    assert(out@ =~= prev + seq![c]);
                }
            } else {
                self.visit_skip_rec(c, kind, out);
            }
            proof {
                assert(self.visit_skip_children(i as int, k as int, kind) == (if self.kind_spec(
                    c as int,
                ) == kind {
                    seq![c]
                } else {
                    self.visit_skip_spec(c as int, kind)
                }) + self.visit_skip_children(i as int, k as int + 1, kind));
                assert(out@ + self.visit_skip_children(i as int, k as int + 1, kind) =~= prev
                    + self.visit_skip_children(i as int, k as int, kind));
            }
            k = k + 1;
        }
        proof {
            assert(self.visit_skip_children(i as int, list_len as int, kind) =~= Seq::<
                u64,
            >::empty());
            assert(out@ =~= old(out)@ + self.visit_skip_spec(i as int, kind));
        }
    }

    /// Visits every widget under `root` (never `root` itself) in depth-first
    /// order and returns the ones whose kind tag matches `kind`, honouring
    /// the breakpoint policy: all matches, only the first match, or all
    /// matches outside the subtrees of matched nodes.
    pub fn visit(&self, root: u64, kind: u64, breakpoint: VisitorBreakpoint) -> (r: Vec<u64>)
        requires
            self.wf(),
            self.valid_id(root),
        ensures
            breakpoint == VisitorBreakpoint::Never ==> r@ == self.visit_all_spec(
                root as int,
                kind,
            ),
            breakpoint == VisitorBreakpoint::EachVisit ==> r@ == self.visit_skip_spec(
                root as int,
                kind,
            ),
            breakpoint == VisitorBreakpoint::FirstVisit ==> r@ == (if self.visit_all_spec(
                root as int,
                kind,
            ).len() == 0 {
                Seq::<u64>::empty()
            } else {
                self.visit_all_spec(root as int, kind).take(1)
            }),
    {
        match breakpoint {
            VisitorBreakpoint::Never => {
                let mut out: Vec<u64> = Vec::new();
                self.visit_all_rec(root, kind, &mut out);
                proof {
                    assert(out@ =~= self.visit_all_spec(root as int, kind));
                }
                out
            },
            VisitorBreakpoint::EachVisit => {
                let mut out: Vec<u64> = Vec::new();
                self.visit_skip_rec(root, kind, &mut out);
                proof {
                    assert(out@ =~= self.visit_skip_spec(root as int, kind));
                }
                out
            },
            VisitorBreakpoint::FirstVisit => {
                let mut all: Vec<u64> = Vec::new();
                self.visit_all_rec(root, kind, &mut all);
                proof {
                    assert(all@ =~= self.visit_all_spec(root as int, kind));
                }
                let mut out: Vec<u64> = Vec::new();
                if all.len() > 0 {
                    out.push(all[0]);
                    proof {
                        assert(out@ =~= self.visit_all_spec(root as int, kind).take(1));
                    }
                }
                out
            },
        }
    }

    /// Traversal depends only on structure: two trees with the same length
    /// and the same child lists have the same update order everywhere.
    pub proof fn lemma_update_order_structural(a: &Tree, b: &Tree, i: int)
        requires
            a.wf(),
            b.wf(),
            a.len_spec() == b.len_spec(),
            0 <= i < a.len_spec(),
            forall|x: int| 0 <= x < a.len_spec() ==> #[trigger] a.children_spec(x)
                == b.children_spec(x),
        ensures
            a.update_order_spec(i) == b.update_order_spec(i),
        decreases a.len_spec() - i, 1int,
    {
        assert(a.entry_ok(i));
        assert(b.entry_ok(i));
        Tree::lemma_update_order_children_structural(
            a,
            b,
            i,
            a.children_spec(i).len() as int,
        );
    }

    /// As [`Tree::lemma_update_order_structural`], for child prefixes.
    pub proof fn lemma_update_order_children_structural(a: &Tree, b: &Tree, i: int, k: int)
        requires
            a.wf(),
            b.wf(),
            a.len_spec() == b.len_spec(),
            0 <= i < a.len_spec(),
            0 <= k <= a.children_spec(i).len(),
            forall|x: int| 0 <= x < a.len_spec() ==> #[trigger] a.children_spec(x)
                == b.children_spec(x),
        ensures
            a.update_order_children(i, k) == b.update_order_children(i, k),
        decreases a.len_spec() - i, 0int, k,
    {
        assert(a.entry_ok(i));
        assert(b.entry_ok(i));
        if k > 0 {
            Tree::lemma_update_order_structural(a, b, a.children_spec(i)[k - 1] as int);
            Tree::lemma_update_order_children_structural(a, b, i, k - 1);
        }
    }
}

/// Detach safety: releasing the last owning handle of a node — taking the
/// tree from `pre` to `post` — only marks it for detachment. The node stays
/// in its parent's child list, and a traversal already under way is not
/// disturbed: the update order of every subtree is exactly as before.
/// Removal is observed only after a later [`Tree::sweep`].
pub proof fn lemma_detach_safety(pre: Tree, post: Tree, id: u64, root: int)
    requires
        pre.wf(),
        post.wf(),
        pre.valid_id(id),
        pre.strong_spec(id as int) == 1,
        !pre.is_marked(id as int),
        Tree::release_claims(pre, post, id),
        0 <= root < pre.len_spec(),
    ensures
        // the node is marked for detachment
        post.is_marked(id as int),
        // it is still live and still in its parent's child list
        post.is_live(id as int) == pre.is_live(id as int),
        (match pre.parent_link(id as int) {
            Some(p) => post.children_spec(p as int) == pre.children_spec(p as int),
            None => true,
        }),
        // and the traversal order of any subtree is undisturbed
        post.update_order_spec(root) == pre.update_order_spec(root),
{
    assert(pre.entry_ok(id as int));
    assert forall|x: int| 0 <= x < pre.len_spec() implies #[trigger] pre.children_spec(x)
        == post.children_spec(x) by {
        if x != id as int {
            assert(Tree::entry_same(&pre, &post, x));
        }
    };
    match pre.parent_link(id as int) {
        Some(p) => {
            assert(pre.children_spec(p as int) == post.children_spec(p as int));
        },
        None => {},
    }
    Tree::lemma_update_order_structural(&pre, &post, root);
}

} // verus!
