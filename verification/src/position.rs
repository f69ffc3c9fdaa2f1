//! Positions resolved against the ancestor chain.
//!
//! A node's rectangle is relative to its parent. The absolute position is
//! recomputed on every read by walking the parent links to the root and
//! summing offsets (each step clamped into the coordinate range), so
//! correctness survives arbitrary mutation between reads. `find_parent`
//! walks the same chain with a caller-supplied predicate.

use vstd::prelude::*;

use crate::geom::{clamp_coord, sat_add, sat_sub, Point, Rect};
use crate::node::Common;
use crate::tree::{CommonRef, Tree};

verus! {

impl Tree {
    /// The absolute `x` of node `i`: its own offset added (with clamping)
    /// onto the parent's absolute position; the parent link is resolved with
    /// the read-time liveness check.
    pub open spec fn absolute_x_spec(&self, i: int) -> int
        decreases i,
            when self.wf() && 0 <= i < self.len_spec()
            via Self::absolute_x_decreases
    {
        match self.effective_parent(i) {
            Some(p) => clamp_coord(
                self.absolute_x_spec(p as int) + self.node(i).rect_spec().origin.x,
            ),
            None => self.node(i).rect_spec().origin.x as int,
        }
    }

    #[via_fn]
    proof fn absolute_x_decreases(&self, i: int) {
        assert(self.entry_ok(i));
    }

    /// The absolute `y` of node `i`.
    pub open spec fn absolute_y_spec(&self, i: int) -> int
        decreases i,
            when self.wf() && 0 <= i < self.len_spec()
            via Self::absolute_y_decreases
    {
        match self.effective_parent(i) {
            Some(p) => clamp_coord(
                self.absolute_y_spec(p as int) + self.node(i).rect_spec().origin.y,
            ),
            None => self.node(i).rect_spec().origin.y as int,
        }
    }

    #[via_fn]
    proof fn absolute_y_decreases(&self, i: int) {
        assert(self.entry_ok(i));
    }

    /// Returns the position of the node relative to the window, summing
    /// offsets up the ancestor chain.
    pub fn absolute_position(&self, id: u64) -> (r: Point)
        requires
            self.wf(),
            self.valid_id(id),
            self.all_available(),
        ensures
            r.x as int == self.absolute_x_spec(id as int),
            r.y as int == self.absolute_y_spec(id as int),
        decreases id,
    {
        proof {
            assert(self.entry_ok(id as int));
            assert(self.available(id as int));
        }
        let own = match &self.entries[id as usize].common {
            Some(c) => c.position(),
            None => Point::new(0, 0),
        };
        match self.parent_of(id) {
            Some(p) => {
                let base = self.absolute_position(p.id());
                Point::new(sat_add(base.x, own.x), sat_add(base.y, own.y))
            },
            None => own,
        }
    }

    /// Returns the node's rectangle, positioned relative to the window.
    pub fn absolute_rect(&self, id: u64) -> (r: Rect)
        requires
            self.wf(),
            self.valid_id(id),
            self.all_available(),
        ensures
            r.origin.x as int == self.absolute_x_spec(id as int),
            r.origin.y as int == self.absolute_y_spec(id as int),
            r.size == self.node(id as int).rect_spec().size,
    {
        proof {
            assert(self.available(id as int));
        }
        let pos = self.absolute_position(id);
        let size = match &self.entries[id as usize].common {
            Some(c) => c.size(),
            None => crate::geom::Size::new(0, 0),
        };
        Rect::new(pos, size)
    }

    /// Sets the node's position from an absolute point: the offset relative
    /// to the parent's absolute position is stored (clamped), and the
    /// rectangle mutation flags a repaint and recomputes the layout-driven
    /// size, as every geometry mutator does.
    pub fn set_absolute_position(&mut self, id: u64, position: Point)
        requires
            old(self).wf(),
            old(self).valid_id(id),
            old(self).all_available(),
        ensures
            final(self).wf(),
            final(self).all_available(),
            final(self).len_spec() == old(self).len_spec(),
            forall|j: int|
                0 <= j < old(self).len_spec() ==> #[trigger] Tree::entry_same_but_common(
                    old(self),
                    final(self),
                    j,
                ) && final(self).available(j) == old(self).available(j),
            forall|j: int|
                0 <= j < old(self).len_spec() && j != id as int ==> #[trigger] final(self).node(j)
                    == old(self).node(j),
            Common::geometry_mutated(
                old(self).node(id as int),
                final(self).node(id as int),
                Rect {
                    origin: final(self).node(id as int).rect_spec().origin,
                    size: old(self).node(id as int).rect_spec().size,
                },
            ),
            final(self).node(id as int).rect_spec().origin.x as int == (match old(
                self,
            ).effective_parent(id as int) {
                Some(p) => clamp_coord(position.x - old(self).absolute_x_spec(p as int)),
                None => position.x as int,
            }),
            final(self).node(id as int).rect_spec().origin.y as int == (match old(
                self,
            ).effective_parent(id as int) {
                Some(p) => clamp_coord(position.y - old(self).absolute_y_spec(p as int)),
                None => position.y as int,
            }),
    {
        let target = match self.parent_of(id) {
            Some(p) => {
                let base = self.absolute_position(p.id());
                Point::new(sat_sub(position.x, base.x), sat_sub(position.y, base.y))
            },
            None => position,
        };
        proof {
            assert(self.available(id as int));
        }
        let mut com = self.entries[id as usize].common.take().unwrap();
        com.set_position(target);
        self.entries[id as usize].common = Some(com);
        proof {
            let post = self;
            let pre = old(self);
            assert forall|j: int| 0 <= j < post.len_spec() implies #[trigger] post.entry_ok(j) by {
                assert(pre.entry_ok(j));
                assert(post.children_spec(j) == pre.children_spec(j));
                assert(post.parent_link(j) == pre.parent_link(j));
                if j != id as int {
                    assert(Tree::entry_same(pre, post, j));
                }
            };
            assert forall|j: int| 0 <= j < post.len_spec() implies #[trigger] post.available(
                j,
            ) by {
                if j != id as int {
                    assert(Tree::entry_same(pre, post, j));
                }
            };
        }
    }

    /// The ancestor chain of `i`: the effective parent, then its effective
    /// parent, and so on up to a root.
    pub open spec fn ancestors_spec(&self, i: int) -> Seq<u64>
        decreases i,
            when self.wf() && 0 <= i < self.len_spec()
            via Self::ancestors_decreases
    {
        match self.effective_parent(i) {
            Some(p) => seq![p] + self.ancestors_spec(p as int),
            None => Seq::empty(),
        }
    }

    #[via_fn]
    proof fn ancestors_decreases(&self, i: int) {
        assert(self.entry_ok(i));
    }

    /// The ancestor chain of a node is shorter than its identity: every
    /// parent is older than its child.
    pub proof fn lemma_ancestors_len(&self, i: int)
        requires
            self.wf(),
            0 <= i < self.len_spec(),
        ensures
            self.ancestors_spec(i).len() <= i,
        decreases i,
    {
        assert(self.entry_ok(i));
        match self.effective_parent(i) {
            Some(p) => {
                self.lemma_ancestors_len(p as int);
            },
            None => {},
        }
    }

    /// Ancestors are valid, live nodes.
    pub proof fn lemma_ancestors_valid(&self, i: int, d: int)
        requires
            self.wf(),
            0 <= i < self.len_spec(),
            0 <= d < self.ancestors_spec(i).len(),
        ensures
            (self.ancestors_spec(i)[d] as int) < self.len_spec(),
            self.is_live(self.ancestors_spec(i)[d] as int),
        decreases i,
    {
        assert(self.entry_ok(i));
        match self.effective_parent(i) {
            Some(p) => {
                if d > 0 {
                    self.lemma_ancestors_valid(p as int, d - 1);
                }
            },
            None => {},
        }
    }

    /// Performs an upward search of the ancestors using `pred` and returns
    /// the first match, if any.
    ///
    /// The search walks at most `max_distance` ancestors (all of them for
    /// `None`) and never considers the node itself. The result is the first
    /// ancestor within range for which `pred` returned true; it is `None`
    /// exactly when `pred` returned false for every ancestor within range.
    pub fn find_parent<F: Fn(&Common) -> bool>(
        &self,
        id: u64,
        pred: F,
        max_distance: Option<usize>,
    ) -> (r: Option<CommonRef>)
        requires
            self.wf(),
            self.valid_id(id),
            self.all_available(),
            forall|c: &Common| #[trigger] call_requires(pred, (c,)),
        ensures
            ({
                let chain = self.ancestors_spec(id as int);
                let limit: int = match max_distance {
                    Some(d) => if d as int <= chain.len() {
                        d as int
                    } else {
                        chain.len() as int
                    },
                    None => chain.len() as int,
                };
                match r {
                    Some(found) => exists|d: int|
                        0 <= d < limit && #[trigger] chain[d] == found.id_spec() && call_ensures(
                            pred,
                            (&self.node(chain[d] as int),),
                            true,
                        ) && forall|e: int|
                            0 <= e < d ==> call_ensures(
                                pred,
                                (&self.node(#[trigger] chain[e] as int),),
                                false,
                            ),
                    None => forall|e: int|
                        0 <= e < limit ==> call_ensures(
                            pred,
                            (&self.node(#[trigger] chain[e] as int),),
                            false,
                        ),
                }
            }),
    {
        proof {
            self.lemma_ancestors_len(id as int);
        }
        let ghost chain = self.ancestors_spec(id as int);
        let ghost limit: int = match max_distance {
            Some(d) => if d as int <= chain.len() {
                d as int
            } else {
                chain.len() as int
            },
            None => chain.len() as int,
        };
        let mut current: u64 = id;
        let mut walked: usize = 0;
        loop
            invariant
                self.wf(),
                self.all_available(),
                self.valid_id(id),
                chain == self.ancestors_spec(id as int),
                limit == (match max_distance {
                    Some(d) => if d as int <= chain.len() {
                        d as int
                    } else {
                        chain.len() as int
                    },
                    None => chain.len() as int,
                }),
                forall|c: &Common| #[trigger] call_requires(pred, (c,)),
                self.valid_id(current),
                chain.len() <= id as int,
                walked as int <= chain.len(),
                match max_distance {
                    Some(d) => walked <= d,
                    None => true,
                },
                chain.skip(walked as int) == self.ancestors_spec(current as int),
                forall|e: int|
                    0 <= e < walked as int ==> call_ensures(
                        pred,
                        (&self.node(#[trigger] chain[e] as int),),
                        false,
                    ),
            decreases current,
        {
            match max_distance {
                Some(d) => {
                    if walked >= d {
                        return None;
                    }
                },
                None => {},
            }
            match self.parent_of(current) {
                Some(p) => {
                    proof {
                        assert(self.available(p.id_spec() as int));
                        assert(self.entry_ok(current as int));
                        assert(self.ancestors_spec(current as int) == seq![p.id_spec()]
                            + self.ancestors_spec(p.id_spec() as int));
                        assert(chain.skip(walked as int)[0] == p.id_spec());
                        assert(chain[walked as int] == p.id_spec());
                        assert((walked as int) < chain.len());
                    }
                    let matched = match &self.entries[p.id() as usize].common {
                        Some(c) => pred(c),
                        None => false,
                    };
                    if matched {
                        proof {
                            assert(call_ensures(
                                pred,
                                (&self.node(chain[walked as int] as int),),
                                true,
                            ));
                        }
                        return Some(p);
                    }
                    proof {
                        let w = walked as int;
                        let rest = self.ancestors_spec(p.id_spec() as int);
                        assert(chain.skip(w) == self.ancestors_spec(current as int));
                        assert(self.ancestors_spec(current as int) == seq![p.id_spec()] + rest);
                        assert(chain.skip(w + 1).len() == rest.len());
                        assert forall|t: int| 0 <= t < rest.len() implies chain.skip(w + 1)[t]
                            == rest[t] by {
                            assert(chain.skip(w + 1)[t] == chain[w + 1 + t]);
                            assert(chain.skip(w)[t + 1] == chain[w + t + 1]);
                            assert(chain.skip(w)[t + 1] == (seq![p.id_spec()] + rest)[t + 1]);
                        };
                        assert(chain.skip(w + 1) =~= rest);
                    }
                    current = p.id();
                    walked = walked + 1;
                },
                None => {
                    proof {
                        assert(self.entry_ok(current as int));
                        assert(self.ancestors_spec(current as int) =~= Seq::<u64>::empty());
                        assert(chain.skip(walked as int).len() == 0);
                        assert(walked as int == chain.len());
                    }
                    return None;
                },
            }
        }
    }
}

} // verus!
