//! Single-claim event arbitration.
//!
//! A [`ConsumableEvent`] wraps an immutable payload together with a consumed
//! flag. When several overlapping widgets could react to the same physical
//! input, only the first to claim the event (in query order) receives the
//! payload from [`ConsumableEvent::with`]; every later claim observes
//! "already consumed". The raw payload stays readable without consuming
//! through [`ConsumableEvent::get`] — arbitration is advisory, not enforced.

use vstd::prelude::*;

verus! {

/// Event data that can be "consumed": the payload plus a consumed flag that
/// moves from unconsumed to consumed exactly once.
pub struct ConsumableEvent<T> {
    data: T,
    consumed: bool,
}

/// One claim attempt at spec level: from the consumed flag before the
/// attempt and whether the caller's predicate approved the payload, the pair
/// (claim granted, consumed flag after).
pub open spec fn claim_step(consumed: bool, approved: bool) -> (bool, bool) {
    if !consumed && approved {
        (true, true)
    } else {
        (false, consumed)
    }
}

/// The claims granted to a run of attempts with the given predicate
/// approvals, starting from the given consumed flag.
pub open spec fn claims_of(consumed: bool, approvals: Seq<bool>) -> Seq<bool>
    decreases approvals.len(),
{
    if approvals.len() == 0 {
        Seq::empty()
    } else {
        let step = claim_step(consumed, approvals[0]);
        seq![step.0] + claims_of(step.1, approvals.skip(1))
    }
}

/// Single-claim arbitration: over any run of claim attempts on one
/// unconsumed event whose predicates all approve, exactly the first attempt
/// is granted the payload; every later attempt observes "already consumed"
/// and receives nothing.
pub proof fn lemma_single_claim(approvals: Seq<bool>)
    requires
        approvals.len() > 0,
        forall|i: int| 0 <= i < approvals.len() ==> approvals[i],
    ensures
        claims_of(false, approvals).len() == approvals.len(),
        claims_of(false, approvals)[0],
        forall|i: int| 0 < i < approvals.len() ==> !(#[trigger] claims_of(false, approvals)[i]),
{
    lemma_consumed_claims_nothing(approvals.skip(1));
    let rest = claims_of(true, approvals.skip(1));
    assert forall|i: int| 0 < i < approvals.len() implies !(#[trigger] claims_of(
        false,
        approvals,
    )[i]) by {
        assert(claims_of(false, approvals)[i] == rest[i - 1]);
    };
}

/// A consumed event grants no claim, whatever the predicates say.
pub proof fn lemma_consumed_claims_nothing(approvals: Seq<bool>)
    ensures
        claims_of(true, approvals).len() == approvals.len(),
        forall|i: int| 0 <= i < approvals.len() ==> !(#[trigger] claims_of(true, approvals)[i]),
    decreases approvals.len(),
{
    if approvals.len() > 0 {
        lemma_consumed_claims_nothing(approvals.skip(1));
        let rest = claims_of(true, approvals.skip(1));
        assert forall|i: int| 0 <= i < approvals.len() implies !(#[trigger] claims_of(
            true,
            approvals,
        )[i]) by {
            if i > 0 {
                assert(claims_of(true, approvals)[i] == rest[i - 1]);
            }
        };
    }
}

impl<T> ConsumableEvent<T> {
    /// The payload.
    pub closed spec fn data_spec(&self) -> T {
        self.data
    }

    /// Whether the event has been consumed.
    pub closed spec fn consumed_spec(&self) -> bool {
        self.consumed
    }

    /// Creates an unconsumed event, initialized with `val`.
    pub fn new(val: T) -> (r: ConsumableEvent<T>)
        ensures
            r.data_spec() == val,
            !r.consumed_spec(),
    {
        ConsumableEvent { data: val, consumed: false }
    }

    /// Returns the event payload exactly when **both** hold: the event has
    /// not been consumed yet, and `pred` approves the payload — and then
    /// marks the event consumed. The predicate lets the caller check whether
    /// the event applies to them before consuming needlessly.
    ///
    /// The outcome follows [`claim_step`]: the claim is granted exactly on
    /// an unconsumed event with an approving predicate, and only a granted
    /// claim flips the consumed flag.
    pub fn with<F: Fn(&T) -> bool>(&mut self, pred: F) -> (r: Option<&T>)
        requires
            call_requires(pred, (&old(self).data_spec(),)),
        ensures
            final(self).data_spec() == old(self).data_spec(),
            r matches Some(d) ==> {
                &&& *d == old(self).data_spec()
                &&& !old(self).consumed_spec()
                &&& final(self).consumed_spec()
                &&& call_ensures(pred, (&old(self).data_spec(),), true)
            },
            r is None ==> {
                &&& final(self).consumed_spec() == old(self).consumed_spec()
                &&& (old(self).consumed_spec() || call_ensures(
                    pred,
                    (&old(self).data_spec(),),
                    false,
                ))
            },
    {
        if !self.consumed && pred(&self.data) {
            self.consumed = true;
            Some(&self.data)
        } else {
            None
        }
    }

    /// Returns the inner event payload regardless of consumption. This
    /// intentionally escapes the arbitration, for callers that need the data
    /// unconditionally.
    pub fn get(&self) -> (r: &T)
        ensures
            *r == self.data_spec(),
    {
        &self.data
    }
}

} // verus!
