//! Passive origin health and weighted origin selection for a route.

use rand::distributions::{Distribution, WeightedIndex};
use vstd::prelude::*;
use crate::route_store::Route;

verus! {

broadcast use vstd::std_specs::hash::group_hash_axioms;

/// Why no origin could be selected.
#[derive(Debug, Clone, Copy, PartialEq, Eq, Structural)]
pub enum SelectError {
    /// The route's origin group is empty (answered with 502).
    NoOrigins,
    /// Every eligible origin has weight zero (answered with 500).
    ZeroWeight,
    /// The origin index names no origin of the route.
    UnknownOrigin,
    /// No route has the given name.
    UnknownRoute,
}

/// Whether the given index has a positive weight.
pub open spec fn some_positive(weights: Seq<u16>) -> bool {
    exists|m: int| 0 <= m < weights.len() && #[trigger] weights[m] > 0
}

/// Relies on rand 0.8's `WeightedIndex::new` and `Distribution::sample` with
/// `rand::thread_rng`: `new` fails exactly when the weights are empty or all zero, and
/// `sample` returns an index whose interval of cumulative weight is non-empty, that is one
/// of positive weight. The weights are widened so that their sum cannot overflow.
#[verifier::external_body]
fn weighted_draw(weights: &Vec<u16>) -> (r: Option<usize>)
    ensures
        r is Some <==> some_positive(weights@),
        r matches Some(m) ==> m < weights@.len() && weights@[m as int] > 0,
{
    let wide: Vec<u128> = weights.iter().map(|w| *w as u128).collect();
    match WeightedIndex::new(wide) {
        Ok(dist) => Some(dist.sample(&mut rand::thread_rng())),
        Err(_) => None,
    }
}

/// An origin marked down at `marked_at` (milliseconds) has been down for longer than
/// `down_time` seconds at instant `now`.
pub open spec fn expired(marked_at: u64, now: u64, down_time: u64) -> bool {
    now > marked_at && now - marked_at > down_time * 1000
}

/// `new` keeps exactly the entries of `old` that have not expired at `now`.
pub open spec fn swept(old: Map<usize, u64>, new: Map<usize, u64>, now: u64, down_time: u64) -> bool {
    &&& forall|k: usize| #[trigger]
        new.contains_key(k) <==> old.contains_key(k) && !expired(old[k], now, down_time)
    &&& forall|k: usize| #[trigger] new.contains_key(k) ==> new[k] == old[k]
}

/// `new` is `old` with origin `i` marked down at `now`, unless it was marked already.
pub open spec fn marked(old: Map<usize, u64>, new: Map<usize, u64>, i: usize, now: u64) -> bool {
    if old.contains_key(i) {
        new == old
    } else {
        new == old.insert(i, now)
    }
}

/// The outcome of `select_origin` on a route that was `old` and is now `new`.
pub open spec fn selection_outcome(
    old: Route,
    new: Route,
    now: u64,
    down_time: u64,
    r: Result<usize, SelectError>,
) -> bool {
    &&& new.wf()
    &&& new.config == old.config
    &&& old.origin_count() == 0 ==> new.state.down_endpoints@ == old.state.down_endpoints@
    &&& old.origin_count() > 0 ==> swept(
        old.state.down_endpoints@,
        new.state.down_endpoints@,
        now,
        down_time,
    )
    &&& r == Err::<usize, SelectError>(SelectError::NoOrigins) <==> old.origin_count() == 0
    &&& r == Err::<usize, SelectError>(SelectError::ZeroWeight) <==> old.origin_count() > 0
        && forall|i: int| #[trigger] new.eligible(i) ==> new.weight_of(i) == 0
    &&& r is Err ==> r == Err::<usize, SelectError>(SelectError::NoOrigins) || r == Err::<
        usize,
        SelectError,
    >(SelectError::ZeroWeight)
    &&& r matches Ok(i) ==> new.eligible(i as int) && new.weight_of(i as int) > 0
}

/// The outcome of `mark_origin_down` of origin `i` on a route that was `old` and is now `new`.
pub open spec fn mark_outcome(old: Route, new: Route, i: usize, now: u64, r: Result<(), SelectError>) -> bool {
    &&& new.wf()
    &&& new.config == old.config
    &&& r is Err <==> i >= old.origin_count()
    &&& r is Err ==> r == Err::<(), SelectError>(SelectError::UnknownOrigin)
        && new.state.down_endpoints@ == old.state.down_endpoints@
    &&& r is Ok ==> marked(old.state.down_endpoints@, new.state.down_endpoints@, i, now)
}

fn is_expired(marked_at: u64, now: u64, down_time: u64) -> (r: bool)
    ensures
        r == expired(marked_at, now, down_time),
{
    if now <= marked_at {
        return false;
    }
    let age = (now - marked_at) as u128;
    age > (down_time as u128) * 1000
}

impl Route {
    /// The number of origins of the route.
    pub open spec fn origin_count(&self) -> int {
        self.config.origin_group.origins@.len() as int
    }

    /// Origin `i` is marked down.
    pub open spec fn is_down(&self, i: int) -> bool {
        0 <= i && self.state.down_endpoints@.contains_key(i as usize)
    }

    /// Every origin of the route is marked down.
    pub open spec fn all_down(&self) -> bool {
        forall|i: int| 0 <= i < self.origin_count() ==> #[trigger] self.is_down(i)
    }

    /// Origin `i` may be picked: it is up, or every origin is down.
    pub open spec fn eligible(&self, i: int) -> bool {
        0 <= i < self.origin_count() && (self.all_down() || !self.is_down(i))
    }

    /// The weight of origin `i`.
    pub open spec fn weight_of(&self, i: int) -> u16 {
        self.config.origin_group.origins@[i].weight
    }

    /// Whether some origin marked down has been down for longer than `down_time` seconds.
    pub fn has_expired(&self, now: u64, down_time: u64) -> (r: bool)
        requires
            self.wf(),
        ensures
            r == exists|k: usize| #[trigger]
                self.state.down_endpoints@.contains_key(k) && expired(
                    self.state.down_endpoints@[k],
                    now,
                    down_time,
                ),
    {
        let n = self.config.origin_group.origins.len();
        let mut i: usize = 0;
        while i < n
            invariant
                self.wf(),
                n == self.origin_count(),
                i <= n,
                forall|k: usize|
                    k < i && #[trigger] self.state.down_endpoints@.contains_key(k) ==> !expired(
                        self.state.down_endpoints@[k],
                        now,
                        down_time,
                    ),
            decreases n - i,
        {
            if let Some(t) = self.state.down_endpoints.get(&i) {
                if is_expired(*t, now, down_time) {
                    return true;
                }
            }
            i = i + 1;
        }
        false
    }

    /// Unmarks every origin that has been down for longer than `down_time` seconds.
    pub fn sweep(&mut self, now: u64, down_time: u64)
        requires
            old(self).wf(),
        ensures
            final(self).wf(),
            final(self).config == old(self).config,
            swept(old(self).state.down_endpoints@, final(self).state.down_endpoints@, now, down_time),
    {
        let ghost before = self.state.down_endpoints@;
        let n = self.config.origin_group.origins.len();
        let mut i: usize = 0;
        while i < n
            invariant
                self.config == old(self).config,
                before == old(self).state.down_endpoints@,
                old(self).wf(),
                n == self.origin_count(),
                i <= n,
                forall|k: usize| #[trigger]
                    self.state.down_endpoints@.contains_key(k) <==> before.contains_key(k) && !(k
                        < i && expired(before[k], now, down_time)),
                forall|k: usize| #[trigger]
                    self.state.down_endpoints@.contains_key(k) ==> self.state.down_endpoints@[k]
                        == before[k],
            decreases n - i,
        {
            let found = match self.state.down_endpoints.get(&i) {
                Some(t) => Some(*t),
                None => None,
            };
            if let Some(t) = found {
                if is_expired(t, now, down_time) {
                    let _ = self.state.down_endpoints.remove(&i);
                }
            }
            i = i + 1;
        }
    }

    /// Marks origin `origin_index` down at `now`; an origin already marked keeps its
    /// original instant, so repeated failures do not extend the mark.
    pub fn mark_origin_down(&mut self, origin_index: usize, now: u64) -> (r: Result<(), SelectError>)
        requires
            old(self).wf(),
        ensures
            mark_outcome(*old(self), *final(self), origin_index, now, r),
    {
        if origin_index >= self.config.origin_group.origins.len() {
            return Err(SelectError::UnknownOrigin);
        }
        if !self.state.down_endpoints.contains_key(&origin_index) {
            let _ = self.state.down_endpoints.insert(origin_index, now);
        }
        Ok(())
    }
    /// `indices` lists the eligible origins in increasing order, and `weights` their weights.
    pub open spec fn lists_eligible(&self, indices: Seq<usize>, weights: Seq<u16>) -> bool {
        &&& indices.len() == weights.len()
        &&& forall|m: int| 0 <= m < indices.len() ==> self.eligible(#[trigger] indices[m] as int)
            && weights[m] == self.weight_of(indices[m] as int)
        &&& forall|m1: int, m2: int| 0 <= m1 < m2 < indices.len() ==> indices[m1] < indices[m2]
        &&& forall|i: int| #[trigger] self.eligible(i) ==> exists|m: int|
            0 <= m < indices.len() && indices[m] == i
    }

    /// The eligible origins in increasing order, with their weights.
    pub fn eligible_origins(&self) -> (r: (Vec<usize>, Vec<u16>))
        requires
            self.wf(),
        ensures
            self.lists_eligible(r.0@, r.1@),
    {
        let origins = &self.config.origin_group.origins;
        let n = origins.len();
        let mut all_down = true;
        let mut i: usize = 0;
        while i < n
            invariant
                n == self.origin_count(),
                i <= n,
                all_down == forall|k: int| 0 <= k < i ==> #[trigger] self.is_down(k),
            decreases n - i,
        {
            let down = self.state.down_endpoints.contains_key(&i);
            proof {
                assert(down == self.is_down(i as int));
                if all_down && down {
                    assert forall|k: int| 0 <= k < i + 1 implies #[trigger] self.is_down(k) by {
                        if k < i {
                            assert(0 <= k < i ==> self.is_down(k));
                        }
                    }
                }
            }
            if !down {
                all_down = false;
            }
            i = i + 1;
        }
        let mut indices: Vec<usize> = Vec::new();
        let mut weights: Vec<u16> = Vec::new();
        let mut i: usize = 0;
        while i < n
            invariant
                n == self.origin_count(),
                origins@ == self.config.origin_group.origins@,
                all_down == self.all_down(),
                i <= n,
                indices@.len() == weights@.len(),
                forall|m: int| 0 <= m < indices@.len() ==> self.eligible(#[trigger] indices@[m] as int)
                    && weights@[m] == self.weight_of(indices@[m] as int) && indices@[m] < i,
                forall|m1: int, m2: int| 0 <= m1 < m2 < indices@.len() ==> indices@[m1] < indices@[m2],
                forall|k: int| 0 <= k < i && #[trigger] self.eligible(k) ==> exists|m: int|
                    0 <= m < indices@.len() && indices@[m] == k,
            decreases n - i,
        {
            let ghost before = indices@;
            let down = self.state.down_endpoints.contains_key(&i);
            if all_down || !down {
                indices.push(i);
                weights.push(origins[i].weight);
            }
            proof {
                assert(down == self.is_down(i as int));
                assert forall|k: int| 0 <= k < i + 1 && #[trigger] self.eligible(k) implies exists|m: int|
                    0 <= m < indices@.len() && indices@[m] == k by {
                    if k < i {
                        let m = choose|m: int| 0 <= m < before.len() && before[m] == k;
                        assert(indices@[m] == before[m]);
                    } else {
                        assert(indices@[indices@.len() - 1] == i);
                    }
                }
            }
            i = i + 1;
        }
        proof {
            assert forall|k: int| #[trigger] self.eligible(k) implies exists|m: int|
                0 <= m < indices@.len() && indices@[m] == k by {
                assert(0 <= k < i);
            }
        }
        assert(self.lists_eligible(indices@, weights@));
        (indices, weights)
    }

    /// Picks an origin by weighted random draw among the eligible ones, after unmarking
    /// every origin that has been down for longer than `down_time` seconds.
    pub fn select_origin(&mut self, now: u64, down_time: u64) -> (r: Result<usize, SelectError>)
        requires
            old(self).wf(),
        ensures
            selection_outcome(*old(self), *final(self), now, down_time, r),
    {
        if self.config.origin_group.origins.len() == 0 {
            return Err(SelectError::NoOrigins);
        }
        if self.has_expired(now, down_time) {
            self.sweep(now, down_time);
        } else {
            proof {
                let m = self.state.down_endpoints@;
                assert forall|k: usize| #[trigger] m.contains_key(k) implies !expired(m[k], now, down_time) by {}
            }
        }
        let (indices, weights) = self.eligible_origins();
        match weighted_draw(&weights) {
            Some(m) => Ok(indices[m]),
            None => {
                proof {
                    assert forall|i: int| #[trigger] self.eligible(i) implies self.weight_of(i) == 0 by {
                        let m = choose|m: int| 0 <= m < indices@.len() && indices@[m] == i;
                        assert(weights@[m] == self.weight_of(i));
                        if weights@[m] > 0 {
                            assert(some_positive(weights@));
                        }
                    }
                }
                Err(SelectError::ZeroWeight)
            },
        }
    }
}

} // verus!
