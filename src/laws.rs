//! Properties that relate the operations of the route store and of origin health.

use vstd::prelude::*;
use crate::health::{expired, selection_outcome, SelectError};
use crate::route_config::{IncomingScheme, RouteConfig};
use crate::route_store::{
    added, best_match, candidate, deleted, names_unique, no_route_named, route_serving, Route,
    RouteStore,
};

verus! {

broadcast use vstd::std_specs::hash::group_hash_axioms;

/// Index consistency: in every store that `new`, `add_route` and `delete_route` can
/// produce, the host index of a scheme lists a route name under a host exactly when a
/// route of that name declares that scheme and host. So the routes reachable through the
/// host indices are exactly the named routes that declare some scheme and host.
pub proof fn lemma_index_consistent(store: RouteStore)
    requires
        store.wf(),
    ensures
        forall|s: IncomingScheme, h: Seq<char>, n: Seq<char>|
            #[trigger] store.indexed(s, h, n) <==> route_serving(store@, s, h, n),
{
    RouteStore::lemma_wf_index(store);
}

/// After `add_route(c)`, a lookup that `c` matches with a prefix longer than that of every
/// other route returns the route installed for `c`.
pub proof fn lemma_add_then_lookup(
    before: Seq<Route>,
    after: Seq<Route>,
    c: RouteConfig,
    s: IncomingScheme,
    h: Seq<char>,
    path: Seq<u8>,
    q: int,
)
    requires
        names_unique(before),
        added(before, after, c),
        c.serves(s, h),
        c.path_matches(q, path),
        forall|j2: int, q2: int|
            #[trigger] candidate(before, s, h, path, j2, q2) && before[j2].config.name@ != c.name@
                ==> before[j2].config.path_len(q2) < c.path_len(q),
    ensures
        candidate(after, s, h, path, after.len() - 1, q),
        forall|j: int, q1: int| #[trigger]
            best_match(after, s, h, path, j, q1) ==> j == after.len() - 1 && after[j].config == c,
{
    let last = after.len() - 1;
    let rest = after.drop_last();
    assert(after[last].config == c);
    assert forall|j: int, q1: int| #[trigger]
        best_match(after, s, h, path, j, q1) implies j == last && after[j].config == c by {
        assert(candidate(after, s, h, path, last, q));
        if j != last {
            assert(after[j] == rest[j]);
            if no_route_named(before, c.name@) {
                assert(rest[j] == before[j]);
                assert(candidate(before, s, h, path, j, q1));
            } else {
                let k = choose|k: int|
                    0 <= k < before.len() && #[trigger] before[k].config.name@ == c.name@ && rest
                        == before.remove(k);
                let o = if j < k { j } else { j + 1 };
                assert(0 <= j < rest.len());
                assert(rest == before.remove(k));
                assert(before.remove(k)[j] == before[o]);
                assert(rest[j] == before[o]);
                assert(candidate(before, s, h, path, o, q1));
                assert(before[o].config.name@ != c.name@);
            }
        }
    }
}

/// Adding the same configuration twice in a row leaves what readers see unchanged: the
/// same routes, the same configurations and the same (empty) health state.
pub proof fn lemma_add_twice(s0: Seq<Route>, s1: Seq<Route>, s2: Seq<Route>, c: RouteConfig)
    requires
        names_unique(s0),
        added(s0, s1, c),
        added(s1, s2, c),
    ensures
        s2.len() == s1.len(),
        s2.drop_last() == s1.drop_last(),
        s2.last().config == s1.last().config,
        s2.last().state.down_endpoints@ == s1.last().state.down_endpoints@,
{
    let mid = s1.drop_last();
    assert(no_route_named(mid, c.name@)) by {
        if !no_route_named(s0, c.name@) {
            let k = choose|k: int|
                0 <= k < s0.len() && #[trigger] s0[k].config.name@ == c.name@ && mid == s0.remove(k);
            assert forall|j: int| 0 <= j < mid.len() implies #[trigger] mid[j].config.name@ != c.name@ by {
                let o = if j < k { j } else { j + 1 };
                assert(mid[j] == s0[o]);
            }
        }
    }
    let last = s1.len() - 1;
    assert(s1[last].config.name@ == c.name@);
    assert(!no_route_named(s1, c.name@));
    let k = choose|k: int|
        0 <= k < s1.len() && #[trigger] s1[k].config.name@ == c.name@ && s2.drop_last() == s1.remove(k);
    if k != last {
        assert(s1[k] == mid[k]);
    }
    assert(s1.remove(last) =~= mid);
}

/// After `delete_route(name)`, every route a lookup can return is another route, one that
/// already matched the same request before the deletion.
pub proof fn lemma_delete_then_lookup(
    before: Seq<Route>,
    after: Seq<Route>,
    name: Seq<char>,
    s: IncomingScheme,
    h: Seq<char>,
    path: Seq<u8>,
)
    requires
        names_unique(before),
        deleted(before, after, name),
    ensures
        forall|j: int, q: int| #[trigger]
            candidate(after, s, h, path, j, q) ==> after[j].config.name@ != name && exists|j0: int|
                #[trigger] candidate(before, s, h, path, j0, q) && before[j0] == after[j],
{
    assert forall|j: int, q: int| #[trigger] candidate(after, s, h, path, j, q) implies after[j].config.name@
        != name && exists|j0: int| #[trigger] candidate(before, s, h, path, j0, q) && before[j0]
        == after[j] by {
        if no_route_named(before, name) {
            assert(candidate(before, s, h, path, j, q));
        } else {
            let k = choose|k: int|
                0 <= k < before.len() && #[trigger] before[k].config.name@ == name && after
                    == before.remove(k);
            let o = if j < k { j } else { j + 1 };
            assert(after[j] == before[o]);
            assert(candidate(before, s, h, path, o, q));
        }
    }
}

/// Every origin marked down on a route of a valid store is one of the route's origins.
pub proof fn lemma_down_endpoints_valid(store: RouteStore)
    requires
        store.wf(),
    ensures
        forall|j: int, k: usize|
            0 <= j < store@.len() && #[trigger] store@[j].state.down_endpoints@.contains_key(k)
                ==> (k as int) < store@[j].config.origin_group.origins@.len(),
{
    RouteStore::lemma_wf_routes(store);
    assert forall|j: int, k: usize|
        0 <= j < store@.len() && #[trigger] store@[j].state.down_endpoints@.contains_key(k) implies (k as int)
            < store@[j].config.origin_group.origins@.len() by {
        assert(store@[j].wf());
    }
}

/// Once an origin selection completes, no origin of the route has been marked down for
/// longer than the down time, and every mark names an origin of the route.
pub proof fn lemma_no_expired_after_selection(
    old_route: Route,
    new_route: Route,
    now: u64,
    down_time: u64,
    r: Result<usize, SelectError>,
)
    requires
        old_route.wf(),
        selection_outcome(old_route, new_route, now, down_time, r),
    ensures
        forall|k: usize| #[trigger]
            new_route.state.down_endpoints@.contains_key(k) ==> !expired(
                new_route.state.down_endpoints@[k],
                now,
                down_time,
            ) && (k as int) < new_route.config.origin_group.origins@.len(),
{
    assert forall|k: usize| #[trigger] new_route.state.down_endpoints@.contains_key(k) implies !expired(
        new_route.state.down_endpoints@[k],
        now,
        down_time,
    ) && (k as int) < new_route.config.origin_group.origins@.len() by {
        if old_route.origin_count() == 0 {
            assert(old_route.state.down_endpoints@.contains_key(k));
        }
    }
}

/// After `add_route(c)`, the one route named `c.name` holds exactly `c`, however the
/// configuration reached the store (directly, or through the admin API).
pub proof fn lemma_added_route_named(before: Seq<Route>, after: Seq<Route>, c: RouteConfig)
    requires
        names_unique(before),
        added(before, after, c),
    ensures
        exists|j: int| 0 <= j < after.len() && #[trigger] after[j].config == c,
        forall|j: int|
            0 <= j < after.len() && #[trigger] after[j].config.name@ == c.name@ ==> after[j].config
                == c,
{
    let mid = after.drop_last();
    let last = after.len() - 1;
    assert(after[last].config == c);
    assert forall|j: int| 0 <= j < after.len() && #[trigger] after[j].config.name@ == c.name@ implies after[j].config
        == c by {
        if j != last {
            assert(after[j] == mid[j]);
            if !no_route_named(before, c.name@) {
                let k = choose|k: int|
                    0 <= k < before.len() && #[trigger] before[k].config.name@ == c.name@ && mid
                        == before.remove(k);
                let o = if j < k { j } else { j + 1 };
                assert(mid == before.remove(k));
                assert(before.remove(k)[j] == before[o]);
            } else {
                assert(mid[j] == before[j]);
            }
        }
    }
}

} // verus!
