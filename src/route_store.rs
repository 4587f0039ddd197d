//! The route store: routes indexed by name and by (scheme, host), with longest-prefix
//! path matching.

use std::collections::HashMap;
use vstd::prelude::*;
use vstd::utf8::encode_utf8;
use crate::health::{mark_outcome, selection_outcome, SelectError};
use crate::route_config::{IncomingScheme, RouteConfig, RouteHolder};
use crate::text::{starts_with, str_eq};

verus! {

broadcast use vstd::std_specs::hash::group_hash_axioms;

/// The mutable health state of a route.
pub struct RouteState {
    /// Origin index to the instant, in milliseconds, at which the origin was marked down.
    pub down_endpoints: HashMap<usize, u64>,
}

impl RouteState {
    /// A state with no origin marked down.
    pub fn new() -> (r: Self)
        ensures
            r.down_endpoints@ == Map::<usize, u64>::empty(),
    {
        RouteState { down_endpoints: HashMap::new() }
    }
}

/// A route: an installed configuration and its health state.
pub struct Route {
    pub config: RouteConfig,
    pub state: RouteState,
}

impl Route {
    /// Every origin marked down is an origin of the route.
    pub open spec fn wf(&self) -> bool {
        forall|k: usize| #[trigger]
            self.state.down_endpoints@.contains_key(k) ==> (k as int)
                < self.config.origin_group.origins@.len()
    }

    /// A fresh route for `config`, with no origin marked down.
    pub fn new(config: RouteConfig) -> (r: Self)
        ensures
            r.config == config,
            r.state.down_endpoints@ == Map::<usize, u64>::empty(),
            r.wf(),
    {
        Route { config, state: RouteState::new() }
    }
}

/// One entry of a host index: route `name` is reachable under `host`.
struct IndexEntry {
    host: String,
    name: String,
}

spec fn entry_view(e: IndexEntry) -> (Seq<char>, Seq<char>) {
    (e.host@, e.name@)
}

/// The index lists route name `n` under host `h`.
spec fn index_has(index: Seq<IndexEntry>, h: Seq<char>, n: Seq<char>) -> bool {
    exists|k: int| 0 <= k < index.len() && #[trigger] entry_view(index[k]) == (h, n)
}

/// Some route of `routes` is named `n` and serves scheme `s` and host `h`.
pub open spec fn route_serving(routes: Seq<Route>, s: IncomingScheme, h: Seq<char>, n: Seq<char>) -> bool {
    exists|j: int|
        0 <= j < routes.len() && #[trigger] routes[j].config.name@ == n && routes[j].config.serves(
            s,
            h,
        )
}

/// No two routes share a name.
pub open spec fn names_unique(routes: Seq<Route>) -> bool {
    forall|j1: int, j2: int|
        0 <= j1 < routes.len() && 0 <= j2 < routes.len() && #[trigger] routes[j1].config.name@
            == #[trigger] routes[j2].config.name@ ==> j1 == j2
}

/// No route is named `n`.
pub open spec fn no_route_named(routes: Seq<Route>, n: Seq<char>) -> bool {
    forall|j: int| 0 <= j < routes.len() ==> #[trigger] routes[j].config.name@ != n
}

/// Route `j` is indexed under `(s, h)` and its `q`-th path is a prefix of `path`.
pub open spec fn candidate(
    routes: Seq<Route>,
    s: IncomingScheme,
    h: Seq<char>,
    path: Seq<u8>,
    j: int,
    q: int,
) -> bool {
    0 <= j < routes.len() && routes[j].config.serves(s, h) && routes[j].config.path_matches(q, path)
}

/// Route `j` with its `q`-th path is a candidate whose prefix no other candidate beats.
pub open spec fn best_match(
    routes: Seq<Route>,
    s: IncomingScheme,
    h: Seq<char>,
    path: Seq<u8>,
    j: int,
    q: int,
) -> bool {
    &&& candidate(routes, s, h, path, j, q)
    &&& forall|j2: int, q2: int| #[trigger]
        candidate(routes, s, h, path, j2, q2) ==> routes[j2].config.path_len(q2)
            <= routes[j].config.path_len(q)
}

proof fn lemma_index_has_push(index: Seq<IndexEntry>, e: IndexEntry, h: Seq<char>, n: Seq<char>)
    ensures
        index_has(index.push(e), h, n) <==> index_has(index, h, n) || entry_view(e) == (h, n),
{
    let ext = index.push(e);
    if index_has(index, h, n) {
        let k = choose|k: int| 0 <= k < index.len() && #[trigger] entry_view(index[k]) == (h, n);
        assert(ext[k] == index[k]);
    }
    if entry_view(e) == (h, n) {
        assert(ext[index.len() as int] == e);
    }
    if index_has(ext, h, n) {
        let k = choose|k: int| 0 <= k < ext.len() && #[trigger] entry_view(ext[k]) == (h, n);
        if k < index.len() {
            assert(ext[k] == index[k]);
        }
    }
}

/// Drops every entry of route `name` from `index`.
fn unindex_route(index: &mut Vec<IndexEntry>, name: &str)
    ensures
        forall|h: Seq<char>, n: Seq<char>|
            #[trigger] index_has(final(index)@, h, n) <==> index_has(old(index)@, h, n) && n != name@,
{
    let mut kept: Vec<IndexEntry> = Vec::new();
    let mut k: usize = 0;
    while k < index.len()
        invariant
            k <= index@.len(),
            index@ == old(index)@,
            forall|h: Seq<char>, n: Seq<char>|
                #[trigger] index_has(kept@, h, n) <==> (exists|k2: int|
                    0 <= k2 < k && #[trigger] entry_view(index@[k2]) == (h, n)) && n != name@,
        decreases index@.len() - k,
    {
        let ghost before = kept@;
        let keep = !str_eq(index[k].name.as_str(), name);
        if keep {
            let e = IndexEntry { host: index[k].host.clone(), name: index[k].name.clone() };
            kept.push(e);
        }
        proof {
            assert forall|h: Seq<char>, n: Seq<char>|
                #[trigger] index_has(kept@, h, n) <==> (exists|k2: int|
                    0 <= k2 < k + 1 && #[trigger] entry_view(index@[k2]) == (h, n)) && n != name@ by {
                if keep {
                    lemma_index_has_push(before, kept@.last(), h, n);
                    assert(kept@ == before.push(kept@.last()));
                }
                if entry_view(index@[k as int]) == (h, n) {
                    assert(0 <= k < k + 1);
                }
            }
        }
        k = k + 1;
    }
    proof {
        assert forall|h: Seq<char>, n: Seq<char>|
            #[trigger] index_has(kept@, h, n) <==> index_has(old(index)@, h, n) && n != name@ by {
            if index_has(old(index)@, h, n) {
                let k2 = choose|k2: int|
                    0 <= k2 < index@.len() && #[trigger] entry_view(index@[k2]) == (h, n);
            }
        }
    }
    *index = kept;
}

/// Adds an entry for route `name` under each of `hosts`.
fn index_route(index: &mut Vec<IndexEntry>, hosts: &Vec<String>, name: &String)
    ensures
        forall|h: Seq<char>, n: Seq<char>|
            #[trigger] index_has(final(index)@, h, n) <==> index_has(old(index)@, h, n) || (n
                == name@ && exists|i: int| 0 <= i < hosts@.len() && #[trigger] hosts@[i]@ == h),
{
    let mut i: usize = 0;
    while i < hosts.len()
        invariant
            i <= hosts@.len(),
            forall|h: Seq<char>, n: Seq<char>|
                #[trigger] index_has(index@, h, n) <==> index_has(old(index)@, h, n) || (n
                    == name@ && exists|i2: int| 0 <= i2 < i && #[trigger] hosts@[i2]@ == h),
        decreases hosts@.len() - i,
    {
        let ghost before = index@;
        let e = IndexEntry { host: hosts[i].clone(), name: name.clone() };
        index.push(e);
        proof {
            assert forall|h: Seq<char>, n: Seq<char>|
                #[trigger] index_has(index@, h, n) <==> index_has(old(index)@, h, n) || (n
                    == name@ && exists|i2: int| 0 <= i2 < i + 1 && #[trigger] hosts@[i2]@ == h) by {
                lemma_index_has_push(before, index@.last(), h, n);
                assert(index@ == before.push(index@.last()));
                if n == name@ && hosts@[i as int]@ == h {
                    assert(0 <= i < i + 1);
                }
            }
        }
        i = i + 1;
    }
}

/// `new` is `old` without the route named `n`, if there was one.
pub open spec fn deleted(old: Seq<Route>, new: Seq<Route>, n: Seq<char>) -> bool {
    if no_route_named(old, n) {
        new == old
    } else {
        exists|j: int| 0 <= j < old.len() && #[trigger] old[j].config.name@ == n && new == old.remove(j)
    }
}

/// `new` is `old` with the route named `c.name` replaced, or joined, by a fresh route for
/// `c` with no origin marked down.
pub open spec fn added(old: Seq<Route>, new: Seq<Route>, c: RouteConfig) -> bool {
    &&& new.len() >= 1
    &&& new.last().config == c
    &&& new.last().state.down_endpoints@ == Map::<usize, u64>::empty()
    &&& deleted(old, new.drop_last(), c.name@)
}

/// A store of routes, indexed by name and, per incoming scheme, by host.
pub struct RouteStore {
    routes: Vec<Route>,
    http_index: Vec<IndexEntry>,
    https_index: Vec<IndexEntry>,
}

impl View for RouteStore {
    type V = Seq<Route>;

    /// The installed routes; their order carries no meaning.
    closed spec fn view(&self) -> Seq<Route> {
        self.routes@
    }
}

impl RouteStore {
    spec fn index_for(&self, s: IncomingScheme) -> Seq<IndexEntry> {
        match s {
            IncomingScheme::Http => self.http_index@,
            IncomingScheme::Https => self.https_index@,
        }
    }

    /// The host index of scheme `s` lists route name `n` under host `h`.
    pub closed spec fn indexed(&self, s: IncomingScheme, h: Seq<char>, n: Seq<char>) -> bool {
        index_has(self.index_for(s), h, n)
    }

    /// Names are unique, every route's health state is well formed, and the host indices
    /// list exactly the (scheme, host, name) triples that the installed routes declare.
    pub closed spec fn wf(&self) -> bool {
        &&& names_unique(self.routes@)
        &&& forall|j: int| 0 <= j < self.routes@.len() ==> #[trigger] self.routes@[j].wf()
        &&& forall|s: IncomingScheme, h: Seq<char>, n: Seq<char>|
            #![trigger self.indexed(s, h, n)]
            #![trigger route_serving(self.routes@, s, h, n)]
            self.indexed(s, h, n) <==> route_serving(self.routes@, s, h, n)
    }

    /// No two routes of a well-formed store share a name.
    pub proof fn lemma_names_unique(store: RouteStore)
        requires
            store.wf(),
        ensures
            names_unique(store@),
    {
    }

    /// The host indices of a well-formed store agree with the routes' declarations.
    pub proof fn lemma_wf_index(store: RouteStore)
        requires
            store.wf(),
        ensures
            forall|s: IncomingScheme, h: Seq<char>, n: Seq<char>|
                #[trigger] store.indexed(s, h, n) <==> route_serving(store@, s, h, n),
    {
    }

    /// Every route of a well-formed store has a well-formed health state.
    pub proof fn lemma_wf_routes(store: RouteStore)
        requires
            store.wf(),
        ensures
            forall|j: int| 0 <= j < store@.len() ==> #[trigger] store@[j].wf(),
    {
    }

    /// An empty store.
    pub fn new() -> (r: Self)
        ensures
            r.wf(),
            r@ == Seq::<Route>::empty(),
    {
        RouteStore { routes: Vec::new(), http_index: Vec::new(), https_index: Vec::new() }
    }

    /// The position of the route named `name`.
    fn find_route_index(&self, name: &str) -> (r: Option<usize>)
        ensures
            match r {
                Some(j) => j < self.routes@.len() && self.routes@[j as int].config.name@ == name@,
                None => no_route_named(self.routes@, name@),
            },
    {
        let mut j: usize = 0;
        while j < self.routes.len()
            invariant
                j <= self.routes@.len(),
                forall|i: int| 0 <= i < j ==> #[trigger] self.routes@[i].config.name@ != name@,
            decreases self.routes@.len() - j,
        {
            if str_eq(self.routes[j].config.name.as_str(), name) {
                return Some(j);
            }
            j = j + 1;
        }
        None
    }
    /// Removes route `j` and its index entries.
    fn remove_at(&mut self, j: usize)
        requires
            old(self).wf(),
            j < old(self).routes@.len(),
        ensures
            final(self).wf(),
            final(self).routes@ == old(self).routes@.remove(j as int),
    {
        let name = self.routes[j].config.name.clone();
        unindex_route(&mut self.http_index, name.as_str());
        unindex_route(&mut self.https_index, name.as_str());
        let ghost routes = self.routes@;
        let _ = self.routes.remove(j);
        proof {
            let rest = self.routes@;
            assert(rest == routes.remove(j as int));
            assert forall|j1: int, j2: int|
                0 <= j1 < rest.len() && 0 <= j2 < rest.len() && #[trigger] rest[j1].config.name@
                    == #[trigger] rest[j2].config.name@ implies j1 == j2 by {
                let o1 = if j1 < j { j1 } else { j1 + 1 };
                let o2 = if j2 < j { j2 } else { j2 + 1 };
                assert(rest[j1] == routes[o1]);
                assert(rest[j2] == routes[o2]);
            }
            assert forall|k: int| 0 <= k < rest.len() implies #[trigger] rest[k].wf() by {
                let o = if k < j { k } else { k + 1 };
                assert(rest[k] == routes[o]);
            }
            assert forall|s: IncomingScheme, h: Seq<char>, n: Seq<char>|
                #![trigger self.indexed(s, h, n)]
                #![trigger route_serving(rest, s, h, n)]
                self.indexed(s, h, n) <==> route_serving(rest, s, h, n) by {
                assert(self.indexed(s, h, n) <==> old(self).indexed(s, h, n) && n != name@);
                if route_serving(routes, s, h, n) && n != name@ {
                    let o = choose|o: int|
                        0 <= o < routes.len() && #[trigger] routes[o].config.name@ == n
                            && routes[o].config.serves(s, h);
                    let k = if o < j { o } else { o - 1 };
                    assert(rest[k] == routes[o]);
                }
                if route_serving(rest, s, h, n) {
                    let k = choose|k: int|
                        0 <= k < rest.len() && #[trigger] rest[k].config.name@ == n
                            && rest[k].config.serves(s, h);
                    let o = if k < j { k } else { k + 1 };
                    assert(rest[k] == routes[o]);
                    assert(routes[o].config.name@ == n);
                    assert(n != name@);
                }
            }
        }
    }

    /// Removes the route named `name`, if any, with its index entries.
    pub fn delete_route(&mut self, name: &str)
        requires
            old(self).wf(),
        ensures
            final(self).wf(),
            deleted(old(self)@, final(self)@, name@),
    {
        match self.find_route_index(name) {
            None => {},
            Some(j) => {
                self.remove_at(j);
                assert(old(self)@[j as int].config.name@ == name@);
            },
        }
    }

    /// Installs a fresh route for `route_config`, replacing any route of the same name;
    /// the whole change is made in one call, so no reader sees it half done.
    pub fn add_route(&mut self, route_config: RouteConfig)
        requires
            old(self).wf(),
        ensures
            final(self).wf(),
            added(old(self)@, final(self)@, route_config),
    {
        self.delete_route(route_config.name.as_str());
        let ghost mid = self.routes@;
        let ghost c = route_config;
        let ghost mid_store = *self;
        let mut a: usize = 0;
        while a < route_config.incoming_schemes.len()
            invariant
                a <= c.incoming_schemes@.len(),
                route_config == c,
                self.routes@ == mid,
                mid_store.wf(),
                mid_store.routes@ == mid,
                no_route_named(mid, c.name@),
                forall|s: IncomingScheme, h: Seq<char>, n: Seq<char>|
                    #[trigger] self.indexed(s, h, n) <==> mid_store.indexed(s, h, n) || (n
                        == c.name@ && c.has_host(h) && exists|a2: int|
                        0 <= a2 < a && #[trigger] c.incoming_schemes@[a2] == s),
            decreases c.incoming_schemes@.len() - a,
        {
            let ghost before = *self;
            match route_config.incoming_schemes[a] {
                IncomingScheme::Http => index_route(
                    &mut self.http_index,
                    &route_config.hosts,
                    &route_config.name,
                ),
                IncomingScheme::Https => index_route(
                    &mut self.https_index,
                    &route_config.hosts,
                    &route_config.name,
                ),
            }
            proof {
                assert forall|s: IncomingScheme, h: Seq<char>, n: Seq<char>|
                    #[trigger] self.indexed(s, h, n) <==> mid_store.indexed(s, h, n) || (n
                        == c.name@ && c.has_host(h) && exists|a2: int|
                        0 <= a2 < a + 1 && #[trigger] c.incoming_schemes@[a2] == s) by {
                    assert(self.indexed(s, h, n) <==> before.indexed(s, h, n) || (n == c.name@
                        && c.has_host(h) && c.incoming_schemes@[a as int] == s));
                    if c.incoming_schemes@[a as int] == s {
                        assert(0 <= a < a + 1);
                    }
                }
            }
            a = a + 1;
        }
        let ghost pre = *self;
        self.routes.push(Route::new(route_config));
        proof {
            let all = self.routes@;
            assert(self.http_index@ == pre.http_index@ && self.https_index@ == pre.https_index@);
            assert(all.drop_last() =~= mid);
            assert forall|j1: int, j2: int|
                0 <= j1 < all.len() && 0 <= j2 < all.len() && #[trigger] all[j1].config.name@
                    == #[trigger] all[j2].config.name@ implies j1 == j2 by {
                if j1 < mid.len() && j2 < mid.len() {
                    assert(all[j1] == mid[j1] && all[j2] == mid[j2]);
                } else if j1 < mid.len() {
                    assert(all[j1] == mid[j1]);
                } else if j2 < mid.len() {
                    assert(all[j2] == mid[j2]);
                }
            }
            assert forall|k: int| 0 <= k < all.len() implies #[trigger] all[k].wf() by {
                if k < mid.len() {
                    assert(all[k] == mid[k]);
                }
            }
            assert forall|s: IncomingScheme, h: Seq<char>, n: Seq<char>|
                #![trigger self.indexed(s, h, n)]
                #![trigger route_serving(all, s, h, n)]
                self.indexed(s, h, n) <==> route_serving(all, s, h, n) by {
                assert(self.indexed(s, h, n) == pre.indexed(s, h, n));
                if route_serving(all, s, h, n) {
                    let k = choose|k: int|
                        0 <= k < all.len() && #[trigger] all[k].config.name@ == n
                            && all[k].config.serves(s, h);
                    if k < mid.len() {
                        assert(all[k] == mid[k]);
                        assert(route_serving(mid, s, h, n));
                    } else {
                        let a2 = choose|a2: int|
                            0 <= a2 < c.incoming_schemes@.len() && c.incoming_schemes@[a2] == s;
                        assert(c.incoming_schemes@[a2] == s);
                    }
                }
                if mid_store.indexed(s, h, n) {
                    let k = choose|k: int|
                        0 <= k < mid.len() && #[trigger] mid[k].config.name@ == n
                            && mid[k].config.serves(s, h);
                    assert(all[k] == mid[k]);
                }
                if n == c.name@ && c.has_host(h) && exists|a2: int|
                    0 <= a2 < c.incoming_schemes@.len() && #[trigger] c.incoming_schemes@[a2] == s {
                    assert(all[mid.len() as int].config == c);
                    assert(c.has_scheme(s));
                }
            }
        }
    }

    /// Route `j` changed only in its health state, which stayed well formed.
    proof fn lemma_state_update(old_store: RouteStore, new_store: RouteStore, j: int)
        requires
            old_store.wf(),
            0 <= j < old_store.routes@.len(),
            new_store.routes@ == old_store.routes@.update(j, new_store.routes@[j]),
            new_store.routes@[j].config == old_store.routes@[j].config,
            new_store.routes@[j].wf(),
            new_store.http_index@ == old_store.http_index@,
            new_store.https_index@ == old_store.https_index@,
        ensures
            new_store.wf(),
    {
        let o = old_store.routes@;
        let n = new_store.routes@;
        assert forall|k: int| 0 <= k < n.len() implies n[k].config == o[k].config by {}
        assert forall|k: int| 0 <= k < n.len() implies #[trigger] n[k].wf() by {}
        assert forall|s: IncomingScheme, h: Seq<char>, nm: Seq<char>|
            #![trigger new_store.indexed(s, h, nm)]
            #![trigger route_serving(n, s, h, nm)]
            new_store.indexed(s, h, nm) <==> route_serving(n, s, h, nm) by {
            assert(new_store.indexed(s, h, nm) == old_store.indexed(s, h, nm));
            if route_serving(n, s, h, nm) {
                let k = choose|k: int|
                    0 <= k < n.len() && #[trigger] n[k].config.name@ == nm && n[k].config.serves(s, h);
                assert(o[k].config == n[k].config);
            }
            if route_serving(o, s, h, nm) {
                let k = choose|k: int|
                    0 <= k < o.len() && #[trigger] o[k].config.name@ == nm && o[k].config.serves(s, h);
                assert(o[k].config == n[k].config);
            }
        }
    }

    /// Runs origin selection on the route named `name`; only that route's health state
    /// changes.
    pub fn select_origin(&mut self, name: &str, now: u64, down_time: u64) -> (r: Result<usize, SelectError>)
        requires
            old(self).wf(),
        ensures
            final(self).wf(),
            no_route_named(old(self)@, name@) ==> r == Err::<usize, SelectError>(SelectError::UnknownRoute)
                && final(self)@ == old(self)@,
            !no_route_named(old(self)@, name@) ==> exists|j: int|
                0 <= j < old(self)@.len() && #[trigger] old(self)@[j].config.name@ == name@
                    && final(self)@ == old(self)@.update(j, final(self)@[j]) && selection_outcome(
                    old(self)@[j],
                    final(self)@[j],
                    now,
                    down_time,
                    r,
                ),
    {
        match self.find_route_index(name) {
            None => Err(SelectError::UnknownRoute),
            Some(j) => {
                let r = self.routes[j].select_origin(now, down_time);
                proof {
                    Self::lemma_state_update(*old(self), *self, j as int);
                    assert(self.routes@ == old(self).routes@.update(j as int, self.routes@[j as int]));
                }
                r
            },
        }
    }

    /// Marks origin `origin_index` of the route named `name` down at `now`; only that
    /// route's health state changes.
    pub fn mark_origin_down(&mut self, name: &str, origin_index: usize, now: u64) -> (r: Result<(), SelectError>)
        requires
            old(self).wf(),
        ensures
            final(self).wf(),
            no_route_named(old(self)@, name@) ==> r == Err::<(), SelectError>(SelectError::UnknownRoute)
                && final(self)@ == old(self)@,
            !no_route_named(old(self)@, name@) ==> exists|j: int|
                0 <= j < old(self)@.len() && #[trigger] old(self)@[j].config.name@ == name@
                    && final(self)@ == old(self)@.update(j, final(self)@[j]) && mark_outcome(
                    old(self)@[j],
                    final(self)@[j],
                    origin_index,
                    now,
                    r,
                ),
    {
        match self.find_route_index(name) {
            None => Err(SelectError::UnknownRoute),
            Some(j) => {
                let r = self.routes[j].mark_origin_down(origin_index, now);
                proof {
                    Self::lemma_state_update(*old(self), *self, j as int);
                    assert(self.routes@ == old(self).routes@.update(j as int, self.routes@[j as int]));
                }
                r
            },
        }
    }

    /// The route named `name`.
    pub fn route_named(&self, name: &str) -> (r: Option<&Route>)
        ensures
            match r {
                None => no_route_named(self@, name@),
                Some(route) => exists|j: int|
                    0 <= j < self@.len() && #[trigger] self@[j].config.name@ == name@ && *route
                        == self@[j],
            },
    {
        assert(self@ == self.routes@);
        match self.find_route_index(name) {
            None => None,
            Some(j) => Some(&self.routes[j]),
        }
    }

    /// The route that matches `protocol` and `host` exactly and has the longest path prefix
    /// of `path`; `None` when no route matches. Among routes tied on the longest prefix,
    /// any one may be returned.
    pub fn get_route(&self, protocol: IncomingScheme, host: &str, path: &str) -> (r: Option<&Route>)
        requires
            self.wf(),
        ensures
            match r {
                None => forall|j: int, q: int|
                    !#[trigger] candidate(self@, protocol, host@, encode_utf8(path@), j, q),
                Some(route) => exists|j: int, q: int|
                    #[trigger] best_match(self@, protocol, host@, encode_utf8(path@), j, q)
                        && *route == self@[j],
            },
    {
        let index = match protocol {
            IncomingScheme::Http => &self.http_index,
            IncomingScheme::Https => &self.https_index,
        };
        let ghost pb = encode_utf8(path@);
        let ghost routes = self.routes@;
        let mut best: Option<(usize, usize)> = None;
        let ghost mut best_q: int = 0;
        let mut k: usize = 0;
        while k < index.len()
            invariant
                self.wf(),
                routes == self.routes@,
                pb == encode_utf8(path@),
                index@ == self.index_for(protocol),
                k <= index@.len(),
                forall|k2: int, j2: int, q2: int|
                    0 <= k2 < k && index@[k2].host@ == host@ && 0 <= j2 < routes.len()
                        && routes[j2].config.name@ == #[trigger] index@[k2].name@
                        && #[trigger] routes[j2].config.path_matches(q2, pb) ==> match best {
                        Some((bj, bl)) => routes[j2].config.path_len(q2) <= bl,
                        None => false,
                    },
                match best {
                    Some((bj, bl)) => candidate(routes, protocol, host@, pb, bj as int, best_q)
                        && bl == routes[bj as int].config.path_len(best_q),
                    None => true,
                },
            decreases index@.len() - k,
        {
            if str_eq(index[k].host.as_str(), host) {
                let found = self.find_route_index(index[k].name.as_str());
                if let Some(j) = found {
                    proof {
                        assert(entry_view(index@[k as int]) == (host@, index@[k as int].name@));
                        assert(self.indexed(protocol, host@, index@[k as int].name@));
                        let j1 = choose|j1: int|
                            0 <= j1 < routes.len() && #[trigger] routes[j1].config.name@
                                == index@[k as int].name@ && routes[j1].config.serves(
                                protocol,
                                host@,
                            );
                        assert(routes[j1].config.name@ == routes[j as int].config.name@);
                    }
                    let route = &self.routes[j];
                    let mut q: usize = 0;
                    while q < route.config.paths.len()
                        invariant
                            self.wf(),
                            routes == self.routes@,
                            pb == encode_utf8(path@),
                            index@ == self.index_for(protocol),
                            k < index@.len(),
                            index@[k as int].host@ == host@,
                            j < routes.len(),
                            *route == routes[j as int],
                            routes[j as int].config.name@ == index@[k as int].name@,
                            routes[j as int].config.serves(protocol, host@),
                            q <= route.config.paths@.len(),
                            forall|k2: int, j2: int, q2: int|
                                0 <= k2 < k && index@[k2].host@ == host@ && 0 <= j2 < routes.len()
                                    && routes[j2].config.name@ == #[trigger] index@[k2].name@
                                    && #[trigger] routes[j2].config.path_matches(q2, pb)
                                    ==> match best {
                                    Some((bj, bl)) => routes[j2].config.path_len(q2) <= bl,
                                    None => false,
                                },
                            forall|q2: int|
                                0 <= q2 < q && #[trigger] routes[j as int].config.path_matches(
                                    q2,
                                    pb,
                                ) ==> match best {
                                    Some((bj, bl)) => routes[j as int].config.path_len(q2) <= bl,
                                    None => false,
                                },
                            match best {
                                Some((bj, bl)) => candidate(
                                    routes,
                                    protocol,
                                    host@,
                                    pb,
                                    bj as int,
                                    best_q,
                                ) && bl == routes[bj as int].config.path_len(best_q),
                                None => true,
                            },
                        decreases route.config.paths@.len() - q,
                    {
                        let candidate_path = route.config.paths[q].as_str();
                        proof {
                            assert(candidate_path@ == routes[j as int].config.paths@[q as int]@);
                        }
                        if starts_with(path, candidate_path) {
                            let len = candidate_path.as_bytes().len();
                            proof {
                                assert(routes[j as int].config.path_matches(q as int, pb));
                                assert(len == routes[j as int].config.path_len(q as int));
                            }
                            let better = match best {
                                None => true,
                                Some((_, bl)) => len > bl,
                            };
                            if better {
                                best = Some((j, len));
                                proof {
                                    best_q = q as int;
                                }
                            }
                        }
                        q = q + 1;
                    }
                    proof {
                        assert forall|k2: int, j2: int, q2: int|
                            0 <= k2 < k + 1 && index@[k2].host@ == host@ && 0 <= j2 < routes.len()
                                && routes[j2].config.name@ == #[trigger] index@[k2].name@
                                && #[trigger] routes[j2].config.path_matches(q2, pb) implies match best {
                            Some((bj, bl)) => routes[j2].config.path_len(q2) <= bl,
                            None => false,
                        } by {
                            if k2 == k {
                                assert(routes[j2].config.name@ == routes[j as int].config.name@);
                            }
                        }
                    }
                } else {
                    proof {
                        assert(entry_view(index@[k as int]) == (host@, index@[k as int].name@));
                        assert(self.indexed(protocol, host@, index@[k as int].name@));
                        let j1 = choose|j1: int|
                            0 <= j1 < routes.len() && #[trigger] routes[j1].config.name@
                                == index@[k as int].name@ && routes[j1].config.serves(
                                protocol,
                                host@,
                            );
                        assert(false);
                    }
                }
            }
            k = k + 1;
        }
        proof {
            assert forall|j2: int, q2: int| #[trigger]
                candidate(routes, protocol, host@, pb, j2, q2) implies match best {
                Some((bj, bl)) => routes[j2].config.path_len(q2) <= bl,
                None => false,
            } by {
                assert(route_serving(routes, protocol, host@, routes[j2].config.name@));
                assert(self.indexed(protocol, host@, routes[j2].config.name@));
                let k2 = choose|k2: int|
                    0 <= k2 < index@.len() && #[trigger] entry_view(index@[k2]) == (
                        host@,
                        routes[j2].config.name@,
                    );
                assert(index@[k2].host@ == host@);
                assert(index@[k2].name@ == routes[j2].config.name@);
                assert(routes[j2].config.path_matches(q2, pb));
            }
        }
        assert(self@ == routes);
        match best {
            None => None,
            Some((j, _)) => {
                proof {
                    assert(best_match(routes, protocol, host@, pb, j as int, best_q));
                }
                Some(&self.routes[j])
            },
        }
    }
}

impl RouteHolder for RouteStore {
    open spec fn holder_wf(&self) -> bool {
        self.wf()
    }

    open spec fn holder_routes(&self) -> Seq<Route> {
        self@
    }

    fn add_route(&mut self, route: RouteConfig) {
        RouteStore::add_route(self, route)
    }

    fn delete_route(&mut self, name: &str) {
        RouteStore::delete_route(self, name)
    }
}

} // verus!
