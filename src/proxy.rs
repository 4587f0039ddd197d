//! The decisions of the request pipeline: scheme and host of a request, route matching,
//! upstream peer selection, connection failures and the cache status header.

use vstd::prelude::*;
use vstd::string::StrSliceExecFns;
use crate::app_config::ProxyConfig;
use crate::health::{mark_outcome, selection_outcome, SelectError};
use crate::route_config::{IncomingScheme, Origin, OutgoingScheme};
use crate::route_store::{best_match, candidate, no_route_named, Route, RouteStore};
use crate::utils::{address_port, collect_ports};
use vstd::utf8::encode_utf8;

verus! {

/// Seconds a response stays fresh when the origin says nothing.
pub const CACHE_FRESH_SECS: u32 = 300;

/// Seconds a stale response may be served while it is revalidated.
pub const CACHE_STALE_WHILE_REVALIDATE_SECS: u32 = 1;

/// Seconds a stale response may be served when the origin fails.
pub const CACHE_STALE_IF_ERROR_SECS: u32 = 1;

/// Seconds a request waits on another request filling the same cache entry.
pub const CACHE_LOCK_TIMEOUT_SECS: u64 = 2;

/// An error of the request pipeline, answered with an HTTP status.
#[derive(Debug, Clone, Copy, PartialEq, Eq, Structural)]
pub enum ProxyError {
    /// The request names no usable host.
    BadRequest,
    /// No route matches the request.
    RouteNotFound,
    /// The route has no origins.
    NoOrigins,
    /// Every eligible origin has weight zero.
    ZeroWeight,
    /// The origin could not be resolved or reached.
    OriginUnreachable,
    /// The pipeline lacks a value that an earlier phase should have set.
    Internal,
}

impl ProxyError {
    /// The HTTP status that answers the error.
    pub fn status(&self) -> (r: u16)
        ensures
            r == match self {
                ProxyError::BadRequest => 400u16,
                ProxyError::RouteNotFound => 404u16,
                ProxyError::NoOrigins => 502u16,
                ProxyError::ZeroWeight => 500u16,
                ProxyError::OriginUnreachable => 502u16,
                ProxyError::Internal => 500u16,
            },
    {
        match self {
            ProxyError::BadRequest => 400,
            ProxyError::RouteNotFound => 404,
            ProxyError::NoOrigins => 502,
            ProxyError::ZeroWeight => 500,
            ProxyError::OriginUnreachable => 502,
            ProxyError::Internal => 500,
        }
    }
}

/// The `Host` header of a request as received.
#[derive(Debug, Clone, PartialEq, Eq)]
pub enum HostHeader {
    /// The request has no `Host` header.
    Missing,
    /// The header holds bytes other than visible ASCII.
    NotAscii,
    /// The header's text.
    Value(String),
}

/// `h` up to its first `:`.
pub open spec fn host_part(h: Seq<char>) -> Seq<char>
    decreases h.len(),
{
    if h.len() == 0 || h[0] == ':' {
        Seq::empty()
    } else {
        seq![h[0]] + host_part(h.drop_first())
    }
}

proof fn lemma_host_part(h: Seq<char>, i: int)
    requires
        0 <= i <= h.len(),
        forall|k: int| 0 <= k < i ==> h[k] != ':',
        i == h.len() || h[i] == ':',
    ensures
        host_part(h) == h.subrange(0, i),
    decreases i,
{
    if i == 0 {
        assert(h.subrange(0, 0) =~= Seq::<char>::empty());
    } else {
        let t = h.drop_first();
        lemma_host_part(t, i - 1);
        assert(h.subrange(0, i) =~= seq![h[0]] + t.subrange(0, i - 1));
    }
}

/// The host of `h`, without a port.
pub fn strip_port(h: &str) -> (r: String)
    ensures
        r@ == host_part(h@),
{
    let n = h.unicode_len();
    let mut i: usize = 0;
    while i < n && h.get_char(i) != ':'
        invariant
            n == h@.len(),
            i <= n,
            forall|k: int| 0 <= k < i ==> h@[k] != ':',
        decreases n - i,
    {
        i = i + 1;
    }
    proof {
        lemma_host_part(h@, i as int);
    }
    h.substring_char(0, i).to_owned()
}

/// The host a request is for: the `Host` header, else the URI's authority, without a port.
pub fn get_host_header(header: HostHeader, authority: Option<&str>) -> (r: Result<String, ProxyError>)
    ensures
        match header {
            HostHeader::Value(v) => r matches Ok(h) && h@ == host_part(v@),
            HostHeader::NotAscii => r == Err::<String, ProxyError>(ProxyError::BadRequest),
            HostHeader::Missing => match authority {
                Some(a) => r matches Ok(h) && h@ == host_part(a@),
                None => r == Err::<String, ProxyError>(ProxyError::BadRequest),
            },
        },
{
    match header {
        HostHeader::Value(v) => Ok(strip_port(v.as_str())),
        HostHeader::NotAscii => Err(ProxyError::BadRequest),
        HostHeader::Missing => match authority {
            Some(a) => Ok(strip_port(a)),
            None => Err(ProxyError::BadRequest),
        },
    }
}

/// The scheme a request arrived with, from the local port it arrived on.
pub open spec fn scheme_for_port(port: u16, https_ports: Seq<u16>) -> IncomingScheme {
    if https_ports.contains(port) {
        IncomingScheme::Https
    } else {
        IncomingScheme::Http
    }
}

/// The scheme of a request received on local port `server_port`; an error when the
/// connection has no inet server address.
pub fn get_incoming_scheme(server_port: Option<u16>, https_ports: &[u16]) -> (r: Result<
    IncomingScheme,
    ProxyError,
>)
    ensures
        match server_port {
            None => r == Err::<IncomingScheme, ProxyError>(ProxyError::Internal),
            Some(p) => r == Ok::<IncomingScheme, ProxyError>(scheme_for_port(p, https_ports@)),
        },
{
    match server_port {
        None => Err(ProxyError::Internal),
        Some(port) => {
            if is_https_port(port, https_ports) {
                Ok(IncomingScheme::Https)
            } else {
                Ok(IncomingScheme::Http)
            }
        },
    }
}

fn is_https_port(port: u16, https_ports: &[u16]) -> (r: bool)
    ensures
        r == https_ports@.contains(port),
{
    let mut i: usize = 0;
    while i < https_ports.len()
        invariant
            i <= https_ports@.len(),
            forall|k: int| 0 <= k < i ==> https_ports@[k] != port,
        decreases https_ports@.len() - i,
    {
        if https_ports[i] == port {
            assert(https_ports@[i as int] == port);
            return true;
        }
        i = i + 1;
    }
    false
}

/// Whether the connection to the origin uses TLS.
pub open spec fn uses_tls(outgoing: OutgoingScheme, incoming: IncomingScheme) -> bool {
    match outgoing {
        OutgoingScheme::Http => false,
        OutgoingScheme::Https => true,
        OutgoingScheme::MatchIncoming => incoming == IncomingScheme::Https,
    }
}

/// Where and how to connect to an origin.
#[derive(Debug, Clone, PartialEq, Eq)]
pub struct Peer {
    /// The origin's host name, still to be resolved.
    pub host: String,
    /// The port to connect to.
    pub port: u16,
    /// Whether to connect with TLS.
    pub use_tls: bool,
    /// The SNI to send; empty for none.
    pub sni: String,
    /// Whether to offer HTTP/2 (with fallback to HTTP/1.1); set exactly with TLS.
    pub prefer_h2: bool,
}

/// The peer for `origin` of a route with `outgoing` scheme, for a request that arrived
/// with `incoming` scheme.
pub open spec fn peer_spec(origin: Origin, outgoing: OutgoingScheme, incoming: IncomingScheme, p: Peer) -> bool {
    let tls = uses_tls(outgoing, incoming);
    &&& p.host@ == origin.host@
    &&& p.use_tls == tls
    &&& p.prefer_h2 == tls
    &&& p.port == if tls {
        origin.https_port
    } else {
        origin.http_port
    }
    &&& p.sni@ == match origin.sni {
        Some(s) => s@,
        None => Seq::<char>::empty(),
    }
}

/// The peer to connect to for `origin`.
pub fn peer_for(origin: &Origin, outgoing: OutgoingScheme, incoming: IncomingScheme) -> (r: Peer)
    ensures
        peer_spec(*origin, outgoing, incoming, r),
{
    let use_tls = match outgoing {
        OutgoingScheme::Http => false,
        OutgoingScheme::Https => true,
        OutgoingScheme::MatchIncoming => match incoming {
            IncomingScheme::Http => false,
            IncomingScheme::Https => true,
        },
    };
    let port = if use_tls {
        origin.https_port
    } else {
        origin.http_port
    };
    let sni = match &origin.sni {
        Some(s) => s.clone(),
        None => String::new(),
    };
    Peer { host: origin.host.clone(), port, use_tls, sni, prefer_h2: use_tls }
}

/// An exact copy of an origin.
pub fn copy_origin(o: &Origin) -> (r: Origin)
    ensures
        r == *o,
{
    let host_header_override = match &o.host_header_override {
        Some(s) => Some(s.clone()),
        None => None,
    };
    let sni = match &o.sni {
        Some(s) => Some(s.clone()),
        None => None,
    };
    Origin {
        host: o.host.clone(),
        http_port: o.http_port,
        https_port: o.https_port,
        host_header_override,
        sni,
        weight: o.weight,
    }
}

/// The phase a request's cache lookup has reached.
#[derive(Debug, Clone, Copy, PartialEq, Eq, Structural)]
pub enum CacheState {
    /// Caching is off because admission was deferred.
    DisabledDeferred,
    /// Caching is off for any other reason.
    Disabled,
    /// Caching is on, but nothing is decided yet.
    Uninit,
    /// Caching is on, but this request chose not to use it.
    Bypass,
    /// The cache key is being computed.
    CacheKey,
    /// A fresh entry was found.
    Hit,
    /// No entry was found.
    Miss,
    /// A stale entry was found.
    Stale,
    /// A stale entry was found and a fresh one fetched.
    Expired,
    /// A stale entry was revalidated as fresh.
    Revalidated,
    /// A stale entry was revalidated, but the response could not be cached.
    RevalidatedNoCache,
}

/// The value of the `x-cache-status` header for a request whose caching is `enabled` and
/// whose cache lookup reached `phase`.
pub open spec fn cache_status_text(enabled: bool, phase: CacheState) -> Seq<char> {
    if enabled {
        match phase {
            CacheState::Hit => "hit"@,
            CacheState::Miss => "miss"@,
            CacheState::Stale => "stale"@,
            CacheState::Expired => "expired"@,
            CacheState::Revalidated => "revalidated"@,
            CacheState::RevalidatedNoCache => "revalidated"@,
            _ => "invalid"@,
        }
    } else {
        match phase {
            CacheState::DisabledDeferred => "deferred"@,
            _ => "no-cache"@,
        }
    }
}

/// The value of the `x-cache-status` response header.
pub fn cache_status(enabled: bool, phase: CacheState) -> (r: &'static str)
    ensures
        r@ == cache_status_text(enabled, phase),
{
    if enabled {
        match phase {
            CacheState::Hit => "hit",
            CacheState::Miss => "miss",
            CacheState::Stale => "stale",
            CacheState::Expired => "expired",
            CacheState::Revalidated => "revalidated",
            CacheState::RevalidatedNoCache => "revalidated",
            _ => "invalid",
        }
    } else {
        match phase {
            CacheState::DisabledDeferred => "deferred",
            _ => "no-cache",
        }
    }
}

/// What one request has learnt so far.
#[derive(Debug)]
pub struct RequestContext {
    /// The name of the matched route.
    pub route: Option<String>,
    /// The selected origin.
    pub origin: Option<Origin>,
    /// The index of the selected origin in the route's origin group.
    pub origin_index: Option<usize>,
    /// The number of upstream peer selections so far, the first included.
    pub tries: u16,
}

impl RequestContext {
    /// The context of a request that has just arrived.
    pub fn new() -> (r: RequestContext)
        ensures
            r.route is None,
            r.origin is None,
            r.origin_index is None,
            r.tries == 0,
    {
        RequestContext { route: None, origin: None, origin_index: None, tries: 0 }
    }
}

/// The pipeline's settings.
#[derive(Debug)]
pub struct Proxy {
    /// The local ports whose requests arrive over HTTPS.
    pub https_ports: Vec<u16>,
    /// Seconds an origin stays marked down.
    pub origin_down_time: u64,
    /// The most retries of an upstream connection.
    pub connection_retry_limit: u16,
}

impl Proxy {
    /// The pipeline for `proxy_config`; `None` when an HTTPS address has no valid port.
    pub fn new(proxy_config: &ProxyConfig) -> (r: Option<Proxy>)
        ensures
            r is Some <==> forall|i: int|
                0 <= i < proxy_config.https_bind_addrs@.len() ==> #[trigger] address_port(
                    proxy_config.https_bind_addrs@[i]@,
                ) is Some,
            r matches Some(p) ==> {
                &&& p.https_ports@.len() == proxy_config.https_bind_addrs@.len()
                &&& forall|i: int|
                    0 <= i < proxy_config.https_bind_addrs@.len() ==> address_port(
                        proxy_config.https_bind_addrs@[i]@,
                    ) == Some(#[trigger] p.https_ports@[i])
                &&& p.origin_down_time == proxy_config.origin_down_time
                &&& p.connection_retry_limit == proxy_config.connection_retry_limit
            },
    {
        match collect_ports(proxy_config.https_bind_addrs.as_slice()) {
            None => None,
            Some(https_ports) => Some(
                Proxy {
                    https_ports,
                    origin_down_time: proxy_config.origin_down_time,
                    connection_retry_limit: proxy_config.connection_retry_limit,
                },
            ),
        }
    }

    /// The route for a request to `host` and `path` received on local port `server_port`.
    pub fn find_route<'a>(
        &self,
        store: &'a RouteStore,
        server_port: Option<u16>,
        host: &str,
        path: &str,
    ) -> (r: Result<&'a Route, ProxyError>)
        requires
            store.wf(),
        ensures
            server_port is None ==> r == Err::<&Route, ProxyError>(ProxyError::Internal),
            server_port matches Some(p) ==> {
                let s = scheme_for_port(p, self.https_ports@);
                match r {
                    Ok(route) => exists|j: int, q: int|
                        #[trigger] best_match(store@, s, host@, encode_utf8(path@), j, q) && *route
                            == store@[j],
                    Err(e) => e == ProxyError::RouteNotFound && forall|j: int, q: int|
                        !#[trigger] candidate(store@, s, host@, encode_utf8(path@), j, q),
                }
            },
    {
        let scheme = match get_incoming_scheme(server_port, self.https_ports.as_slice()) {
            Ok(s) => s,
            Err(e) => {
                return Err(e);
            },
        };
        match store.get_route(scheme, host, path) {
            Some(route) => Ok(route),
            None => Err(ProxyError::RouteNotFound),
        }
    }
    /// Selects an origin of the request's route, records it in `ctx`, counts the attempt,
    /// and returns the peer to connect to. A route deleted since it was matched is no
    /// longer found.
    pub fn select_upstream(
        &self,
        store: &mut RouteStore,
        ctx: &mut RequestContext,
        incoming: IncomingScheme,
        now: u64,
    ) -> (r: Result<Peer, ProxyError>)
        requires
            old(store).wf(),
        ensures
            final(store).wf(),
            r is Err ==> final(ctx).tries == old(ctx).tries && final(ctx).origin == old(ctx).origin
                && final(ctx).origin_index == old(ctx).origin_index,
            final(ctx).route == old(ctx).route,
            match old(ctx).route {
                None => r == Err::<Peer, ProxyError>(ProxyError::Internal) && final(store)@ == old(
                    store,
                )@,
                Some(n) => if no_route_named(old(store)@, n@) {
                    r == Err::<Peer, ProxyError>(ProxyError::RouteNotFound) && final(store)@ == old(
                        store,
                    )@
                } else {
                    exists|j: int, sel: Result<usize, SelectError>|
                        0 <= j < old(store)@.len() && old(store)@[j].config.name@ == n@
                            && final(store)@ == old(store)@.update(j, final(store)@[j])
                            && #[trigger] selection_outcome(
                            old(store)@[j],
                            final(store)@[j],
                            now,
                            self.origin_down_time,
                            sel,
                        ) && match sel {
                            Ok(i) => r matches Ok(p) && peer_spec(
                                old(store)@[j].config.origin_group.origins@[i as int],
                                old(store)@[j].config.outgoing_scheme,
                                incoming,
                                p,
                            ) && final(ctx).origin == Some(
                                old(store)@[j].config.origin_group.origins@[i as int],
                            ) && final(ctx).origin_index == Some(i) && final(ctx).tries == (if old(
                                ctx,
                            ).tries < 65535 {
                                (old(ctx).tries + 1) as u16
                            } else {
                                old(ctx).tries
                            }),
                            Err(SelectError::NoOrigins) => r == Err::<Peer, ProxyError>(
                                ProxyError::NoOrigins,
                            ),
                            Err(_) => r == Err::<Peer, ProxyError>(ProxyError::ZeroWeight),
                        }
                },
            },
    {
        let name = match &ctx.route {
            None => {
                return Err(ProxyError::Internal);
            },
            Some(n) => n.clone(),
        };
        let sel = store.select_origin(name.as_str(), now, self.origin_down_time);
        let i = match sel {
            Err(SelectError::UnknownRoute) => {
                return Err(ProxyError::RouteNotFound);
            },
            Err(SelectError::NoOrigins) => {
                return Err(ProxyError::NoOrigins);
            },
            Err(_) => {
                return Err(ProxyError::ZeroWeight);
            },
            Ok(i) => i,
        };
        let route = match store.route_named(name.as_str()) {
            Some(route) => route,
            None => {
                return Err(ProxyError::RouteNotFound);
            },
        };
        proof {
            let j = choose|j: int|
                0 <= j < old(store)@.len() && #[trigger] old(store)@[j].config.name@ == name@
                    && store@ == old(store)@.update(j, store@[j]) && selection_outcome(
                    old(store)@[j],
                    store@[j],
                    now,
                    self.origin_down_time,
                    sel,
                );
            let j2 = choose|j2: int|
                0 <= j2 < store@.len() && #[trigger] store@[j2].config.name@ == name@ && *route
                    == store@[j2];
            assert(store@[j].config.name@ == name@);
            assert(crate::route_store::names_unique(store@)) by {
                crate::route_store::RouteStore::lemma_names_unique(*store);
            }
            assert(j == j2);
        }
        let origin = &route.config.origin_group.origins[i];
        let peer = peer_for(origin, route.config.outgoing_scheme, incoming);
        ctx.origin = Some(copy_origin(origin));
        ctx.origin_index = Some(i);
        if ctx.tries < 65535 {
            ctx.tries = ctx.tries + 1;
        }
        Ok(peer)
    }

    /// Records that connecting to the request's origin failed: the origin is marked down
    /// on its route. Returns whether the attempt may be retried, which it may while the
    /// attempts so far are within the retry limit.
    pub fn connect_failed(&self, store: &mut RouteStore, ctx: &RequestContext, now: u64) -> (r: bool)
        requires
            old(store).wf(),
        ensures
            final(store).wf(),
            match (ctx.route, ctx.origin_index) {
                (Some(n), Some(i)) => if no_route_named(old(store)@, n@) {
                    !r && final(store)@ == old(store)@
                } else {
                    exists|j: int|
                        0 <= j < old(store)@.len() && #[trigger] old(store)@[j].config.name@ == n@
                            && final(store)@ == old(store)@.update(j, final(store)@[j])
                            && mark_outcome(
                            old(store)@[j],
                            final(store)@[j],
                            i,
                            now,
                            if (i as int) < old(store)@[j].origin_count() {
                                Ok::<(), SelectError>(())
                            } else {
                                Err::<(), SelectError>(SelectError::UnknownOrigin)
                            },
                        ) && r == ((i as int) < old(store)@[j].origin_count() && ctx.tries
                            <= self.connection_retry_limit)
                },
                _ => !r && final(store)@ == old(store)@,
            },
    {
        let name = match &ctx.route {
            None => {
                return false;
            },
            Some(n) => n,
        };
        let i = match ctx.origin_index {
            None => {
                return false;
            },
            Some(i) => i,
        };
        match store.mark_origin_down(name.as_str(), i, now) {
            Err(_) => false,
            Ok(()) => ctx.tries <= self.connection_retry_limit,
        }
    }

    /// The `Host` header to send upstream: the selected origin's override, if it has one.
    pub fn override_host_header(&self, ctx: &RequestContext) -> (r: Result<Option<String>, ProxyError>)
        ensures
            match ctx.origin {
                None => r == Err::<Option<String>, ProxyError>(ProxyError::Internal),
                Some(o) => r matches Ok(h) && match o.host_header_override {
                    None => h is None,
                    Some(v) => h matches Some(x) && x@ == v@,
                },
            },
    {
        match &ctx.origin {
            None => Err(ProxyError::Internal),
            Some(o) => match &o.host_header_override {
                None => Ok(None),
                Some(v) => Ok(Some(v.clone())),
            },
        }
    }

    /// Whether the request's responses go through the cache: exactly when its route asks
    /// for caching.
    pub fn wants_cache(&self, route: Option<&Route>) -> (r: bool)
        ensures
            r == match route {
                None => false,
                Some(route) => route.config.cache,
            },
    {
        match route {
            None => false,
            Some(route) => route.config.cache,
        }
    }
}

} // verus!
