//! The route configuration model: schemes, origins and routes.

use vstd::prelude::*;
use vstd::utf8::encode_utf8;

verus! {

/// An interface for adding and deleting routes.
pub trait RouteHolder {
    /// The holder is in a consistent state.
    spec fn holder_wf(&self) -> bool;

    /// The routes the holder holds.
    spec fn holder_routes(&self) -> Seq<crate::route_store::Route>;

    /// Installs `route`, replacing any route of the same name.
    fn add_route(&mut self, route: RouteConfig)
        requires
            old(self).holder_wf(),
        ensures
            final(self).holder_wf(),
            crate::route_store::added(old(self).holder_routes(), final(self).holder_routes(), route),
    ;

    /// Deletes the route named `name`, if any.
    fn delete_route(&mut self, name: &str)
        requires
            old(self).holder_wf(),
        ensures
            final(self).holder_wf(),
            crate::route_store::deleted(old(self).holder_routes(), final(self).holder_routes(), name@),
    ;
}

/// The scheme the client used to connect to the proxy.
#[derive(Debug, Clone, Copy, PartialEq, Eq, Structural, Hash)]
pub enum IncomingScheme {
    Http,
    Https,
}

/// The scheme to use for requests to the origin.
#[derive(Debug, Clone, Copy, PartialEq, Eq, Structural, Hash)]
pub enum OutgoingScheme {
    /// Always forward requests to the origin using HTTP.
    Http,
    /// Always forward requests to the origin using HTTPS.
    Https,
    /// Match the scheme that the client used.
    MatchIncoming,
}

impl Default for OutgoingScheme {
    fn default() -> (r: Self)
        ensures
            r == OutgoingScheme::MatchIncoming,
    {
        OutgoingScheme::MatchIncoming
    }
}

/// Information about an origin server.
#[derive(Debug, Clone, PartialEq, Eq)]
pub struct Origin {
    /// The hostname or IP address of the origin server.
    pub host: String,
    /// The port to connect to if the scheme is HTTP.
    pub http_port: u16,
    /// The port to connect to if the scheme is HTTPS.
    pub https_port: u16,
    /// An optional host header to send to the origin server.
    pub host_header_override: Option<String>,
    /// An optional SNI to send to the origin server.
    pub sni: Option<String>,
    /// The relative weight of this origin within its group; zero makes it ineligible.
    pub weight: u16,
}

pub const DEFAULT_HTTP_PORT: u16 = 80;

pub const DEFAULT_HTTPS_PORT: u16 = 443;

pub const DEFAULT_WEIGHT: u16 = 10;

/// The HTTP port of an origin whose configuration names none.
pub fn default_http_port() -> (r: u16)
    ensures
        r == DEFAULT_HTTP_PORT,
{
    DEFAULT_HTTP_PORT
}

/// The HTTPS port of an origin whose configuration names none.
pub fn default_https_port() -> (r: u16)
    ensures
        r == DEFAULT_HTTPS_PORT,
{
    DEFAULT_HTTPS_PORT
}

/// The weight of an origin whose configuration names none.
pub fn default_weight() -> (r: u16)
    ensures
        r == DEFAULT_WEIGHT,
{
    DEFAULT_WEIGHT
}

/// An ordered group of origins; an origin's position is its identity in the health state.
#[derive(Debug, Clone, PartialEq, Eq)]
pub struct OriginGroup {
    pub origins: Vec<Origin>,
}

/// A route configuration. Matching uses the scheme and host exactly and the path by
/// longest prefix.
#[derive(Debug, Clone, PartialEq, Eq)]
pub struct RouteConfig {
    /// A name for the route, unique among all routes.
    pub name: String,
    /// The customer this route is for.
    pub customer: String,
    /// The incoming schemes this route matches, taken as a set.
    pub incoming_schemes: Vec<IncomingScheme>,
    /// The hosts this route matches.
    pub hosts: Vec<String>,
    /// The path prefixes this route matches.
    pub paths: Vec<String>,
    /// Whether to enable caching for requests that match this route.
    pub cache: bool,
    /// The scheme to use for requests to the origin.
    pub outgoing_scheme: OutgoingScheme,
    /// The origin servers to select from.
    pub origin_group: OriginGroup,
}

/// The byte string `p` starts the byte string `s`.
pub open spec fn is_prefix(p: Seq<u8>, s: Seq<u8>) -> bool {
    p.len() <= s.len() && s.subrange(0, p.len() as int) == p
}

impl RouteConfig {
    /// The route declares scheme `s`.
    pub open spec fn has_scheme(self, s: IncomingScheme) -> bool {
        self.incoming_schemes@.contains(s)
    }

    /// The route declares host `h`.
    pub open spec fn has_host(self, h: Seq<char>) -> bool {
        exists|i: int| 0 <= i < self.hosts@.len() && #[trigger] self.hosts@[i]@ == h
    }

    /// The route is indexed under scheme `s` and host `h`.
    pub open spec fn serves(self, s: IncomingScheme, h: Seq<char>) -> bool {
        self.has_scheme(s) && self.has_host(h)
    }

    /// The `q`-th path of the route is a prefix of `path`.
    pub open spec fn path_matches(self, q: int, path: Seq<u8>) -> bool {
        0 <= q < self.paths@.len() && is_prefix(encode_utf8(self.paths@[q]@), path)
    }

    /// The byte length of the `q`-th path of the route.
    pub open spec fn path_len(self, q: int) -> nat {
        encode_utf8(self.paths@[q]@).len()
    }

    /// Some path of the route is a prefix of `path`.
    pub open spec fn matches_path(self, path: Seq<u8>) -> bool {
        exists|q: int| #[trigger] self.path_matches(q, path)
    }
}

} // verus!
