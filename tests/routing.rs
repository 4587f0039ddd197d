use caching_proxy::proxy::{CacheState, HostHeader, Proxy, ProxyError, RequestContext};
use caching_proxy::proxy::{cache_status, get_host_header, get_incoming_scheme, strip_port};
use caching_proxy::route_config::{IncomingScheme, Origin, OriginGroup, OutgoingScheme, RouteConfig};
use caching_proxy::route_config::{default_http_port, default_https_port, default_weight};
use caching_proxy::route_store::RouteStore;
use caching_proxy::app_config::ProxyConfig;

fn origin(host: &str, weight: u16) -> Origin {
    Origin {
        host: host.to_string(),
        http_port: 80,
        https_port: 443,
        host_header_override: None,
        sni: None,
        weight,
    }
}

fn route(name: &str, schemes: Vec<IncomingScheme>, hosts: &[&str], paths: &[&str], origins: Vec<Origin>) -> RouteConfig {
    RouteConfig {
        name: name.to_string(),
        customer: "customer1".to_string(),
        incoming_schemes: schemes,
        hosts: hosts.iter().map(|h| h.to_string()).collect(),
        paths: paths.iter().map(|p| p.to_string()).collect(),
        cache: false,
        outgoing_scheme: OutgoingScheme::MatchIncoming,
        origin_group: OriginGroup { origins },
    }
}

fn both() -> Vec<IncomingScheme> {
    vec![IncomingScheme::Http, IncomingScheme::Https]
}

fn lookup(store: &RouteStore, scheme: IncomingScheme, host: &str, path: &str) -> Option<String> {
    store.get_route(scheme, host, path).map(|r| r.config.name.clone())
}

fn proxy(https: &[&str]) -> Proxy {
    let mut config = ProxyConfig::default();
    config.https_bind_addrs = https.iter().map(|a| a.to_string()).collect();
    Proxy::new(&config).unwrap()
}

#[test]
fn exact_host_longest_prefix() {
    let mut store = RouteStore::new();
    store.add_route(route("A", both(), &["x.test"], &["/", "/api"], vec![origin("o1", 10)]));
    let r = store.get_route(IncomingScheme::Http, "x.test", "/api/v1").unwrap();
    assert_eq!(r.config.name, "A");
    assert_eq!(lookup(&store, IncomingScheme::Http, "y.test", "/api/v1"), None);
    assert_eq!(lookup(&store, IncomingScheme::Http, "x.test:80", "/api/v1"), None);
}

#[test]
fn longest_prefix_across_routes() {
    let mut store = RouteStore::new();
    store.add_route(route("root", both(), &["h"], &["/"], vec![origin("o1", 10)]));
    store.add_route(route("api", both(), &["h"], &["/api"], vec![origin("o2", 10)]));
    store.add_route(route("deep", both(), &["h"], &["/api/v2/x"], vec![origin("o3", 10)]));
    assert_eq!(lookup(&store, IncomingScheme::Http, "h", "/api/v1"), Some("api".to_string()));
    assert_eq!(lookup(&store, IncomingScheme::Http, "h", "/other"), Some("root".to_string()));
    assert_eq!(lookup(&store, IncomingScheme::Https, "h", "/api/v2/x/y"), Some("deep".to_string()));
    assert_eq!(lookup(&store, IncomingScheme::Https, "h", ""), None);
}

#[test]
fn empty_prefix_matches_every_path() {
    let mut store = RouteStore::new();
    store.add_route(route("any", both(), &["h"], &[""], vec![origin("o1", 10)]));
    assert_eq!(lookup(&store, IncomingScheme::Http, "h", ""), Some("any".to_string()));
    assert_eq!(lookup(&store, IncomingScheme::Http, "h", "/x"), Some("any".to_string()));
}

#[test]
fn scheme_disambiguation() {
    let mut store = RouteStore::new();
    store.add_route(route("H", vec![IncomingScheme::Http], &["h.test"], &["/"], vec![origin("o", 10)]));
    store.add_route(route("S", vec![IncomingScheme::Https], &["h.test"], &["/"], vec![origin("o", 10)]));
    let p = proxy(&["0.0.0.0:4433"]);
    assert_eq!(p.find_route(&store, Some(8080), "h.test", "/a").unwrap().config.name, "H");
    assert_eq!(p.find_route(&store, Some(4433), "h.test", "/a").unwrap().config.name, "S");
    assert_eq!(p.find_route(&store, None, "h.test", "/a").err(), Some(ProxyError::Internal));
    let missing = p.find_route(&store, Some(8080), "other.test", "/a").err().unwrap();
    assert_eq!(missing, ProxyError::RouteNotFound);
    assert_eq!(missing.status(), 404);
}

#[test]
fn incoming_scheme_from_port() {
    assert_eq!(get_incoming_scheme(Some(443), &[443, 4433]), Ok(IncomingScheme::Https));
    assert_eq!(get_incoming_scheme(Some(80), &[443, 4433]), Ok(IncomingScheme::Http));
    assert_eq!(get_incoming_scheme(Some(80), &[]), Ok(IncomingScheme::Http));
    assert_eq!(get_incoming_scheme(None, &[443]), Err(ProxyError::Internal));
}

#[test]
fn index_follows_adds_and_deletes() {
    let mut store = RouteStore::new();
    store.add_route(route("r", both(), &["a", "b"], &["/"], vec![origin("o", 10)]));
    assert_eq!(lookup(&store, IncomingScheme::Http, "a", "/"), Some("r".to_string()));
    assert_eq!(lookup(&store, IncomingScheme::Https, "b", "/"), Some("r".to_string()));
    // Replacing with fewer hosts and one scheme drops the old index entries.
    store.add_route(route("r", vec![IncomingScheme::Https], &["b"], &["/"], vec![origin("o", 10)]));
    assert_eq!(lookup(&store, IncomingScheme::Http, "a", "/"), None);
    assert_eq!(lookup(&store, IncomingScheme::Https, "a", "/"), None);
    assert_eq!(lookup(&store, IncomingScheme::Http, "b", "/"), None);
    assert_eq!(lookup(&store, IncomingScheme::Https, "b", "/"), Some("r".to_string()));
    store.delete_route("r");
    assert_eq!(lookup(&store, IncomingScheme::Https, "b", "/"), None);
    // Deleting a missing name is a no-op.
    store.delete_route("r");
    store.add_route(route("r", both(), &["a"], &["/"], vec![origin("o", 10)]));
    assert_eq!(lookup(&store, IncomingScheme::Http, "a", "/"), Some("r".to_string()));
}

#[test]
fn add_then_lookup_returns_config() {
    let mut store = RouteStore::new();
    let c = route("c", both(), &["h"], &["/x"], vec![origin("o1", 3), origin("o2", 4)]);
    store.add_route(c.clone());
    assert_eq!(store.get_route(IncomingScheme::Http, "h", "/x/1").unwrap().config, c);
    store.add_route(c.clone());
    assert_eq!(store.get_route(IncomingScheme::Http, "h", "/x/1").unwrap().config, c);
    assert_eq!(store.route_named("c").unwrap().config, c);
}

#[test]
fn delete_then_lookup_falls_back() {
    let mut store = RouteStore::new();
    store.add_route(route("short", both(), &["h"], &["/"], vec![origin("o", 10)]));
    store.add_route(route("long", both(), &["h"], &["/api"], vec![origin("o", 10)]));
    assert_eq!(lookup(&store, IncomingScheme::Http, "h", "/api/1"), Some("long".to_string()));
    store.delete_route("long");
    assert_eq!(lookup(&store, IncomingScheme::Http, "h", "/api/1"), Some("short".to_string()));
    store.delete_route("short");
    assert_eq!(lookup(&store, IncomingScheme::Http, "h", "/api/1"), None);
}

#[test]
fn admin_update_atomicity() {
    let mut store = RouteStore::new();
    store.add_route(route("R", both(), &["h"], &["/"], vec![origin("old", 10)]));
    for i in 0..10000u32 {
        if i == 5000 {
            store.add_route(route("R", both(), &["h"], &["/"], vec![origin("new", 10)]));
        }
        let r = store.get_route(IncomingScheme::Http, "h", "/p").unwrap();
        let host = &r.config.origin_group.origins[0].host;
        assert_eq!(host, if i < 5000 { "old" } else { "new" });
    }
}

#[test]
fn host_header_selection() {
    assert_eq!(get_host_header(HostHeader::Value("example.com:443".to_string()), None), Ok("example.com".to_string()));
    assert_eq!(get_host_header(HostHeader::Value("example.com".to_string()), Some("x:1")), Ok("example.com".to_string()));
    assert_eq!(get_host_header(HostHeader::Missing, Some("auth.test:8443")), Ok("auth.test".to_string()));
    assert_eq!(get_host_header(HostHeader::Missing, None), Err(ProxyError::BadRequest));
    assert_eq!(get_host_header(HostHeader::NotAscii, Some("a")), Err(ProxyError::BadRequest));
    assert_eq!(ProxyError::BadRequest.status(), 400);
    assert_eq!(strip_port(":80"), "");
    assert_eq!(strip_port("a:b:c"), "a");
    assert_eq!(strip_port("plain"), "plain");
}

#[test]
fn cache_status_header() {
    assert_eq!(cache_status(true, CacheState::Miss), "miss");
    assert_eq!(cache_status(true, CacheState::Hit), "hit");
    assert_eq!(cache_status(true, CacheState::Stale), "stale");
    assert_eq!(cache_status(true, CacheState::Expired), "expired");
    assert_eq!(cache_status(true, CacheState::Revalidated), "revalidated");
    assert_eq!(cache_status(true, CacheState::RevalidatedNoCache), "revalidated");
    assert_eq!(cache_status(true, CacheState::Uninit), "invalid");
    assert_eq!(cache_status(false, CacheState::DisabledDeferred), "deferred");
    assert_eq!(cache_status(false, CacheState::Disabled), "no-cache");
    assert_eq!(cache_status(false, CacheState::Hit), "no-cache");
}

#[test]
fn cache_only_for_caching_routes() {
    let mut store = RouteStore::new();
    let mut c = route("c", both(), &["h"], &["/"], vec![origin("o", 10)]);
    c.cache = true;
    store.add_route(c);
    store.add_route(route("n", both(), &["n"], &["/"], vec![origin("o", 10)]));
    let p = proxy(&[]);
    assert!(p.wants_cache(store.get_route(IncomingScheme::Http, "h", "/")));
    assert!(!p.wants_cache(store.get_route(IncomingScheme::Http, "n", "/")));
    assert!(!p.wants_cache(None));
}

#[test]
fn origin_defaults() {
    assert_eq!(default_http_port(), 80);
    assert_eq!(default_https_port(), 443);
    assert_eq!(default_weight(), 10);
    assert_eq!(OutgoingScheme::default(), OutgoingScheme::MatchIncoming);
    let ctx = RequestContext::new();
    assert!(ctx.route.is_none() && ctx.origin.is_none() && ctx.origin_index.is_none());
    assert_eq!(ctx.tries, 0);
}
