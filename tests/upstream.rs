use caching_proxy::app_config::ProxyConfig;
use caching_proxy::health::SelectError;
use caching_proxy::proxy::{peer_for, Proxy, ProxyError, RequestContext};
use caching_proxy::route_config::{IncomingScheme, Origin, OriginGroup, OutgoingScheme, RouteConfig};
use caching_proxy::route_store::{Route, RouteStore};
use caching_proxy::utils::collect_ports;

fn origin(host: &str, weight: u16) -> Origin {
    Origin {
        host: host.to_string(),
        http_port: 8080,
        https_port: 8443,
        host_header_override: None,
        sni: None,
        weight,
    }
}

fn config(name: &str, origins: Vec<Origin>) -> RouteConfig {
    RouteConfig {
        name: name.to_string(),
        customer: "c".to_string(),
        incoming_schemes: vec![IncomingScheme::Http, IncomingScheme::Https],
        hosts: vec!["h".to_string()],
        paths: vec!["/".to_string()],
        cache: false,
        outgoing_scheme: OutgoingScheme::MatchIncoming,
        origin_group: OriginGroup { origins },
    }
}

const DOWN_TIME: u64 = 10;

#[test]
fn weighted_selection_with_mark_down() {
    let mut route = Route::new(config("r", vec![origin("o1", 10), origin("o2", 10)]));
    assert_eq!(route.mark_origin_down(0, 1_000), Ok(()));
    for t in 0..5u64 {
        assert_eq!(route.select_origin(1_001 + t, DOWN_TIME), Ok(1));
    }
    // Still down exactly at the end of the window.
    assert_eq!(route.select_origin(11_000, DOWN_TIME), Ok(1));
    assert!(route.state.down_endpoints.contains_key(&0));
    // One millisecond later the sweep restores the origin.
    let mut counts = [0u32; 2];
    for i in 0..1000u64 {
        let picked = route.select_origin(11_001 + i, DOWN_TIME).unwrap();
        counts[picked] += 1;
    }
    assert!(route.state.down_endpoints.is_empty());
    assert!(counts[0] >= 400 && counts[0] <= 600, "{:?}", counts);
}

#[test]
fn all_down_fallback() {
    let mut route = Route::new(config("r", vec![origin("o1", 10), origin("o2", 10)]));
    assert_eq!(route.mark_origin_down(0, 500), Ok(()));
    assert_eq!(route.mark_origin_down(1, 600), Ok(()));
    for _ in 0..20 {
        let i = route.select_origin(700, DOWN_TIME).unwrap();
        assert!(i < 2);
    }
    assert_eq!(route.state.down_endpoints.len(), 2);
}

#[test]
fn mark_down_keeps_first_instant() {
    let mut route = Route::new(config("r", vec![origin("o1", 10), origin("o2", 10)]));
    assert_eq!(route.mark_origin_down(0, 100), Ok(()));
    assert_eq!(route.mark_origin_down(0, 9_000), Ok(()));
    assert_eq!(route.state.down_endpoints.get(&0), Some(&100));
    assert_eq!(route.mark_origin_down(2, 100), Err(SelectError::UnknownOrigin));
    assert_eq!(route.state.down_endpoints.len(), 1);
    // 10.1 s after the first mark the origin is swept although it failed again at 9 s.
    assert!(route.has_expired(10_101, DOWN_TIME));
    route.sweep(10_101, DOWN_TIME);
    assert!(route.state.down_endpoints.is_empty());
}

#[test]
fn zero_weight_origins_never_picked() {
    let mut route = Route::new(config("r", vec![origin("zero", 0), origin("one", 10), origin("zero2", 0)]));
    for _ in 0..200 {
        assert_eq!(route.select_origin(0, DOWN_TIME), Ok(1));
    }
    let mut all_zero = Route::new(config("z", vec![origin("a", 0), origin("b", 0)]));
    assert_eq!(all_zero.select_origin(0, DOWN_TIME), Err(SelectError::ZeroWeight));
    let mut empty = Route::new(config("e", vec![]));
    assert_eq!(empty.select_origin(0, DOWN_TIME), Err(SelectError::NoOrigins));
}

#[test]
fn weighted_frequencies() {
    let mut route = Route::new(config("r", vec![origin("a", 10), origin("b", 30)]));
    let mut counts = [0u32; 2];
    for _ in 0..20000 {
        counts[route.select_origin(0, DOWN_TIME).unwrap()] += 1;
    }
    // Expected 5000 and 15000.
    assert!(counts[0] > 4500 && counts[0] < 5500, "{:?}", counts);
}

#[test]
fn eligible_origins_lists_up_origins() {
    let mut route = Route::new(config("r", vec![origin("a", 1), origin("b", 2), origin("c", 3)]));
    assert_eq!(route.mark_origin_down(1, 0), Ok(()));
    let (indices, weights) = route.eligible_origins();
    assert_eq!(indices, vec![0, 2]);
    assert_eq!(weights, vec![1, 3]);
}

fn proxy(limit: u16) -> Proxy {
    let mut config = ProxyConfig::default();
    config.connection_retry_limit = limit;
    config.https_bind_addrs = vec!["0.0.0.0:4433".to_string()];
    Proxy::new(&config).unwrap()
}

#[test]
fn upstream_peer_and_retries() {
    let mut store = RouteStore::new();
    let mut o = origin("backend", 10);
    o.sni = Some("sni.test".to_string());
    o.host_header_override = Some("backend.internal".to_string());
    store.add_route(config("r", vec![o]));
    let p = proxy(1);
    let mut ctx = RequestContext::new();
    assert_eq!(p.select_upstream(&mut store, &mut ctx, IncomingScheme::Https, 0).err(), Some(ProxyError::Internal));
    ctx.route = Some("r".to_string());
    let peer = p.select_upstream(&mut store, &mut ctx, IncomingScheme::Https, 0).unwrap();
    assert_eq!(peer.host, "backend");
    assert_eq!(peer.port, 8443);
    assert!(peer.use_tls && peer.prefer_h2);
    assert_eq!(peer.sni, "sni.test");
    assert_eq!(ctx.tries, 1);
    assert_eq!(ctx.origin_index, Some(0));
    assert_eq!(p.override_host_header(&ctx), Ok(Some("backend.internal".to_string())));
    // First failure: marked down and retried.
    assert!(p.connect_failed(&mut store, &ctx, 5));
    assert!(store.route_named("r").unwrap().state.down_endpoints.contains_key(&0));
    // The only origin is down, so it is picked again; the second failure is not retried.
    let _ = p.select_upstream(&mut store, &mut ctx, IncomingScheme::Http, 6).unwrap();
    assert_eq!(ctx.tries, 2);
    assert!(!p.connect_failed(&mut store, &ctx, 7));
    assert!(!p.connect_failed(&mut store, &RequestContext::new(), 7));
    ctx.route = Some("gone".to_string());
    assert_eq!(p.select_upstream(&mut store, &mut ctx, IncomingScheme::Http, 8).err(), Some(ProxyError::RouteNotFound));
    assert!(!p.connect_failed(&mut store, &ctx, 8));
}

#[test]
fn host_header_override() {
    let p = proxy(1);
    let mut ctx = RequestContext::new();
    assert_eq!(p.override_host_header(&ctx), Err(ProxyError::Internal));
    let mut o = origin("backend", 10);
    ctx.origin = Some(o.clone());
    assert_eq!(p.override_host_header(&ctx), Ok(None));
    o.host_header_override = Some("backend.internal".to_string());
    ctx.origin = Some(o);
    assert_eq!(p.override_host_header(&ctx), Ok(Some("backend.internal".to_string())));
}

#[test]
fn upstream_errors_have_statuses() {
    let mut store = RouteStore::new();
    store.add_route(config("empty", vec![]));
    store.add_route(config("zero", vec![origin("z", 0)]));
    let p = proxy(1);
    let mut ctx = RequestContext::new();
    ctx.route = Some("empty".to_string());
    let e = p.select_upstream(&mut store, &mut ctx, IncomingScheme::Http, 0).err().unwrap();
    assert_eq!((e, e.status()), (ProxyError::NoOrigins, 502));
    ctx.route = Some("zero".to_string());
    let e = p.select_upstream(&mut store, &mut ctx, IncomingScheme::Http, 0).err().unwrap();
    assert_eq!((e, e.status()), (ProxyError::ZeroWeight, 500));
    assert_eq!(ctx.tries, 0);
    assert_eq!(store.select_origin("nope", 0, 10), Err(SelectError::UnknownRoute));
    assert_eq!(store.mark_origin_down("nope", 0, 0), Err(SelectError::UnknownRoute));
}

#[test]
fn peer_scheme_and_port() {
    let o = origin("b", 1);
    let plain = peer_for(&o, OutgoingScheme::MatchIncoming, IncomingScheme::Http);
    assert_eq!((plain.port, plain.use_tls, plain.prefer_h2, plain.sni.as_str()), (8080, false, false, ""));
    let forced = peer_for(&o, OutgoingScheme::Https, IncomingScheme::Http);
    assert_eq!((forced.port, forced.use_tls), (8443, true));
    let down = peer_for(&o, OutgoingScheme::Http, IncomingScheme::Https);
    assert_eq!((down.port, down.use_tls), (8080, false));
}

#[test]
fn ports_from_addresses() {
    let addrs = vec!["0.0.0.0:80".to_string(), "127.0.0.1:4433".to_string(), "[::1]:8080".to_string()];
    assert_eq!(collect_ports(&addrs), Some(vec![80, 4433, 8080]));
    assert_eq!(collect_ports(&["1.2.3.4:+7".to_string()]), Some(vec![7]));
    assert_eq!(collect_ports(&["5000".to_string()]), Some(vec![5000]));
    assert_eq!(collect_ports(&["1.2.3.4:65535".to_string()]), Some(vec![65535]));
    assert_eq!(collect_ports(&["1.2.3.4:65536".to_string()]), None);
    assert_eq!(collect_ports(&["1.2.3.4:".to_string()]), None);
    assert_eq!(collect_ports(&["1.2.3.4:8o".to_string()]), None);
    assert_eq!(collect_ports(&["host:+".to_string()]), None);
    assert_eq!(collect_ports(&[]), Some(vec![]));
    let mut config = ProxyConfig::default();
    config.https_bind_addrs = vec!["bad:port".to_string()];
    assert!(Proxy::new(&config).is_none());
}
