use caching_proxy::app_config::{ApiConfig, AppConfig, CacheConfig, ConfigError, ProxyConfig};
use caching_proxy::cert_store::{CertBinding, CertStore};
use caching_proxy::config_api::{add_cert, add_route, build_response, check_request, delete_cert, delete_route};
use caching_proxy::config_api::{endpoint_for_path, AdminEndpoint};
use caching_proxy::route_config::{IncomingScheme, Origin, OriginGroup, OutgoingScheme, RouteConfig};
use caching_proxy::route_store::RouteStore;

fn config(name: &str, host: &str) -> RouteConfig {
    RouteConfig {
        name: name.to_string(),
        customer: "customer1".to_string(),
        incoming_schemes: vec![IncomingScheme::Http],
        hosts: vec![host.to_string()],
        paths: vec!["/".to_string()],
        cache: true,
        outgoing_scheme: OutgoingScheme::Https,
        origin_group: OriginGroup {
            origins: vec![Origin {
                host: "origin1.com".to_string(),
                http_port: 8080,
                https_port: 443,
                host_header_override: Some("foo.com".to_string()),
                sni: Some("foo.com".to_string()),
                weight: 10,
            }],
        },
    }
}

#[test]
fn admin_add_then_lookup() {
    let mut store = RouteStore::new();
    let c = config("route1", "example1.com");
    let r = add_route(&mut store, Some(c.clone()));
    assert_eq!(r.status, 200);
    assert_eq!(r.body, b"Success\n".to_vec());
    assert_eq!(r.content_length, 8);
    assert_eq!(r.content_type, "text/html");
    assert_eq!(store.get_route(IncomingScheme::Http, "example1.com", "/a").unwrap().config, c);
    let bad = add_route(&mut store, None);
    assert_eq!(bad.status, 400);
    assert!(bad.body.is_empty());
    assert_eq!(bad.content_length, 0);
}

#[test]
fn admin_delete_route() {
    let mut store = RouteStore::new();
    let _ = add_route(&mut store, Some(config("route1", "h")));
    let bad = delete_route(&mut store, &[0xff, 0xfe]);
    assert_eq!(bad.status, 400);
    assert!(store.route_named("route1").is_some());
    let ok = delete_route(&mut store, b"route1");
    assert_eq!(ok.status, 200);
    assert!(store.route_named("route1").is_none());
    assert!(store.get_route(IncomingScheme::Http, "h", "/").is_none());
    // Deleting again still succeeds.
    assert_eq!(delete_route(&mut store, b"route1").status, 200);
}

#[test]
fn admin_dispatch() {
    assert_eq!(endpoint_for_path("/route/add"), Some(AdminEndpoint::RouteAdd));
    assert_eq!(endpoint_for_path("/route/delete"), Some(AdminEndpoint::RouteDelete));
    assert_eq!(endpoint_for_path("/cert/add"), Some(AdminEndpoint::CertAdd));
    assert_eq!(endpoint_for_path("/cert/delete"), Some(AdminEndpoint::CertDelete));
    assert_eq!(endpoint_for_path("/route/add/"), None);
    assert_eq!(check_request("/nope", true, true), Err(404));
    assert_eq!(check_request("/route/add", false, true), Err(405));
    assert_eq!(check_request("/route/add", true, false), Err(400));
    assert_eq!(check_request("/cert/delete", true, true), Ok(AdminEndpoint::CertDelete));
    let r = build_response(404, "");
    assert_eq!((r.status, r.content_length, r.body.len()), (404, 0, 0));
    let r = build_response(200, "héllo");
    assert_eq!(r.content_length, 6);
    assert_eq!(r.body, "héllo".as_bytes().to_vec());
}

#[test]
fn sni_certificate_routing() {
    let mut store: CertStore<(String, String)> = CertStore::new();
    store.add_cert("a.test", ("certA".to_string(), "keyA".to_string()));
    store.add_cert("b.test", ("certB".to_string(), "keyB".to_string()));
    assert_eq!(store.get_cert("a.test"), Some(&("certA".to_string(), "keyA".to_string())));
    assert_eq!(store.get_cert("b.test").map(|c| c.0.as_str()), Some("certB"));
    assert_eq!(store.get_cert("c.test"), None);
    store.add_cert("a.test", ("certA2".to_string(), "keyA2".to_string()));
    assert_eq!(store.get_cert("a.test").map(|c| c.0.as_str()), Some("certA2"));
    assert!(store.delete_cert("a.test"));
    assert!(!store.delete_cert("a.test"));
    assert_eq!(store.get_cert("a.test"), None);
    assert_eq!(store.get_cert("b.test").map(|c| c.1.as_str()), Some("keyB"));
}

#[test]
fn admin_certificates() {
    let mut store: CertStore<u32> = CertStore::new();
    assert_eq!(add_cert(&mut store, "a.test", Some(7)).status, 200);
    assert_eq!(add_cert(&mut store, "b.test", None).status, 400);
    assert_eq!(store.get_cert("a.test"), Some(&7));
    assert_eq!(store.get_cert("b.test"), None);
    assert_eq!(delete_cert(&mut store, &[0xc3]).status, 400);
    assert_eq!(store.get_cert("a.test"), Some(&7));
    assert_eq!(delete_cert(&mut store, b"a.test").status, 200);
    assert_eq!(store.get_cert("a.test"), None);
    let binding = CertBinding { host: "h".to_string(), cert: "c".to_string(), key: "k".to_string() };
    assert_eq!(binding.clone(), binding);
}

fn api(tls: bool, cert: bool, key: bool, mutual_tls: bool, client_cert: bool) -> AppConfig {
    let some = |b: bool, v: &str| if b { Some(v.to_string()) } else { None };
    AppConfig {
        proxy: ProxyConfig::default(),
        cache: CacheConfig::default(),
        api: ApiConfig {
            bind_addr: "127.0.1.5:6000".to_string(),
            tls,
            cert: some(cert, "/path/to/api.crt"),
            key: some(key, "/path/to/api.key"),
            mutual_tls,
            client_cert: some(client_cert, "/path/to/client.crt"),
        },
    }
}

#[test]
fn validate_accepts_consistent_tls() {
    let full = api(true, true, true, true, true);
    assert_eq!(full.clone().validate(), Ok(full));
    let plain = api(false, false, false, false, false);
    assert_eq!(plain.clone().validate(), Ok(plain));
}

#[test]
fn validate_missing_cert() {
    assert_eq!(api(true, false, true, false, false).validate(), Err(ConfigError::MissingCert));
}

#[test]
fn validate_missing_key() {
    assert_eq!(api(true, true, false, false, false).validate(), Err(ConfigError::MissingKey));
}

#[test]
fn validate_missing_client_cert() {
    assert_eq!(api(true, true, true, true, false).validate(), Err(ConfigError::MissingClientCert));
}

#[test]
fn validate_mutual_tls_without_tls() {
    let e = api(false, false, false, true, true).validate().unwrap_err();
    assert_eq!(e, ConfigError::MutualTlsWithoutTls);
    assert_eq!(e.message(), "API: tls must be enabled if mutual_tls is enabled");
}

#[test]
fn config_defaults() {
    let p = ProxyConfig::default();
    assert_eq!(p.http_bind_addrs, vec!["0.0.0.0:8080".to_string()]);
    assert_eq!(p.https_bind_addrs, vec!["0.0.0.0:4433".to_string()]);
    assert_eq!((p.origin_down_time, p.connection_retry_limit), (10, 1));
    assert_eq!(CacheConfig::default().max_size, 100 * 1024 * 1024);
    let a = ApiConfig::default();
    assert_eq!(a.bind_addr, "0.0.0.0:5000");
    assert!(!a.tls && !a.mutual_tls && a.cert.is_none() && a.key.is_none() && a.client_cert.is_none());
    assert_eq!(AppConfig::default().api, a);
}
