//! The decisions of the admin API: which endpoint a request addresses, whether it is
//! acceptable, and the response to each outcome.

use vstd::prelude::*;
use vstd::utf8::{decode_utf8, encode_utf8, valid_utf8};
use crate::cert_store::CertStore;
use crate::route_config::RouteConfig;
use crate::route_store::{added, deleted, RouteStore};
use crate::text::str_eq;

verus! {

/// The four endpoints of the admin API.
#[derive(Debug, Clone, Copy, PartialEq, Eq, Structural)]
pub enum AdminEndpoint {
    /// `/route/add`: install or replace a route given as JSON.
    RouteAdd,
    /// `/route/delete`: delete the route whose name is the body.
    RouteDelete,
    /// `/cert/add`: bind a certificate given as JSON.
    CertAdd,
    /// `/cert/delete`: unbind the host that is the body.
    CertDelete,
}

/// The endpoint at `path`.
pub open spec fn endpoint_spec(path: Seq<char>) -> Option<AdminEndpoint> {
    if path == "/route/add"@ {
        Some(AdminEndpoint::RouteAdd)
    } else if path == "/route/delete"@ {
        Some(AdminEndpoint::RouteDelete)
    } else if path == "/cert/add"@ {
        Some(AdminEndpoint::CertAdd)
    } else if path == "/cert/delete"@ {
        Some(AdminEndpoint::CertDelete)
    } else {
        None
    }
}

/// The endpoint a request path addresses.
pub fn endpoint_for_path(path: &str) -> (r: Option<AdminEndpoint>)
    ensures
        r == endpoint_spec(path@),
{
    if str_eq(path, "/route/add") {
        Some(AdminEndpoint::RouteAdd)
    } else if str_eq(path, "/route/delete") {
        Some(AdminEndpoint::RouteDelete)
    } else if str_eq(path, "/cert/add") {
        Some(AdminEndpoint::CertAdd)
    } else if str_eq(path, "/cert/delete") {
        Some(AdminEndpoint::CertDelete)
    } else {
        None
    }
}

pub const STATUS_OK: u16 = 200;

pub const STATUS_BAD_REQUEST: u16 = 400;

pub const STATUS_NOT_FOUND: u16 = 404;

pub const STATUS_METHOD_NOT_ALLOWED: u16 = 405;

/// A response of the admin API.
#[derive(Debug, Clone, PartialEq, Eq)]
pub struct AdminResponse {
    /// The HTTP status.
    pub status: u16,
    /// The `Content-Type` header.
    pub content_type: String,
    /// The `Content-Length` header: the length of the body.
    pub content_length: usize,
    /// The body.
    pub body: Vec<u8>,
}

/// `r` is the response with `status` and the UTF-8 bytes of `body`, as `text/html`.
pub open spec fn response_spec(r: AdminResponse, status: u16, body: Seq<char>) -> bool {
    &&& r.status == status
    &&& r.content_type@ == "text/html"@
    &&& r.body@ == encode_utf8(body)
    &&& r.content_length == r.body@.len()
}

/// The response with `status` and `body`.
pub fn build_response(status: u16, body: &str) -> (r: AdminResponse)
    ensures
        response_spec(r, status, body@),
{
    let bytes = body.as_bytes();
    let mut v: Vec<u8> = Vec::new();
    let mut i: usize = 0;
    while i < bytes.len()
        invariant
            i <= bytes@.len(),
            v@ == bytes@.subrange(0, i as int),
        decreases bytes@.len() - i,
    {
        v.push(bytes[i]);
        i = i + 1;
        assert(v@ =~= bytes@.subrange(0, i as int));
    }
    assert(v@ =~= bytes@);
    let content_length = v.len();
    AdminResponse { status, content_type: "text/html".to_owned(), content_length, body: v }
}

/// The answer to a request that was applied.
pub fn success() -> (r: AdminResponse)
    ensures
        response_spec(r, STATUS_OK, "Success\n"@),
{
    build_response(STATUS_OK, "Success\n")
}

/// The answer to a request that was refused with `status`.
pub fn failure(status: u16) -> (r: AdminResponse)
    ensures
        response_spec(r, status, Seq::<char>::empty()),
{
    proof {
        reveal_strlit("");
    }
    build_response(status, "")
}

/// The endpoint a request addresses, or the status that refuses it: 404 for an unknown
/// path, 405 for a method other than POST, 400 for a missing body.
pub fn check_request(path: &str, is_post: bool, has_body: bool) -> (r: Result<AdminEndpoint, u16>)
    ensures
        match endpoint_spec(path@) {
            None => r == Err::<AdminEndpoint, u16>(STATUS_NOT_FOUND),
            Some(e) => if !is_post {
                r == Err::<AdminEndpoint, u16>(STATUS_METHOD_NOT_ALLOWED)
            } else if !has_body {
                r == Err::<AdminEndpoint, u16>(STATUS_BAD_REQUEST)
            } else {
                r == Ok::<AdminEndpoint, u16>(e)
            },
        },
{
    match endpoint_for_path(path) {
        None => Err(STATUS_NOT_FOUND),
        Some(e) => {
            if !is_post {
                Err(STATUS_METHOD_NOT_ALLOWED)
            } else if !has_body {
                Err(STATUS_BAD_REQUEST)
            } else {
                Ok(e)
            }
        },
    }
}

/// Relies on `String::from_utf8`, which std documents to succeed exactly on valid UTF-8
/// and then to hold the bytes unchanged.
#[verifier::external_body]
fn utf8_to_string(bytes: &[u8]) -> (r: Option<String>)
    ensures
        r is Some <==> valid_utf8(bytes@),
        r matches Some(s) ==> s@ == decode_utf8(bytes@),
{
    String::from_utf8(bytes.to_vec()).ok()
}

/// Installs `route`, the parsed body of a `/route/add` request; `None` stands for a body
/// that did not parse, answered with 400.
pub fn add_route(store: &mut RouteStore, route: Option<RouteConfig>) -> (r: AdminResponse)
    requires
        old(store).wf(),
    ensures
        final(store).wf(),
        match route {
            None => response_spec(r, STATUS_BAD_REQUEST, Seq::<char>::empty()) && final(store)@
                == old(store)@,
            Some(c) => response_spec(r, STATUS_OK, "Success\n"@) && added(
                old(store)@,
                final(store)@,
                c,
            ),
        },
{
    match route {
        None => failure(STATUS_BAD_REQUEST),
        Some(c) => {
            store.add_route(c);
            success()
        },
    }
}

/// Deletes the route named by `body`, the body of a `/route/delete` request; a body that is
/// not UTF-8 is answered with 400.
pub fn delete_route(store: &mut RouteStore, body: &[u8]) -> (r: AdminResponse)
    requires
        old(store).wf(),
    ensures
        final(store).wf(),
        !valid_utf8(body@) ==> response_spec(r, STATUS_BAD_REQUEST, Seq::<char>::empty())
            && final(store)@ == old(store)@,
        valid_utf8(body@) ==> response_spec(r, STATUS_OK, "Success\n"@) && deleted(
            old(store)@,
            final(store)@,
            decode_utf8(body@),
        ),
{
    match utf8_to_string(body) {
        None => failure(STATUS_BAD_REQUEST),
        Some(name) => {
            store.delete_route(name.as_str());
            success()
        },
    }
}

/// Binds `cert` to `host`, from the parsed body of a `/cert/add` request; `None` stands for
/// a body, certificate or key that did not parse, answered with 400.
pub fn add_cert<C>(store: &mut CertStore<C>, host: &str, cert: Option<C>) -> (r: AdminResponse)
    requires
        old(store).wf(),
    ensures
        final(store).wf(),
        match cert {
            None => response_spec(r, STATUS_BAD_REQUEST, Seq::<char>::empty()) && final(store).view()
                == old(store).view(),
            Some(c) => response_spec(r, STATUS_OK, "Success\n"@) && final(store).view() == old(
                store,
            ).view().insert(host@, c),
        },
{
    match cert {
        None => failure(STATUS_BAD_REQUEST),
        Some(c) => {
            store.add_cert(host, c);
            success()
        },
    }
}

/// Unbinds the host named by `body`, the body of a `/cert/delete` request; a body that is
/// not UTF-8 is answered with 400.
pub fn delete_cert<C>(store: &mut CertStore<C>, body: &[u8]) -> (r: AdminResponse)
    requires
        old(store).wf(),
    ensures
        final(store).wf(),
        !valid_utf8(body@) ==> response_spec(r, STATUS_BAD_REQUEST, Seq::<char>::empty())
            && final(store).view() == old(store).view(),
        valid_utf8(body@) ==> response_spec(r, STATUS_OK, "Success\n"@) && final(store).view()
            == old(store).view().remove(decode_utf8(body@)),
{
    match utf8_to_string(body) {
        None => failure(STATUS_BAD_REQUEST),
        Some(host) => {
            let _ = store.delete_cert(host.as_str());
            success()
        },
    }
}

} // verus!
