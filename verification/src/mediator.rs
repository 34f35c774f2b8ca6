//! The network-capability mediator: the single endpoint a sandboxed
//! program may reach, and the per-request checkpoint every outbound call must
//! pass before any socket is opened.
//!
//! The checkpoint also carries the literal-IP routing workaround: a request
//! addressed to a literal IP address would fail TLS name verification and
//! in-cluster virtual-host routing, so the transport must dial the IP
//! directly while the protocol layer presents the cluster-internal
//! service name.

use vstd::prelude::*;
use vstd::string::*;
use crate::errors::KrewWapcError;
use crate::ip::{is_ipv4_literal, is_ipv6_literal, is_ipv4, is_ipv6};
use crate::uri::{Uri, UriModel, spec_parse_uri, spec_resolved_port, parse_uri, resolved_port};
use crate::text::str_eq;

verus! {

/// The in-cluster service name presented at the protocol layer when a
/// request is rewritten away from a literal IP address.
pub open spec fn internal_service_name() -> Seq<char> {
    "kubernetes.default.svc"@
}

/// Returns the fixed in-cluster service name used for rewriting.
pub fn internal_service_host() -> (r: String)
    ensures
        r@ == internal_service_name(),
{
    "kubernetes.default.svc".to_owned()
}

/// The one host and port a sandboxed program may reach.
#[derive(Debug)]
pub struct Endpoint {
    pub host: String,
    pub port: u16,
}

/// The socket a rewritten request must dial directly: the literal IP
/// exactly as the request named it, and the resolved port.
#[derive(Debug)]
pub struct DirectTarget {
    pub host: String,
    pub port: u16,
}

/// True when the host is a literal IP address rather than a name.
pub open spec fn is_ip_literal(host: Seq<char>) -> bool {
    is_ipv4_literal(host) || is_ipv6_literal(host)
}

/// The model of a request after the literal-IP rewrite: the host is
/// replaced by the in-cluster service name, everything else is kept.
pub open spec fn spec_rewritten(u: UriModel) -> UriModel {
    UriModel { host: internal_service_name(), ..u }
}

/// Rewrites a request addressed to a literal IP address so that routing
/// still works: the effective URI presents the in-cluster service name,
/// and the returned target says which socket to dial instead.  A request
/// addressed to a name is returned unchanged with no target.  Fails with
/// `UnknownScheme` when no port can be resolved.
pub fn url_rewrite_workaround(u: &Uri) -> (r: Result<
    (Uri, Option<DirectTarget>),
    KrewWapcError,
>)
    ensures
        spec_resolved_port(u@) is None ==> (r matches Err(e) && e is UnknownScheme),
        spec_resolved_port(u@) matches Some(p) ==> if !is_ip_literal(u@.host) {
            r matches Ok((eu, d)) && eu@ == u@ && d is None
        } else {
            r matches Ok((eu, d)) && eu@ == spec_rewritten(u@) && (d matches Some(t) && t.host@
                == u@.host && t.port == p)
        },
{
    let p = match resolved_port(u) {
        None => {
            return Err(KrewWapcError::UnknownScheme);
        },
        Some(p) => p,
    };
    if is_ipv4(u.host.as_str()) || is_ipv6(u.host.as_str()) {
        let effective = Uri {
            scheme: u.scheme.clone(),
            host: internal_service_host(),
            port: u.port,
            path_and_query: u.path_and_query.clone(),
        };
        assert(effective@ =~= spec_rewritten(u@));
        Ok((effective, Some(DirectTarget { host: u.host.clone(), port: p })))
    } else {
        let same = Uri {
            scheme: u.scheme.clone(),
            host: u.host.clone(),
            port: u.port,
            path_and_query: u.path_and_query.clone(),
        };
        assert(same@ =~= u@);
        Ok((same, None))
    }
}

/// A request with no explicit port and a scheme that is neither `http`
/// nor `https` — a missing scheme included — resolves to no port at all,
/// so the mediator and the rewrite fail it with `UnknownScheme`, as
/// their contracts then promise.
pub proof fn lemma_unrecognized_scheme_has_no_port(u: UriModel)
    requires
        u.port is None,
        u.scheme != "http"@,
        u.scheme != "https"@,
    ensures
        spec_resolved_port(u) is None,
{
}

/// The verdict of the per-request checkpoint.
#[derive(Debug)]
pub enum Verdict {
    /// The request may go out, as the effective URI, dialing the direct
    /// target instead when one is given.
    Allowed(Uri, Option<DirectTarget>),
    /// The request addresses anything but the allowed endpoint: no
    /// socket may be opened for it.
    Rejected,
}

/// True when the request's resolved host and port — before any rewrite —
/// are exactly the allowed endpoint.
pub open spec fn spec_authorized(allowed_host: Seq<char>, allowed_port: u16, u: UriModel) -> bool {
    u.host == allowed_host && spec_resolved_port(u) == Some(allowed_port)
}

/// The checkpoint every outbound request passes: resolves the request's port,
/// checks the (host, port) pair against the allowed endpoint, and applies
/// the literal-IP rewrite to a permitted request.
pub fn authorize_and_rewrite(allowed: &Endpoint, u: &Uri) -> (r: Result<Verdict, KrewWapcError>)
    ensures
        spec_resolved_port(u@) is None ==> (r matches Err(e) && e is UnknownScheme),
        spec_resolved_port(u@) matches Some(p) ==> if !spec_authorized(
            allowed.host@,
            allowed.port,
            u@,
        ) {
            r matches Ok(Verdict::Rejected)
        } else if !is_ip_literal(u@.host) {
            r matches Ok(Verdict::Allowed(eu, d)) && eu@ == u@ && d is None
        } else {
            r matches Ok(Verdict::Allowed(eu, d)) && eu@ == spec_rewritten(u@) && (d matches Some(
                t,
            ) && t.host@ == u@.host && t.port == p)
        },
{
    let p = match resolved_port(u) {
        None => {
            return Err(KrewWapcError::UnknownScheme);
        },
        Some(p) => p,
    };
    if !(str_eq(u.host.as_str(), allowed.host.as_str()) && p == allowed.port) {
        return Ok(Verdict::Rejected);
    }
    match url_rewrite_workaround(u) {
        Err(e) => Err(e),
        Ok((eu, d)) => Ok(Verdict::Allowed(eu, d)),
    }
}

/// Computes the single endpoint a sandboxed program may reach, from the
/// active cluster's API-server URL: its host, and its explicit port or
/// the scheme's default.  A string that is not an absolute URI is a
/// configuration fault; a URI without a resolvable port has an unknown
/// scheme.
pub fn allowed_endpoint(server_url: &str) -> (r: Result<Endpoint, KrewWapcError>)
    ensures
        spec_parse_uri(server_url@) is None ==> (r matches Err(e) && e is ConfigError),
        spec_parse_uri(server_url@) matches Some(u) ==> match spec_resolved_port(u) {
            None => r matches Err(e) && e is UnknownScheme,
            Some(p) => r matches Ok(ep) && ep.host@ == u.host && ep.port == p,
        },
{
    let u = match parse_uri(server_url) {
        None => {
            return Err(KrewWapcError::ConfigError);
        },
        Some(u) => u,
    };
    match resolved_port(&u) {
        None => Err(KrewWapcError::UnknownScheme),
        Some(p) => Ok(Endpoint { host: u.host, port: p }),
    }
}

} // verus!
