use krew_wasm::errors::KrewWapcError;
use krew_wasm::ip::{is_ipv4, is_ipv6};
use krew_wasm::mediator::{allowed_endpoint, authorize_and_rewrite, url_rewrite_workaround, Endpoint, Verdict};
use krew_wasm::uri::{parse_uri, resolved_port, Uri};

fn uri(scheme: &str, host: &str, port: Option<u16>, pq: &str) -> Uri {
    Uri {
        scheme: scheme.to_string(),
        host: host.to_string(),
        port,
        path_and_query: pq.to_string(),
    }
}

#[test]
fn literal_ip_request_is_rewritten_with_direct_target() {
    let u = uri("https", "10.0.0.5", Some(6443), "/api/v1/pods?watch=1");
    let (effective, direct) = url_rewrite_workaround(&u).expect("rewrite should succeed");
    assert_eq!(effective.scheme, "https");
    assert_eq!(effective.host, "kubernetes.default.svc");
    assert_eq!(effective.port, Some(6443));
    assert_eq!(effective.path_and_query, "/api/v1/pods?watch=1");
    let target = direct.expect("a literal IP must yield a direct socket target");
    assert_eq!(target.host, "10.0.0.5");
    assert_eq!(target.port, 6443);
}

#[test]
fn name_based_request_passes_through_unchanged() {
    let u = uri("https", "api.example.com", Some(6443), "/api");
    let (effective, direct) = url_rewrite_workaround(&u).expect("rewrite should succeed");
    assert_eq!(effective.host, "api.example.com");
    assert_eq!(effective.scheme, "https");
    assert_eq!(effective.port, Some(6443));
    assert_eq!(effective.path_and_query, "/api");
    assert!(direct.is_none());
}

#[test]
fn unrecognized_scheme_without_port_is_refused() {
    let u = uri("ftp", "example.com", None, "/file");
    let err = url_rewrite_workaround(&u).expect_err("no port can be resolved");
    assert!(matches!(err, KrewWapcError::UnknownScheme));
}

#[test]
fn ipv6_literal_request_is_rewritten() {
    let u = uri("https", "2001:db8::1", None, "/api");
    let (effective, direct) = url_rewrite_workaround(&u).expect("rewrite should succeed");
    assert_eq!(effective.host, "kubernetes.default.svc");
    assert_eq!(effective.port, None);
    let target = direct.expect("a literal IPv6 host must yield a direct target");
    assert_eq!(target.host, "2001:db8::1");
    assert_eq!(target.port, 443);
}

#[test]
fn only_the_allowed_endpoint_is_authorized() {
    let allowed = Endpoint { host: "10.0.0.5".to_string(), port: 6443 };
    let u = uri("https", "10.0.0.5", Some(6443), "/api");
    match authorize_and_rewrite(&allowed, &u).expect("a decision is owed") {
        Verdict::Allowed(effective, direct) => {
            assert_eq!(effective.host, "kubernetes.default.svc");
            let target = direct.expect("direct target expected");
            assert_eq!(target.host, "10.0.0.5");
            assert_eq!(target.port, 6443);
        }
        Verdict::Rejected => panic!("the allowed endpoint must be authorized"),
    }
    let elsewhere = uri("https", "10.0.0.6", Some(6443), "/api");
    assert!(matches!(
        authorize_and_rewrite(&allowed, &elsewhere).expect("a decision is owed"),
        Verdict::Rejected
    ));
    let wrong_port = uri("https", "10.0.0.5", Some(443), "/api");
    assert!(matches!(
        authorize_and_rewrite(&allowed, &wrong_port).expect("a decision is owed"),
        Verdict::Rejected
    ));
}

#[test]
fn allowed_endpoint_resolution_follows_the_port_rules() {
    let ep = allowed_endpoint("https://api.example.com:6443/").expect("explicit port");
    assert_eq!(ep.host, "api.example.com");
    assert_eq!(ep.port, 6443);
    let ep = allowed_endpoint("https://api.example.com").expect("https default");
    assert_eq!(ep.port, 443);
    let ep = allowed_endpoint("http://api.example.com").expect("http default");
    assert_eq!(ep.port, 80);
    assert!(matches!(
        allowed_endpoint("ftp://api.example.com").expect_err("no known port"),
        KrewWapcError::UnknownScheme
    ));
    assert!(matches!(
        allowed_endpoint("not a url").expect_err("not an absolute URI"),
        KrewWapcError::ConfigError
    ));
}

#[test]
fn uri_parsing_takes_the_authority_apart() {
    let u = parse_uri("https://example.com:8443/a/b?c=d").expect("valid URI");
    assert_eq!(u.scheme, "https");
    assert_eq!(u.host, "example.com");
    assert_eq!(u.port, Some(8443));
    assert_eq!(u.path_and_query, "/a/b?c=d");

    let u = parse_uri("http://example.com").expect("valid URI");
    assert_eq!(u.port, None);
    assert_eq!(u.path_and_query, "");
    assert_eq!(resolved_port(&u), Some(80));

    let u = parse_uri("https://[::1]:8080/x").expect("bracketed IPv6 host");
    assert_eq!(u.host, "::1");
    assert_eq!(u.port, Some(8080));
    assert_eq!(u.path_and_query, "/x");
}

#[test]
fn a_missing_scheme_has_no_default_port() {
    let u = uri("", "10.0.0.5", None, "/");
    assert_eq!(resolved_port(&u), None);
    let err = url_rewrite_workaround(&u).expect_err("no port can be resolved");
    assert!(matches!(err, KrewWapcError::UnknownScheme));
}

#[test]
fn malformed_uris_are_refused() {
    assert!(parse_uri("").is_none());
    assert!(parse_uri("no-scheme.example.com/path").is_none());
    assert!(parse_uri("https://").is_none());
    assert!(parse_uri("https://host:99999").is_none());
    assert!(parse_uri("https://a:b:1/").is_none());
    assert!(parse_uri("https://host:").is_none());
    assert!(parse_uri("://host").is_none());
}

#[test]
fn ipv4_literals_are_recognized() {
    assert!(is_ipv4("10.0.0.5"));
    assert!(is_ipv4("0.0.0.0"));
    assert!(is_ipv4("255.255.255.255"));
    assert!(!is_ipv4("256.0.0.1"));
    assert!(!is_ipv4("01.2.3.4"));
    assert!(!is_ipv4("1.2.3"));
    assert!(!is_ipv4("1.2.3.4.5"));
    assert!(!is_ipv4("example.com"));
    assert!(!is_ipv4(""));
}

#[test]
fn ipv6_literals_are_recognized() {
    assert!(is_ipv6("::"));
    assert!(is_ipv6("::1"));
    assert!(is_ipv6("1::"));
    assert!(is_ipv6("2001:db8::1"));
    assert!(is_ipv6("1:2:3:4:5:6:7:8"));
    assert!(is_ipv6("1:2:3:4:5:6:7::"));
    assert!(is_ipv6("::ffff:10.0.0.5"));
    assert!(is_ipv6("1:2:3:4:5:6:10.0.0.5"));
    assert!(!is_ipv6("1:2:3:4:5:6:7:8:9"));
    assert!(!is_ipv6("1::2::3"));
    assert!(!is_ipv6(":::"));
    assert!(!is_ipv6(":1"));
    assert!(!is_ipv6("1:"));
    assert!(!is_ipv6("12345::"));
    assert!(!is_ipv6("g::1"));
    assert!(!is_ipv6("example.com"));
}
