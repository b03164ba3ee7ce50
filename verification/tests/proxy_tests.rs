use cors_proxy::proxy::{
    apply_cors, error_response, finalize, plan, BodyKind, Plan, ProxyResponse, Upstream,
    BAD_GATEWAY, PREFLIGHT_OK,
};
use cors_proxy::request::{find_header, str_eq, RequestMeta};
use cors_proxy::translate::{
    is_valid_header_value, strip_one_slash, translate, Outbound, TranslateError,
};

fn h(name: &str, value: &str) -> (String, String) {
    (name.to_string(), value.to_string())
}

fn req(method: &str, path: &str, headers: Vec<(String, String)>) -> RequestMeta {
    RequestMeta {
        method: method.to_string(),
        path_and_query: path.to_string(),
        headers,
    }
}

fn has(headers: &[(String, String)], name: &str, value: &str) -> bool {
    headers.iter().any(|p| p.0 == name && p.1 == value)
}

#[test]
fn strips_exactly_one_separator() {
    assert_eq!(strip_one_slash("/https://a.b"), "https://a.b");
    assert_eq!(strip_one_slash("//x"), "/x");
    assert_eq!(strip_one_slash("x"), "x");
    assert_eq!(strip_one_slash(""), "");
}

#[test]
fn translates_valid_absolute_url() {
    let out = translate("/https://example.org/foo?x=1").unwrap();
    assert_eq!(out.target, "https://example.org/foo?x=1");
    assert_eq!(out.host, "example.org");
}

#[test]
fn translates_keeps_port_in_host() {
    let out = translate("/http://example.org:8080/foo").unwrap();
    assert_eq!(out.host, "example.org:8080");
}

#[test]
fn rejects_relative_and_empty_paths() {
    assert_eq!(translate("/not-a-url"), Err(TranslateError::MalformedDestination));
    assert_eq!(translate("/"), Err(TranslateError::MalformedDestination));
    assert_eq!(translate(""), Err(TranslateError::MalformedDestination));
    assert_eq!(translate("//only/a/path"), Err(TranslateError::MalformedDestination));
    assert_eq!(translate("/ht tp://x/"), Err(TranslateError::MalformedDestination));
}

#[test]
fn header_value_validity() {
    assert!(is_valid_header_value("example.org:8080"));
    assert!(is_valid_header_value(""));
    assert!(is_valid_header_value("with\ttab"));
    assert!(!is_valid_header_value("line\nbreak"));
    assert!(!is_valid_header_value("\u{7f}"));
}

#[test]
fn find_header_takes_first_match() {
    let hs = vec![h("a", "1"), h("b", "2"), h("a", "3")];
    assert_eq!(find_header(&hs, "a"), Some("1".to_string()));
    assert_eq!(find_header(&hs, "b"), Some("2".to_string()));
    assert_eq!(find_header(&hs, "c"), None);
}

#[test]
fn str_eq_compares_contents() {
    assert!(str_eq("abc", "abc"));
    assert!(!str_eq("abc", "abd"));
    assert!(!str_eq("abc", "ab"));
}

#[test]
fn error_response_is_uniform() {
    let r = error_response();
    assert_eq!(r.status, BAD_GATEWAY);
    assert_eq!(r.status, 502);
    assert!(r.headers.is_empty());
    assert_eq!(r.body, BodyKind::Text("Error".to_string()));
}

// Scenario: GET /https://example.org/foo?x=1 with a declared origin is
// forwarded to https://example.org/foo?x=1 with Host example.org, and the
// upstream's response comes back with the origin allowed.
#[test]
fn forwards_valid_destination_with_origin() {
    let r = req(
        "GET",
        "/https://example.org/foo?x=1",
        vec![h("origin", "https://app.test")],
    );
    match plan(&r) {
        Plan::Forward(Outbound { target, host }) => {
            assert_eq!(target, "https://example.org/foo?x=1");
            assert_eq!(host, "example.org");
        }
        Plan::Respond(_) => panic!("valid destination must be forwarded"),
    }
    let upstream = Upstream {
        status: 200,
        headers: vec![h("content-type", "text/plain")],
    };
    let resp = finalize(&r, Some(upstream));
    assert_eq!(resp.status, 200);
    assert_eq!(resp.body, BodyKind::Upstream);
    assert!(has(&resp.headers, "content-type", "text/plain"));
    assert!(has(&resp.headers, "access-control-allow-origin", "https://app.test"));
    assert!(has(&resp.headers, "access-control-allow-credentials", "true"));
}

// Scenario: GET /not-a-url is answered 502 "Error" with CORS headers, and
// nothing is forwarded.
#[test]
fn rejects_bad_destination_with_error_response() {
    let r = req("GET", "/not-a-url", vec![h("origin", "https://app.test")]);
    match plan(&r) {
        Plan::Respond(resp) => {
            assert_eq!(resp.status, 502);
            assert_eq!(resp.body, BodyKind::Text("Error".to_string()));
            assert!(has(&resp.headers, "access-control-allow-origin", "https://app.test"));
            assert!(has(&resp.headers, "access-control-allow-credentials", "true"));
        }
        Plan::Forward(_) => panic!("bad destination must not be forwarded"),
    }
}

#[test]
fn rejects_empty_path_with_error_response() {
    let r = req("GET", "/", vec![]);
    match plan(&r) {
        Plan::Respond(resp) => {
            assert_eq!(resp.status, 502);
            assert_eq!(resp.body, BodyKind::Text("Error".to_string()));
            assert!(has(&resp.headers, "access-control-allow-credentials", "true"));
        }
        Plan::Forward(_) => panic!("the empty path must not be forwarded"),
    }
}

// Scenario: the destination is unreachable — the outbound call failed — so
// the caller sees 502 "Error", still with CORS headers.
#[test]
fn upstream_failure_yields_uniform_error() {
    let r = req(
        "GET",
        "/https://unreachable.invalid/x",
        vec![h("origin", "https://app.test")],
    );
    let resp = finalize(&r, None);
    assert_eq!(resp.status, 502);
    assert_eq!(resp.body, BodyKind::Text("Error".to_string()));
    assert!(has(&resp.headers, "access-control-allow-origin", "https://app.test"));
    assert!(has(&resp.headers, "access-control-allow-credentials", "true"));
}

// Scenario: an OPTIONS preflight request is answered locally with 200 and
// the mirrored allowances; it is never forwarded.
#[test]
fn preflight_answered_locally() {
    let r = req(
        "OPTIONS",
        "/https://example.org/foo",
        vec![
            h("origin", "https://app.test"),
            h("access-control-request-method", "PUT"),
            h("access-control-request-headers", "x-custom, content-type"),
        ],
    );
    match plan(&r) {
        Plan::Respond(resp) => {
            assert_eq!(resp.status, PREFLIGHT_OK);
            assert_eq!(resp.body, BodyKind::Text(String::new()));
            assert!(has(&resp.headers, "access-control-allow-origin", "https://app.test"));
            assert!(has(&resp.headers, "access-control-allow-credentials", "true"));
            assert!(has(&resp.headers, "access-control-allow-methods", "PUT"));
            assert!(has(
                &resp.headers,
                "access-control-allow-headers",
                "x-custom, content-type"
            ));
        }
        Plan::Forward(_) => panic!("preflight must not be forwarded"),
    }
}

#[test]
fn preflight_answered_locally_even_for_bad_path() {
    let r = req("OPTIONS", "/not-a-url", vec![h("origin", "https://app.test")]);
    match plan(&r) {
        Plan::Respond(resp) => assert_eq!(resp.status, 200),
        Plan::Forward(_) => panic!("preflight must not be forwarded"),
    }
}

#[test]
fn responses_without_origin_still_allow_credentials() {
    let r = req("GET", "/https://example.org/", vec![]);
    let resp = finalize(&r, Some(Upstream { status: 404, headers: vec![] }));
    assert_eq!(resp.status, 404);
    assert!(has(&resp.headers, "access-control-allow-credentials", "true"));
    assert!(!resp.headers.iter().any(|p| p.0 == "access-control-allow-origin"));
}

#[test]
fn cors_annotation_replaces_upstream_headers_of_same_name() {
    let r = req("GET", "/https://example.org/", vec![h("origin", "https://app.test")]);
    let upstream = ProxyResponse {
        status: 200,
        headers: vec![
            h("access-control-allow-origin", "https://other.test"),
            h("vary", "accept-encoding"),
            h("content-type", "text/html"),
        ],
        body: BodyKind::Upstream,
    };
    let resp = apply_cors(&r, upstream);
    assert!(has(&resp.headers, "content-type", "text/html"));
    assert!(has(&resp.headers, "access-control-allow-origin", "https://app.test"));
    assert!(!has(&resp.headers, "access-control-allow-origin", "https://other.test"));
    assert!(!has(&resp.headers, "vary", "accept-encoding"));
    assert!(has(&resp.headers, "vary", "origin"));
}

// Repeating an identical request with an identical upstream outcome yields
// the identical response.
#[test]
fn identical_requests_identical_responses() {
    let make_req = || {
        req(
            "GET",
            "/https://example.org/foo?x=1",
            vec![h("origin", "https://app.test")],
        )
    };
    let make_up = || Some(Upstream { status: 204, headers: vec![h("etag", "\"1\"")] });
    assert_eq!(plan(&make_req()), plan(&make_req()));
    let r1 = finalize(&make_req(), make_up());
    let r2 = finalize(&make_req(), make_up());
    assert_eq!(r1, r2);
    assert_eq!(r1.status, r2.status);
}
