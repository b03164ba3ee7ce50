//! What holds of the pipeline as a whole: where requests are forwarded,
//! where they are answered locally, and what every response carries.

use vstd::prelude::*;
use crate::cors::spec_cors_headers;
use crate::proxy::{
    spec_apply_cors, spec_error_response, spec_finalize, spec_plan, spec_preflight_response,
    BodyView, PlanView, RespView, UpstreamView, BAD_GATEWAY, PREFLIGHT_OK,
};
use crate::request::{spec_find_header, ReqView};
use crate::translate::{spec_strip_one, spec_translate, uri_parse, valid_header_value};

verus! {

/// A response carries the request's CORS annotation: credentials are always
/// allowed, and when the request declared an origin, that very origin is
/// allowed back.
pub open spec fn cors_annotated(req: ReqView, r: RespView) -> bool {
    &&& r.headers.contains(("access-control-allow-credentials"@, "true"@))
    &&& (spec_find_header(req.headers, "origin"@) matches Some(o) ==> r.headers.contains(
        ("access-control-allow-origin"@, o),
    ))
}

proof fn lemma_add_contains<A>(a: Seq<A>, b: Seq<A>, x: A)
    requires
        b.contains(x),
    ensures
        (a + b).contains(x),
{
    let i = choose|i: int| 0 <= i < b.len() && b[i] == x;
    assert((a + b)[a.len() + i] == x);
}

proof fn lemma_cors_headers_contain(req: ReqView, preflight: bool)
    ensures
        spec_cors_headers(req, preflight).contains(("access-control-allow-credentials"@, "true"@)),
        spec_find_header(req.headers, "origin"@) matches Some(o) ==> spec_cors_headers(
            req,
            preflight,
        ).contains(("access-control-allow-origin"@, o)),
{
    let cs = spec_cors_headers(req, preflight);
    match spec_find_header(req.headers, "origin"@) {
        Some(o) => {
            assert(cs[0] == ("access-control-allow-origin"@, o));
            assert(cs[1] == ("access-control-allow-credentials"@, "true"@));
        },
        None => {
            assert(cs[0] == ("access-control-allow-credentials"@, "true"@));
        },
    }
}

/// Applying the CORS annotation makes any response CORS-annotated.
proof fn lemma_apply_cors_annotates(req: ReqView, resp: RespView)
    ensures
        cors_annotated(req, spec_apply_cors(req, resp)),
{
    let annotation = spec_cors_headers(req, false);
    let retained = crate::proxy::spec_retain(resp.headers, annotation);
    lemma_cors_headers_contain(req, false);
    lemma_add_contains(retained, annotation, ("access-control-allow-credentials"@, "true"@));
    match spec_find_header(req.headers, "origin"@) {
        Some(o) => {
            lemma_add_contains(retained, annotation, ("access-control-allow-origin"@, o));
        },
        None => {},
    }
}

/// For every syntactically valid absolute destination URL `u` whose
/// authority can stand as a header value, a non-preflight request to path
/// `/u` is forwarded: the outbound target is `u` itself, and the outbound
/// Host header value is `u`'s authority.
pub proof fn lemma_valid_destination_forwarded(
    req: ReqView,
    u: Seq<char>,
    scheme: Seq<char>,
    authority: Seq<char>,
)
    requires
        req.method != "OPTIONS"@,
        req.path_and_query == seq!['/'] + u,
        uri_parse(u) == Some((Some(scheme), Some(authority))),
        valid_header_value(authority),
    ensures
        spec_plan(req) matches PlanView::Forward(o) && o.target == u && o.host == authority,
{
    assert(req.path_and_query[0] == '/');
    assert(spec_strip_one(req.path_and_query) =~= u);
}

/// A non-preflight request whose path — after stripping one leading
/// separator — does not name a valid absolute destination URL (the empty
/// path included) is answered directly with the uniform 502 failure
/// response, CORS-annotated; it is never forwarded, so no outbound call is
/// made. (A preflight request is answered locally with 200 instead,
/// whatever its path.)
pub proof fn lemma_invalid_destination_rejected(req: ReqView)
    requires
        req.method != "OPTIONS"@,
        spec_translate(req.path_and_query) is Err,
    ensures
        spec_plan(req) matches PlanView::Respond(r) && r.status == BAD_GATEWAY && r.body
            == BodyView::Text("Error"@) && cors_annotated(req, r),
{
    lemma_apply_cors_annotates(req, spec_error_response());
}

/// Every response leaving the system carries the CORS annotation: the
/// response to a forwarded request — whether the outbound call succeeded
/// or failed — and every locally produced response alike.
pub proof fn lemma_response_carries_cors(req: ReqView, upstream: Option<UpstreamView>)
    ensures
        cors_annotated(req, spec_finalize(req, upstream)),
        spec_plan(req) matches PlanView::Respond(r) ==> cors_annotated(req, r),
{
    match upstream {
        Some(u) => {
            lemma_apply_cors_annotates(
                req,
                RespView { status: u.status, headers: u.headers, body: BodyView::Upstream },
            );
        },
        None => {
            lemma_apply_cors_annotates(req, spec_error_response());
        },
    }
    if req.method == "OPTIONS"@ {
        lemma_preflight_answered_locally(req);
    } else {
        match spec_translate(req.path_and_query) {
            Ok(_) => {},
            Err(_) => {
                lemma_apply_cors_annotates(req, spec_error_response());
            },
        }
    }
}

/// A preflight request — method `OPTIONS` — is answered locally with 200,
/// an empty body, and the mirrored CORS allowances: it is never forwarded,
/// and the method and headers it asked for are allowed back verbatim.
pub proof fn lemma_preflight_answered_locally(req: ReqView)
    requires
        req.method == "OPTIONS"@,
    ensures
        spec_plan(req) matches PlanView::Respond(r) && r == spec_preflight_response(req)
            && r.status == PREFLIGHT_OK && cors_annotated(req, r) && (spec_find_header(
            req.headers,
            "access-control-request-method"@,
        ) matches Some(m) ==> r.headers.contains(("access-control-allow-methods"@, m))),
{
    lemma_cors_headers_contain(req, true);
    let cs = spec_cors_headers(req, true);
    match spec_find_header(req.headers, "access-control-request-method"@) {
        Some(m) => {
            let base: int = match spec_find_header(req.headers, "origin"@) {
                Some(_) => 5,
                None => 4,
            };
            assert(cs[base] == ("access-control-allow-methods"@, m));
        },
        None => {},
    }
}

/// The pipeline is a function of the request and the upstream outcome
/// alone: repeating an identical request against a destination that comes
/// to an identical outcome yields the identical response — in particular
/// the same status code.
pub proof fn lemma_identical_requests_identical_responses(
    req1: ReqView,
    req2: ReqView,
    up1: Option<UpstreamView>,
    up2: Option<UpstreamView>,
)
    requires
        req1 == req2,
        up1 == up2,
    ensures
        spec_plan(req1) == spec_plan(req2),
        spec_finalize(req1, up1) == spec_finalize(req2, up2),
{
}

} // verus!
