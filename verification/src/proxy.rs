//! The per-request pipeline: deciding whether a request is answered locally
//! or forwarded, and building the response — upstream result or uniform
//! failure — with the CORS annotation that every response carries.

use vstd::prelude::*;
use crate::cors::{cors_headers, spec_cors_headers};
use crate::request::{headers_view, str_eq, RequestMeta, ReqView};
use crate::translate::{spec_translate, translate, Outbound, OutboundView};

verus! {

/// Status of the uniform failure response.
pub const BAD_GATEWAY: u16 = 502;

/// Status with which a preflight request is answered locally.
pub const PREFLIGHT_OK: u16 = 200;

/// What a response's body is: the upstream body passed through unchanged,
/// or a fixed text of the proxy's own.
#[derive(Clone, PartialEq, Eq, Debug)]
pub enum BodyKind {
    Upstream,
    Text(String),
}

#[verifier::ext_equal]
pub enum BodyView {
    Upstream,
    Text(Seq<char>),
}

impl View for BodyKind {
    type V = BodyView;

    open spec fn view(&self) -> BodyView {
        match self {
            BodyKind::Upstream => BodyView::Upstream,
            BodyKind::Text(s) => BodyView::Text(s@),
        }
    }
}

/// A response leaving the proxy.
#[derive(Clone, PartialEq, Eq, Debug)]
pub struct ProxyResponse {
    pub status: u16,
    pub headers: Vec<(String, String)>,
    pub body: BodyKind,
}

#[verifier::ext_equal]
pub struct RespView {
    pub status: u16,
    pub headers: Seq<(Seq<char>, Seq<char>)>,
    pub body: BodyView,
}

impl View for ProxyResponse {
    type V = RespView;

    open spec fn view(&self) -> RespView {
        RespView { status: self.status, headers: headers_view(self.headers@), body: self.body@ }
    }
}

/// What came back from the destination: its status and headers. The body
/// streams through outside the pipeline and is not modelled here.
#[derive(Clone, PartialEq, Eq, Debug)]
pub struct Upstream {
    pub status: u16,
    pub headers: Vec<(String, String)>,
}

#[verifier::ext_equal]
pub struct UpstreamView {
    pub status: u16,
    pub headers: Seq<(Seq<char>, Seq<char>)>,
}

impl View for Upstream {
    type V = UpstreamView;

    open spec fn view(&self) -> UpstreamView {
        UpstreamView { status: self.status, headers: headers_view(self.headers@) }
    }
}

pub open spec fn opt_upstream_view(u: Option<Upstream>) -> Option<UpstreamView> {
    match u {
        Some(up) => Some(up@),
        None => None,
    }
}

/// What the dispatcher does with a request: answer it locally, or forward
/// it to the translated destination.
#[derive(Clone, PartialEq, Eq, Debug)]
pub enum Plan {
    Respond(ProxyResponse),
    Forward(Outbound),
}

#[verifier::ext_equal]
pub enum PlanView {
    Respond(RespView),
    Forward(OutboundView),
}

impl View for Plan {
    type V = PlanView;

    open spec fn view(&self) -> PlanView {
        match self {
            Plan::Respond(r) => PlanView::Respond(r@),
            Plan::Forward(o) => PlanView::Forward(o@),
        }
    }
}

/// The uniform failure response: 502 with a short fixed body and, as yet,
/// no headers — the CORS annotation is applied to it like to any response.
pub open spec fn spec_error_response() -> RespView {
    RespView {
        status: BAD_GATEWAY,
        headers: Seq::<(Seq<char>, Seq<char>)>::empty(),
        body: BodyView::Text("Error"@),
    }
}

/// Builds the uniform failure response.
pub fn error_response() -> (r: ProxyResponse)
    ensures
        r@ == spec_error_response(),
{
    let r = ProxyResponse {
        status: BAD_GATEWAY,
        headers: Vec::new(),
        body: BodyKind::Text(String::from_str("Error")),
    };
    proof {
        assert(r@.headers =~= spec_error_response().headers);
    }
    r
}

/// Whether some header in `hs` carries `name`.
pub open spec fn spec_has_name(hs: Seq<(Seq<char>, Seq<char>)>, name: Seq<char>) -> bool {
    exists|i: int| 0 <= i < hs.len() && hs[i].0 == name
}

fn has_name(hs: &Vec<(String, String)>, name: &String) -> (r: bool)
    ensures
        r == spec_has_name(headers_view(hs@), name@),
{
    let ghost hv = headers_view(hs@);
    let mut i: usize = 0;
    while i < hs.len()
        invariant
            i <= hs.len(),
            hv == headers_view(hs@),
            hv.len() == hs.len(),
            forall|j: int| 0 <= j < i ==> hv[j].0 != name@,
        decreases hs.len() - i,
    {
        if str_eq(hs[i].0.as_str(), name.as_str()) {
            proof {
                assert(hv[i as int].0 == name@);
            }
            return true;
        }
        i = i + 1;
    }
    false
}

/// The headers kept from a response once the CORS annotation replaces any
/// header of a name it sets itself: upstream headers of those names drop
/// out, the order of the rest is preserved.
pub open spec fn spec_retain(
    hs: Seq<(Seq<char>, Seq<char>)>,
    annotation: Seq<(Seq<char>, Seq<char>)>,
) -> Seq<(Seq<char>, Seq<char>)>
    decreases hs.len(),
{
    if hs.len() == 0 {
        Seq::<(Seq<char>, Seq<char>)>::empty()
    } else {
        let rest = spec_retain(hs.drop_last(), annotation);
        if spec_has_name(annotation, hs.last().0) {
            rest
        } else {
            rest.push(hs.last())
        }
    }
}

/// A response with the request's CORS annotation applied: headers that the
/// annotation sets are replaced, the annotation is appended, and status and
/// body stay as they were.
pub open spec fn spec_apply_cors(req: ReqView, resp: RespView) -> RespView {
    let annotation = spec_cors_headers(req, false);
    RespView {
        status: resp.status,
        headers: spec_retain(resp.headers, annotation) + annotation,
        body: resp.body,
    }
}

/// Applies the request's CORS annotation to a response.
pub fn apply_cors(req: &RequestMeta, resp: ProxyResponse) -> (r: ProxyResponse)
    ensures
        r@ == spec_apply_cors(req@, resp@),
{
    let mut annotation = cors_headers(req, false);
    let ghost av = headers_view(annotation@);
    let ProxyResponse { status, headers, body } = resp;
    let ghost hv = headers_view(headers@);
    let mut kept: Vec<(String, String)> = Vec::new();
    proof {
        assert(hv.take(0) =~= Seq::<(Seq<char>, Seq<char>)>::empty());
        assert(headers_view(kept@) =~= Seq::<(Seq<char>, Seq<char>)>::empty());
    }
    let mut i: usize = 0;
    while i < headers.len()
        invariant
            i <= headers.len(),
            hv == headers_view(headers@),
            hv.len() == headers.len(),
            av == headers_view(annotation@),
            headers_view(kept@) == spec_retain(hv.take(i as int), av),
        decreases headers.len() - i,
    {
        if !has_name(&annotation, &headers[i].0) {
            kept.push((headers[i].0.clone(), headers[i].1.clone()));
        }
        proof {
            assert(hv.take(i as int + 1).drop_last() =~= hv.take(i as int));
            assert(hv.take(i as int + 1).last() == hv[i as int]);
            assert(headers_view(kept@) =~= spec_retain(hv.take(i as int + 1), av));
        }
        i = i + 1;
    }
    proof {
        assert(hv.take(headers.len() as int) =~= hv);
    }
    let mut out = kept;
    out.append(&mut annotation);
    let r = ProxyResponse { status, headers: out, body };
    proof {
        assert(headers_view(out@) =~= spec_retain(hv, av) + av);
    }
    r
}

/// The local answer to a preflight request: 200 with an empty body and the
/// preflight CORS annotation, mirroring whatever the request asked for.
pub open spec fn spec_preflight_response(req: ReqView) -> RespView {
    RespView {
        status: PREFLIGHT_OK,
        headers: spec_cors_headers(req, true),
        body: BodyView::Text(Seq::<char>::empty()),
    }
}

/// Builds the local answer to a preflight request.
pub fn preflight_response(req: &RequestMeta) -> (r: ProxyResponse)
    ensures
        r@ == spec_preflight_response(req@),
{
    ProxyResponse {
        status: PREFLIGHT_OK,
        headers: cors_headers(req, true),
        body: BodyKind::Text(String::new()),
    }
}

/// The dispatcher's decision for a request. A preflight request — method
/// `OPTIONS` — is answered locally, whatever its path. Any other request is
/// translated: on success it is forwarded to the destination; on failure it
/// is answered with the uniform failure response, CORS-annotated, and no
/// outbound call is made.
pub open spec fn spec_plan(req: ReqView) -> PlanView {
    if req.method == "OPTIONS"@ {
        PlanView::Respond(spec_preflight_response(req))
    } else {
        match spec_translate(req.path_and_query) {
            Ok(o) => PlanView::Forward(o),
            Err(_) => PlanView::Respond(spec_apply_cors(req, spec_error_response())),
        }
    }
}

/// Decides what to do with a request.
pub fn plan(req: &RequestMeta) -> (p: Plan)
    ensures
        p@ == spec_plan(req@),
{
    if str_eq(req.method.as_str(), "OPTIONS") {
        Plan::Respond(preflight_response(req))
    } else {
        match translate(req.path_and_query.as_str()) {
            Ok(o) => Plan::Forward(o),
            Err(_) => Plan::Respond(apply_cors(req, error_response())),
        }
    }
}

/// The response for a forwarded request, given what the forwarding came to:
/// the upstream response passed through, or — when the outbound call failed
/// — the uniform failure response; either way the CORS annotation is
/// applied.
pub open spec fn spec_finalize(req: ReqView, upstream: Option<UpstreamView>) -> RespView {
    match upstream {
        Some(u) => spec_apply_cors(
            req,
            RespView { status: u.status, headers: u.headers, body: BodyView::Upstream },
        ),
        None => spec_apply_cors(req, spec_error_response()),
    }
}

/// Builds the response for a forwarded request from the outcome of the
/// outbound call (`None`: the call failed for a transport reason).
pub fn finalize(req: &RequestMeta, upstream: Option<Upstream>) -> (r: ProxyResponse)
    ensures
        r@ == spec_finalize(req@, opt_upstream_view(upstream)),
{
    match upstream {
        Some(u) => {
            let Upstream { status, headers } = u;
            apply_cors(req, ProxyResponse { status, headers, body: BodyKind::Upstream })
        },
        None => apply_cors(req, error_response()),
    }
}

} // verus!
