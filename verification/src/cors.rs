//! The fixed, maximally permissive CORS policy applied to every response:
//! the request's declared origin is allowed back, credentials are allowed,
//! and a preflight request is answered with whatever method and headers it
//! asked for. Header names are produced in lower case.

use vstd::prelude::*;
use crate::request::{headers_view, spec_find_header, find_header, RequestMeta, ReqView};

verus! {

/// The CORS annotation for a request: mirrors the declared origin when one
/// is there, always allows credentials, and marks the response as varying
/// with the three preflight request headers. A preflight answer additionally
/// mirrors the requested method and the requested headers.
pub open spec fn spec_cors_headers(req: ReqView, preflight: bool) -> Seq<
    (Seq<char>, Seq<char>),
> {
    let origin = match spec_find_header(req.headers, "origin"@) {
        Some(o) => seq![("access-control-allow-origin"@, o)],
        None => Seq::<(Seq<char>, Seq<char>)>::empty(),
    };
    let common = origin + seq![
        ("access-control-allow-credentials"@, "true"@),
        ("vary"@, "origin"@),
        ("vary"@, "access-control-request-method"@),
        ("vary"@, "access-control-request-headers"@),
    ];
    if preflight {
        let methods = match spec_find_header(req.headers, "access-control-request-method"@) {
            Some(m) => seq![("access-control-allow-methods"@, m)],
            None => Seq::<(Seq<char>, Seq<char>)>::empty(),
        };
        let headers = match spec_find_header(req.headers, "access-control-request-headers"@) {
            Some(h) => seq![("access-control-allow-headers"@, h)],
            None => Seq::<(Seq<char>, Seq<char>)>::empty(),
        };
        common + methods + headers
    } else {
        common
    }
}

/// Computes the CORS annotation for a request; `preflight` says whether the
/// annotated response answers a preflight request.
pub fn cors_headers(req: &RequestMeta, preflight: bool) -> (r: Vec<(String, String)>)
    ensures
        headers_view(r@) == spec_cors_headers(req@, preflight),
{
    let mut out: Vec<(String, String)> = Vec::new();
    match find_header(&req.headers, "origin") {
        Some(o) => out.push((String::from_str("access-control-allow-origin"), o)),
        None => (),
    }
    out.push((String::from_str("access-control-allow-credentials"), String::from_str("true")));
    out.push((String::from_str("vary"), String::from_str("origin")));
    out.push((String::from_str("vary"), String::from_str("access-control-request-method")));
    out.push((String::from_str("vary"), String::from_str("access-control-request-headers")));
    if preflight {
        match find_header(&req.headers, "access-control-request-method") {
            Some(m) => out.push((String::from_str("access-control-allow-methods"), m)),
            None => (),
        }
        match find_header(&req.headers, "access-control-request-headers") {
            Some(h) => out.push((String::from_str("access-control-allow-headers"), h)),
            None => (),
        }
    }
    proof {
        assert(headers_view(out@) =~= spec_cors_headers(req@, preflight));
    }
    out
}

} // verus!
