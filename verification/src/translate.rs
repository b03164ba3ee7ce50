//! The Translator: strips one leading separator from the request path,
//! parses the remainder as an absolute destination URL, and derives the
//! outbound Host header value from the destination's authority.

use vstd::prelude::*;
use vstd::string::StrSliceExecFns;

verus! {

/// Why a request path could not be turned into a destination.
#[derive(Clone, Copy, PartialEq, Eq, Structural, Debug)]
pub enum TranslateError {
    /// The path (after stripping one leading separator) is not a
    /// syntactically valid absolute URL carrying a scheme and an authority.
    MalformedDestination,
    /// The destination's authority cannot be encoded as an HTTP header value.
    MalformedAuthority,
}

/// The components that the URL parser found, if it accepted the input:
/// a URI may carry a scheme and an authority, or lack either.
pub struct UriParts {
    pub scheme: Option<String>,
    pub authority: Option<String>,
}

pub open spec fn uri_parts_view(r: Option<UriParts>) -> Option<
    (Option<Seq<char>>, Option<Seq<char>>),
> {
    match r {
        Some(p) => Some(
            (
                crate::request::opt_string_view(p.scheme),
                crate::request::opt_string_view(p.authority),
            ),
        ),
        None => None,
    }
}

/// What hyper's URI parser returns for a given input: `None` when the input
/// is not a syntactically valid URI, otherwise the scheme and the authority
/// components, each absent when the URI does not carry one.
pub uninterp spec fn uri_parse(s: Seq<char>) -> Option<(Option<Seq<char>>, Option<Seq<char>>)>;

/// Relies on `str::parse::<hyper::Uri>` (hyper re-exports `http::Uri`):
/// parsing is a function of the input string alone, and on success
/// `Uri::scheme_str` and `Uri::authority` hand back the scheme and
/// authority components of the parsed URI.
#[verifier::external_body]
fn parse_uri(s: &str) -> (r: Option<UriParts>)
    ensures
        uri_parts_view(r) == uri_parse(s@),
{
    match s.parse::<hyper::Uri>() {
        Ok(uri) => Some(
            UriParts {
                scheme: uri.scheme_str().map(|sch| sch.to_owned()),
                authority: uri.authority().map(|a| a.as_str().to_owned()),
            },
        ),
        Err(_) => None,
    }
}

/// A fully translated outbound request: the destination URL it is to be
/// sent to, and the Host header value derived from its authority.
#[derive(Clone, PartialEq, Eq, Debug)]
pub struct Outbound {
    pub target: String,
    pub host: String,
}

#[verifier::ext_equal]
pub struct OutboundView {
    pub target: Seq<char>,
    pub host: Seq<char>,
}

impl View for Outbound {
    type V = OutboundView;

    open spec fn view(&self) -> OutboundView {
        OutboundView { target: self.target@, host: self.host@ }
    }
}

/// A character that may stand in an HTTP header value: horizontal tab or
/// anything that is neither an ASCII control character nor delete.
pub open spec fn valid_header_value_char(c: char) -> bool {
    c == '\t' || (c as u32 >= 32 && c as u32 != 127)
}

/// Whether a string may stand as an HTTP header value. Mirrors the check
/// behind `http::HeaderValue::from_str`: every byte must be 32..=255 except
/// delete, or horizontal tab; characters above ASCII encode to such bytes.
pub open spec fn valid_header_value(s: Seq<char>) -> bool {
    forall|i: int| 0 <= i < s.len() ==> valid_header_value_char(s[i])
}

/// Decides whether `s` may stand as an HTTP header value.
pub fn is_valid_header_value(s: &str) -> (r: bool)
    ensures
        r == valid_header_value(s@),
{
    let n = s.unicode_len();
    let mut i: usize = 0;
    while i < n
        invariant
            i <= n,
            n == s@.len(),
            forall|j: int| 0 <= j < i ==> valid_header_value_char(s@[j]),
        decreases n - i,
    {
        let c = s.get_char(i);
        if !(c == '\t' || (c as u32 >= 32 && c as u32 != 127)) {
            return false;
        }
        i = i + 1;
    }
    true
}

/// The request path with exactly one leading separator removed.
pub open spec fn spec_strip_one(s: Seq<char>) -> Seq<char> {
    if s.len() > 0 && s[0] == '/' {
        s.subrange(1, s.len() as int)
    } else {
        s
    }
}

/// Strips exactly one leading `/` from `s`, if one is there.
pub fn strip_one_slash(s: &str) -> (r: &str)
    ensures
        r@ == spec_strip_one(s@),
{
    let n = s.unicode_len();
    if n > 0 && s.get_char(0) == '/' {
        s.substring_char(1, n)
    } else {
        s
    }
}

/// What translation yields for a request path: the outbound target and Host
/// value, or the reason the path names no destination. The destination must
/// be an absolute URL — a parsed URI carrying both a scheme and an authority
/// — and its authority must be encodable as a header value.
pub open spec fn spec_translate(path_and_query: Seq<char>) -> Result<
    OutboundView,
    TranslateError,
> {
    let target = spec_strip_one(path_and_query);
    match uri_parse(target) {
        None => Err(TranslateError::MalformedDestination),
        Some(parts) => match parts {
            (Some(_scheme), Some(authority)) => if valid_header_value(authority) {
                Ok(OutboundView { target, host: authority })
            } else {
                Err(TranslateError::MalformedAuthority)
            },
            _ => Err(TranslateError::MalformedDestination),
        },
    }
}

pub open spec fn translate_result_view(r: Result<Outbound, TranslateError>) -> Result<
    OutboundView,
    TranslateError,
> {
    match r {
        Ok(o) => Ok(o@),
        Err(e) => Err(e),
    }
}

/// Translates a request's path-and-query into the outbound destination:
/// strips one leading separator, parses the remainder as an absolute URL,
/// and derives the Host header value from the URL's authority.
pub fn translate(path_and_query: &str) -> (r: Result<Outbound, TranslateError>)
    ensures
        translate_result_view(r) == spec_translate(path_and_query@),
{
    let target = strip_one_slash(path_and_query);
    match parse_uri(target) {
        None => Err(TranslateError::MalformedDestination),
        Some(parts) => match (parts.scheme, parts.authority) {
            (Some(_scheme), Some(authority)) => {
                if is_valid_header_value(authority.as_str()) {
                    Ok(Outbound { target: target.to_owned(), host: authority })
                } else {
                    Err(TranslateError::MalformedAuthority)
                }
            },
            _ => Err(TranslateError::MalformedDestination),
        },
    }
}

} // verus!
