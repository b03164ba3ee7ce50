//! The inbound request as the proxy sees it: method, path-and-query, and
//! the header list, together with header lookup.

use vstd::prelude::*;
use vstd::string::StrSliceExecFns;

verus! {

/// The parts of an inbound request that the proxy's decisions depend on.
/// Header names are expected in lower case, as an HTTP layer normalizes them.
#[derive(Clone, PartialEq, Eq, Debug)]
pub struct RequestMeta {
    pub method: String,
    pub path_and_query: String,
    pub headers: Vec<(String, String)>,
}

/// The mathematical model of a request.
#[verifier::ext_equal]
pub struct ReqView {
    pub method: Seq<char>,
    pub path_and_query: Seq<char>,
    pub headers: Seq<(Seq<char>, Seq<char>)>,
}

pub open spec fn headers_view(h: Seq<(String, String)>) -> Seq<(Seq<char>, Seq<char>)> {
    h.map_values(|p: (String, String)| (p.0@, p.1@))
}

impl View for RequestMeta {
    type V = ReqView;

    open spec fn view(&self) -> ReqView {
        ReqView {
            method: self.method@,
            path_and_query: self.path_and_query@,
            headers: headers_view(self.headers@),
        }
    }
}

/// The value of the first header carrying `name`, if any.
pub open spec fn spec_find_header(hs: Seq<(Seq<char>, Seq<char>)>, name: Seq<char>) -> Option<
    Seq<char>,
>
    decreases hs.len(),
{
    if hs.len() == 0 {
        None
    } else if hs[0].0 == name {
        Some(hs[0].1)
    } else {
        spec_find_header(hs.drop_first(), name)
    }
}

pub open spec fn opt_string_view(o: Option<String>) -> Option<Seq<char>> {
    match o {
        Some(s) => Some(s@),
        None => None,
    }
}

/// Whether two string slices hold the same characters.
pub fn str_eq(a: &str, b: &str) -> (r: bool)
    ensures
        r == (a@ == b@),
{
    let n = a.unicode_len();
    if n != b.unicode_len() {
        return false;
    }
    let mut i: usize = 0;
    while i < n
        invariant
            i <= n,
            n == a@.len(),
            n == b@.len(),
            forall|j: int| 0 <= j < i ==> a@[j] == b@[j],
        decreases n - i,
    {
        if a.get_char(i) != b.get_char(i) {
            return false;
        }
        i = i + 1;
    }
    proof {
        assert(a@ =~= b@);
    }
    true
}

/// Finds the first header named `name` and hands back its value.
pub fn find_header(headers: &Vec<(String, String)>, name: &str) -> (r: Option<String>)
    ensures
        opt_string_view(r) == spec_find_header(headers_view(headers@), name@),
{
    let ghost hs = headers_view(headers@);
    proof {
        assert(hs.skip(0) =~= hs);
    }
    let mut i: usize = 0;
    while i < headers.len()
        invariant
            i <= headers.len(),
            hs == headers_view(headers@),
            hs.len() == headers.len(),
            spec_find_header(hs, name@) == spec_find_header(hs.skip(i as int), name@),
        decreases headers.len() - i,
    {
        proof {
            assert(hs.skip(i as int)[0] == hs[i as int]);
        }
        if str_eq(headers[i].0.as_str(), name) {
            return Some(headers[i].1.clone());
        }
        proof {
            assert(hs.skip(i as int).drop_first() =~= hs.skip(i as int + 1));
        }
        i = i + 1;
    }
    proof {
        assert(hs.skip(i as int) =~= Seq::<(Seq<char>, Seq<char>)>::empty());
    }
    None
}

} // verus!
