//! Building the outgoing call: one URL, three fixed headers, and an
//! optional JSON body.  The network round trip itself is the caller's;
//! everything the caller must send is pinned down here.

use vstd::prelude::*;

use crate::json::{jv, jwf, ser_val, JVal, Json};
use crate::render::render;

verus! {
/// The API root every endpoint path is appended to.
pub open spec fn root_url() -> Seq<char> {
    "https://rest-api.hellomoon.io/v0"@
}

pub fn hellomoon_root_url() -> (r: &'static str)
    ensures
        r@ == root_url(),
{
    "https://rest-api.hellomoon.io/v0"
}

/// The views of a header list.
pub open spec fn headers_model(hs: Seq<(String, String)>) -> Seq<(Seq<char>, Seq<char>)> {
    hs.map_values(|p: (String, String)| (p.0@, p.1@))
}

/// The three fixed headers of every call: accept, bearer authorization,
/// content type.
pub open spec fn spec_headers(key: Seq<char>) -> Seq<(Seq<char>, Seq<char>)> {
    seq![
        ("accept"@, "application/json"@),
        ("authorization"@, "Bearer "@ + key),
        ("content-type"@, "application/json"@),
    ]
}

/// One prepared request/response cycle: everything the transport must
/// send.
pub struct PreparedCall {
    pub url: String,
    pub headers: Vec<(String, String)>,
    pub body: Option<String>,
}

/// Builds the header list for a call with the given bearer token.
pub fn build_headers(api_key: &str) -> (r: Vec<(String, String)>)
    ensures
        headers_model(r@) == spec_headers(api_key@),
{
    let mut hs: Vec<(String, String)> = Vec::new();
    hs.push(("accept".to_owned(), "application/json".to_owned()));
    hs.push(("authorization".to_owned(), "Bearer ".to_owned().concat(api_key)));
    hs.push(("content-type".to_owned(), "application/json".to_owned()));
    proof {
        assert(headers_model(hs@) =~= spec_headers(api_key@));
    }
    hs
}

/// A request body's shape: an ordered list of members, sentinel-valued
/// fields omitted.  Every endpoint's request type implements it, with
/// proof; nothing here is taken on trust.
pub trait RequestShape: Sized {
    /// The members of the serialized request body.
    spec fn req_members(self) -> Seq<(Seq<char>, JVal)>;

    /// Serializes the request body.
    fn req_to_json(&self) -> (r: Json)
        ensures
            jv(r) == JVal::Obj(self.req_members()),
            jwf(r),
    ;
}

/// Prepares one call for any endpoint's request type: the URL as given,
/// the three fixed headers with the caller's bearer token, and — when a
/// request is given — the canonical serialization of its
/// sentinel-filtered members; no body otherwise.
pub fn prepare_call<T: RequestShape>(url: String, api_key: &str, request: Option<&T>) -> (r: PreparedCall)
    ensures
        r.url@ == url@,
        headers_model(r.headers@) == spec_headers(api_key@),
        match request {
            Option::None => r.body is None,
            Option::Some(req) => r.body matches Option::Some(b)
                && b@ == ser_val(JVal::Obj(req.req_members())),
        },
{
    let body: Option<String> = match request {
        Option::Some(req) => Option::Some(render(&req.req_to_json())),
        Option::None => Option::None,
    };
    prepare(url, api_key, body)
}

/// Prepares a call: the URL as given, the three fixed headers, and the
/// body as given.
pub fn prepare(url: String, api_key: &str, body: Option<String>) -> (r: PreparedCall)
    ensures
        r.url@ == url@,
        headers_model(r.headers@) == spec_headers(api_key@),
        match body {
            Option::None => r.body is None,
            Option::Some(b) => r.body matches Option::Some(rb) && rb == b,
        },
{
    let headers = build_headers(api_key);
    PreparedCall { url, headers, body }
}

} // verus!
