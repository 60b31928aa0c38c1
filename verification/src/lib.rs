//! Typed request/response bindings for the Hello Moon REST API.
//!
//! Every endpoint takes a request value whose fields are all optional on the
//! wire: a field equal to its type's zero/empty sentinel is omitted from the
//! serialized JSON body.  Responses share one envelope, an optional `data`
//! array and an optional `paginationToken` string.  The library builds the
//! outgoing call (URL, headers, body) and decodes response bodies; the HTTP
//! round trip itself is left to the caller.

use vstd::prelude::*;

pub mod call;
pub mod decode;
pub mod defi;
pub mod fields;
pub mod json;
pub mod nft;
pub mod parse;
pub mod parse_exec;
pub mod parse_props;
pub mod render;
pub mod roundtrip;
pub mod summary;

verus! {
/// True exactly when a `limit` field holds the sentinel that means "unset".
pub fn limit_is_zero(value: &usize) -> (r: bool)
    ensures
        r == (*value == 0),
{
    is_zero(value)
}

/// True exactly when a `page` field holds the sentinel that means "unset".
pub fn page_is_zero(value: &usize) -> (r: bool)
    ensures
        r == (*value == 0),
{
    is_zero(value)
}

/// True exactly when a count field holds the sentinel that means "unset".
pub fn is_zero(value: &usize) -> (r: bool)
    ensures
        r == (*value == 0),
{
    *value == 0
}

} // verus!
