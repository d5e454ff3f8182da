//! The routing table: a total, pure function from (method, path) to the
//! static file that answers the request.

use crate::method::HttpMethod;
use crate::request::{parsed_method, parsed_path, HttpRequest};
use crate::strconv::str_eq;
use vstd::prelude::*;

verus! {

/// The file served for the pages the router knows.
pub open spec fn index_file() -> Seq<char> {
    "views/index.html"@
}

/// The file served for everything else.
pub open spec fn not_found_file() -> Seq<char> {
    "views/404.html"@
}

/// The routing table.  Only three `GET` paths reach the index page; every
/// other path, and every other method including `Error`, falls through to
/// the not-found page.  No input is unhandled.
pub open spec fn spec_route(method: HttpMethod, path: Seq<char>) -> Seq<char> {
    if method is Get && (path == "/"@ || path == "/page1"@ || path == "/page2"@) {
        index_file()
    } else {
        not_found_file()
    }
}

/// The routing table is total: every (method, path) pair maps to the index
/// file or to the not-found file; there is no third outcome.
pub proof fn lemma_route_is_total(method: HttpMethod, path: Seq<char>)
    ensures
        spec_route(method, path) == index_file() || spec_route(method, path) == not_found_file(),
{
}

/// A method other than `Get` is never served the index file, whatever the
/// path and whatever body came with the request.
pub proof fn lemma_non_get_is_not_found(method: HttpMethod, path: Seq<char>)
    requires
        !(method is Get),
    ensures
        spec_route(method, path) == not_found_file(),
{
}

/// Picks the file that answers a request with the given method and path.
pub fn route(method: &HttpMethod, path: &str) -> (r: &'static str)
    ensures
        r@ == spec_route(*method, path@),
{
    match method {
        HttpMethod::Get => {
            if str_eq(path, "/") || str_eq(path, "/page1") || str_eq(path, "/page2") {
                "views/index.html"
            } else {
                "views/404.html"
            }
        },
        _ => "views/404.html",
    }
}

/// The compute part of handling one connection: parses the raw buffer and
/// picks the file that answers it.  The caller reads that file and frames
/// the response around the outcome.
pub fn route_request(buffer: &[u8]) -> (r: &'static str)
    ensures
        r@ == spec_route(parsed_method(buffer@), parsed_path(buffer@)),
{
    let request = HttpRequest::from_request_bytes(buffer);
    route(&request.method, request.path.as_str())
}

} // verus!
