//! Framing an HTTP response around the outcome of a static file read.

use crate::digits::{decimal_chars, decimal_string};
use crate::request::HttpRequest;
use vstd::prelude::*;
use vstd::string::{StrSliceExecFns, StringExecFns};
use vstd::utf8::encode_utf8;

verus! {

/// The status text for a readable file.
pub open spec fn status_ok() -> Seq<char> {
    "200 Ok"@
}

/// The status text when the file cannot be read.
pub open spec fn status_not_found() -> Seq<char> {
    "404 Not Found"@
}

/// The full response text for a status and a content: status line, a
/// `Content-Length` header counting the content's bytes, the delimiter that
/// closes the header block, then one more delimiter before the content.
/// The doubled delimiter reproduces the wire format exactly as served.
pub open spec fn response_chars(status: Seq<char>, content: Seq<char>) -> Seq<char> {
    "HTTP/1.1 "@ + status + "\r\nContent-Length: "@ + decimal_chars(encode_utf8(content).len())
        + "\r\n\r\n"@ + "\r\n\r\n"@ + content
}

/// The response bytes for a file read that yielded `content`, or `None` when
/// the read failed: success is framed `200 Ok` around the content read;
/// failure is framed `404 Not Found` around the built-in fallback page.
pub open spec fn spec_generate_response(content: Option<Seq<char>>) -> Seq<u8> {
    if content is Some {
        encode_utf8(response_chars(status_ok(), content->0))
    } else {
        encode_utf8(response_chars(status_not_found(), HttpRequest::DEFAULT_404_HTML@))
    }
}

/// Frames the outcome of a file read as response bytes.  A failed read
/// becomes a well-formed `404 Not Found` answer, never an error.
pub fn generate_response(content: Option<String>) -> (r: Vec<u8>)
    ensures
        r@ == spec_generate_response(content.deep_view()),
{
    let ghost input = content.deep_view();
    let (status, body): (&str, String) = match content {
        Some(c) => ("200 Ok", c),
        None => ("404 Not Found", String::from_str(HttpRequest::DEFAULT_404_HTML)),
    };
    let clen = body.as_str().as_bytes_vec().len();
    let mut s = String::from_str("HTTP/1.1 ");
    s.append(status);
    s.append("\r\nContent-Length: ");
    let digits = decimal_string(clen);
    s.append(digits.as_str());
    s.append("\r\n\r\n");
    s.append("\r\n\r\n");
    s.append(body.as_str());
    let r = s.as_str().as_bytes_vec();
    proof {
        if input is Some {
            assert(s@ =~= response_chars(status_ok(), input->0));
        } else {
            assert(s@ =~= response_chars(status_not_found(), HttpRequest::DEFAULT_404_HTML@));
        }
    }
    r
}

} // verus!
