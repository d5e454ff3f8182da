//! The structured request model and the parser that builds it from a raw
//! byte buffer.
//!
//! The buffer splits at the first `\r\n\r\n` into a header region and a body
//! region.  The header's first two space-separated tokens are the method and
//! the target; everything after them is discarded.  The target splits at its
//! first `?` into the path and the query string.  Body bytes are kept only
//! when more bytes than the delimiter itself remain after the header.

use crate::digits::{decimal_chars, decimal_string};
use crate::method::HttpMethod;
use crate::scan::{
    find_byte, find_byte_at, find_subsequence, first_match, lemma_find_byte_from_props,
    lemma_first_match_from_bounds,
};
use crate::strconv::{lossy_decode, try_str_from_utf8, utf8_lossy_to_string};
use crate::urlenc::{parse_query, query_pairs};
use vstd::prelude::*;
use vstd::slice::slice_subrange;
use vstd::string::{StrSliceExecFns, StringExecFns};
use vstd::utf8::{decode_utf8, encode_utf8, valid_utf8};

verus! {

/// The header/body delimiter: CR LF CR LF.
pub open spec fn delimiter_bytes() -> Seq<u8> {
    seq![13u8, 10u8, 13u8, 10u8]
}

/// The header region: everything before the first delimiter, or the whole
/// buffer when there is none.
pub open spec fn header_region(buf: Seq<u8>) -> Seq<u8> {
    buf.take(first_match(buf, delimiter_bytes()))
}

/// The body region: the delimiter and everything after it, empty when there
/// is no delimiter.
pub open spec fn body_region(buf: Seq<u8>) -> Seq<u8> {
    buf.skip(first_match(buf, delimiter_bytes()))
}

/// The method token: the header bytes before its first space.
pub open spec fn method_token(buf: Seq<u8>) -> Seq<u8> {
    let h = header_region(buf);
    h.take(find_byte(h, 32))
}

/// The request target: between the first and second spaces of the header, or
/// to the header's end when there is no second space; empty when the header
/// has no space at all.
pub open spec fn target_bytes(buf: Seq<u8>) -> Seq<u8> {
    let h = header_region(buf);
    let p = find_byte(h, 32);
    if p == h.len() {
        Seq::<u8>::empty()
    } else {
        let rest = h.skip(p + 1);
        rest.take(find_byte(rest, 32))
    }
}

/// The path part of the target: everything before its first `?`.
pub open spec fn path_bytes(buf: Seq<u8>) -> Seq<u8> {
    let t = target_bytes(buf);
    t.take(find_byte(t, 63))
}

/// The query part of the target: everything after its first `?`, empty when
/// it has none.
pub open spec fn query_bytes(buf: Seq<u8>) -> Seq<u8> {
    let t = target_bytes(buf);
    let p = find_byte(t, 63);
    if p == t.len() {
        Seq::<u8>::empty()
    } else {
        t.skip(p + 1)
    }
}

/// What parsing recovers as the method.
pub open spec fn parsed_method(buf: Seq<u8>) -> HttpMethod {
    HttpMethod::spec_from_bytes(method_token(buf))
}

/// What parsing recovers as the path: the path bytes read as UTF-8, or empty
/// text when they are not valid UTF-8.
pub open spec fn parsed_path(buf: Seq<u8>) -> Seq<char> {
    if valid_utf8(path_bytes(buf)) {
        decode_utf8(path_bytes(buf))
    } else {
        Seq::<char>::empty()
    }
}

/// What parsing recovers as the parameters, in query-string order.
pub open spec fn parsed_parameters(buf: Seq<u8>) -> Seq<(Seq<char>, Seq<char>)> {
    query_pairs(query_bytes(buf))
}

/// A body is kept only when more bytes than the delimiter itself remain at
/// and after the delimiter.
pub open spec fn body_present(buf: Seq<u8>) -> bool {
    body_region(buf).len() > delimiter_bytes().len()
}

/// What parsing recovers as the body text: the bytes after the delimiter,
/// read lossily as UTF-8.
pub open spec fn body_text(buf: Seq<u8>) -> Seq<char> {
    lossy_decode(body_region(buf).skip(delimiter_bytes().len() as int))
}

/// The query-string rendering of a parameter sequence: empty for an absent
/// or empty sequence, else `?k1=v1&k2=v2...` preserving order.
pub open spec fn params_string(ps: Option<Seq<(Seq<char>, Seq<char>)>>) -> Seq<char> {
    if ps is None || ps->0.len() == 0 {
        Seq::<char>::empty()
    } else {
        "?"@ + joined_pairs(ps->0)
    }
}

/// The pairs rendered `key=value` and joined with `&`.
pub open spec fn joined_pairs(ps: Seq<(Seq<char>, Seq<char>)>) -> Seq<char>
    decreases ps.len(),
{
    if ps.len() == 0 {
        Seq::<char>::empty()
    } else if ps.len() == 1 {
        pair_text(ps[0])
    } else {
        pair_text(ps[0]) + "&"@ + joined_pairs(ps.drop_first())
    }
}

/// One pair rendered `key=value`.
pub open spec fn pair_text(p: (Seq<char>, Seq<char>)) -> Seq<char> {
    p.0 + "="@ + p.1
}

/// Joining one more pair appends `&` and the pair's text, except before the
/// first pair.
pub proof fn lemma_joined_pairs_step(ps: Seq<(Seq<char>, Seq<char>)>, i: int)
    requires
        0 <= i < ps.len(),
    ensures
        joined_pairs(ps.take(i + 1)) == if i == 0 {
            pair_text(ps[0])
        } else {
            joined_pairs(ps.take(i)) + "&"@ + pair_text(ps[i])
        },
    decreases i,
{
    if i == 0 {
        assert(ps.take(1).len() == 1);
        assert(ps.take(1)[0] == ps[0]);
    } else if i == 1 {
        let t = ps.take(2);
        assert(t.len() == 2);
        assert(t[0] == ps[0]);
        assert(t.drop_first() =~= ps.drop_first().take(1));
        assert(ps.drop_first().take(1)[0] == ps[1]);
        assert(joined_pairs(t.drop_first()) == pair_text(ps[1]));
        assert(ps.take(1).len() == 1);
        assert(ps.take(1)[0] == ps[0]);
        assert(joined_pairs(ps.take(2)) =~= joined_pairs(ps.take(1)) + "&"@ + pair_text(ps[1]));
    } else {
        let d = ps.drop_first();
        assert(ps.take(i + 1).len() >= 2);
        assert(ps.take(i).len() >= 2);
        assert(ps.take(i + 1)[0] == ps[0]);
        assert(ps.take(i)[0] == ps[0]);
        assert(ps.take(i + 1).drop_first() =~= d.take(i));
        assert(ps.take(i).drop_first() =~= d.take(i - 1));
        lemma_joined_pairs_step(d, i - 1);
        assert(d[i - 1] == ps[i]);
        assert(joined_pairs(d.take(i)) == joined_pairs(d.take(i - 1)) + "&"@ + pair_text(ps[i]));
        assert(joined_pairs(ps.take(i + 1)) == pair_text(ps[0]) + "&"@ + joined_pairs(d.take(i)));
        assert(joined_pairs(ps.take(i)) == pair_text(ps[0]) + "&"@ + joined_pairs(d.take(i - 1)));
        assert(pair_text(ps[0]) + "&"@ + (joined_pairs(d.take(i - 1)) + "&"@ + pair_text(ps[i]))
            =~= (pair_text(ps[0]) + "&"@ + joined_pairs(d.take(i - 1))) + "&"@ + pair_text(ps[i]));
    }
}

/// A structured view of one raw request.
#[derive(Debug)]
pub struct HttpRequest {
    pub method: HttpMethod,
    pub path: String,
    pub parameters: Option<Vec<(String, String)>>,
    pub body: Option<String>,
}

impl HttpRequest {
    /// The built-in fallback page, served when even the not-found page
    /// cannot be read.
    pub const DEFAULT_404_HTML: &'static str = "<html><body><h1>404 Not Found</h1></body></html>";

    /// The textual rendering of the whole request: request line with the
    /// query string folded back in, a content-length line, the delimiter,
    /// then the body (empty when absent).
    pub open spec fn spec_render(self) -> Seq<char> {
        let b = if self.body is Some {
            self.body->0@
        } else {
            Seq::<char>::empty()
        };
        self.method.spec_token() + " "@ + self.path@ + params_string(self.parameters.deep_view())
            + " HTTP/1.1\r\nContent Length: "@ + decimal_chars(encode_utf8(b).len()) + "\r\n\r\n"@
            + b
    }

    /// Renders the request as text.
    pub fn to_string(&self) -> (r: String)
        ensures
            r@ == self.spec_render(),
    {
        let mut s = self.method.to_string();
        s.append(" ");
        s.append(self.path.as_str());
        let ps = self.parameters_to_string();
        s.append(ps.as_str());
        s.append(" HTTP/1.1\r\nContent Length: ");
        let blen: usize = match &self.body {
            Some(b) => b.as_str().as_bytes_vec().len(),
            None => 0,
        };
        proof {
            assert(encode_utf8(Seq::<char>::empty()) =~= Seq::<u8>::empty());
        }
        let bs = decimal_string(blen);
        s.append(bs.as_str());
        s.append("\r\n\r\n");
        if let Some(b) = &self.body {
            s.append(b.as_str());
        }
        proof {
            assert(s@ =~= self.spec_render());
        }
        s
    }

    /// Renders the parameters as a query string: `""` when they are absent
    /// or empty, else `?k1=v1&k2=v2...` in original order, `&`-separated.
    pub fn parameters_to_string(&self) -> (r: String)
        ensures
            r@ == params_string(self.parameters.deep_view()),
    {
        match &self.parameters {
            None => String::new(),
            Some(ps) => {
                let n = ps.len();
                if n == 0 {
                    return String::new();
                }
                let ghost dv = self.parameters.deep_view()->0;
                proof {
                    assert(dv.len() == n);
                }
                let mut s = String::from_str("?");
                let mut i: usize = 0;
                proof {
                    assert(joined_pairs(dv.take(0)) =~= Seq::<char>::empty());
                    assert(s@ =~= "?"@ + joined_pairs(dv.take(0)));
                }
                while i < n
                    invariant
                        i <= n,
                        0 < n == ps@.len(),
                        dv.len() == n,
                        forall|j: int| 0 <= j < n ==> dv[j] == #[trigger] ps@[j].deep_view(),
                        s@ == "?"@ + joined_pairs(dv.take(i as int)),
                    decreases n - i,
                {
                    if i > 0 {
                        s.append("&");
                    }
                    let kv = &ps[i];
                    s.append(kv.0.as_str());
                    s.append("=");
                    s.append(kv.1.as_str());
                    proof {
                        lemma_joined_pairs_step(dv, i as int);
                        assert(dv[i as int] == ps@[i as int].deep_view());
                        assert(pair_text(dv[i as int]) =~= kv.0@ + "="@ + kv.1@);
                        assert(s@ =~= "?"@ + joined_pairs(dv.take(i + 1)));
                    }
                    i += 1;
                }
                proof {
                    assert(dv.take(n as int) =~= dv);
                    assert(s@ =~= params_string(self.parameters.deep_view()));
                }
                s
            },
        }
    }

    /// Renders the request as bytes on the wire.
    pub fn to_bytes(&self) -> (r: Vec<u8>)
        ensures
            r@ == encode_utf8(self.spec_render()),
    {
        let s = self.to_string();
        s.as_str().as_bytes_vec()
    }

    /// Parses a raw buffer into a structured request.  Parsing never fails:
    /// an unrecognized method becomes `Error`, an unreadable path becomes
    /// empty, and the parameters are always present, possibly empty.
    pub fn from_request_bytes(buffer: &[u8]) -> (r: HttpRequest)
        ensures
            r.method == parsed_method(buffer@),
            r.path@ == parsed_path(buffer@),
            r.parameters is Some,
            r.parameters->0.deep_view() == parsed_parameters(buffer@),
            r.body is Some <==> body_present(buffer@),
            body_present(buffer@) ==> r.body->0@ == body_text(buffer@),
    {
        let n = buffer.len();
        let mut delim: Vec<u8> = Vec::new();
        delim.push(13);
        delim.push(10);
        delim.push(13);
        delim.push(10);
        proof {
            assert(delim@ =~= delimiter_bytes());
            lemma_first_match_from_bounds(buffer@, delimiter_bytes(), 0);
        }
        let dpos = find_subsequence(buffer, delim.as_slice());
        let header = slice_subrange(buffer, 0, dpos);
        proof {
            assert(header@ =~= header_region(buffer@));
            lemma_find_byte_from_props(header@, 32, 0);
        }
        let sp1 = find_byte_at(header, 32, 0);
        let mtok = slice_subrange(header, 0, sp1);
        proof {
            assert(mtok@ =~= method_token(buffer@));
        }
        let method = HttpMethod::from_bytes(mtok);

        let hn = header.len();
        let target: &[u8] = if sp1 == hn {
            let t = slice_subrange(header, 0, 0);
            proof {
                assert(t@ =~= target_bytes(buffer@));
            }
            t
        } else {
            let rest = slice_subrange(header, sp1 + 1, hn);
            proof {
                assert(rest@ =~= header@.skip(sp1 + 1));
                lemma_find_byte_from_props(rest@, 32, 0);
            }
            let sp2 = find_byte_at(rest, 32, 0);
            let t = slice_subrange(rest, 0, sp2);
            proof {
                assert(t@ =~= target_bytes(buffer@));
            }
            t
        };

        proof {
            lemma_find_byte_from_props(target@, 63, 0);
        }
        let qpos = find_byte_at(target, 63, 0);
        let pbytes = slice_subrange(target, 0, qpos);
        proof {
            assert(pbytes@ =~= path_bytes(buffer@));
        }
        let path: String = match try_str_from_utf8(pbytes) {
            Some(s) => String::from_str(s),
            None => String::new(),
        };

        let qbytes: &[u8] = if qpos == target.len() {
            let q = slice_subrange(target, 0, 0);
            proof {
                assert(q@ =~= query_bytes(buffer@));
            }
            q
        } else {
            let q = slice_subrange(target, qpos + 1, target.len());
            proof {
                assert(q@ =~= query_bytes(buffer@));
            }
            q
        };
        let parameters = parse_query(qbytes);

        let after = slice_subrange(buffer, dpos, n);
        proof {
            assert(after@ =~= body_region(buffer@));
        }
        let body: Option<String> = if after.len() > 4 {
            let bb = slice_subrange(after, 4, after.len());
            proof {
                assert(bb@ =~= body_region(buffer@).skip(delimiter_bytes().len() as int));
            }
            Some(utf8_lossy_to_string(bb))
        } else {
            None
        };

        HttpRequest { method, path, parameters: Some(parameters), body }
    }

    /// A request carrying only the `Error` method.  The parameter sequence
    /// is present and empty, as it is on every request: it is never absent.
    pub fn error() -> (r: HttpRequest)
        ensures
            r.method == HttpMethod::Error,
            r.path@ == Seq::<char>::empty(),
            r.parameters matches Some(ps) && ps@.len() == 0,
            r.body is None,
    {
        HttpRequest {
            method: HttpMethod::Error,
            path: String::new(),
            body: None,
            parameters: Some(Vec::new()),
        }
    }

    /// A sample request: a plain `GET /` with an empty parameter list.
    pub fn test() -> (r: HttpRequest)
        ensures
            r.method == HttpMethod::Get,
            r.path@ == "/"@,
            r.parameters matches Some(ps) && ps@.len() == 0,
            r.body is None,
    {
        HttpRequest::new(HttpMethod::Get, String::from_str("/"), Some(Vec::new()), None)
    }

    /// Builds a request from its parts.
    pub fn new(
        method: HttpMethod,
        path: String,
        parameters: Option<Vec<(String, String)>>,
        body: Option<String>,
    ) -> (r: HttpRequest)
        ensures
            r.method == method,
            r.path == path,
            r.parameters == parameters,
            r.body == body,
    {
        HttpRequest { method, path, parameters, body }
    }

    /// A plain `GET /` with an empty parameter sequence and no body.
    pub fn default_get() -> (r: HttpRequest)
        ensures
            r.method == HttpMethod::Get,
            r.path@ == "/"@,
            r.parameters matches Some(ps) && ps@.len() == 0,
            r.body is None,
    {
        HttpRequest::get(String::from_str("/"), Some(Vec::new()), None)
    }

    /// A `POST` to the empty path with an empty parameter sequence and no
    /// body.
    pub fn default_post() -> (r: HttpRequest)
        ensures
            r.method == HttpMethod::Post,
            r.path@ == ""@,
            r.parameters matches Some(ps) && ps@.len() == 0,
            r.body is None,
    {
        proof {
            reveal_strlit("");
            assert(""@ =~= Seq::<char>::empty());
        }
        HttpRequest::post(String::new(), Some(Vec::new()), None)
    }

    /// Builds a `GET` request.
    pub fn get(
        path: String,
        parameters: Option<Vec<(String, String)>>,
        body: Option<String>,
    ) -> (r: HttpRequest)
        ensures
            r.method == HttpMethod::Get,
            r.path == path,
            r.parameters == parameters,
            r.body == body,
    {
        HttpRequest { method: HttpMethod::Get, path, parameters, body }
    }

    /// Builds a `POST` request.
    pub fn post(
        path: String,
        parameters: Option<Vec<(String, String)>>,
        body: Option<String>,
    ) -> (r: HttpRequest)
        ensures
            r.method == HttpMethod::Post,
            r.path == path,
            r.parameters == parameters,
            r.body == body,
    {
        HttpRequest { method: HttpMethod::Post, path, parameters, body }
    }
}

} // verus!
