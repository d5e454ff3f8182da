//! The closed set of request methods the server recognizes.

use crate::strconv::{lemma_ascii_char_code, lemma_encode_ascii_head, lemma_encode_utf8_concat};
use vstd::prelude::*;
use vstd::string::{StrSliceExecFns, StringExecFns};
use vstd::utf8::{
    char_u32_cast, encode_utf8, is_ascii_chars, is_ascii_chars_encode_utf8,
    is_ascii_chars_nat_bound,
};

verus! {

/// True when `s` begins with the prefix `p`.
pub open spec fn starts_with_chars(s: Seq<char>, p: Seq<char>) -> bool {
    p.len() <= s.len() && s.take(p.len() as int) == p
}

/// True when `s` begins with the prefix `p`.
pub open spec fn starts_with_bytes(s: Seq<u8>, p: Seq<u8>) -> bool {
    p.len() <= s.len() && s.take(p.len() as int) == p
}

/// Decides whether `s` begins with the prefix `p`, character by character.
pub fn str_starts_with(s: &str, p: &str) -> (r: bool)
    ensures
        r == starts_with_chars(s@, p@),
{
    let pn = p.unicode_len();
    let sn = s.unicode_len();
    if pn > sn {
        return false;
    }
    let mut i: usize = 0;
    while i < pn
        invariant
            i <= pn <= sn,
            pn == p@.len(),
            sn == s@.len(),
            forall|j: int| 0 <= j < i ==> s@[j] == p@[j],
        decreases pn - i,
    {
        if s.get_char(i) != p.get_char(i) {
            proof {
                assert(s@.take(pn as int)[i as int] == s@[i as int]);
            }
            return false;
        }
        i += 1;
    }
    proof {
        assert(s@.take(pn as int) =~= p@);
    }
    true
}

/// Decides whether `s` begins with the prefix `p`, byte by byte.
pub fn bytes_start_with(s: &[u8], p: &[u8]) -> (r: bool)
    ensures
        r == starts_with_bytes(s@, p@),
{
    let pn = p.len();
    if pn > s.len() {
        return false;
    }
    let mut i: usize = 0;
    while i < pn
        invariant
            i <= pn <= s@.len(),
            pn == p@.len(),
            forall|j: int| 0 <= j < i ==> s@[j] == p@[j],
        decreases pn - i,
    {
        if s[i] != p[i] {
            proof {
                assert(s@.take(pn as int)[i as int] == s@[i as int]);
            }
            return false;
        }
        i += 1;
    }
    proof {
        assert(s@.take(pn as int) =~= p@);
    }
    true
}

/// The request methods the server allows, along with a catch-all `Error`
/// variant that stands for any token matching none of the real methods.
#[derive(Clone, Copy, Debug, PartialEq, Eq, Structural)]
pub enum HttpMethod {
    Get,
    Post,
    Put,
    Delete,
    Error,
}

impl HttpMethod {
    /// The canonical uppercase token for this method.
    pub open spec fn spec_token(self) -> Seq<char> {
        match self {
            HttpMethod::Get => seq!['G', 'E', 'T'],
            HttpMethod::Post => seq!['P', 'O', 'S', 'T'],
            HttpMethod::Put => seq!['P', 'U', 'T'],
            HttpMethod::Delete => seq!['D', 'E', 'L', 'E', 'T', 'E'],
            HttpMethod::Error => seq!['E', 'R', 'R', 'O', 'R'],
        }
    }

    /// The canonical token as it appears on the wire.
    pub open spec fn spec_token_bytes(self) -> Seq<u8> {
        match self {
            HttpMethod::Get => seq![71u8, 69u8, 84u8],
            HttpMethod::Post => seq![80u8, 79u8, 83u8, 84u8],
            HttpMethod::Put => seq![80u8, 85u8, 84u8],
            HttpMethod::Delete => seq![68u8, 69u8, 76u8, 69u8, 84u8, 69u8],
            HttpMethod::Error => seq![69u8, 82u8, 82u8, 79u8, 82u8],
        }
    }

    /// The method a character token resolves to: the first canonical token
    /// that is a prefix of `s` wins, in declared order.  `Error`'s own token
    /// needs no clause: an input starting with it matches no real token, so
    /// the fallback returns `Error` for it anyway.
    pub open spec fn spec_from_chars(s: Seq<char>) -> HttpMethod {
        if starts_with_chars(s, HttpMethod::Get.spec_token()) {
            HttpMethod::Get
        } else if starts_with_chars(s, HttpMethod::Post.spec_token()) {
            HttpMethod::Post
        } else if starts_with_chars(s, HttpMethod::Put.spec_token()) {
            HttpMethod::Put
        } else if starts_with_chars(s, HttpMethod::Delete.spec_token()) {
            HttpMethod::Delete
        } else {
            HttpMethod::Error
        }
    }

    /// The method a byte token resolves to, by the same prefix rule.
    pub open spec fn spec_from_bytes(s: Seq<u8>) -> HttpMethod {
        if starts_with_bytes(s, HttpMethod::Get.spec_token_bytes()) {
            HttpMethod::Get
        } else if starts_with_bytes(s, HttpMethod::Post.spec_token_bytes()) {
            HttpMethod::Post
        } else if starts_with_bytes(s, HttpMethod::Put.spec_token_bytes()) {
            HttpMethod::Put
        } else if starts_with_bytes(s, HttpMethod::Delete.spec_token_bytes()) {
            HttpMethod::Delete
        } else {
            HttpMethod::Error
        }
    }

    /// Renders the canonical uppercase token.
    pub fn to_string(&self) -> (r: String)
        ensures
            r@ == self.spec_token(),
    {
        match self {
            HttpMethod::Get => {
                let r = String::from_str("GET");
                proof {
                    reveal_strlit("GET");
                    assert(r@ =~= self.spec_token());
                }
                r
            },
            HttpMethod::Post => {
                let r = String::from_str("POST");
                proof {
                    reveal_strlit("POST");
                    assert(r@ =~= self.spec_token());
                }
                r
            },
            HttpMethod::Put => {
                let r = String::from_str("PUT");
                proof {
                    reveal_strlit("PUT");
                    assert(r@ =~= self.spec_token());
                }
                r
            },
            HttpMethod::Delete => {
                let r = String::from_str("DELETE");
                proof {
                    reveal_strlit("DELETE");
                    assert(r@ =~= self.spec_token());
                }
                r
            },
            HttpMethod::Error => {
                let r = String::from_str("ERROR");
                proof {
                    reveal_strlit("ERROR");
                    assert(r@ =~= self.spec_token());
                }
                r
            },
        }
    }

    /// Resolves a text token by prefix match, first matching variant wins.
    pub fn from_string(string: String) -> (r: HttpMethod)
        ensures
            r == HttpMethod::spec_from_chars(string@),
    {
        proof {
            reveal_strlit("GET");
            reveal_strlit("POST");
            reveal_strlit("PUT");
            reveal_strlit("DELETE");
            assert("GET"@ =~= HttpMethod::Get.spec_token());
            assert("POST"@ =~= HttpMethod::Post.spec_token());
            assert("PUT"@ =~= HttpMethod::Put.spec_token());
            assert("DELETE"@ =~= HttpMethod::Delete.spec_token());
        }
        let s = string.as_str();
        if str_starts_with(s, "GET") {
            HttpMethod::Get
        } else if str_starts_with(s, "POST") {
            HttpMethod::Post
        } else if str_starts_with(s, "PUT") {
            HttpMethod::Put
        } else if str_starts_with(s, "DELETE") {
            HttpMethod::Delete
        } else {
            HttpMethod::Error
        }
    }

    /// The canonical token rendered as bytes.
    pub fn to_bytes(&self) -> (r: Vec<u8>)
        ensures
            r@ == self.spec_token_bytes(),
    {
        let mut r: Vec<u8> = Vec::new();
        match self {
            HttpMethod::Get => {
                r.push(71);
                r.push(69);
                r.push(84);
            },
            HttpMethod::Post => {
                r.push(80);
                r.push(79);
                r.push(83);
                r.push(84);
            },
            HttpMethod::Put => {
                r.push(80);
                r.push(85);
                r.push(84);
            },
            HttpMethod::Delete => {
                r.push(68);
                r.push(69);
                r.push(76);
                r.push(69);
                r.push(84);
                r.push(69);
            },
            HttpMethod::Error => {
                r.push(69);
                r.push(82);
                r.push(82);
                r.push(79);
                r.push(82);
            },
        }
        proof {
            assert(r@ =~= self.spec_token_bytes());
        }
        r
    }

    /// Resolves a byte token by prefix match, first matching variant wins.
    pub fn from_bytes(bytes: &[u8]) -> (r: HttpMethod)
        ensures
            r == HttpMethod::spec_from_bytes(bytes@),
    {
        let get = HttpMethod::Get.to_bytes();
        let post = HttpMethod::Post.to_bytes();
        let put = HttpMethod::Put.to_bytes();
        let delete = HttpMethod::Delete.to_bytes();
        if bytes_start_with(bytes, get.as_slice()) {
            HttpMethod::Get
        } else if bytes_start_with(bytes, post.as_slice()) {
            HttpMethod::Post
        } else if bytes_start_with(bytes, put.as_slice()) {
            HttpMethod::Put
        } else if bytes_start_with(bytes, delete.as_slice()) {
            HttpMethod::Delete
        } else {
            HttpMethod::Error
        }
    }
}

/// The canonical byte token is exactly the UTF-8 encoding of the canonical
/// character token.
pub proof fn lemma_token_bytes_are_encoded(m: HttpMethod)
    ensures
        m.spec_token_bytes() == encode_utf8(m.spec_token()),
{
    let chars = m.spec_token();
    assert(is_ascii_chars(chars)) by {
        assert(forall|i: int| 0 <= i < chars.len() ==> '\0' <= #[trigger] chars[i] <= '\u{7f}');
    }
    is_ascii_chars_encode_utf8(chars);
    assert(m.spec_token_bytes() =~= encode_utf8(chars));
}

/// An input that begins with a method's canonical byte token parses back to
/// that method, whatever follows the token.
pub proof fn lemma_token_prefix_parses_back_bytes(m: HttpMethod, rest: Seq<u8>)
    ensures
        HttpMethod::spec_from_bytes(m.spec_token_bytes() + rest) == m,
{
    let s = m.spec_token_bytes() + rest;
    assert(s.take(m.spec_token_bytes().len() as int) =~= m.spec_token_bytes());
    match m {
        HttpMethod::Get => {
        },
        HttpMethod::Post => {
            assert(!starts_with_bytes(s, HttpMethod::Get.spec_token_bytes()));
        },
        HttpMethod::Put => {
            assert(!starts_with_bytes(s, HttpMethod::Get.spec_token_bytes()));
            assert(!starts_with_bytes(s, HttpMethod::Post.spec_token_bytes()));
        },
        HttpMethod::Delete => {
            assert(!starts_with_bytes(s, HttpMethod::Get.spec_token_bytes()));
            assert(!starts_with_bytes(s, HttpMethod::Post.spec_token_bytes()));
            assert(!starts_with_bytes(s, HttpMethod::Put.spec_token_bytes()));
        },
        HttpMethod::Error => {
            assert(!starts_with_bytes(s, HttpMethod::Get.spec_token_bytes()));
            assert(!starts_with_bytes(s, HttpMethod::Post.spec_token_bytes()));
            assert(!starts_with_bytes(s, HttpMethod::Put.spec_token_bytes()));
            assert(!starts_with_bytes(s, HttpMethod::Delete.spec_token_bytes()));
        },
    }
}

/// An input that begins with a method's canonical character token parses back
/// to that method, whatever follows the token.
pub proof fn lemma_token_prefix_parses_back_chars(m: HttpMethod, rest: Seq<char>)
    ensures
        HttpMethod::spec_from_chars(m.spec_token() + rest) == m,
{
    let s = m.spec_token() + rest;
    assert(s.take(m.spec_token().len() as int) =~= m.spec_token());
    match m {
        HttpMethod::Get => {
        },
        HttpMethod::Post => {
            assert(!starts_with_chars(s, HttpMethod::Get.spec_token()));
        },
        HttpMethod::Put => {
            assert(!starts_with_chars(s, HttpMethod::Get.spec_token()));
            assert(!starts_with_chars(s, HttpMethod::Post.spec_token()));
        },
        HttpMethod::Delete => {
            assert(!starts_with_chars(s, HttpMethod::Get.spec_token()));
            assert(!starts_with_chars(s, HttpMethod::Post.spec_token()));
            assert(!starts_with_chars(s, HttpMethod::Put.spec_token()));
        },
        HttpMethod::Error => {
            assert(!starts_with_chars(s, HttpMethod::Get.spec_token()));
            assert(!starts_with_chars(s, HttpMethod::Post.spec_token()));
            assert(!starts_with_chars(s, HttpMethod::Put.spec_token()));
            assert(!starts_with_chars(s, HttpMethod::Delete.spec_token()));
        },
    }
}

/// Every canonical token is plain ASCII.
pub proof fn lemma_token_is_ascii(m: HttpMethod)
    ensures
        is_ascii_chars(m.spec_token()),
{
    let chars = m.spec_token();
    assert(forall|i: int| 0 <= i < chars.len() ==> '\0' <= #[trigger] chars[i] <= '\u{7f}');
}

/// A text begins with an ASCII prefix exactly when its UTF-8 encoding
/// begins with that prefix's encoding.
pub proof fn lemma_ascii_prefix_carries_to_bytes(s: Seq<char>, p: Seq<char>)
    requires
        is_ascii_chars(p),
    ensures
        starts_with_chars(s, p) <==> starts_with_bytes(encode_utf8(s), encode_utf8(p)),
    decreases p.len(),
{
    is_ascii_chars_encode_utf8(p);
    let es = encode_utf8(s);
    let ep = encode_utf8(p);
    if p.len() == 0 {
        assert(s.take(0) =~= p);
        assert(ep =~= Seq::<u8>::empty());
        assert(es.take(0) =~= ep);
    } else {
        is_ascii_chars_nat_bound(p);
        if starts_with_chars(s, p) {
            assert(s =~= p + s.skip(p.len() as int));
            lemma_encode_utf8_concat(p, s.skip(p.len() as int));
            assert(es.take(ep.len() as int) =~= ep);
        }
        if starts_with_bytes(es, ep) {
            let b = p[0] as u8;
            assert(ep[0] == b);
            lemma_ascii_char_code(p[0]);
            assert(es[0] == es.take(ep.len() as int)[0]);
            lemma_encode_ascii_head(s, b);
            lemma_encode_ascii_head(p, b);
            char_u32_cast(s[0], s[0] as u32);
            char_u32_cast(p[0], p[0] as u32);
            assert(s[0] == p[0]);
            assert(encode_utf8(s.drop_first()).take(ep.len() - 1) =~= encode_utf8(
                p.drop_first(),
            )) by {
                assert(encode_utf8(s.drop_first()) =~= es.skip(1));
                assert(encode_utf8(p.drop_first()) =~= ep.skip(1));
                assert(forall|i: int|
                    0 <= i < ep.len() - 1 ==> es.skip(1)[i] == #[trigger] ep.skip(1)[i]) by {
                    assert(forall|i: int|
                        0 <= i < ep.len() ==> es.take(ep.len() as int)[i] == #[trigger] ep[i]);
                }
            }
            assert(is_ascii_chars(p.drop_first())) by {
                assert forall|i: int|
                    0 <= i < p.drop_first().len() implies '\0' <= #[trigger] p.drop_first()[i]
                    <= '\u{7f}' by {
                    assert(p.drop_first()[i] == p[i + 1]);
                }
            }
            lemma_ascii_prefix_carries_to_bytes(s.drop_first(), p.drop_first());
            assert(starts_with_chars(s.drop_first(), p.drop_first()));
            assert(s.take(p.len() as int) =~= p) by {
                assert(forall|i: int|
                    0 < i < p.len() ==> s[i] == s.drop_first()[i - 1] && #[trigger] p[i]
                        == p.drop_first()[i - 1]);
                assert(forall|i: int|
                    0 <= i < p.len() - 1 ==> s.drop_first().take(p.len() - 1)[i] == #[trigger] s
                        .drop_first()[i]);
            }
        }
    }
}

/// Parsing a text token and parsing its UTF-8 bytes agree on every input:
/// the two prefix-match rules resolve to the same method.
pub proof fn lemma_text_parses_as_its_bytes(s: Seq<char>)
    ensures
        HttpMethod::spec_from_chars(s) == HttpMethod::spec_from_bytes(encode_utf8(s)),
{
    lemma_token_is_ascii(HttpMethod::Get);
    lemma_token_bytes_are_encoded(HttpMethod::Get);
    lemma_ascii_prefix_carries_to_bytes(s, HttpMethod::Get.spec_token());
    lemma_token_is_ascii(HttpMethod::Post);
    lemma_token_bytes_are_encoded(HttpMethod::Post);
    lemma_ascii_prefix_carries_to_bytes(s, HttpMethod::Post.spec_token());
    lemma_token_is_ascii(HttpMethod::Put);
    lemma_token_bytes_are_encoded(HttpMethod::Put);
    lemma_ascii_prefix_carries_to_bytes(s, HttpMethod::Put.spec_token());
    lemma_token_is_ascii(HttpMethod::Delete);
    lemma_token_bytes_are_encoded(HttpMethod::Delete);
    lemma_ascii_prefix_carries_to_bytes(s, HttpMethod::Delete.spec_token());
}

/// Rendering a method and parsing the token back recovers the method, in
/// text as in bytes.
pub proof fn lemma_token_round_trip(m: HttpMethod)
    ensures
        HttpMethod::spec_from_bytes(m.spec_token_bytes()) == m,
        HttpMethod::spec_from_chars(m.spec_token()) == m,
{
    lemma_token_prefix_parses_back_bytes(m, Seq::<u8>::empty());
    assert(m.spec_token_bytes() + Seq::<u8>::empty() =~= m.spec_token_bytes());
    lemma_token_prefix_parses_back_chars(m, Seq::<char>::empty());
    assert(m.spec_token() + Seq::<char>::empty() =~= m.spec_token());
}

/// An input that begins with none of the four real tokens parses to `Error`.
pub proof fn lemma_unmatched_token_is_error(s: Seq<u8>)
    requires
        !starts_with_bytes(s, HttpMethod::Get.spec_token_bytes()),
        !starts_with_bytes(s, HttpMethod::Post.spec_token_bytes()),
        !starts_with_bytes(s, HttpMethod::Put.spec_token_bytes()),
        !starts_with_bytes(s, HttpMethod::Delete.spec_token_bytes()),
    ensures
        HttpMethod::spec_from_bytes(s) == HttpMethod::Error,
{
}

/// The same, for text input.
pub proof fn lemma_unmatched_text_is_error(s: Seq<char>)
    requires
        !starts_with_chars(s, HttpMethod::Get.spec_token()),
        !starts_with_chars(s, HttpMethod::Post.spec_token()),
        !starts_with_chars(s, HttpMethod::Put.spec_token()),
        !starts_with_chars(s, HttpMethod::Delete.spec_token()),
    ensures
        HttpMethod::spec_from_chars(s) == HttpMethod::Error,
{
}

} // verus!
