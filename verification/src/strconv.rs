//! Conversions between raw bytes and text.
//!
//! The two `external_body` functions here are the only places where the
//! library leans on code it does not verify: std's UTF-8 validation and its
//! lossy decoding.  Everything else is proved against vstd's UTF-8 model.

use vstd::prelude::*;
use vstd::string::{StrSliceExecFns, StringSliceAdditionalSpecFns};
use vstd::utf8::{
    char_is_scalar, decode_utf8, encode_scalar, encode_utf8, encode_utf8_decode_utf8,
    has_width_1_encoding, has_width_2_encoding, has_width_3_encoding, valid_utf8,
};

verus! {

/// UTF-8 encoding distributes over concatenation.
pub proof fn lemma_encode_utf8_concat(a: Seq<char>, b: Seq<char>)
    ensures
        encode_utf8(a + b) == encode_utf8(a) + encode_utf8(b),
    decreases a.len(),
{
    if a.len() == 0 {
        assert(a + b =~= b);
        assert(encode_utf8(a) =~= Seq::<u8>::empty());
        assert(encode_utf8(a) + encode_utf8(b) =~= encode_utf8(b));
    } else {
        let ab = a + b;
        assert(ab[0] == a[0]);
        assert(ab.drop_first() =~= a.drop_first() + b);
        lemma_encode_utf8_concat(a.drop_first(), b);
        assert(encode_utf8(ab) =~= encode_utf8(a) + encode_utf8(b));
    }
}

/// A character whose code is below 128 casts to a byte and back without
/// loss.
pub proof fn lemma_ascii_char_code(c: char)
    requires
        (c as nat) < 128,
    ensures
        (c as u8) < 0x80,
        (c as u8) as u32 == c as u32,
{
    let u = c as u32;
    assert(u < 0x80 ==> ((u as u8) < 0x80 && (u as u8) as u32 == u)) by (bit_vector);
}

/// When a UTF-8 encoding begins with an ASCII byte, the text begins with
/// the character of that code, and the rest of the encoding encodes the
/// rest of the text.
pub proof fn lemma_encode_ascii_head(s: Seq<char>, b: u8)
    requires
        b < 0x80,
        encode_utf8(s).len() > 0,
        encode_utf8(s)[0] == b,
    ensures
        s.len() > 0,
        s[0] as u32 == b as u32,
        encode_utf8(s.drop_first()) =~= encode_utf8(s).skip(1),
{
    assert(s.len() > 0);
    let u = s[0] as u32;
    char_is_scalar(s[0]);
    let es = encode_utf8(s);
    if has_width_1_encoding(u) {
        assert(es[0] == (u & 0x7F) as u8);
        assert((u <= 0x7F && b == ((u & 0x7F) as u8)) ==> (b as u32) == u) by (bit_vector);
        assert(encode_scalar(u).len() == 1);
        assert(encode_utf8(s.drop_first()) =~= es.skip(1));
    } else if has_width_2_encoding(u) {
        assert(es[0] == (0xC0u8 | (((u >> 6u32) & 0x1Fu32) as u8)));
        assert((0xC0u8 | (((u >> 6u32) & 0x1Fu32) as u8)) >= 0xC0u8) by (bit_vector);
        assert(false);
    } else if has_width_3_encoding(u) {
        assert(es[0] == (0xE0u8 | (((u >> 12u32) & 0x0Fu32) as u8)));
        assert((0xE0u8 | (((u >> 12u32) & 0x0Fu32) as u8)) >= 0xE0u8) by (bit_vector);
        assert(false);
    } else {
        assert(es[0] == (0xF0u8 | (((u >> 18u32) & 0x7u32) as u8)));
        assert((0xF0u8 | (((u >> 18u32) & 0x7u32) as u8)) >= 0xF0u8) by (bit_vector);
        assert(false);
    }
}

/// The least index at or after `i` holding the character `c`, or `s.len()`
/// when no index at or after `i` holds it.
pub open spec fn find_char_from(s: Seq<char>, c: char, i: int) -> int
    decreases s.len() - i,
{
    if i >= s.len() {
        s.len() as int
    } else if s[i] == c {
        i
    } else {
        find_char_from(s, c, i + 1)
    }
}

/// Before the result of `find_char_from`, no index holds the character; at
/// the result, it stands, unless the search ran off the end.
pub proof fn lemma_find_char_from_props(s: Seq<char>, c: char, i: int)
    requires
        0 <= i <= s.len(),
    ensures
        i <= find_char_from(s, c, i) <= s.len(),
        forall|j: int| i <= j < find_char_from(s, c, i) ==> s[j] != c,
        find_char_from(s, c, i) < s.len() ==> s[find_char_from(s, c, i)] == c,
    decreases s.len() - i,
{
    if i < s.len() && s[i] != c {
        lemma_find_char_from_props(s, c, i + 1);
    }
}

/// The first index at or after `from` holding the character `c`; returns the
/// character length of `s` when no index at or after `from` holds it.
pub fn find_char_at(s: &str, c: char, from: usize) -> (r: usize)
    requires
        from <= s@.len(),
    ensures
        r as int == find_char_from(s@, c, from as int),
{
    let n = s.unicode_len();
    let mut i: usize = from;
    while i < n
        invariant
            from <= i <= n,
            n == s@.len(),
            find_char_from(s@, c, from as int) == find_char_from(s@, c, i as int),
        decreases n - i,
    {
        if s.get_char(i) == c {
            return i;
        }
        i += 1;
    }
    n
}

/// What `String::from_utf8_lossy` yields on the given bytes.  The full
/// replacement rule for ill-formed sequences is not spelled out here; the
/// result is a function of the bytes alone.
pub uninterp spec fn lossy_decode(bytes: Seq<u8>) -> Seq<char>;

/// Relies on `core::str::from_utf8`: it succeeds exactly on valid UTF-8, and
/// then yields the text those bytes encode.
#[verifier::external_body]
pub fn try_str_from_utf8(v: &[u8]) -> (r: Option<&str>)
    ensures
        r is Some <==> valid_utf8(v@),
        r is Some ==> r->0.spec_bytes() == v@ && r->0@ == decode_utf8(v@),
{
    core::str::from_utf8(v).ok()
}

/// Relies on `String::from_utf8_lossy`: its result depends on the bytes
/// alone, and valid UTF-8 decodes unchanged, with no replacements.
#[verifier::external_body]
pub fn utf8_lossy_to_string(v: &[u8]) -> (r: String)
    ensures
        r@ == lossy_decode(v@),
        valid_utf8(v@) ==> r@ == decode_utf8(v@),
{
    String::from_utf8_lossy(v).into_owned()
}

/// Character-for-character equality of two text slices, decided by comparing
/// their underlying bytes.
pub fn str_eq(a: &str, b: &str) -> (r: bool)
    ensures
        r == (a@ == b@),
{
    proof {
        encode_utf8_decode_utf8(a@);
        encode_utf8_decode_utf8(b@);
    }
    let ab = a.as_bytes();
    let bb = b.as_bytes();
    let n = ab.len();
    if n != bb.len() {
        return false;
    }
    let mut i: usize = 0;
    while i < n
        invariant
            i <= n,
            n == ab@.len() == bb@.len(),
            ab@ == a.spec_bytes(),
            bb@ == b.spec_bytes(),
            forall|j: int| 0 <= j < i ==> ab@[j] == bb@[j],
        decreases n - i,
    {
        if ab[i] != bb[i] {
            return false;
        }
        i += 1;
    }
    proof {
        assert(a.spec_bytes() =~= b.spec_bytes());
    }
    true
}

} // verus!
