//! Decoding of `application/x-www-form-urlencoded` query strings into
//! ordered (key, value) pairs.
//!
//! The grammar: pieces are split on `&` and empty pieces are skipped; each
//! piece splits at its first `=` into a key and a value (an absent `=` means
//! an empty value); in both halves `+` becomes a space and `%XY` with two
//! hexadecimal digits becomes one byte; the decoded bytes are read as UTF-8,
//! lossily.  Duplicate keys are kept as duplicate pairs, in input order.

use crate::scan::{find_byte, find_byte_at, lemma_find_byte_from_props};
use crate::strconv::{lossy_decode, utf8_lossy_to_string};
use vstd::prelude::*;
use vstd::slice::slice_subrange;

verus! {

/// True for the bytes that count as hexadecimal digits.
pub open spec fn is_hex_digit(b: u8) -> bool {
    (48 <= b <= 57) || (65 <= b <= 70) || (97 <= b <= 102)
}

/// The numeric value of a hexadecimal digit byte.
pub open spec fn hex_digit_value(b: u8) -> nat
    recommends
        is_hex_digit(b),
{
    if 48 <= b <= 57 {
        (b - 48) as nat
    } else if 65 <= b <= 70 {
        (b - 55) as nat
    } else {
        (b - 87) as nat
    }
}

/// Every `+` byte replaced by a space.
pub open spec fn with_plus_as_space(s: Seq<u8>) -> Seq<u8> {
    s.map_values(|b: u8| if b == 43 { 32u8 } else { b })
}

/// Percent-decoding: `%XY` with two hexadecimal digits becomes one byte; any
/// other byte, including a `%` not followed by two such digits, passes
/// through unchanged.
pub open spec fn percent_decoded(s: Seq<u8>) -> Seq<u8>
    decreases s.len(),
{
    if s.len() == 0 {
        seq![]
    } else if s[0] == 37 && s.len() >= 3 && is_hex_digit(s[1]) && is_hex_digit(s[2]) {
        seq![(16 * hex_digit_value(s[1]) + hex_digit_value(s[2])) as u8] + percent_decoded(
            s.skip(3),
        )
    } else {
        seq![s[0]] + percent_decoded(s.skip(1))
    }
}

/// A fully decoded key or value: plus-replacement, percent-decoding, then a
/// lossy UTF-8 read.
pub open spec fn component_decoded(s: Seq<u8>) -> Seq<char> {
    lossy_decode(percent_decoded(with_plus_as_space(s)))
}

/// The (key, value) pair a nonempty piece stands for.
pub open spec fn piece_pair(p: Seq<u8>) -> (Seq<char>, Seq<char>) {
    let e = find_byte(p, 61);
    let k = p.take(e);
    let v = if e == p.len() {
        Seq::<u8>::empty()
    } else {
        p.skip(e + 1)
    };
    (component_decoded(k), component_decoded(v))
}

/// The ordered (key, value) pairs of a whole query string.
pub open spec fn query_pairs(q: Seq<u8>) -> Seq<(Seq<char>, Seq<char>)>
    decreases q.len(),
    via query_pairs_decreases
{
    if q.len() == 0 {
        seq![]
    } else {
        let a = find_byte(q, 38);
        let piece = q.take(a);
        let rest = if a == q.len() {
            Seq::<u8>::empty()
        } else {
            q.skip(a + 1)
        };
        let tail = query_pairs(rest);
        if piece.len() == 0 {
            tail
        } else {
            seq![piece_pair(piece)] + tail
        }
    }
}

#[via_fn]
proof fn query_pairs_decreases(q: Seq<u8>) {
    if q.len() > 0 {
        lemma_find_byte_from_props(q, 38, 0);
    }
}

fn is_hex(b: u8) -> (r: bool)
    ensures
        r == is_hex_digit(b),
{
    (48 <= b && b <= 57) || (65 <= b && b <= 70) || (97 <= b && b <= 102)
}

fn hex_val(b: u8) -> (r: u8)
    requires
        is_hex_digit(b),
    ensures
        r as nat == hex_digit_value(b),
        r < 16,
{
    if 48 <= b && b <= 57 {
        b - 48
    } else if 65 <= b && b <= 70 {
        b - 55
    } else {
        b - 87
    }
}

fn percent_decode_bytes(s: &[u8]) -> (r: Vec<u8>)
    ensures
        r@ == percent_decoded(s@),
{
    let n = s.len();
    let mut out: Vec<u8> = Vec::new();
    let mut i: usize = 0;
    proof {
        assert(s@.skip(0) =~= s@);
        assert(out@ + percent_decoded(s@) =~= percent_decoded(s@));
    }
    while i < n
        invariant
            i <= n,
            n == s@.len(),
            percent_decoded(s@) == out@ + percent_decoded(s@.skip(i as int)),
        decreases n - i,
    {
        let ghost rem = s@.skip(i as int);
        proof {
            assert(rem.len() == n - i);
            assert(rem[0] == s@[i as int]);
        }
        if s[i] == 37 && n - i > 2 && is_hex(s[i + 1]) && is_hex(s[i + 2]) {
            proof {
                assert(rem[1] == s@[i + 1]);
                assert(rem[2] == s@[i + 2]);
            }
            let b = 16 * hex_val(s[i + 1]) + hex_val(s[i + 2]);
            out.push(b);
            proof {
                assert(rem.skip(3) =~= s@.skip(i + 3));
                assert(out@ + percent_decoded(s@.skip(i + 3)) =~= percent_decoded(s@));
            }
            i += 3;
        } else {
            proof {
                if rem[0] == 37 && rem.len() >= 3 {
                    assert(rem[1] == s@[i + 1]);
                    assert(rem[2] == s@[i + 2]);
                }
            }
            let b = s[i];
            out.push(b);
            proof {
                assert(rem.skip(1) =~= s@.skip(i + 1));
                assert(out@ + percent_decoded(s@.skip(i + 1)) =~= percent_decoded(s@));
            }
            i += 1;
        }
    }
    proof {
        assert(s@.skip(n as int) =~= Seq::<u8>::empty());
        assert(out@ =~= percent_decoded(s@));
    }
    out
}

/// Decodes one key or value.
pub fn decode_component(s: &[u8]) -> (r: String)
    ensures
        r@ == component_decoded(s@),
{
    let n = s.len();
    let mut replaced: Vec<u8> = Vec::new();
    let mut i: usize = 0;
    while i < n
        invariant
            i <= n,
            n == s@.len(),
            replaced@ =~= with_plus_as_space(s@.take(i as int)),
        decreases n - i,
    {
        let b = s[i];
        replaced.push(if b == 43 {
            32
        } else {
            b
        });
        proof {
            assert(replaced@ =~= with_plus_as_space(s@.take(i + 1)));
        }
        i += 1;
    }
    proof {
        assert(s@.take(n as int) =~= s@);
    }
    let decoded = percent_decode_bytes(replaced.as_slice());
    utf8_lossy_to_string(decoded.as_slice())
}

/// Parses a query string into its ordered (key, value) pairs.
pub fn parse_query(q: &[u8]) -> (r: Vec<(String, String)>)
    ensures
        r.deep_view() == query_pairs(q@),
{
    let n = q.len();
    let mut r: Vec<(String, String)> = Vec::new();
    let mut pos: usize = 0;
    proof {
        assert(q@.skip(0) =~= q@);
        assert(r.deep_view() + query_pairs(q@) =~= query_pairs(q@));
    }
    while pos < n
        invariant
            pos <= n,
            n == q@.len(),
            query_pairs(q@) == r.deep_view() + query_pairs(q@.skip(pos as int)),
        decreases n - pos,
    {
        let rest = slice_subrange(q, pos, n);
        let ghost rem = q@.skip(pos as int);
        proof {
            assert(rest@ =~= rem);
            lemma_find_byte_from_props(rem, 38, 0);
        }
        let a = find_byte_at(rest, 38, 0);
        let piece = slice_subrange(rest, 0, a);
        proof {
            assert(piece@ =~= rem.take(a as int));
        }
        if piece.len() > 0 {
            proof {
                lemma_find_byte_from_props(piece@, 61, 0);
            }
            let e = find_byte_at(piece, 61, 0);
            let k = slice_subrange(piece, 0, e);
            let v = if e == piece.len() {
                slice_subrange(piece, 0, 0)
            } else {
                slice_subrange(piece, e + 1, piece.len())
            };
            let ks = decode_component(k);
            let vs = decode_component(v);
            proof {
                assert(k@ =~= piece@.take(e as int));
                if e as int == piece@.len() {
                    assert(v@ =~= Seq::<u8>::empty());
                } else {
                    assert(v@ =~= piece@.skip(e + 1));
                }
                assert((ks@, vs@) == piece_pair(piece@));
            }
            let ghost old_dv = r.deep_view();
            r.push((ks, vs));
            proof {
                assert(r.deep_view() =~= old_dv + seq![(ks@, vs@)]);
            }
        }
        let ghost old_pos = pos as int;
        if a == rest.len() {
            pos = n;
            proof {
                assert(q@.skip(n as int) =~= Seq::<u8>::empty());
            }
        } else {
            pos = pos + a + 1;
            proof {
                assert(rem.skip(a + 1) =~= q@.skip(pos as int));
            }
        }
        proof {
            assert(query_pairs(q@) == r.deep_view() + query_pairs(q@.skip(pos as int)));
        }
    }
    proof {
        assert(q@.skip(pos as int) =~= q@.skip(n as int));
        assert(q@.skip(n as int) =~= Seq::<u8>::empty());
        assert(r.deep_view() =~= query_pairs(q@));
    }
    r
}

} // verus!
