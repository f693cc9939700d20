//! Standard-alphabet Base64 with `=` padding, over bytes and over text.

use vstd::prelude::*;
use vstd::utf8::*;

verus! {

/// The padding byte `=`.
pub const PAD: u8 = 61u8;

/// The alphabet byte that stands for the six-bit value `v`.
pub open spec fn alphabet_byte(v: u8) -> u8
    recommends
        v < 64,
{
    if v < 26 {
        (65 + v) as u8
    } else if v < 52 {
        (97 + (v - 26)) as u8
    } else if v < 62 {
        (48 + (v - 52)) as u8
    } else if v == 62 {
        43u8
    } else {
        47u8
    }
}

/// The six-bit value of an alphabet byte, or `None` for any other byte.
pub open spec fn sextet_of(b: u8) -> Option<u8> {
    if 65 <= b <= 90 {
        Some((b - 65) as u8)
    } else if 97 <= b <= 122 {
        Some((b - 97 + 26) as u8)
    } else if 48 <= b <= 57 {
        Some((b - 48 + 52) as u8)
    } else if b == 43 {
        Some(62u8)
    } else if b == 47 {
        Some(63u8)
    } else {
        None
    }
}

/// The four output bytes for a group of up to three input bytes.
pub open spec fn encode_group(g: Seq<u8>) -> Seq<u8>
    recommends
        1 <= g.len() <= 3,
{
    let b0 = g[0];
    let b1 = if g.len() > 1 { g[1] } else { 0u8 };
    let b2 = if g.len() > 2 { g[2] } else { 0u8 };
    seq![
        alphabet_byte(b0 >> 2),
        alphabet_byte(((b0 & 3) << 4) | (b1 >> 4)),
        if g.len() > 1 { alphabet_byte(((b1 & 15) << 2) | (b2 >> 6)) } else { PAD },
        if g.len() > 2 { alphabet_byte(b2 & 63) } else { PAD },
    ]
}

/// The Base64 encoding of a byte sequence.
pub open spec fn encode_bytes(b: Seq<u8>) -> Seq<u8>
    decreases b.len(),
{
    if b.len() == 0 {
        seq![]
    } else if b.len() <= 3 {
        encode_group(b)
    } else {
        encode_group(b.take(3)) + encode_bytes(b.skip(3))
    }
}

/// The input with every padding byte removed, wherever it stands.
pub open spec fn strip_padding(s: Seq<u8>) -> Seq<u8>
    decreases s.len(),
{
    if s.len() == 0 {
        seq![]
    } else if s.last() == PAD {
        strip_padding(s.drop_last())
    } else {
        strip_padding(s.drop_last()).push(s.last())
    }
}

/// The bytes that a group of two to four alphabet bytes decodes to, or `None`
/// when one of them is outside the alphabet.
pub open spec fn decode_group(g: Seq<u8>) -> Option<Seq<u8>>
    recommends
        2 <= g.len() <= 4,
{
    match (sextet_of(g[0]), sextet_of(g[1])) {
        (Some(s0), Some(s1)) => {
            let d0 = (s0 << 2) | (s1 >> 4);
            if g.len() == 2 {
                Some(seq![d0])
            } else {
                match sextet_of(g[2]) {
                    Some(s2) => {
                        let d1 = (s1 << 4) | (s2 >> 2);
                        if g.len() == 3 {
                            Some(seq![d0, d1])
                        } else {
                            match sextet_of(g[3]) {
                                Some(s3) => Some(seq![d0, d1, (s2 << 6) | s3]),
                                None => None,
                            }
                        }
                    },
                    None => None,
                }
            }
        },
        _ => None,
    }
}

/// Decoding of padding-free input: groups of four from the front, a last
/// group of two or three, and a single trailing byte ignored.
pub open spec fn decode_stripped(s: Seq<u8>) -> Option<Seq<u8>>
    decreases s.len(),
{
    if s.len() < 2 {
        Some(seq![])
    } else if s.len() <= 4 {
        decode_group(s)
    } else {
        match (decode_group(s.take(4)), decode_stripped(s.skip(4))) {
            (Some(head), Some(tail)) => Some(head + tail),
            _ => None,
        }
    }
}

/// Decoding of Base64 input as bytes.
pub open spec fn decode_bytes(s: Seq<u8>) -> Option<Seq<u8>> {
    decode_stripped(strip_padding(s))
}

/// The Base64 text of a string.
pub open spec fn encode_text(s: Seq<char>) -> Seq<char> {
    decode_utf8(encode_bytes(encode_utf8(s)))
}

/// The string that Base64 text decodes to, when it decodes to valid UTF-8.
pub open spec fn decode_text(t: Seq<char>) -> Option<Seq<char>> {
    match decode_bytes(encode_utf8(t)) {
        Some(b) => if valid_utf8(b) {
            Some(decode_utf8(b))
        } else {
            None
        },
        None => None,
    }
}

proof fn lemma_alphabet_round_trip(v: u8)
    requires
        v < 64,
    ensures
        sextet_of(alphabet_byte(v)) == Some(v),
        alphabet_byte(v) != PAD,
        alphabet_byte(v) < 128,
{
}

proof fn lemma_sextets(b0: u8, b1: u8, b2: u8)
    ensures
        (b0 >> 2) < 64,
        (((b0 & 3) << 4) | (b1 >> 4)) < 64,
        (((b1 & 15) << 2) | (b2 >> 6)) < 64,
        (b2 & 63) < 64,
        (((b0 >> 2) << 2) | ((((b0 & 3) << 4) | (b1 >> 4)) >> 4)) == b0,
        (((((b0 & 3) << 4) | (b1 >> 4)) << 4) | ((((b1 & 15) << 2) | (b2 >> 6)) >> 2)) == b1,
        (((((b1 & 15) << 2) | (b2 >> 6)) << 6) | (b2 & 63)) == b2,
{
    assert((b0 >> 2) < 64) by (bit_vector);
    assert((((b0 & 3) << 4) | (b1 >> 4)) < 64) by (bit_vector);
    assert((((b1 & 15) << 2) | (b2 >> 6)) < 64) by (bit_vector);
    assert((b2 & 63) < 64) by (bit_vector);
    assert((((b0 >> 2) << 2) | ((((b0 & 3) << 4) | (b1 >> 4)) >> 4)) == b0) by (bit_vector);
    assert((((((b0 & 3) << 4) | (b1 >> 4)) << 4) | ((((b1 & 15) << 2) | (b2 >> 6)) >> 2)) == b1)
        by (bit_vector);
    assert((((((b1 & 15) << 2) | (b2 >> 6)) << 6) | (b2 & 63)) == b2) by (bit_vector);
}


proof fn lemma_strip_concat(a: Seq<u8>, b: Seq<u8>)
    ensures
        strip_padding(a + b) == strip_padding(a) + strip_padding(b),
    decreases b.len(),
{
    if b.len() == 0 {
        assert(a + b =~= a);
        assert(strip_padding(a) + strip_padding(b) =~= strip_padding(a));
    } else {
        assert((a + b).drop_last() =~= a + b.drop_last());
        lemma_strip_concat(a, b.drop_last());
        if b.last() == PAD {
        } else {
            assert((strip_padding(a) + strip_padding(b.drop_last())).push(b.last())
                =~= strip_padding(a) + strip_padding(b.drop_last()).push(b.last()));
        }
    }
}

proof fn lemma_strip_four(g: Seq<u8>)
    requires
        g.len() == 4,
        g[0] != PAD,
        g[1] != PAD,
        g[2] == PAD ==> g[3] == PAD,
    ensures
        strip_padding(g) == if g[2] == PAD {
            seq![g[0], g[1]]
        } else if g[3] == PAD {
            seq![g[0], g[1], g[2]]
        } else {
            g
        },
{
    let g3 = g.drop_last();
    let g2 = g3.drop_last();
    let g1 = g2.drop_last();
    let g0 = g1.drop_last();
    assert(strip_padding(g0) =~= seq![]);
    assert(strip_padding(g1) =~= seq![g[0]]);
    assert(strip_padding(g2) =~= seq![g[0], g[1]]);
    if g[2] == PAD {
        assert(strip_padding(g3) =~= seq![g[0], g[1]]);
        if g[3] == PAD {
            assert(strip_padding(g) =~= seq![g[0], g[1]]);
        } else {
            assert(strip_padding(g) =~= seq![g[0], g[1], g[3]]);
        }
    } else {
        assert(strip_padding(g3) =~= seq![g[0], g[1], g[2]]);
        if g[3] == PAD {
        } else {
            assert(strip_padding(g) =~= g);
        }
    }
}

/// One group survives encoding, stripping and decoding.
proof fn lemma_group_round_trip(g: Seq<u8>)
    requires
        1 <= g.len() <= 3,
    ensures
        strip_padding(encode_group(g)).len() == g.len() + 1,
        strip_padding(encode_group(g)) == encode_group(g).take((g.len() + 1) as int),
        decode_group(strip_padding(encode_group(g))) == Some(g),
        forall|i: int| 0 <= i < 4 ==> #[trigger] encode_group(g)[i] < 128,
{
    let b0 = g[0];
    let b1 = if g.len() > 1 { g[1] } else { 0u8 };
    let b2 = if g.len() > 2 { g[2] } else { 0u8 };
    lemma_sextets(b0, b1, b2);
    let s0 = b0 >> 2;
    let s1 = ((b0 & 3) << 4) | (b1 >> 4);
    let s2 = ((b1 & 15) << 2) | (b2 >> 6);
    let s3 = b2 & 63;
    lemma_alphabet_round_trip(s0);
    lemma_alphabet_round_trip(s1);
    lemma_alphabet_round_trip(s2);
    lemma_alphabet_round_trip(s3);
    let e = encode_group(g);
    lemma_strip_four(e);
    let t = strip_padding(e);
    assert(t =~= e.take((g.len() + 1) as int));
    if g.len() == 1 {
        assert(decode_group(t).unwrap() =~= g);
    } else if g.len() == 2 {
        assert(decode_group(t).unwrap() =~= g);
    } else {
        assert(decode_group(t).unwrap() =~= g);
    }
}

/// Decoding undoes encoding, on every byte sequence.
pub proof fn lemma_bytes_round_trip(b: Seq<u8>)
    ensures
        decode_bytes(encode_bytes(b)) == Some(b),
        b.len() > 0 ==> strip_padding(encode_bytes(b)).len() >= 2,
        forall|i: int| 0 <= i < encode_bytes(b).len() ==> #[trigger] encode_bytes(b)[i] < 128,
    decreases b.len(),
{
    if b.len() == 0 {
        assert(strip_padding(encode_bytes(b)) =~= seq![]);
        assert(decode_stripped(seq![]).unwrap() =~= b);
    } else if b.len() <= 3 {
        lemma_group_round_trip(b);
    } else {
        let head = b.take(3);
        let tail = b.skip(3);
        lemma_group_round_trip(head);
        lemma_bytes_round_trip(tail);
        let g = encode_group(head);
        let r = encode_bytes(tail);
        lemma_strip_concat(g, r);
        assert(strip_padding(g) =~= g);
        let s = g + strip_padding(r);
        assert(s.take(4) =~= g);
        assert(s.skip(4) =~= strip_padding(r));
        assert(head + tail =~= b);
    }
}

/// A byte sequence below 128 throughout is valid UTF-8.
pub proof fn lemma_ascii_is_utf8(b: Seq<u8>)
    requires
        forall|i: int| 0 <= i < b.len() ==> #[trigger] b[i] < 128,
    ensures
        valid_utf8(b),
    decreases b.len(),
{
    if b.len() != 0 {
        let b0 = b[0];
        assert(b0 < 128);
        assert((b0 & 0x7F) as u32 <= 0x7F) by (bit_vector);
        assert(valid_first_scalar(b));
        lemma_ascii_is_utf8(pop_first_scalar(b));
    }
}

/// Decoding undoes encoding, on every string.
pub proof fn lemma_text_round_trip(s: Seq<char>)
    ensures
        decode_text(encode_text(s)) == Some(s),
{
    let raw = encode_utf8(s);
    let enc = encode_bytes(raw);
    lemma_bytes_round_trip(raw);
    lemma_ascii_is_utf8(enc);
    decode_utf8_encode_utf8(enc);
    encode_utf8_valid_utf8(s);
    encode_utf8_decode_utf8(s);
}

/// `String::from_utf8` of std: it succeeds exactly on valid UTF-8, and the
/// string then holds the characters that the bytes encode.
#[verifier::external_body]
pub(crate) fn string_from_utf8(v: Vec<u8>) -> (r: Option<String>)
    ensures
        r is Some <==> valid_utf8(v@),
        r is Some ==> r.unwrap()@ == decode_utf8(v@),
{
    String::from_utf8(v).ok()
}

fn alphabet(v: u8) -> (r: u8)
    requires
        v < 64,
    ensures
        r == alphabet_byte(v),
{
    if v < 26 {
        65 + v
    } else if v < 52 {
        97 + (v - 26)
    } else if v < 62 {
        48 + (v - 52)
    } else if v == 62 {
        43
    } else {
        47
    }
}

fn sextet(b: u8) -> (r: Option<u8>)
    ensures
        r == sextet_of(b),
{
    if 65 <= b && b <= 90 {
        Some(b - 65)
    } else if 97 <= b && b <= 122 {
        Some(b - 97 + 26)
    } else if 48 <= b && b <= 57 {
        Some(b - 48 + 52)
    } else if b == 43 {
        Some(62)
    } else if b == 47 {
        Some(63)
    } else {
        None
    }
}

/// Appends the four output bytes of the group `input[at..at + n]`.
fn push_group(out: &mut Vec<u8>, input: &[u8], at: usize, n: usize)
    requires
        1 <= n <= 3,
        at + n <= input@.len(),
    ensures
        final(out)@ == old(out)@ + encode_group(input@.subrange(at as int, at + n)),
{
    let ghost g = input@.subrange(at as int, at + n);
    let b0: u8 = input[at];
    let b1: u8 = if n > 1 { input[at + 1] } else { 0 };
    let b2: u8 = if n > 2 { input[at + 2] } else { 0 };
    proof {
        lemma_sextets(b0, b1, b2);
        assert(g[0] == b0);
    }
    out.push(alphabet(b0 >> 2));
    out.push(alphabet(((b0 & 3) << 4) | (b1 >> 4)));
    if n > 1 {
        out.push(alphabet(((b1 & 15) << 2) | (b2 >> 6)));
    } else {
        out.push(PAD);
    }
    if n > 2 {
        out.push(alphabet(b2 & 63));
    } else {
        out.push(PAD);
    }
    assert(out@ =~= old(out)@ + encode_group(g));
}

/// Encodes bytes as Base64.
pub fn encode(input: &[u8]) -> (out: Vec<u8>)
    ensures
        out@ == encode_bytes(input@),
{
    let n = input.len();
    let mut out: Vec<u8> = Vec::new();
    let mut i: usize = 0;
    proof {
        assert(input@.skip(0) =~= input@);
        assert(out@ + encode_bytes(input@) =~= encode_bytes(input@));
    }
    while n - i > 3
        invariant
            i <= n,
            n == input@.len(),
            encode_bytes(input@) == out@ + encode_bytes(input@.skip(i as int)),
        decreases n - i,
    {
        let ghost rest = input@.skip(i as int);
        push_group(&mut out, input, i, 3);
        proof {
            assert(rest.take(3) =~= input@.subrange(i as int, i + 3));
            assert(rest.skip(3) =~= input@.skip(i + 3));
            assert(encode_bytes(rest) == encode_group(rest.take(3)) + encode_bytes(rest.skip(3)));
            assert(encode_bytes(input@) =~= out@ + encode_bytes(input@.skip(i + 3)));
        }
        i += 3;
    }
    if n - i > 0 {
        push_group(&mut out, input, i, n - i);
        proof {
            assert(input@.skip(i as int) =~= input@.subrange(i as int, n as int));
        }
    } else {
        proof {
            assert(out@ + encode_bytes(input@.skip(i as int)) =~= out@);
        }
    }
    out
}

/// Decodes the group `s[at..at + n]` and appends its bytes; `false` when a
/// byte of the group is outside the alphabet.
fn decode_group_into(out: &mut Vec<u8>, s: &Vec<u8>, at: usize, n: usize) -> (ok: bool)
    requires
        2 <= n <= 4,
        at + n <= s.len(),
    ensures
        ok == decode_group(s@.subrange(at as int, at + n)) is Some,
        ok ==> final(out)@ == old(out)@ + decode_group(s@.subrange(at as int, at + n)).unwrap(),
{
    let ghost g = s@.subrange(at as int, at + n);
    assert(g[0] == s@[at as int] && g[1] == s@[at + 1]);
    let s0: u8 = match sextet(s[at]) {
        Some(v) => v,
        None => { return false; },
    };
    let s1: u8 = match sextet(s[at + 1]) {
        Some(v) => v,
        None => { return false; },
    };
    let d0: u8 = (s0 << 2) | (s1 >> 4);
    if n == 2 {
        out.push(d0);
        assert(out@ =~= old(out)@ + decode_group(g).unwrap());
        return true;
    }
    assert(g[2] == s@[at + 2]);
    let s2: u8 = match sextet(s[at + 2]) {
        Some(v) => v,
        None => { return false; },
    };
    let d1: u8 = (s1 << 4) | (s2 >> 2);
    if n == 3 {
        out.push(d0);
        out.push(d1);
        assert(out@ =~= old(out)@ + decode_group(g).unwrap());
        return true;
    }
    assert(g[3] == s@[at + 3]);
    let s3: u8 = match sextet(s[at + 3]) {
        Some(v) => v,
        None => { return false; },
    };
    out.push(d0);
    out.push(d1);
    out.push((s2 << 6) | s3);
    assert(out@ =~= old(out)@ + decode_group(g).unwrap());
    true
}

/// Decodes Base64 bytes: padding is dropped wherever it stands, and a byte
/// outside the alphabet in a decoded group makes the whole input invalid.
pub fn decode(input: &[u8]) -> (r: Option<Vec<u8>>)
    ensures
        r is Some <==> decode_bytes(input@) is Some,
        r is Some ==> r.unwrap()@ == decode_bytes(input@).unwrap(),
{
    let mut stripped: Vec<u8> = Vec::new();
    let mut k: usize = 0;
    while k < input.len()
        invariant
            k <= input@.len(),
            stripped@ == strip_padding(input@.take(k as int)),
            stripped@.len() <= k,
        decreases input@.len() - k,
    {
        proof {
            assert(input@.take(k + 1).drop_last() =~= input@.take(k as int));
        }
        if input[k] != PAD {
            stripped.push(input[k]);
        }
        k += 1;
    }
    assert(input@.take(k as int) =~= input@);
    let n = stripped.len();
    let mut out: Vec<u8> = Vec::new();
    let mut i: usize = 0;
    proof {
        assert(stripped@.skip(0) =~= stripped@);
        match decode_stripped(stripped@) {
            Some(t) => {
                assert(out@ + t =~= t);
            },
            None => {},
        }
    }
    while n - i > 4
        invariant
            i <= n,
            n == stripped@.len(),
            stripped@ == strip_padding(input@),
            decode_stripped(stripped@) == match decode_stripped(stripped@.skip(i as int)) {
                Some(t) => Some(out@ + t),
                None => None,
            },
        decreases n - i,
    {
        let ghost rest = stripped@.skip(i as int);
        let ghost before = out@;
        proof {
            assert(rest.take(4) =~= stripped@.subrange(i as int, i + 4));
            assert(rest.skip(4) =~= stripped@.skip(i + 4));
        }
        if !decode_group_into(&mut out, &stripped, i, 4) {
            assert(decode_stripped(rest) is None);
            return None;
        }
        proof {
            match decode_stripped(rest.skip(4)) {
                Some(t) => {
                    assert(before + (decode_group(rest.take(4)).unwrap() + t) =~= out@ + t);
                },
                None => {},
            }
        }
        i += 4;
    }
    proof {
        assert(stripped@.skip(i as int) =~= stripped@.subrange(i as int, n as int));
    }
    if n - i >= 2 {
        if !decode_group_into(&mut out, &stripped, i, n - i) {
            return None;
        }
    } else {
        assert(out@ + Seq::<u8>::empty() =~= out@);
    }
    Some(out)
}

/// Base64-encodes a string's UTF-8 bytes.
pub fn base64_encode(s: &str) -> (r: String)
    ensures
        r@ == encode_text(s@),
{
    let enc = encode(s.as_bytes());
    proof {
        lemma_bytes_round_trip(encode_utf8(s@));
        lemma_ascii_is_utf8(enc@);
    }
    match string_from_utf8(enc) {
        Some(t) => t,
        None => String::new(),
    }
}

/// Decodes Base64 text to a string; `None` when the text holds a byte outside
/// the alphabet or the decoded bytes are not UTF-8.
pub fn base64_decode(s: &str) -> (r: Option<String>)
    ensures
        r is Some <==> decode_text(s@) is Some,
        r is Some ==> r.unwrap()@ == decode_text(s@).unwrap(),
{
    match decode(s.as_bytes()) {
        Some(bytes) => string_from_utf8(bytes),
        None => None,
    }
}

} // verus!
