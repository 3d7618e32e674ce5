//! Standard Base64 with `=` padding: the library's only externally
//! observable wire format, implemented here as verified functions on bytes,
//! together with the two wrapper stages [`ToBase64`] and [`FromBase64`]
//! that compose the codec with an inner transformation stage.

use crate::transform::Transform;
use vstd::prelude::*;

verus! {

/// Why a Base64 operation failed.
#[derive(Debug, PartialEq, Eq)]
pub enum Base64Error {
    /// The encoded form would be longer than a buffer can hold.
    SizeOverflow,
    /// The input is not valid Base64: a byte outside the alphabet, a length
    /// that is not a multiple of four, or padding in the wrong place.
    Malformed,
}

/// The padding byte `=`.
pub const PAD: u8 = 61;

/// Whether `c` is a byte of the standard Base64 alphabet
/// (`A`-`Z`, `a`-`z`, `0`-`9`, `+`, `/`; padding is not part of it).
pub open spec fn is_b64_char(c: u8) -> bool {
    (65 <= c && c <= 90) || (97 <= c && c <= 122) || (48 <= c && c <= 57) || c == 43 || c == 47
}

/// The alphabet byte that stands for the 6-bit value `v`.
pub open spec fn b64_char(v: u8) -> u8
    recommends
        v < 64,
{
    if v < 26 {
        (65 + v) as u8
    } else if v < 52 {
        (97 + (v - 26)) as u8
    } else if v < 62 {
        (48 + (v - 52)) as u8
    } else if v == 62 {
        43u8
    } else {
        47u8
    }
}

/// The 6-bit value that the alphabet byte `c` stands for.
pub open spec fn b64_val(c: u8) -> u8
    recommends
        is_b64_char(c),
{
    if 65 <= c && c <= 90 {
        (c - 65) as u8
    } else if 97 <= c && c <= 122 {
        (c - 97 + 26) as u8
    } else if 48 <= c && c <= 57 {
        (c - 48 + 52) as u8
    } else if c == 43 {
        62u8
    } else {
        63u8
    }
}

/// Law: the alphabet encoding of every 6-bit value is an alphabet byte, and
/// decodes back to the same value.
pub proof fn lemma_b64_char_val(v: u8)
    requires
        v < 64,
    ensures
        is_b64_char(b64_char(v)),
        b64_val(b64_char(v)) == v,
{
}

/// The four alphabet bytes that encode a full group of three input bytes.
pub open spec fn encode_group(b0: u8, b1: u8, b2: u8) -> Seq<u8> {
    seq![
        b64_char(b0 >> 2),
        b64_char(((b0 & 3) << 4) | (b1 >> 4)),
        b64_char(((b1 & 15) << 2) | (b2 >> 6)),
        b64_char(b2 & 63),
    ]
}

/// The four bytes (two of them padding) that encode a trailing single byte.
pub open spec fn encode_tail1(b0: u8) -> Seq<u8> {
    seq![b64_char(b0 >> 2), b64_char((b0 & 3) << 4), PAD, PAD]
}

/// The four bytes (one of them padding) that encode a trailing pair.
pub open spec fn encode_tail2(b0: u8, b1: u8) -> Seq<u8> {
    seq![b64_char(b0 >> 2), b64_char(((b0 & 3) << 4) | (b1 >> 4)), b64_char((b1 & 15) << 2), PAD]
}

/// Standard Base64 with `=` padding, as a function on byte sequences.
pub open spec fn b64_encode(s: Seq<u8>) -> Seq<u8>
    decreases s.len(),
{
    if s.len() == 0 {
        Seq::empty()
    } else if s.len() == 1 {
        encode_tail1(s[0])
    } else if s.len() == 2 {
        encode_tail2(s[0], s[1])
    } else {
        encode_group(s[0], s[1], s[2]) + b64_encode(s.skip(3))
    }
}

/// The three bytes held by four 6-bit values.
pub open spec fn decode3(v0: u8, v1: u8, v2: u8, v3: u8) -> Seq<u8> {
    seq![(v0 << 2) | (v1 >> 4), ((v1 & 15) << 4) | (v2 >> 2), ((v2 & 3) << 6) | v3]
}

/// The two bytes held by three 6-bit values (one padding byte followed).
pub open spec fn decode2(v0: u8, v1: u8, v2: u8) -> Seq<u8> {
    seq![(v0 << 2) | (v1 >> 4), ((v1 & 15) << 4) | (v2 >> 2)]
}

/// The single byte held by two 6-bit values (two padding bytes followed).
pub open spec fn decode1(v0: u8, v1: u8) -> Seq<u8> {
    seq![(v0 << 2) | (v1 >> 4)]
}

/// What the last four bytes of a Base64 text decode to: a full group of
/// three bytes, or two or one under `=` padding; `None` when malformed.
pub open spec fn decode_last_group(c0: u8, c1: u8, c2: u8, c3: u8) -> Option<Seq<u8>> {
    if is_b64_char(c0) && is_b64_char(c1) {
        if is_b64_char(c2) && is_b64_char(c3) {
            Some(decode3(b64_val(c0), b64_val(c1), b64_val(c2), b64_val(c3)))
        } else if is_b64_char(c2) && c3 == PAD {
            Some(decode2(b64_val(c0), b64_val(c1), b64_val(c2)))
        } else if c2 == PAD && c3 == PAD {
            Some(decode1(b64_val(c0), b64_val(c1)))
        } else {
            None
        }
    } else {
        None
    }
}

/// Standard Base64 decoding with `=` padding, as a function on byte
/// sequences: `None` exactly on malformed input (a length that is not a
/// multiple of four, a byte outside the alphabet, or padding anywhere but
/// at the very end).
pub open spec fn b64_decode(s: Seq<u8>) -> Option<Seq<u8>>
    decreases s.len(),
{
    if s.len() == 0 {
        Some(Seq::empty())
    } else if s.len() % 4 != 0 {
        None
    } else if s.len() == 4 {
        decode_last_group(s[0], s[1], s[2], s[3])
    } else if is_b64_char(s[0]) && is_b64_char(s[1]) && is_b64_char(s[2]) && is_b64_char(s[3]) {
        match b64_decode(s.skip(4)) {
            Some(rest) => Some(
                decode3(b64_val(s[0]), b64_val(s[1]), b64_val(s[2]), b64_val(s[3])) + rest,
            ),
            None => None,
        }
    } else {
        None
    }
}

/// Whether the Base64 encoding of `s` fits a `usize`-indexed buffer.
pub open spec fn encode_fits(s: Seq<u8>) -> bool {
    4 * ((s.len() + 2) / 3) <= usize::MAX
}

/// Law: the encoded form of `n` input bytes has exactly `4 * ceil(n / 3)`
/// bytes.
pub proof fn lemma_encode_len(s: Seq<u8>)
    ensures
        b64_encode(s).len() == 4 * ((s.len() + 2) / 3),
    decreases s.len(),
{
    if s.len() >= 3 {
        lemma_encode_len(s.skip(3));
    }
}

/// The alphabet byte for a 6-bit value.
fn enc_char(v: u8) -> (c: u8)
    requires
        v < 64,
    ensures
        c == b64_char(v),
{
    if v < 26 {
        65 + v
    } else if v < 52 {
        97 + (v - 26)
    } else if v < 62 {
        48 + (v - 52)
    } else if v == 62 {
        43
    } else {
        47
    }
}

/// The 6-bit value of an alphabet byte, or `None` outside the alphabet.
fn dec_val(c: u8) -> (r: Option<u8>)
    ensures
        r is Some <==> is_b64_char(c),
        r matches Some(v) ==> v == b64_val(c) && v < 64,
{
    if 65 <= c && c <= 90 {
        Some(c - 65)
    } else if 97 <= c && c <= 122 {
        Some(c - 97 + 26)
    } else if 48 <= c && c <= 57 {
        Some(c - 48 + 52)
    } else if c == 43 {
        Some(62)
    } else if c == 47 {
        Some(63)
    } else {
        None
    }
}

/// Law: the 6-bit fields carved out of a group of input bytes are below 64.
proof fn lemma_six_bits(b0: u8, b1: u8, b2: u8)
    ensures
        b0 >> 2 < 64,
        (((b0 & 3) << 4) | (b1 >> 4)) < 64,
        (((b1 & 15) << 2) | (b2 >> 6)) < 64,
        b2 & 63 < 64,
        (b0 & 3) << 4 < 64,
        (b1 & 15) << 2 < 64,
{
    assert(b0 >> 2 < 64 && (((b0 & 3) << 4) | (b1 >> 4)) < 64 && (((b1 & 15) << 2) | (b2 >> 6))
        < 64 && b2 & 63 < 64 && (b0 & 3) << 4 < 64 && (b1 & 15) << 2 < 64) by (bit_vector);
}

/// Law: encoding consumes its input three bytes at a time.
proof fn lemma_encode_step(s: Seq<u8>, i: int)
    requires
        0 <= i,
        i + 3 <= s.len(),
    ensures
        b64_encode(s.skip(i)) == encode_group(s[i], s[i + 1], s[i + 2]) + b64_encode(
            s.skip(i + 3),
        ),
{
    let t = s.skip(i);
    assert(t.len() == s.len() - i);
    assert(t[0] == s[i] && t[1] == s[i + 1] && t[2] == s[i + 2]);
    assert(t.skip(3) =~= s.skip(i + 3));
}

/// Encodes `data` as standard Base64 text with `=` padding.  Fails only
/// when the encoded form would not fit a buffer; the text is then exactly
/// `b64_encode` of the input.
pub fn to_base64(data: &[u8]) -> (r: Result<Vec<u8>, Base64Error>)
    ensures
        r is Ok <==> encode_fits(data@),
        r matches Ok(v) ==> v@ == b64_encode(data@),
        r matches Err(e) ==> e == Base64Error::SizeOverflow,
{
    let n = data.len();
    let groups = n / 3 + if n % 3 == 0 {
        0
    } else {
        1
    };
    assert(groups == (n + 2) / 3);
    if groups > usize::MAX / 4 {
        return Err(Base64Error::SizeOverflow);
    }
    let mut out: Vec<u8> = Vec::with_capacity(4 * groups);
    let mut i: usize = 0;
    proof {
        assert(data@.skip(0) =~= data@);
        assert(out@ + b64_encode(data@) =~= b64_encode(data@));
    }
    while n - i >= 3
        invariant
            i <= n,
            n == data@.len(),
            b64_encode(data@) == out@ + b64_encode(data@.skip(i as int)),
        decreases n - i,
    {
        let b0 = data[i];
        let b1 = data[i + 1];
        let b2 = data[i + 2];
        proof {
            lemma_encode_step(data@, i as int);
            lemma_six_bits(b0, b1, b2);
        }
        out.push(enc_char(b0 >> 2));
        out.push(enc_char(((b0 & 3) << 4) | (b1 >> 4)));
        out.push(enc_char(((b1 & 15) << 2) | (b2 >> 6)));
        out.push(enc_char(b2 & 63));
        i = i + 3;
    }
    if i < n {
        let b0 = data[i];
        if i + 1 < n {
            let b1 = data[i + 1];
            proof {
                lemma_six_bits(b0, b1, 0);
            }
            out.push(enc_char(b0 >> 2));
            out.push(enc_char(((b0 & 3) << 4) | (b1 >> 4)));
            out.push(enc_char((b1 & 15) << 2));
            out.push(PAD);
        } else {
            proof {
                lemma_six_bits(b0, 0, 0);
            }
            out.push(enc_char(b0 >> 2));
            out.push(enc_char((b0 & 3) << 4));
            out.push(PAD);
            out.push(PAD);
        }
    }
    proof {
        assert(out@ =~= b64_encode(data@));
    }
    Ok(out)
}

/// Law: reassembling the 6-bit fields of an encoded group yields the
/// original bytes.
proof fn lemma_group_round_trip(b0: u8, b1: u8, b2: u8)
    ensures
        decode3(b0 >> 2, ((b0 & 3) << 4) | (b1 >> 4), ((b1 & 15) << 2) | (b2 >> 6), b2 & 63)
            =~= seq![b0, b1, b2],
        decode2(b0 >> 2, ((b0 & 3) << 4) | (b1 >> 4), (b1 & 15) << 2) =~= seq![b0, b1],
        decode1(b0 >> 2, (b0 & 3) << 4) =~= seq![b0],
{
    assert((((b0 >> 2) << 2) | ((((b0 & 3) << 4) | (b1 >> 4)) >> 4)) == b0 && ((((((b0 & 3) << 4)
        | (b1 >> 4)) & 15) << 4) | ((((b1 & 15) << 2) | (b2 >> 6)) >> 2)) == b1 && (((((((b1 & 15)
        << 2) | (b2 >> 6))) & 3) << 6) | (b2 & 63)) == b2 && ((((((b0 & 3) << 4) | (b1 >> 4)) & 15)
        << 4) | (((b1 & 15) << 2) >> 2)) == b1 && (((b0 >> 2) << 2) | (((b0 & 3) << 4) >> 4))
        == b0) by (bit_vector);
}

/// Law: Base64 decoding is a left inverse of Base64 encoding: every byte
/// buffer comes back unchanged from an encode-decode round trip.
pub proof fn lemma_base64_round_trip(s: Seq<u8>)
    ensures
        b64_decode(b64_encode(s)) == Some(s),
    decreases s.len(),
{
    let e = b64_encode(s);
    if s.len() == 0 {
        assert(s =~= Seq::<u8>::empty());
    } else if s.len() == 1 {
        let b0 = s[0];
        lemma_six_bits(b0, 0, 0);
        lemma_b64_char_val(b0 >> 2);
        lemma_b64_char_val((b0 & 3) << 4);
        lemma_group_round_trip(b0, 0, 0);
        assert(e.len() == 4);
        assert(decode1(b0 >> 2, (b0 & 3) << 4) =~= s);
    } else if s.len() == 2 {
        let b0 = s[0];
        let b1 = s[1];
        lemma_six_bits(b0, b1, 0);
        lemma_b64_char_val(b0 >> 2);
        lemma_b64_char_val(((b0 & 3) << 4) | (b1 >> 4));
        lemma_b64_char_val((b1 & 15) << 2);
        lemma_group_round_trip(b0, b1, 0);
        assert(e.len() == 4);
        assert(decode2(b0 >> 2, ((b0 & 3) << 4) | (b1 >> 4), (b1 & 15) << 2) =~= s);
    } else {
        let b0 = s[0];
        let b1 = s[1];
        let b2 = s[2];
        let rest = b64_encode(s.skip(3));
        lemma_six_bits(b0, b1, b2);
        lemma_b64_char_val(b0 >> 2);
        lemma_b64_char_val(((b0 & 3) << 4) | (b1 >> 4));
        lemma_b64_char_val(((b1 & 15) << 2) | (b2 >> 6));
        lemma_b64_char_val(b2 & 63);
        lemma_group_round_trip(b0, b1, b2);
        lemma_base64_round_trip(s.skip(3));
        lemma_encode_len(s.skip(3));
        assert(e == encode_group(b0, b1, b2) + rest);
        assert(e.len() == 4 + rest.len());
        assert(e[0] == b64_char(b0 >> 2));
        assert(e[1] == b64_char(((b0 & 3) << 4) | (b1 >> 4)));
        assert(e[2] == b64_char(((b1 & 15) << 2) | (b2 >> 6)));
        assert(e[3] == b64_char(b2 & 63));
        if s.len() == 3 {
            assert(rest.len() == 0);
            assert(e =~= encode_group(b0, b1, b2));
            assert(e.len() == 4);
            assert(b64_decode(e) == decode_last_group(e[0], e[1], e[2], e[3]));
            assert(b64_decode(e) == Some(decode3(b0 >> 2, ((b0 & 3) << 4) | (b1 >> 4), ((b1 & 15)
                << 2) | (b2 >> 6), b2 & 63)));
            assert(seq![b0, b1, b2] =~= s);
        } else {
            assert(rest.len() >= 4 && rest.len() % 4 == 0);
            assert(e.len() % 4 == 0 && e.len() > 4);
            assert(e.skip(4) =~= rest);
            assert(b64_decode(e) == Some(decode3(b0 >> 2, ((b0 & 3) << 4) | (b1 >> 4), ((b1 & 15)
                << 2) | (b2 >> 6), b2 & 63) + s.skip(3)));
            assert(seq![b0, b1, b2] + s.skip(3) =~= s);
        }
    }
}

/// Law: decoding consumes its input four bytes at a time, as long as more
/// than one group is left.
proof fn lemma_decode_step(s: Seq<u8>, i: int)
    requires
        s.len() % 4 == 0,
        0 <= i,
        i % 4 == 0,
        i + 4 < s.len(),
    ensures
        b64_decode(s.skip(i)) == (if is_b64_char(s[i]) && is_b64_char(s[i + 1]) && is_b64_char(
            s[i + 2],
        ) && is_b64_char(s[i + 3]) {
            match b64_decode(s.skip(i + 4)) {
                Some(rest) => Some(
                    decode3(b64_val(s[i]), b64_val(s[i + 1]), b64_val(s[i + 2]), b64_val(s[i + 3]))
                        + rest,
                ),
                None => None,
            }
        } else {
            None
        }),
{
    let t = s.skip(i);
    assert(t.len() == s.len() - i);
    assert(t.len() % 4 == 0) by {
        assert(s.len() == i + t.len());
    }
    assert(t[0] == s[i] && t[1] == s[i + 1] && t[2] == s[i + 2] && t[3] == s[i + 3]);
    assert(t.skip(4) =~= s.skip(i + 4));
}

/// Decodes standard Base64 text with `=` padding back to the bytes it
/// encodes.  Fails exactly on malformed input — a length that is not a
/// multiple of four, a byte outside the alphabet, or misplaced padding —
/// and never panics and never truncates.
pub fn from_base64(data: &[u8]) -> (r: Result<Vec<u8>, Base64Error>)
    ensures
        r matches Ok(v) ==> b64_decode(data@) == Some(v@),
        r is Err <==> b64_decode(data@) is None,
        r matches Err(e) ==> e == Base64Error::Malformed,
{
    let n = data.len();
    if n == 0 {
        proof {
            assert(b64_decode(data@) == Some(Seq::<u8>::empty()));
        }
        return Ok(Vec::new());
    }
    if n % 4 != 0 {
        return Err(Base64Error::Malformed);
    }
    let mut out: Vec<u8> = Vec::new();
    let mut i: usize = 0;
    proof {
        assert(data@.skip(0) =~= data@);
        assert(forall|rest: Seq<u8>| #[trigger] (out@ + rest) =~= rest);
    }
    while n - i > 4
        invariant
            n == data@.len(),
            n % 4 == 0,
            i % 4 == 0,
            i + 4 <= n,
            b64_decode(data@) == (match b64_decode(data@.skip(i as int)) {
                Some(rest) => Some(out@ + rest),
                None => None,
            }),
        decreases n - i,
    {
        proof {
            lemma_decode_step(data@, i as int);
        }
        let v0 = dec_val(data[i]);
        let v1 = dec_val(data[i + 1]);
        let v2 = dec_val(data[i + 2]);
        let v3 = dec_val(data[i + 3]);
        match (v0, v1, v2, v3) {
            (Some(v0), Some(v1), Some(v2), Some(v3)) => {
                let ghost prev = out@;
                out.push((v0 << 2) | (v1 >> 4));
                out.push(((v1 & 15) << 4) | (v2 >> 2));
                out.push(((v2 & 3) << 6) | v3);
                proof {
                    assert(out@ =~= prev + decode3(v0, v1, v2, v3));
                    assert(forall|rest: Seq<u8>| #[trigger] (prev + (decode3(v0, v1, v2, v3)
                        + rest)) =~= (prev + decode3(v0, v1, v2, v3)) + rest);
                }
                i = i + 4;
            },
            _ => {
                return Err(Base64Error::Malformed);
            },
        }
    }
    let c0 = data[i];
    let c1 = data[i + 1];
    let c2 = data[i + 2];
    let c3 = data[i + 3];
    proof {
        assert(data@.skip(i as int).len() == 4);
        assert(data@.skip(i as int)[0] == data@[i as int]);
        assert(data@.skip(i as int)[1] == data@[i as int + 1]);
        assert(data@.skip(i as int)[2] == data@[i as int + 2]);
        assert(data@.skip(i as int)[3] == data@[i as int + 3]);
        assert(b64_decode(data@.skip(i as int)) == decode_last_group(c0, c1, c2, c3));
    }
    let v0 = match dec_val(c0) {
        Some(v) => v,
        None => {
            return Err(Base64Error::Malformed);
        },
    };
    let v1 = match dec_val(c1) {
        Some(v) => v,
        None => {
            return Err(Base64Error::Malformed);
        },
    };
    let ghost prev = out@;
    if c2 == PAD && c3 == PAD {
        out.push((v0 << 2) | (v1 >> 4));
        proof {
            assert(out@ =~= prev + decode1(v0, v1));
        }
    } else if c3 == PAD {
        let v2 = match dec_val(c2) {
            Some(v) => v,
            None => {
                return Err(Base64Error::Malformed);
            },
        };
        out.push((v0 << 2) | (v1 >> 4));
        out.push(((v1 & 15) << 4) | (v2 >> 2));
        proof {
            assert(out@ =~= prev + decode2(v0, v1, v2));
        }
    } else {
        let v2 = match dec_val(c2) {
            Some(v) => v,
            None => {
                return Err(Base64Error::Malformed);
            },
        };
        let v3 = match dec_val(c3) {
            Some(v) => v,
            None => {
                return Err(Base64Error::Malformed);
            },
        };
        out.push((v0 << 2) | (v1 >> 4));
        out.push(((v1 & 15) << 4) | (v2 >> 2));
        out.push(((v2 & 3) << 6) | v3);
        proof {
            assert(out@ =~= prev + decode3(v0, v1, v2, v3));
        }
    }
    Ok(out)
}

/// Why a wrapper stage failed: either its inner stage did, or the Base64
/// codec around it.
#[derive(Debug, PartialEq, Eq)]
pub enum StageError<E> {
    /// The inner transformation stage failed, with its own error.
    Inner(E),
    /// The Base64 encoding or decoding around the inner stage failed.
    Codec(Base64Error),
}

/// A wrapper around a transformation stage that converts the stage's output
/// to Base64 text.
pub struct ToBase64<T>(pub T);

/// A wrapper around a transformation stage that converts the incoming data
/// from Base64 text before the stage transforms it.
pub struct FromBase64<T>(pub T);

impl<T> ToBase64<T> {
    /// Wraps `inner` so that its output is Base64-encoded.
    pub fn new(inner: T) -> (r: ToBase64<T>)
        ensures
            r == ToBase64(inner),
    {
        ToBase64(inner)
    }
}

impl<T> FromBase64<T> {
    /// Wraps `inner` so that its input is Base64-decoded first.
    pub fn new(inner: T) -> (r: FromBase64<T>)
        ensures
            r == FromBase64(inner),
    {
        FromBase64(inner)
    }
}

impl<T> Transform for ToBase64<T> where T: Transform<Item = Vec<u8>> {
    type Item = Vec<u8>;

    type Error = StageError<T::Error>;

    /// The wrapper succeeds when the inner stage does and the encoded form
    /// of its output fits a buffer.
    open spec fn accepts(&self, data: Seq<u8>) -> bool {
        self.0.accepts(data) && encode_fits(self.0.output_of(data))
    }

    open spec fn output_of(&self, data: Seq<u8>) -> Seq<u8> {
        b64_encode(self.0.output_of(data))
    }

    fn transform(&mut self, data: &[u8]) -> (r: Result<Vec<u8>, StageError<T::Error>>)
        ensures
            r matches Err(StageError::Inner(_)) <==> !old(self).0.accepts(data@),
            r matches Err(StageError::Codec(_)) <==> old(self).0.accepts(data@) && !encode_fits(
                old(self).0.output_of(data@),
            ),
    {
        match self.0.transform(data) {
            Ok(item) => match to_base64(item.as_slice()) {
                Ok(text) => Ok(text),
                Err(e) => Err(StageError::Codec(e)),
            },
            Err(e) => Err(StageError::Inner(e)),
        }
    }
}

impl<T> Transform for FromBase64<T> where T: Transform {
    type Item = T::Item;

    type Error = StageError<T::Error>;

    /// The wrapper succeeds when the incoming text is valid Base64 and the
    /// inner stage accepts the decoded bytes.
    open spec fn accepts(&self, data: Seq<u8>) -> bool {
        b64_decode(data) is Some && self.0.accepts(b64_decode(data).unwrap())
    }

    open spec fn output_of(&self, data: Seq<u8>) -> Seq<u8> {
        self.0.output_of(b64_decode(data).unwrap())
    }

    fn transform(&mut self, data: &[u8]) -> (r: Result<T::Item, StageError<T::Error>>)
        ensures
            r matches Err(StageError::Codec(_)) <==> b64_decode(data@) is None,
            r matches Err(StageError::Inner(_)) <==> b64_decode(data@) is Some && !old(
                self,
            ).0.accepts(b64_decode(data@).unwrap()),
    {
        match from_base64(data) {
            Ok(raw) => match self.0.transform(raw.as_slice()) {
                Ok(item) => Ok(item),
                Err(e) => Err(StageError::Inner(e)),
            },
            Err(e) => Err(StageError::Codec(e)),
        }
    }
}

/// Law: the encode-then-wrap stage produces exactly the Base64 encoding of
/// what its inner stage produces.
pub proof fn lemma_to_base64_composes<T: Transform<Item = Vec<u8>>>(w: ToBase64<T>, data: Seq<u8>)
    ensures
        w.accepts(data) ==> w.output_of(data) == b64_encode(w.0.output_of(data)),
        w.accepts(data) <==> w.0.accepts(data) && encode_fits(w.0.output_of(data)),
{
}

/// Law: the decode-then-wrap stage hands its inner stage exactly the bytes
/// the incoming Base64 text encodes, and returns the inner result unchanged.
pub proof fn lemma_from_base64_composes<T: Transform>(w: FromBase64<T>, data: Seq<u8>)
    ensures
        w.accepts(data) ==> w.output_of(data) == w.0.output_of(b64_decode(data).unwrap()),
        w.accepts(data) <==> b64_decode(data) is Some && w.0.accepts(b64_decode(data).unwrap()),
{
}

} // verus!
