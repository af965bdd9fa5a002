use crate::errors::DecodeError;
use base64::engine::general_purpose::URL_SAFE_NO_PAD;
use base64::Engine;
use vstd::prelude::*;
use vstd::utf8::*;

verus! {

/// The ASCII byte that stands for a 6-bit value in the URL-safe alphabet:
/// `A`-`Z`, `a`-`z`, `0`-`9`, then `-` and `_`.
pub open spec fn symbol(v: u8) -> u8 {
    if v < 26 {
        (v + 65) as u8
    } else if v < 52 {
        (v + 71) as u8
    } else if v < 62 {
        (v - 4) as u8
    } else if v == 62 {
        45u8
    } else {
        95u8
    }
}

/// Whether a character belongs to the URL-safe alphabet.
pub open spec fn is_urlsafe_char(c: char) -> bool {
    ('A' <= c && c <= 'Z') || ('a' <= c && c <= 'z') || ('0' <= c && c <= '9') || c == '-'
        || c == '_'
}

/// The four 6-bit values of a group of three bytes `a`, `b`, `c`.
pub open spec fn sextet0(a: u8) -> u8 {
    a >> 2u8
}

pub open spec fn sextet1(a: u8, b: u8) -> u8 {
    ((a & 3u8) << 4u8) | (b >> 4u8)
}

pub open spec fn sextet2(b: u8, c: u8) -> u8 {
    ((b & 15u8) << 2u8) | (c >> 6u8)
}

pub open spec fn sextet3(c: u8) -> u8 {
    c & 63u8
}

/// URL-safe base64 of `b`, without padding, as ASCII bytes: each group of
/// three bytes gives four symbols, a last group of one or two bytes gives two
/// or three, with the unused low bits zero.
pub open spec fn encode_bytes(b: Seq<u8>) -> Seq<u8>
    decreases b.len(),
{
    if b.len() == 0 {
        Seq::empty()
    } else if b.len() == 1 {
        seq![symbol(sextet0(b[0])), symbol(sextet1(b[0], 0))]
    } else if b.len() == 2 {
        seq![symbol(sextet0(b[0])), symbol(sextet1(b[0], b[1])), symbol(sextet2(b[1], 0))]
    } else {
        seq![
            symbol(sextet0(b[0])),
            symbol(sextet1(b[0], b[1])),
            symbol(sextet2(b[1], b[2])),
            symbol(sextet3(b[2])),
        ] + encode_bytes(b.subrange(3, b.len() as int))
    }
}

/// The same encoding as text.
pub open spec fn encode_text(b: Seq<u8>) -> Seq<char> {
    encode_bytes(b).map_values(|c: u8| c as char)
}

/// Number of symbols in the encoding of `n` bytes.
pub open spec fn encoded_len(n: nat) -> nat {
    (4 * n + 2) / 3
}

/// Whether `t` is the encoding of some bytes.
pub open spec fn is_canonical(t: Seq<u8>) -> bool {
    exists|b: Seq<u8>| encode_bytes(b) == t
}

/// The bytes whose encoding is `t` (unique, see `lemma_encode_injective`).
pub open spec fn decoded_bytes(t: Seq<u8>) -> Seq<u8> {
    choose|b: Seq<u8>| encode_bytes(b) == t
}

/// Text read from bytes, with each invalid UTF-8 sequence replaced by U+FFFD.
pub uninterp spec fn lossy_utf8_of(b: Seq<u8>) -> Seq<char>;

/// A symbol is an ASCII byte of the alphabet.
proof fn lemma_symbol(v: u8)
    requires
        v < 64,
    ensures
        symbol(v) < 128,
        is_urlsafe_char(symbol(v) as char),
{
}

/// Distinct 6-bit values have distinct symbols.
proof fn lemma_symbol_injective(v: u8, w: u8)
    requires
        v < 64,
        w < 64,
        symbol(v) == symbol(w),
    ensures
        v == w,
{
}

/// Each 6-bit value is below 64.
proof fn lemma_sextets_small(a: u8, b: u8, c: u8)
    ensures
        sextet0(a) < 64,
        sextet1(a, b) < 64,
        sextet2(b, c) < 64,
        sextet3(c) < 64,
{
    assert(a >> 2u8 < 64) by (bit_vector);
    assert(((a & 3u8) << 4u8) | (b >> 4u8) < 64) by (bit_vector);
    assert(((b & 15u8) << 2u8) | (c >> 6u8) < 64) by (bit_vector);
    assert(c & 63u8 < 64) by (bit_vector);
}

/// Four symbols give back the group of three bytes they were made from.
proof fn lemma_group_injective(a: u8, b: u8, c: u8, x: u8, y: u8, z: u8)
    requires
        a >> 2u8 == x >> 2u8,
        ((a & 3u8) << 4u8) | (b >> 4u8) == ((x & 3u8) << 4u8) | (y >> 4u8),
        ((b & 15u8) << 2u8) | (c >> 6u8) == ((y & 15u8) << 2u8) | (z >> 6u8),
        c & 63u8 == z & 63u8,
    ensures
        a == x && b == y && c == z,
{
    assert(a == x && b == y && c == z) by (bit_vector)
        requires
            a >> 2u8 == x >> 2u8,
            ((a & 3u8) << 4u8) | (b >> 4u8) == ((x & 3u8) << 4u8) | (y >> 4u8),
            ((b & 15u8) << 2u8) | (c >> 6u8) == ((y & 15u8) << 2u8) | (z >> 6u8),
            c & 63u8 == z & 63u8,
    ;
}

/// Three symbols give back the last two bytes.
proof fn lemma_pair_injective(a: u8, b: u8, x: u8, y: u8)
    requires
        a >> 2u8 == x >> 2u8,
        ((a & 3u8) << 4u8) | (b >> 4u8) == ((x & 3u8) << 4u8) | (y >> 4u8),
        ((b & 15u8) << 2u8) | (0u8 >> 6u8) == ((y & 15u8) << 2u8) | (0u8 >> 6u8),
    ensures
        a == x && b == y,
{
    assert(a == x && b == y) by (bit_vector)
        requires
            a >> 2u8 == x >> 2u8,
            ((a & 3u8) << 4u8) | (b >> 4u8) == ((x & 3u8) << 4u8) | (y >> 4u8),
            ((b & 15u8) << 2u8) | (0u8 >> 6u8) == ((y & 15u8) << 2u8) | (0u8 >> 6u8),
    ;
}

/// Two symbols give back the last byte.
proof fn lemma_single_injective(a: u8, x: u8)
    requires
        a >> 2u8 == x >> 2u8,
        ((a & 3u8) << 4u8) | (0u8 >> 4u8) == ((x & 3u8) << 4u8) | (0u8 >> 4u8),
    ensures
        a == x,
{
    assert(a == x) by (bit_vector)
        requires
            a >> 2u8 == x >> 2u8,
            ((a & 3u8) << 4u8) | (0u8 >> 4u8) == ((x & 3u8) << 4u8) | (0u8 >> 4u8),
    ;
}

/// The encoding of `n` bytes has `(4n + 2) / 3` symbols, each of the alphabet.
pub proof fn lemma_encode_shape(b: Seq<u8>)
    ensures
        encode_bytes(b).len() == encoded_len(b.len()),
        forall|i: int|
            0 <= i < encode_bytes(b).len() ==> #[trigger] encode_bytes(b)[i] < 128
                && is_urlsafe_char(encode_bytes(b)[i] as char),
    decreases b.len(),
{
    let e = encode_bytes(b);
    if b.len() == 0 {
    } else if b.len() == 1 {
        lemma_sextets_small(b[0], 0, 0);
        lemma_symbol(sextet0(b[0]));
        lemma_symbol(sextet1(b[0], 0));
    } else if b.len() == 2 {
        lemma_sextets_small(b[0], b[1], 0);
        lemma_symbol(sextet0(b[0]));
        lemma_symbol(sextet1(b[0], b[1]));
        lemma_symbol(sextet2(b[1], 0));
    } else {
        let rest = b.subrange(3, b.len() as int);
        lemma_encode_shape(rest);
        lemma_sextets_small(b[0], b[1], b[2]);
        lemma_symbol(sextet0(b[0]));
        lemma_symbol(sextet1(b[0], b[1]));
        lemma_symbol(sextet2(b[1], b[2]));
        lemma_symbol(sextet3(b[2]));
        assert forall|i: int| 0 <= i < e.len() implies #[trigger] e[i] < 128 && is_urlsafe_char(
            e[i] as char,
        ) by {
            if i >= 4 {
                assert(e[i] == encode_bytes(rest)[i - 4]);
            }
        }
    }
}

/// Distinct byte counts give distinct encoded lengths.
proof fn lemma_encoded_len_injective(m: nat, n: nat)
    requires
        encoded_len(m) == encoded_len(n),
    ensures
        m == n,
{
    if m < n {
        assert((4 * m + 2) / 3 < (4 * n + 2) / 3) by (nonlinear_arith)
            requires
                m < n,
        ;
    } else if n < m {
        assert((4 * n + 2) / 3 < (4 * m + 2) / 3) by (nonlinear_arith)
            requires
                n < m,
        ;
    }
}

/// Different bytes have different encodings.
pub proof fn lemma_encode_injective(a: Seq<u8>, b: Seq<u8>)
    requires
        encode_bytes(a) == encode_bytes(b),
    ensures
        a == b,
    decreases a.len(),
{
    let e = encode_bytes(a);
    lemma_encode_shape(a);
    lemma_encode_shape(b);
    lemma_encoded_len_injective(a.len(), b.len());
    if a.len() == 0 {
        assert(a =~= b);
    } else if a.len() == 1 {
        lemma_sextets_small(a[0], 0, 0);
        lemma_sextets_small(b[0], 0, 0);
        lemma_symbol_injective(sextet0(a[0]), sextet0(b[0]));
        lemma_symbol_injective(sextet1(a[0], 0), sextet1(b[0], 0));
        lemma_single_injective(a[0], b[0]);
        assert(a =~= b);
    } else if a.len() == 2 {
        lemma_sextets_small(a[0], a[1], 0);
        lemma_sextets_small(b[0], b[1], 0);
        lemma_symbol_injective(sextet0(a[0]), sextet0(b[0]));
        lemma_symbol_injective(sextet1(a[0], a[1]), sextet1(b[0], b[1]));
        lemma_symbol_injective(sextet2(a[1], 0), sextet2(b[1], 0));
        lemma_pair_injective(a[0], a[1], b[0], b[1]);
        assert(a =~= b);
    } else {
        let ra = a.subrange(3, a.len() as int);
        let rb = b.subrange(3, b.len() as int);
        let ga = seq![
            symbol(sextet0(a[0])),
            symbol(sextet1(a[0], a[1])),
            symbol(sextet2(a[1], a[2])),
            symbol(sextet3(a[2])),
        ];
        let gb = seq![
            symbol(sextet0(b[0])),
            symbol(sextet1(b[0], b[1])),
            symbol(sextet2(b[1], b[2])),
            symbol(sextet3(b[2])),
        ];
        assert(e == ga + encode_bytes(ra));
        assert(encode_bytes(b) == gb + encode_bytes(rb));
        assert(ga[0] == e[0] && ga[1] == e[1] && ga[2] == e[2] && ga[3] == e[3]);
        assert(gb[0] == e[0] && gb[1] == e[1] && gb[2] == e[2] && gb[3] == e[3]);
        assert(encode_bytes(ra) =~= e.subrange(4, e.len() as int));
        assert(encode_bytes(rb) =~= encode_bytes(b).subrange(4, e.len() as int));
        lemma_encode_injective(ra, rb);
        lemma_sextets_small(a[0], a[1], a[2]);
        lemma_sextets_small(b[0], b[1], b[2]);
        lemma_symbol_injective(sextet0(a[0]), sextet0(b[0]));
        lemma_symbol_injective(sextet1(a[0], a[1]), sextet1(b[0], b[1]));
        lemma_symbol_injective(sextet2(a[1], a[2]), sextet2(b[1], b[2]));
        lemma_symbol_injective(sextet3(a[2]), sextet3(b[2]));
        lemma_group_injective(a[0], a[1], a[2], b[0], b[1], b[2]);
        assert forall|i: int| 0 <= i < a.len() implies a[i] == b[i] by {
            if i >= 3 {
                assert(a[i] == ra[i - 3] && b[i] == rb[i - 3]);
            }
        }
        assert(a =~= b);
    }
}

/// Decoding undoes encoding: the encoding of any bytes is accepted, and
/// decodes to those bytes.
pub proof fn lemma_decode_encode(b: Seq<u8>)
    ensures
        is_canonical(encode_bytes(b)),
        decoded_bytes(encode_bytes(b)) == b,
{
    let t = encode_bytes(b);
    assert(encode_bytes(b) == t);
    let d = decoded_bytes(t);
    lemma_encode_injective(d, b);
}

/// The UTF-8 bytes of the encoding, as text, are the encoding's own bytes.
pub proof fn lemma_encode_text_bytes(b: Seq<u8>)
    ensures
        is_ascii_chars(encode_text(b)),
        encode_utf8(encode_text(b)) == encode_bytes(b),
{
    let e = encode_bytes(b);
    let t = encode_text(b);
    lemma_encode_shape(b);
    assert forall|i: int| 0 <= i < t.len() implies '\0' <= #[trigger] t[i] <= '\u{7f}' by {
        assert(e[i] < 128);
    }
    is_ascii_chars_encode_utf8(t);
    assert forall|i: int| 0 <= i < e.len() implies encode_utf8(t)[i] == e[i] by {
        assert(t[i] as u8 == encode_utf8(t)[i]);
    }
    assert(encode_utf8(t) =~= e);
}

/// Text survives a round trip: the encoding of the UTF-8 bytes of any text,
/// taken as text and read back as bytes, is accepted, decodes to those bytes,
/// and they read as the text again.
pub proof fn lemma_text_round_trip(s: Seq<char>)
    ensures
        is_canonical(encode_utf8(encode_text(encode_utf8(s)))),
        decoded_bytes(encode_utf8(encode_text(encode_utf8(s)))) == encode_utf8(s),
        valid_utf8(encode_utf8(s)),
        decode_utf8(encode_utf8(s)) == s,
{
    let b = encode_utf8(s);
    lemma_encode_text_bytes(b);
    lemma_decode_encode(b);
    encode_utf8_valid_utf8(s);
    encode_utf8_decode_utf8(s);
}

/// Encodes `token` as URL-safe base64 without padding.
pub fn urlsafe_b64encode(token: &[u8]) -> (r: String)
    ensures
        r@ == encode_text(token@),
        r@.len() == encoded_len(token@.len()),
        forall|i: int| 0 <= i < r@.len() ==> is_urlsafe_char(#[trigger] r@[i]),
{
    let r = engine_encode(token);
    proof {
        lemma_encode_shape(token@);
        assert forall|i: int| 0 <= i < r@.len() implies is_urlsafe_char(#[trigger] r@[i]) by {
            assert(encode_bytes(token@)[i] < 128);
        }
    }
    r
}

/// Decodes URL-safe base64 without padding, and reads the bytes as UTF-8 text,
/// with each invalid sequence replaced by U+FFFD.
pub fn urlsafe_b64decode(token: &[u8]) -> (r: Result<String, DecodeError>)
    ensures
        r is Ok <==> is_canonical(token@),
        match r {
            Ok(s) => s@ == lossy_utf8_of(decoded_bytes(token@)) && (valid_utf8(
                decoded_bytes(token@),
            ) ==> s@ == decode_utf8(decoded_bytes(token@))),
            Err(_) => true,
        },
{
    match engine_decode(token) {
        Ok(bytes) => {
            proof {
                lemma_encode_injective(bytes@, decoded_bytes(token@));
            }
            Ok(utf8_lossy(bytes.as_slice()))
        },
        Err(e) => Err(e),
    }
}

/// Relies on base64's `URL_SAFE_NO_PAD` engine, `Engine::encode`: the URL-safe
/// alphabet, three bytes to four symbols, no padding.
#[verifier::external_body]
fn engine_encode(token: &[u8]) -> (r: String)
    ensures
        r@ == encode_text(token@),
{
    URL_SAFE_NO_PAD.encode(token)
}

/// Relies on base64's `URL_SAFE_NO_PAD` engine, `Engine::decode`: it allows no
/// padding and rejects a byte outside the alphabet, a length of the form
/// `4k + 1` and a last symbol with unused bits set, so it accepts exactly what
/// `Engine::encode` writes, and gives back the bytes that were encoded.
#[verifier::external_body]
fn engine_decode(token: &[u8]) -> (r: Result<Vec<u8>, DecodeError>)
    ensures
        match r {
            Ok(v) => encode_bytes(v@) == token@,
            Err(_) => !is_canonical(token@),
        },
{
    match URL_SAFE_NO_PAD.decode(token) {
        Ok(v) => Ok(v),
        Err(base64::DecodeError::InvalidByte(i, b)) => Err(DecodeError::InvalidByte(i, b)),
        Err(base64::DecodeError::InvalidLength) => Err(DecodeError::InvalidLength),
        Err(base64::DecodeError::InvalidLastSymbol(i, b)) => Err(
            DecodeError::InvalidLastSymbol(i, b),
        ),
        Err(base64::DecodeError::InvalidPadding) => Err(DecodeError::InvalidPadding),
    }
}

/// Relies on `String::from_utf8_lossy`: the text depends on the bytes alone,
/// and bytes that are valid UTF-8 are read as they are.
#[verifier::external_body]
fn utf8_lossy(bytes: &[u8]) -> (r: String)
    ensures
        r@ == lossy_utf8_of(bytes@),
        valid_utf8(bytes@) ==> r@ == decode_utf8(bytes@),
{
    String::from_utf8_lossy(bytes).into_owned()
}

}  // verus!
