//! Byte/text encodings: Base64 (standard and URL-safe without padding, from
//! the `base64` crate) and UTF-8 decoding of byte strings.

use base64::Engine;
use vstd::prelude::*;
use vstd::utf8::*;

verus! {

/// The characters of the standard Base64 alphabet, with the `=` pad.
pub open spec fn is_std_base64_char(c: char) -> bool {
    ('A' <= c && c <= 'Z') || ('a' <= c && c <= 'z') || ('0' <= c && c <= '9') || c == '+' || c
        == '/' || c == '='
}

/// The characters of the URL-safe Base64 alphabet.
pub open spec fn is_url_safe_base64_char(c: char) -> bool {
    ('A' <= c && c <= 'Z') || ('a' <= c && c <= 'z') || ('0' <= c && c <= '9') || c == '-' || c
        == '_'
}

/// The Base64 digit for the 6-bit value `v` (`v < 64`): `A`-`Z`, `a`-`z`,
/// `0`-`9`, then `+` and `/`, or `-` and `_` in the URL-safe alphabet.
pub open spec fn b64_digit(v: nat, url_safe: bool) -> char {
    if v < 26 {
        ((v + 65) as u8) as char
    } else if v < 52 {
        ((v - 26 + 97) as u8) as char
    } else if v < 62 {
        ((v - 52 + 48) as u8) as char
    } else if v == 62 {
        if url_safe {
            '-'
        } else {
            '+'
        }
    } else {
        if url_safe {
            '_'
        } else {
            '/'
        }
    }
}

/// Base64 (RFC 4648): each group of three bytes becomes four digits; a last
/// group of one or two bytes becomes two or three digits, followed by `=`
/// up to four when `padded`.
pub open spec fn b64_encode(b: Seq<u8>, url_safe: bool, padded: bool) -> Seq<char>
    decreases b.len(),
{
    if b.len() == 0 {
        Seq::empty()
    } else if b.len() == 1 {
        seq![b64_digit((b[0] / 4) as nat, url_safe), b64_digit(((b[0] % 4) * 16) as nat, url_safe)]
            + if padded {
            seq!['=', '=']
        } else {
            Seq::empty()
        }
    } else if b.len() == 2 {
        seq![
            b64_digit((b[0] / 4) as nat, url_safe),
            b64_digit(((b[0] % 4) * 16 + b[1] / 16) as nat, url_safe),
            b64_digit(((b[1] % 16) * 4) as nat, url_safe),
        ] + if padded {
            seq!['=']
        } else {
            Seq::empty()
        }
    } else {
        seq![
            b64_digit((b[0] / 4) as nat, url_safe),
            b64_digit(((b[0] % 4) * 16 + b[1] / 16) as nat, url_safe),
            b64_digit(((b[1] % 16) * 4 + b[2] / 64) as nat, url_safe),
            b64_digit((b[2] % 64) as nat, url_safe),
        ] + b64_encode(b.skip(3), url_safe, padded)
    }
}

/// What `base64`'s `STANDARD` engine encodes `bytes` to: padded Base64 in
/// the standard alphabet.
pub open spec fn base64_std_encoding(bytes: Seq<u8>) -> Seq<char> {
    b64_encode(bytes, false, true)
}

/// What `base64`'s `STANDARD` engine decodes `text` to: the bytes, or the
/// text of the `DecodeError`.
pub uninterp spec fn base64_std_decoding(text: Seq<char>) -> Result<Seq<u8>, Seq<char>>;

/// What `base64`'s `URL_SAFE_NO_PAD` engine encodes `bytes` to: unpadded
/// Base64 in the URL-safe alphabet.
pub open spec fn base64_url_encoding(bytes: Seq<u8>) -> Seq<char> {
    b64_encode(bytes, true, false)
}

proof fn lemma_b64_digit(v: nat, url_safe: bool)
    requires
        v < 64,
    ensures
        url_safe ==> is_url_safe_base64_char(b64_digit(v, url_safe)),
        !url_safe ==> is_std_base64_char(b64_digit(v, url_safe)) && b64_digit(v, url_safe) != '=',
{
}

/// Padded standard Base64 uses only the standard alphabet and `=`; unpadded
/// URL-safe Base64 uses only the URL-safe alphabet (no `+`, `/` or `=`).
pub proof fn lemma_b64_alphabet(b: Seq<u8>)
    ensures
        forall|i: int|
            0 <= i < base64_std_encoding(b).len() ==> is_std_base64_char(
                #[trigger] base64_std_encoding(b)[i],
            ),
        forall|i: int|
            0 <= i < base64_url_encoding(b).len() ==> is_url_safe_base64_char(
                #[trigger] base64_url_encoding(b)[i],
            ),
    decreases b.len(),
{
    if b.len() > 0 {
        let x = b[0];
        assert((x / 4) < 64 && (x % 4) * 16 < 64);
        lemma_b64_digit((x / 4) as nat, false);
        lemma_b64_digit((x / 4) as nat, true);
        lemma_b64_digit(((x % 4) * 16) as nat, false);
        lemma_b64_digit(((x % 4) * 16) as nat, true);
        if b.len() >= 2 {
            let y = b[1];
            assert((x % 4) * 16 + y / 16 < 64 && (y % 16) * 4 < 64);
            lemma_b64_digit(((x % 4) * 16 + y / 16) as nat, false);
            lemma_b64_digit(((x % 4) * 16 + y / 16) as nat, true);
            lemma_b64_digit(((y % 16) * 4) as nat, false);
            lemma_b64_digit(((y % 16) * 4) as nat, true);
            if b.len() >= 3 {
                let z = b[2];
                assert((y % 16) * 4 + z / 64 < 64 && z % 64 < 64);
                lemma_b64_digit(((y % 16) * 4 + z / 64) as nat, false);
                lemma_b64_digit(((y % 16) * 4 + z / 64) as nat, true);
                lemma_b64_digit((z % 64) as nat, false);
                lemma_b64_digit((z % 64) as nat, true);
                lemma_b64_alphabet(b.skip(3));
                let hs = base64_std_encoding(b.skip(3));
                let hu = base64_url_encoding(b.skip(3));
                assert forall|i: int| 0 <= i < base64_std_encoding(b).len() implies is_std_base64_char(
                    #[trigger] base64_std_encoding(b)[i],
                ) by {
                    if i >= 4 {
                        assert(base64_std_encoding(b)[i] == hs[i - 4]);
                    }
                }
                assert forall|i: int| 0 <= i < base64_url_encoding(b).len() implies is_url_safe_base64_char(
                    #[trigger] base64_url_encoding(b)[i],
                ) by {
                    if i >= 4 {
                        assert(base64_url_encoding(b)[i] == hu[i - 4]);
                    }
                }
            }
        }
    }
}

/// What `base64`'s `URL_SAFE_NO_PAD` engine decodes `text` to: the bytes, or
/// the text of the `DecodeError`.
pub uninterp spec fn base64_url_decoding(text: Seq<char>) -> Result<Seq<u8>, Seq<char>>;

/// The text of the `FromUtf8Error` that `String::from_utf8` gives for `bytes`.
pub uninterp spec fn utf8_error_text(bytes: Seq<u8>) -> Seq<char>;

/// A successful decoding into `b`.
pub open spec fn ok_bytes(b: Seq<u8>) -> Result<Seq<u8>, Seq<char>> {
    Ok(b)
}

/// A `Result` of owned bytes, seen as sequences.
pub open spec fn bytes_result_view(r: Result<Vec<u8>, String>) -> Result<Seq<u8>, Seq<char>> {
    match r {
        Ok(v) => Ok(v@),
        Err(e) => Err(e@),
    }
}

/// A `Result` of strings, seen as character sequences.
pub open spec fn text_result_view(r: Result<String, String>) -> Result<Seq<char>, Seq<char>> {
    match r {
        Ok(v) => Ok(v@),
        Err(e) => Err(e@),
    }
}

/// `base64::engine::general_purpose::STANDARD.encode`. Claimed: the result is
/// padded Base64 in the standard alphabet, and the same engine decodes it
/// back to `bytes`.
#[verifier::external_body]
pub(crate) fn base64_std_encode(bytes: &[u8]) -> (r: String)
    ensures
        r@ == base64_std_encoding(bytes@),
        base64_std_decoding(r@) == ok_bytes(bytes@),
{
    base64::engine::general_purpose::STANDARD.encode(bytes)
}

/// `base64::engine::general_purpose::STANDARD.decode` of the bytes of `text`,
/// with the error turned into its text. Claimed: the result is the named
/// decoding.
#[verifier::external_body]
pub(crate) fn base64_std_decode(text: &str) -> (r: Result<Vec<u8>, String>)
    ensures
        bytes_result_view(r) == base64_std_decoding(text@),
{
    base64::engine::general_purpose::STANDARD.decode(text).map_err(|e| e.to_string())
}

/// `base64::engine::general_purpose::URL_SAFE_NO_PAD.encode`. Claimed: the
/// result is unpadded Base64 in the URL-safe alphabet, and the same engine
/// decodes it back to `bytes`.
#[verifier::external_body]
pub(crate) fn base64_url_encode_bytes(bytes: &[u8]) -> (r: String)
    ensures
        r@ == base64_url_encoding(bytes@),
        base64_url_decoding(r@) == ok_bytes(bytes@),
{
    base64::engine::general_purpose::URL_SAFE_NO_PAD.encode(bytes)
}

/// `base64::engine::general_purpose::URL_SAFE_NO_PAD.decode` of the bytes of
/// `text`, with the error turned into its text. Claimed: the result is the
/// named decoding.
#[verifier::external_body]
pub(crate) fn base64_url_decode_text(text: &str) -> (r: Result<Vec<u8>, String>)
    ensures
        bytes_result_view(r) == base64_url_decoding(text@),
{
    base64::engine::general_purpose::URL_SAFE_NO_PAD.decode(text).map_err(|e| e.to_string())
}

/// `String::from_utf8`, with the error turned into its text. Claimed, as
/// std documents: `Ok` exactly when `bytes` is valid UTF-8, holding the
/// characters it encodes.
#[verifier::external_body]
pub(crate) fn string_from_utf8(bytes: Vec<u8>) -> (r: Result<String, String>)
    ensures
        match r {
            Ok(s) => valid_utf8(bytes@) && s@ == decode_utf8(bytes@),
            Err(e) => !valid_utf8(bytes@) && e@ == utf8_error_text(bytes@),
        },
{
    String::from_utf8(bytes).map_err(|e| e.to_string())
}

} // verus!
