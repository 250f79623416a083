//! Sealing of stored mailbox passwords with a server-only key: AES-256-GCM,
//! stored as `iv:ciphertext`, both parts in standard Base64, the GCM tag
//! appended to the ciphertext.

use aes_gcm::aead::{Aead, KeyInit};
use aes_gcm::{Aes256Gcm, Key, Nonce};
use rand::RngCore;
use vstd::prelude::*;
use vstd::utf8::*;

use crate::codec::{
    base64_std_decode, base64_std_decoding, base64_std_encode, base64_std_encoding,
    is_std_base64_char, string_from_utf8, text_result_view, utf8_error_text,
};
use crate::text::{lemma_split_once_at, push_char, split_once_char, split_once_spec, trim, trim_spec};

verus! {

/// The largest plaintext, in bytes, that AES-GCM seals (`aes_gcm::P_MAX`).
pub open spec fn aes_gcm_max_plaintext() -> nat {
    68719476736
}

/// What `Aes256Gcm::encrypt` gives for `plaintext` under `key` and `nonce`.
pub uninterp spec fn aes256gcm_seal(key: Seq<u8>, nonce: Seq<u8>, plaintext: Seq<u8>) -> Seq<u8>;

/// What `Aes256Gcm::decrypt` gives for `ciphertext` under `key` and `nonce`:
/// the plaintext, or `None` when the tag does not authenticate it.
pub uninterp spec fn aes256gcm_open(key: Seq<u8>, nonce: Seq<u8>, ciphertext: Seq<u8>) -> Option<
    Seq<u8>,
>;

/// `Aes256Gcm::encrypt` (a 32-byte key, a 12-byte nonce, no associated
/// data). Claimed: the result is the named sealing, the ciphertext with the
/// 16-byte GCM tag appended (so 16 bytes longer than the plaintext), and
/// `decrypt` with the same key and nonce gives the plaintext back (AEAD
/// correctness). The plaintext limit is the one under which aes-gcm returns
/// `Ok`.
#[verifier::external_body]
fn aes256gcm_encrypt(key: &[u8], nonce: &[u8], plaintext: &[u8]) -> (r: Vec<u8>)
    requires
        key@.len() == 32,
        nonce@.len() == 12,
        plaintext@.len() <= aes_gcm_max_plaintext(),
    ensures
        r@ == aes256gcm_seal(key@, nonce@, plaintext@),
        r@.len() == plaintext@.len() + 16,
        aes256gcm_open(key@, nonce@, r@) == Some(plaintext@),
{
    Aes256Gcm::new(Key::<Aes256Gcm>::from_slice(key)).encrypt(Nonce::from_slice(nonce), plaintext)
        .expect("plaintext within the AES-GCM limit")
}

/// `Aes256Gcm::decrypt` (a 32-byte key, a 12-byte nonce, no associated
/// data). Claimed: the result is the named opening.
#[verifier::external_body]
fn aes256gcm_decrypt(key: &[u8], nonce: &[u8], ciphertext: &[u8]) -> (r: Option<Vec<u8>>)
    requires
        key@.len() == 32,
        nonce@.len() == 12,
    ensures
        match r {
            Some(p) => aes256gcm_open(key@, nonce@, ciphertext@) == Some(p@),
            None => aes256gcm_open(key@, nonce@, ciphertext@) is None,
        },
{
    Aes256Gcm::new(Key::<Aes256Gcm>::from_slice(key)).decrypt(Nonce::from_slice(nonce), ciphertext)
        .ok()
}

/// `rand::thread_rng().fill_bytes` on a fresh buffer of `n` bytes. Claimed:
/// only the length; the bytes are random.
#[verifier::external_body]
fn thread_rng_bytes(n: usize) -> (r: Vec<u8>)
    ensures
        r@.len() == n,
{
    let mut b = vec![0u8; n];
    rand::thread_rng().fill_bytes(&mut b);
    b
}

/// The stored form of `plaintext` sealed under `key` with nonce `iv`.
pub open spec fn sealed_text(key: Seq<u8>, iv: Seq<u8>, plaintext: Seq<char>) -> Seq<char> {
    base64_std_encoding(iv) + seq![':'] + base64_std_encoding(
        aes256gcm_seal(key, iv, encode_utf8(plaintext)),
    )
}

/// Whether opening `encoded` would hand AES-GCM a nonce that is not 12 bytes
/// long: both parts decode, but the first is not 12 bytes. aes-gcm's
/// `Nonce::from_slice` panics there, so no caller may ask for it.
pub open spec fn nonce_misfit(encoded: Seq<char>) -> bool {
    match split_once_spec(encoded, ':') {
        Some(parts) => match base64_std_decoding(parts.0) {
            Ok(iv) => base64_std_decoding(parts.1) is Ok && iv.len() != 12,
            Err(_) => false,
        },
        None => false,
    }
}

/// What opening the stored form `encoded` under `key` gives: the plaintext,
/// or the error text.
pub open spec fn opened_text(key: Seq<u8>, encoded: Seq<char>) -> Result<Seq<char>, Seq<char>> {
    match split_once_spec(encoded, ':') {
        None => Err("invalid encrypted value"@),
        Some(parts) => match base64_std_decoding(parts.0) {
            Err(e) => Err(e),
            Ok(iv) => match base64_std_decoding(parts.1) {
                Err(e) => Err(e),
                Ok(ct) => match aes256gcm_open(key, iv, ct) {
                    None => Err("decryption failed"@),
                    Some(p) => if valid_utf8(p) {
                        Ok(decode_utf8(p))
                    } else {
                        Err(utf8_error_text(p))
                    },
                },
            },
        },
    }
}

/// A successful opening into `s`.
pub open spec fn ok_text(s: Seq<char>) -> Result<Seq<char>, Seq<char>> {
    Ok(s)
}

/// Whether the sealing of `plaintext` is its UTF-8 bytes plus the 16-byte tag.
pub open spec fn sealed_with_tag(key: Seq<u8>, iv: Seq<u8>, plaintext: Seq<char>) -> bool {
    aes256gcm_seal(key, iv, encode_utf8(plaintext)).len() == encode_utf8(plaintext).len() + 16
}

/// Seals `plaintext` under `key` with nonce `iv` into `iv_b64:ciphertext_b64`,
/// the ciphertext carrying the 16-byte tag. The result opens to `plaintext`
/// again.
pub fn encrypt_with_iv(key: &[u8], iv: &[u8], plaintext: &str) -> (r: String)
    requires
        key@.len() == 32,
        iv@.len() == 12,
        encode_utf8(plaintext@).len() <= aes_gcm_max_plaintext(),
    ensures
        r@ == sealed_text(key@, iv@, plaintext@),
        sealed_with_tag(key@, iv@, plaintext@),
        !nonce_misfit(r@),
        opened_text(key@, r@) == ok_text(plaintext@),
{
    let ct = aes256gcm_encrypt(key, iv, plaintext.as_bytes());
    let mut r = base64_std_encode(iv);
    let ghost head = r@;
    push_char(&mut r, ':');
    let tail = base64_std_encode(ct.as_slice());
    r.append(tail.as_str());
    proof {
        assert(r@ =~= head + seq![':'] + tail@);
        crate::codec::lemma_b64_alphabet(iv@);
        assert forall|j: int| 0 <= j < head.len() implies r@[j] != ':' by {
            assert(r@[j] == head[j]);
            assert(is_std_base64_char(head[j]));
        }
        lemma_split_once_at(r@, ':', head.len() as int);
        assert(r@.subrange(0, head.len() as int) =~= head);
        assert(r@.subrange(head.len() as int + 1, r@.len() as int) =~= tail@);
        encode_utf8_valid_utf8(plaintext@);
        encode_utf8_decode_utf8(plaintext@);
    }
    r
}

/// Seals `plaintext` under `key` with a fresh random 12-byte nonce.
pub fn encrypt(key: &[u8], plaintext: &str) -> (r: String)
    requires
        key@.len() == 32,
        encode_utf8(plaintext@).len() <= aes_gcm_max_plaintext(),
    ensures
        exists|iv: Seq<u8>|
            iv.len() == 12 && #[trigger] sealed_text(key@, iv, plaintext@) == r@ && sealed_with_tag(
                key@,
                iv,
                plaintext@,
            ),
        !nonce_misfit(r@),
        opened_text(key@, r@) == ok_text(plaintext@),
{
    let iv = thread_rng_bytes(12);
    encrypt_with_iv(key, iv.as_slice(), plaintext)
}

/// Opens the stored form `encoded` under `key`.
pub fn decrypt(key: &[u8], encoded: &str) -> (r: Result<String, String>)
    requires
        key@.len() == 32,
        !nonce_misfit(encoded@),
    ensures
        text_result_view(r) == opened_text(key@, encoded@),
{
    let (iv_b64, ct_b64) = match split_once_char(encoded, ':') {
        Some(parts) => parts,
        None => return Err("invalid encrypted value".to_owned()),
    };
    let iv = match base64_std_decode(iv_b64.as_str()) {
        Ok(v) => v,
        Err(e) => return Err(e),
    };
    let ct = match base64_std_decode(ct_b64.as_str()) {
        Ok(v) => v,
        Err(e) => return Err(e),
    };
    let plaintext = match aes256gcm_decrypt(key, iv.as_slice(), ct.as_slice()) {
        Some(p) => p,
        None => return Err("decryption failed".to_owned()),
    };
    string_from_utf8(plaintext)
}

/// Opens `encoded` under `key` where that cannot panic: `None` exactly when
/// the nonce part has the wrong length (where aes-gcm would panic).
pub fn try_decrypt(key: &[u8], encoded: &str) -> (r: Option<Result<String, String>>)
    requires
        key@.len() == 32,
    ensures
        r is None <==> nonce_misfit(encoded@),
        r matches Some(res) ==> text_result_view(res) == opened_text(key@, encoded@),
{
    let misfit = match split_once_char(encoded, ':') {
        Some((a, b)) => match base64_std_decode(a.as_str()) {
            Ok(iv) => base64_std_decode(b.as_str()).is_ok() && iv.len() != 12,
            Err(_) => false,
        },
        None => false,
    };
    if misfit {
        None
    } else {
        Some(decrypt(key, encoded))
    }
}

/// Why a configured server key is unusable.
#[derive(Debug, PartialEq, Eq)]
pub enum KeyProblem {
    /// The text is not standard Base64.
    NotBase64,
    /// The text decodes to this many bytes instead of 32.
    WrongLength(usize),
}

/// What configured key text (surrounding whitespace ignored) gives.
pub open spec fn parsed_key(text: Seq<char>) -> Result<Seq<u8>, Option<nat>> {
    match base64_std_decoding(trim_spec(text)) {
        Ok(k) => if k.len() == 32 {
            Ok(k)
        } else {
            Err(Some(k.len()))
        },
        Err(_) => Err(None),
    }
}

/// The 32-byte server key from its Base64 text, surrounding whitespace
/// ignored.
pub fn key_from_base64(text: &str) -> (r: Result<Vec<u8>, KeyProblem>)
    ensures
        match r {
            Ok(k) => parsed_key(text@) == Ok::<Seq<u8>, Option<nat>>(k@),
            Err(KeyProblem::NotBase64) => parsed_key(text@) == Err::<Seq<u8>, Option<nat>>(None),
            Err(KeyProblem::WrongLength(n)) => parsed_key(text@) == Err::<Seq<u8>, Option<nat>>(Some(n as nat)),
        },
{
    let t = trim(text);
    match base64_std_decode(t.as_str()) {
        Ok(k) => if k.len() == 32 {
            Ok(k)
        } else {
            Err(KeyProblem::WrongLength(k.len()))
        },
        Err(_) => Err(KeyProblem::NotBase64),
    }
}

} // verus!
