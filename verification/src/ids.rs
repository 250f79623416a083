//! Random identifiers and session tokens (lower-case hex), and the names of
//! the per-user data files.

use argon2::password_hash::rand_core::{OsRng, RngCore};
use vstd::prelude::*;

use crate::text::{digit_char, push_char};

verus! {

/// `OsRng.fill_bytes` (the operating system's generator, as argon2 re-exports
/// it) on a fresh buffer of `n` bytes. Claimed: only the length; the bytes
/// are random.
#[verifier::external_body]
fn os_random_bytes(n: usize) -> (r: Vec<u8>)
    ensures
        r@.len() == n,
{
    let mut b = vec![0u8; n];
    OsRng.fill_bytes(&mut b);
    b
}

/// The lower-case hex digit for `d` (`d < 16`).
pub open spec fn hex_digit(d: nat) -> char {
    if d < 10 {
        digit_char(d)
    } else {
        ((d - 10 + 97) as u8) as char
    }
}

/// Whether `c` is a lower-case hex digit.
pub open spec fn is_lower_hex(c: char) -> bool {
    ('0' <= c && c <= '9') || ('a' <= c && c <= 'f')
}

/// Each byte of `bytes` as two lower-case hex digits (`{:02x}`).
pub open spec fn hex_spec(bytes: Seq<u8>) -> Seq<char>
    decreases bytes.len(),
{
    if bytes.len() == 0 {
        Seq::empty()
    } else {
        hex_spec(bytes.drop_last()) + seq![
            hex_digit((bytes.last() / 16) as nat),
            hex_digit((bytes.last() % 16) as nat),
        ]
    }
}

/// Hex text is twice as long as its bytes and holds only lower-case hex
/// digits.
pub proof fn lemma_hex_shape(bytes: Seq<u8>)
    ensures
        hex_spec(bytes).len() == 2 * bytes.len(),
        forall|i: int| 0 <= i < hex_spec(bytes).len() ==> is_lower_hex(#[trigger] hex_spec(bytes)[i]),
    decreases bytes.len(),
{
    if bytes.len() > 0 {
        lemma_hex_shape(bytes.drop_last());
        let h = hex_spec(bytes.drop_last());
        let b = bytes.last();
        assert forall|i: int| 0 <= i < hex_spec(bytes).len() implies is_lower_hex(
            #[trigger] hex_spec(bytes)[i],
        ) by {
            if i < h.len() {
                assert(hex_spec(bytes)[i] == h[i]);
            } else if i == h.len() {
                assert(hex_spec(bytes)[i] == hex_digit((b / 16) as nat));
                assert(((b / 16) as nat) < 16);
            } else {
                assert(hex_spec(bytes)[i] == hex_digit((b % 16) as nat));
            }
        }
    }
}

/// The character for hex digit `d`.
fn hex_char(d: u8) -> (c: char)
    requires
        d < 16,
    ensures
        c == hex_digit(d as nat),
{
    if d < 10 {
        (48u8 + d) as char
    } else {
        (87u8 + d) as char
    }
}

/// Lower-case hex of `bytes`, two digits per byte.
pub fn hex(bytes: &[u8]) -> (r: String)
    ensures
        r@ == hex_spec(bytes@),
{
    let mut s = String::new();
    let n = bytes.len();
    let mut i: usize = 0;
    while i < n
        invariant
            n == bytes@.len(),
            i <= n,
            s@ == hex_spec(bytes@.subrange(0, i as int)),
        decreases n - i,
    {
        let b = bytes[i];
        push_char(&mut s, hex_char(b / 16));
        push_char(&mut s, hex_char(b % 16));
        proof {
            let pre = bytes@.subrange(0, i + 1);
            assert(pre.drop_last() =~= bytes@.subrange(0, i as int));
            assert(pre.last() == b);
        }
        i = i + 1;
    }
    assert(bytes@.subrange(0, n as int) =~= bytes@);
    s
}

/// A random identifier: 16 random bytes as 32 lower-case hex digits.
pub fn new_id() -> (r: String)
    ensures
        exists|b: Seq<u8>| b.len() == 16 && r@ == hex_spec(b),
        r@.len() == 32,
        forall|i: int| 0 <= i < r@.len() ==> is_lower_hex(#[trigger] r@[i]),
{
    let b = os_random_bytes(16);
    proof {
        lemma_hex_shape(b@);
    }
    hex(b.as_slice())
}

/// A random session token: 32 random bytes as 64 lower-case hex digits.
pub fn new_token() -> (r: String)
    ensures
        exists|b: Seq<u8>| b.len() == 32 && r@ == hex_spec(b),
        r@.len() == 64,
        forall|i: int| 0 <= i < r@.len() ==> is_lower_hex(#[trigger] r@[i]),
{
    let b = os_random_bytes(32);
    proof {
        lemma_hex_shape(b@);
    }
    hex(b.as_slice())
}

/// The file name of a user's own data database: `data-{id}.db`.
pub open spec fn data_file_name(user_id: Seq<char>) -> Seq<char> {
    seq!['d', 'a', 't', 'a', '-'] + user_id + seq!['.', 'd', 'b']
}

/// The file name of the data database of the user with id `user_id`.
pub fn user_data_file_name(user_id: &str) -> (r: String)
    ensures
        r@ == data_file_name(user_id@),
{
    let mut r = String::new();
    push_char(&mut r, 'd');
    push_char(&mut r, 'a');
    push_char(&mut r, 't');
    push_char(&mut r, 'a');
    push_char(&mut r, '-');
    r.append(user_id);
    push_char(&mut r, '.');
    push_char(&mut r, 'd');
    push_char(&mut r, 'b');
    assert(r@ =~= data_file_name(user_id@));
    r
}

/// Different users get different data files: the per-user file boundary
/// that keeps one user's mail out of another's reach.
pub proof fn law_data_files_are_distinct(a: Seq<char>, b: Seq<char>)
    requires
        a != b,
    ensures
        data_file_name(a) != data_file_name(b),
{
    if data_file_name(a) == data_file_name(b) {
        assert(data_file_name(a).len() == a.len() + 8);
        assert(a.len() == b.len());
        assert(data_file_name(a).subrange(5, 5 + a.len() as int) =~= a);
        assert(data_file_name(b).subrange(5, 5 + b.len() as int) =~= b);
    }
}

} // verus!
