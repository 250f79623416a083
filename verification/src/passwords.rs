//! Argon2 password hashing for login accounts.

use argon2::password_hash::rand_core::OsRng;
use argon2::password_hash::{PasswordHash, PasswordHasher, PasswordVerifier, SaltString};
use argon2::Argon2;
use vstd::prelude::*;
use vstd::utf8::encode_utf8;

verus! {

#[verifier::external_type_specification]
#[verifier::external_body]
pub struct ExSaltString(SaltString);

/// What `Argon2::default().verify_password` says of `password` against the
/// PHC string `phc`: `None` when `PasswordHash::new` does not parse `phc`,
/// otherwise whether the password matches.
pub uninterp spec fn argon2_outcome(password: Seq<char>, phc: Seq<char>) -> Option<bool>;

/// Whether `password` matches the stored hash `phc`.
pub open spec fn password_matches(password: Seq<char>, phc: Seq<char>) -> bool {
    argon2_outcome(password, phc) == Some(true)
}

/// The longest password, in bytes, that Argon2 hashes (`argon2::MAX_PWD_LEN`).
pub open spec fn max_password_bytes() -> nat {
    0xFFFF_FFFF
}

/// `SaltString::generate(&mut OsRng)`. Nothing is claimed of the salt: it is
/// random.
#[verifier::external_body]
fn generate_salt() -> SaltString {
    SaltString::generate(&mut OsRng)
}

/// `Argon2::default().hash_password(password, salt)` as a PHC string.
/// Claimed: verifying the same password against the result succeeds (the
/// verifier recomputes the hash with the parameters and salt the string
/// records). Below the length limit Argon2 returns `Ok`.
#[verifier::external_body]
fn argon2_hash(password: &str, salt: &SaltString) -> (r: String)
    requires
        encode_utf8(password@).len() <= max_password_bytes(),
    ensures
        argon2_outcome(password@, r@) == Some(true),
{
    Argon2::default().hash_password(password.as_bytes(), salt).expect("hashing failed").to_string()
}

/// `PasswordHash::new(phc)` followed by `Argon2::default().verify_password`.
/// Claimed: the result is the named answer.
#[verifier::external_body]
fn argon2_verify(password: &str, phc: &str) -> (r: Option<bool>)
    ensures
        r == argon2_outcome(password@, phc@),
{
    match PasswordHash::new(phc) {
        Ok(parsed) => Some(Argon2::default().verify_password(password.as_bytes(), &parsed).is_ok()),
        Err(_) => None,
    }
}

/// Hashes `password` with Argon2 and a fresh random salt, as a PHC string.
/// The password verifies against the hash.
pub fn hash_password(password: &str) -> (r: String)
    requires
        encode_utf8(password@).len() <= max_password_bytes(),
    ensures
        password_matches(password@, r@),
{
    let salt = generate_salt();
    argon2_hash(password, &salt)
}

/// Whether `password` matches the PHC string `hash`; a hash that does not
/// parse matches nothing.
pub fn verify_password(password: &str, hash: &str) -> (r: bool)
    ensures
        r == password_matches(password@, hash@),
{
    match argon2_verify(password, hash) {
        Some(ok) => ok,
        None => false,
    }
}

} // verus!
