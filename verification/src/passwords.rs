//! The password of the panel.

use crate::digest::{constant_time_equal, hex, hex_of, same_secret, sha256, sha256_of};
use crate::text::{cat, chars_of, first_index, part_of, split_once, starts_with};
use argon2::password_hash::{PasswordHash, PasswordHasher, PasswordVerifier, SaltString};
use vstd::prelude::*;
use vstd::string::*;
use vstd::utf8::encode_utf8;

verus! {

/// How a hash of the current format begins.
pub const PASSWORD_HASH_PREFIX: &'static str = "argon2id$";

/// The longest password, in bytes, that can be hashed.
pub const MAX_PASSWORD_BYTES: u64 = 0xffff_ffff;

/// Whether Argon2 accepts a password for a hash that is written as a PHC string; a text
/// that is none accepts no password.
pub uninterp spec fn argon2_accepts(password: Seq<u8>, phc: Seq<char>) -> bool;

/// Whether a text begins as a PHC string does.
pub open spec fn begins_as_phc(text: Seq<char>) -> bool {
    text.len() > 0 && text[0] == '$'
}

/// `argon2::Argon2` with its default parameters hashes a password under a salt that
/// `SaltString::generate` draws from the system's random source. Under such a salt it
/// fails on a password that is too long, and on no other. What it gives is a PHC string,
/// which begins with a dollar sign, and is accepted for the password. Which salt was
/// drawn is not said, so two hashes of one password may differ.
#[verifier::external_body]
fn argon2_hash(password: &[u8]) -> (r: Option<String>)
    ensures
        r is Some <==> password@.len() <= MAX_PASSWORD_BYTES,
        r is Some ==> begins_as_phc(r->0@) && argon2_accepts(password@, r->0@),
{
    let salt = SaltString::generate(&mut password_hash::rand_core::OsRng);
    match argon2::Argon2::default().hash_password(password, &salt) {
        Ok(hash) => Some(hash.to_string()),
        Err(_) => None,
    }
}

/// `argon2::Argon2` verifies a password against a hash that `PasswordHash::new` reads
/// from a PHC string; a text that is none is not accepted, and no text is one that does
/// not begin with a dollar sign.
#[verifier::external_body]
fn argon2_verify(password: &[u8], phc: &str) -> (r: bool)
    ensures
        r == argon2_accepts(password@, phc@),
        r ==> begins_as_phc(phc@),
{
    match PasswordHash::new(phc) {
        Ok(hash) => argon2::Argon2::default().verify_password(password, &hash).is_ok(),
        Err(_) => false,
    }
}

/// Whether a text is what hashing a password gives: a hash of the current format that is
/// accepted for it. Where the password is too long to be hashed, it is one that is
/// accepted for none.
pub open spec fn hash_of(stored: Seq<char>, password: Seq<char>) -> bool {
    if encode_utf8(password).len() <= MAX_PASSWORD_BYTES {
        password_accepted(password, stored) && !outdated(stored)
    } else {
        stored == "argon2id$!hashing-failed"@
    }
}

/// A hash as it is stored, given what hashing gave: a failure is stored as a hash that
/// never verifies, since an empty text would mean that there is no password.
pub fn stored_hash(hashed: Option<String>) -> (r: String)
    ensures
        r@ == (match hashed {
            Some(phc) => PASSWORD_HASH_PREFIX@ + phc@,
            None => "argon2id$!hashing-failed"@,
        }),
{
    match hashed {
        Some(phc) => cat(PASSWORD_HASH_PREFIX, &phc),
        None => "argon2id$!hashing-failed".to_owned(),
    }
}

/// Hashes a password under a fresh salt.
pub fn hash_password(password: &str) -> (r: String)
    ensures
        hash_of(r@, password@),
{
    let hashed = argon2_hash(password.as_bytes());
    let r = stored_hash(hashed);
    proof {
        if hashed is Some {
            assert(r@.skip(PASSWORD_HASH_PREFIX@.len() as int) =~= hashed->0@);
            assert(PASSWORD_HASH_PREFIX@.is_prefix_of(r@));
        }
    }
    r
}

/// Whether a hash is of an older format and is replaced at the next login.
pub open spec fn outdated(stored: Seq<char>) -> bool {
    !PASSWORD_HASH_PREFIX@.is_prefix_of(stored)
}

/// Whether a hash is of an older format.
pub fn password_hash_needs_upgrade(stored_hash: &str) -> (r: bool)
    ensures
        r == outdated(stored_hash@),
{
    !starts_with(stored_hash, PASSWORD_HASH_PREFIX)
}

/// Whether a password is accepted for a hash of the older format: a salt, a dollar sign,
/// and the digest of salt, colon and password.
pub open spec fn legacy_accepts(password: Seq<char>, stored: Seq<char>) -> bool {
    let cut = first_index(stored, '$');
    &&& cut < stored.len()
    &&& same_secret(
        encode_utf8(
            hex_of(
                sha256_of(encode_utf8(stored.take(cut)) + encode_utf8(":"@) + encode_utf8(password)),
            ),
        ),
        encode_utf8(stored.skip(cut + 1)),
    )
}

/// Whether a password is accepted for a stored hash.
pub open spec fn password_accepted(password: Seq<char>, stored: Seq<char>) -> bool {
    if outdated(stored) {
        legacy_accepts(password, stored)
    } else {
        let phc = stored.skip(PASSWORD_HASH_PREFIX@.len() as int);
        begins_as_phc(phc) && argon2_accepts(encode_utf8(password), phc)
    }
}

/// Whether a password is accepted for a hash of the older format.
pub fn verify_legacy_password(password: &str, stored_hash: &str) -> (r: bool)
    ensures
        r == legacy_accepts(password@, stored_hash@),
{
    let (salt, expected) = match split_once(stored_hash, '$') {
        Some(parts) => parts,
        None => return false,
    };
    let mut bytes: Vec<u8> = salt.as_str().as_bytes_vec();
    let mut colon: Vec<u8> = ":".as_bytes_vec();
    let mut rest: Vec<u8> = password.as_bytes_vec();
    bytes.append(&mut colon);
    bytes.append(&mut rest);
    let calculated = hex(&sha256(&bytes));
    constant_time_equal(calculated.as_str().as_bytes(), expected.as_str().as_bytes())
}

/// Whether a password is accepted for a stored hash.
pub fn verify_password(password: &str, stored_hash: &str) -> (r: bool)
    ensures
        r == password_accepted(password@, stored_hash@),
{
    if starts_with(stored_hash, PASSWORD_HASH_PREFIX) {
        let chars = chars_of(stored_hash);
        let cut = PASSWORD_HASH_PREFIX.unicode_len();
        let phc = part_of(&chars, cut, chars.len());
        assert(phc@ =~= stored_hash@.skip(cut as int));
        return argon2_verify(password.as_bytes(), &phc);
    }
    verify_legacy_password(password, stored_hash)
}

/// What hashing a password gives is accepted for it and needs no upgrade.
pub proof fn hashed_passwords_are_accepted(password: Seq<char>, stored: Seq<char>)
    requires
        hash_of(stored, password),
        encode_utf8(password).len() <= MAX_PASSWORD_BYTES,
    ensures
        password_accepted(password, stored),
        !outdated(stored),
{
}

/// What is stored where hashing failed is accepted for no password, is not replaced at a
/// login, and is not empty.
pub proof fn failed_hashes_accept_no_password(password: Seq<char>)
    ensures
        !password_accepted(password, "argon2id$!hashing-failed"@),
        !outdated("argon2id$!hashing-failed"@),
        "argon2id$!hashing-failed"@.len() > 0,
{
    reveal_strlit("argon2id$!hashing-failed");
    reveal_strlit("argon2id$");
    let stored = "argon2id$!hashing-failed"@;
    assert(stored.take(9) =~= PASSWORD_HASH_PREFIX@);
    assert(PASSWORD_HASH_PREFIX@.is_prefix_of(stored));
    assert(stored.skip(9)[0] == '!');
}

/// A hash of the older format accepts the password that it was made of: its salt, a dollar sign,
/// and the digest of the salt, a colon and the password.
pub proof fn older_hashes_accept_their_password(salt: Seq<char>, password: Seq<char>)
    requires
        !salt.contains('$'),
    ensures
        legacy_accepts(
            password,
            salt + seq!['$'] + hex_of(
                sha256_of(encode_utf8(salt) + encode_utf8(seq![':']) + encode_utf8(password)),
            ),
        ),
        !legacy_accepts(password, salt),
{
    reveal_strlit(":");
    assert(":"@ =~= seq![':']);
    let digest = hex_of(
        sha256_of(encode_utf8(salt) + encode_utf8(seq![':']) + encode_utf8(password)),
    );
    let stored = salt + seq!['$'] + digest;
    crate::text::first_index_is(stored, '$');
    assert(stored[salt.len() as int] == '$');
    assert forall|j: int| 0 <= j < salt.len() implies stored[j] != '$' by {
        assert(stored[j] == salt[j]);
        assert(salt.contains(salt[j]));
    }
    assert(first_index(stored, '$') == salt.len());
    assert(stored.take(salt.len() as int) =~= salt);
    assert(stored.skip(salt.len() as int + 1) =~= digest);
    crate::digest::same_secret_accepts_equals(encode_utf8(digest));
    crate::text::first_index_is(salt, '$');
    if first_index(salt, '$') < salt.len() {
        assert(salt.contains(salt[first_index(salt, '$')]));
    }
}

/// A password that is too long to be hashed gets a hash that accepts nobody.
pub proof fn overlong_passwords_accept_nobody(
    stored: Seq<char>,
    password: Seq<char>,
    other: Seq<char>,
)
    requires
        hash_of(stored, password),
        encode_utf8(password).len() > MAX_PASSWORD_BYTES,
    ensures
        !password_accepted(other, stored),
{
    failed_hashes_accept_no_password(other);
}

} // verus!
