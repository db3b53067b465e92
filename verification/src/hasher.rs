//! Salted credential hashing and verification.
//!
//! The store has a single text column for credentials, so the digest
//! and the salt are packed into one string with no delimiter: the
//! digest first, then a salt of the configured fixed length.
//! Verification extracts the fixed-width suffix as the salt, recomputes
//! the digest from the candidate password under it, and compares the
//! recomputed digest with the rest of the stored string.

use vstd::prelude::*;
use vstd::string::*;

use crate::config::{b64_nopad_len, Config};
use crate::errors::WinkError;
use crate::random::{is_alnum_char, is_urlsafe_char, lemma_urlsafe_is_ascii, nanoid_string};
use crate::urls::str_eq;

verus! {

/// Whether `c` belongs to the standard base64 alphabet.
pub open spec fn is_b64_char(c: char) -> bool {
    is_alnum_char(c) || c == '+' || c == '/'
}

/// What the memory-hard hashing primitive returns for a password and a
/// base64 salt string: the base64 digest where the inputs are
/// accepted, nothing where they are rejected.  With fixed default
/// parameters the outcome is a function of the two arguments alone.
pub uninterp spec fn argon2_result(password: Seq<char>, salt: Seq<char>) -> Option<Seq<char>>;

/// The unpadded standard base64 encoding of the bytes of an ASCII
/// string.  Meaningful only for ASCII inputs, where characters and
/// bytes correspond one to one.
pub uninterp spec fn b64_nopad_of(s: Seq<char>) -> Seq<char>;

/// Whether `salt` is the unpadded base64 encoding of some ASCII raw
/// material of exactly `n` characters.
pub open spec fn encoded_salt_of_len(salt: Seq<char>, n: int) -> bool {
    exists|raw: Seq<char>|
        raw.len() == n && vstd::utf8::is_ascii_chars(raw) && salt == #[trigger] b64_nopad_of(raw)
}

/// Whether `salt` is a salt the hashing primitive accepts by
/// construction: a genuine unpadded base64 encoding of 8 to 48 bytes.
/// (An arbitrary string over the base64 alphabet is not enough: the
/// salt is base64-decoded with a strict decoder that refuses
/// non-canonical trailing bits.)
pub open spec fn acceptable_salt(salt: Seq<char>) -> bool {
    exists|n: int| 8 <= n <= 48 && #[trigger] encoded_salt_of_len(salt, n)
}

/// Encodes the bytes of an ASCII string in unpadded standard base64.
///
/// Relies on base64's `STANDARD_NO_PAD` engine: encoding `n` bytes
/// yields `ceil(4n/3)` characters, each from the standard base64
/// alphabet, and no padding.
#[verifier::external_body]
fn b64_nopad(s: &str) -> (r: String)
    requires
        s.is_ascii(),
        4 * s@.len() + 2 <= usize::MAX,
    ensures
        r@ == b64_nopad_of(s@),
        r@.len() == b64_nopad_len(s@.len() as int),
        forall|i: int| 0 <= i < r@.len() ==> is_b64_char(#[trigger] r@[i]),
{
    base64::Engine::encode(&base64::engine::general_purpose::STANDARD_NO_PAD, s.as_bytes())
}

/// Derives the base64 digest of `password` under the base64 salt
/// string `salt`.
///
/// Relies on argon2's `hash_password` with default parameters, and on
/// `SaltString::from_b64`: the digest depends on the password and the
/// salt alone; every rejection — a salt outside the salt-string
/// format, a salt that does not decode as strict unpadded base64 to
/// at least 8 bytes, an oversized password — comes back as an error
/// value, never a panic.  The call is accepted whenever the password
/// is at most `0xFFFFFFFF` bytes — the premise bounds four times the
/// character count, since a UTF-8 character takes at most four bytes —
/// and the salt is a genuine base64 encoding of 8 to 48 bytes: such a
/// salt passes the salt-string length and alphabet checks and decodes
/// to its raw bytes.  The digest is the unpadded base64 encoding of
/// the default 32-byte output, hence 43 characters from the base64
/// alphabet.
#[verifier::external_body]
fn argon2_digest(password: &str, salt: &str) -> (r: Option<String>)
    ensures
        r is Some <==> argon2_result(password@, salt@) is Some,
        r is Some ==> Some(r->0@) == argon2_result(password@, salt@),
        4 * password@.len() <= 0xFFFFFFFF && acceptable_salt(salt@) ==> r is Some,
        r is Some ==> r->0@.len() == b64_nopad_len(32),
        r is Some ==> forall|i: int| 0 <= i < r->0@.len() ==> is_b64_char(#[trigger] r->0@[i]),
{
    let salt = match argon2::password_hash::SaltString::from_b64(salt) {
        Ok(s) => s,
        Err(_) => return None,
    };
    let argon = argon2::Argon2::default();
    match argon2::PasswordHasher::hash_password(&argon, password.as_bytes(), &salt) {
        Ok(hashed) => hashed.hash.map(|h| h.to_string()),
        Err(_) => None,
    }
}

/// Generates a fresh salt: the configured number of random URL-safe
/// characters, base64-encoded without padding, which fixes the salt at
/// exactly the configured salt length.
fn generate_salt(cfg: &Config) -> (r: String)
    requires
        cfg.wf(),
    ensures
        r@.len() == cfg.salt_length(),
        forall|i: int| 0 <= i < r@.len() ==> is_b64_char(#[trigger] r@[i]),
        encoded_salt_of_len(r@, cfg.nano_length as int),
{
    let raw = nanoid_string(cfg.nano_length);
    proof {
        lemma_urlsafe_is_ascii(raw@);
    }
    let r = b64_nopad(raw.as_str());
    proof {
        assert(r@ == b64_nopad_of(raw@));
    }
    r
}

/// Stateless credential hasher.
pub struct Hasher;

impl Hasher {
    /// Derives a salted digest of `password` with a fresh salt of the
    /// configured length, and returns the digest and the salt.  The
    /// caller persists them packed as digest followed by salt.
    pub fn hash(password: &str, cfg: &Config) -> (r: Result<(String, String), WinkError>)
        requires
            cfg.wf(),
        ensures
            4 * password@.len() <= 0xFFFFFFFF ==> r is Ok,
            r is Ok ==> argon2_result(password@, r->Ok_0.1@) == Some(r->Ok_0.0@),
            r is Ok ==> r->Ok_0.0@.len() == b64_nopad_len(32),
            r is Ok ==> forall|i: int|
                0 <= i < r->Ok_0.0@.len() ==> is_b64_char(#[trigger] r->Ok_0.0@[i]),
            r is Ok ==> r->Ok_0.1@.len() == cfg.salt_length(),
            r is Ok ==> forall|i: int|
                0 <= i < r->Ok_0.1@.len() ==> is_b64_char(#[trigger] r->Ok_0.1@[i]),
            r is Err ==> r->Err_0 == WinkError::StoreFailure,
    {
        let salt = generate_salt(cfg);
        proof {
            assert(acceptable_salt(salt@));
        }
        match argon2_digest(password, salt.as_str()) {
            Some(digest) => Ok((digest, salt)),
            None => Err(WinkError::StoreFailure),
        }
    }

    /// Re-derives the digest of `password` under a caller-supplied
    /// salt, as done at verification time, and echoes the salt back.
    pub fn hash_with_salt(password: &str, salt: &str) -> (r: Result<
        (String, String),
        WinkError,
    >)
        ensures
            r is Ok <==> argon2_result(password@, salt@) is Some,
            r is Ok ==> argon2_result(password@, salt@) == Some(r->Ok_0.0@),
            r is Ok ==> r->Ok_0.0@.len() == b64_nopad_len(32),
            r is Ok ==> forall|i: int|
                0 <= i < r->Ok_0.0@.len() ==> is_b64_char(#[trigger] r->Ok_0.0@[i]),
            r is Ok ==> r->Ok_0.1@ == salt@,
            r is Err ==> r->Err_0 == WinkError::InvalidCredentials,
    {
        match argon2_digest(password, salt) {
            Some(digest) => Ok((digest, salt.to_owned())),
            None => Err(WinkError::InvalidCredentials),
        }
    }
}

/// Whether the stored credential `cred` — a digest followed by a salt
/// of exactly `salt_len` characters — matches `password`: the salt is
/// the fixed-width suffix, and the digest recomputed from `password`
/// under that salt must equal the rest.  A credential shorter than the
/// salt is malformed and matches nothing.
pub open spec fn credential_matches(cred: Seq<char>, password: Seq<char>, salt_len: int) -> bool {
    &&& 0 <= salt_len <= cred.len()
    &&& argon2_result(password, cred.skip(cred.len() - salt_len)) == Some(
        cred.take(cred.len() - salt_len),
    )
}

/// Checks a candidate password against a stored credential.
pub fn verify_password(stored: &str, password: &str, salt_length: usize) -> (r: bool)
    ensures
        r == credential_matches(stored@, password@, salt_length as int),
{
    let n = stored.unicode_len();
    if n < salt_length {
        return false;
    }
    let salt = stored.substring_char(n - salt_length, n);
    let rest = stored.substring_char(0, n - salt_length);
    match argon2_digest(password, salt) {
        Some(digest) => str_eq(digest.as_str(), rest),
        None => false,
    }
}

/// A credential packed as digest-then-salt verifies against the
/// password it was derived from, whatever the salt length in use.
pub proof fn lemma_verify_roundtrip(password: Seq<char>, digest: Seq<char>, salt: Seq<char>)
    requires
        argon2_result(password, salt) == Some(digest),
    ensures
        credential_matches(digest + salt, password, salt.len() as int),
{
    let cred = digest + salt;
    assert(cred.skip(cred.len() - salt.len()) =~= salt);
    assert(cred.take(cred.len() - salt.len()) =~= digest);
}

/// A packed credential rejects every password whose recomputed digest
/// differs from the stored one.
pub proof fn lemma_verify_mismatch(password: Seq<char>, digest: Seq<char>, salt: Seq<char>)
    requires
        argon2_result(password, salt) != Some(digest),
    ensures
        !credential_matches(digest + salt, password, salt.len() as int),
{
    let cred = digest + salt;
    assert(cred.skip(cred.len() - salt.len()) =~= salt);
    assert(cred.take(cred.len() - salt.len()) =~= digest);
}

} // verus!
