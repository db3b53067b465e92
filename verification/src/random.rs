//! Random identifier material.
//!
//! Short codes are drawn from the alphanumeric alphabet; user, session
//! and ownership identifiers are drawn from the URL-safe alphabet.
//! Nothing is promised about which string comes back — only its length
//! and alphabet — so every caller is verified for all possible draws.

use rand::Rng;
use vstd::prelude::*;

verus! {

/// Whether `c` is an ASCII alphanumeric character.
pub open spec fn is_alnum_char(c: char) -> bool {
    ('0' <= c && c <= '9') || ('a' <= c && c <= 'z') || ('A' <= c && c <= 'Z')
}

/// Whether `c` belongs to the URL-safe identifier alphabet.
pub open spec fn is_urlsafe_char(c: char) -> bool {
    is_alnum_char(c) || c == '_' || c == '-'
}

/// Draws a random string of exactly `length` alphanumeric characters.
///
/// Relies on rand's `Alphanumeric` distribution: every sampled byte is
/// one of the 62 ASCII alphanumeric characters, and `take(length)`
/// yields exactly `length` of them.
#[verifier::external_body]
pub fn get_random_string(length: usize) -> (r: String)
    ensures
        r@.len() == length,
        forall|i: int| 0 <= i < r@.len() ==> is_alnum_char(#[trigger] r@[i]),
{
    rand::thread_rng()
        .sample_iter(&rand::distributions::Alphanumeric)
        .take(length)
        .map(char::from)
        .collect()
}

/// Draws a random identifier of exactly `length` URL-safe characters.
///
/// Relies on nanoid's `format` with its URL-safe alphabet: the result
/// holds exactly `length` characters, each taken from that 64-symbol
/// alphabet.  `format` loops until it has gathered `length` symbols,
/// so a length of zero is excluded.
#[verifier::external_body]
pub(crate) fn nanoid_string(length: usize) -> (r: String)
    requires
        1 <= length,
    ensures
        r@.len() == length,
        forall|i: int| 0 <= i < r@.len() ==> is_urlsafe_char(#[trigger] r@[i]),
{
    nanoid::format(nanoid::rngs::default, &nanoid::alphabet::SAFE, length)
}

/// Every URL-safe character is ASCII.
pub proof fn lemma_urlsafe_is_ascii(s: Seq<char>)
    requires
        forall|i: int| 0 <= i < s.len() ==> is_urlsafe_char(#[trigger] s[i]),
    ensures
        vstd::utf8::is_ascii_chars(s),
{
}

} // verus!
