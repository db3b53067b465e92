//! URL normalization for the link registry.
//!
//! A stored target URL always carries an explicit scheme: inputs that
//! already begin with `http://` or `https://` pass through unchanged,
//! and `https://` is prepended to everything else.  Normalization is
//! pure and total; it makes no attempt to validate the URL beyond the
//! scheme prefix.

use vstd::prelude::*;

verus! {

/// The characters of the scheme prefix `http://`.
pub open spec fn http_prefix() -> Seq<char> {
    "http://"@
}

/// The characters of the scheme prefix `https://`.
pub open spec fn https_prefix() -> Seq<char> {
    "https://"@
}

/// Whether `s` begins with the characters of `prefix`.
pub open spec fn starts_with(s: Seq<char>, prefix: Seq<char>) -> bool {
    prefix.len() <= s.len() && s.take(prefix.len() as int) == prefix
}

/// What normalization returns: the input unchanged when it already
/// carries an explicit scheme, and the input behind `https://`
/// otherwise.
pub open spec fn normalize_url(s: Seq<char>) -> Seq<char> {
    if starts_with(s, http_prefix()) || starts_with(s, https_prefix()) {
        s
    } else {
        https_prefix() + s
    }
}

/// Compares two string slices character by character.
pub(crate) fn str_eq(a: &str, b: &str) -> (r: bool)
    ensures
        r == (a@ == b@),
{
    let s1: String = a.to_owned();
    let s2: String = b.to_owned();
    s1 == s2
}

/// Normalizes a raw URL so that it always carries an explicit scheme.
pub fn parse_url(url: &str) -> (r: String)
    ensures
        r@ == normalize_url(url@),
{
    proof {
        reveal_strlit("http://");
        reveal_strlit("https://");
    }
    let len = url.unicode_len();
    let has_http = len >= 7 && str_eq(url.substring_char(0, 7), "http://");
    let has_https = len >= 8 && str_eq(url.substring_char(0, 8), "https://");
    if has_http || has_https {
        url.to_owned()
    } else {
        let mut r = String::from_str("https://");
        r.append(url);
        r
    }
}

/// Normalization is idempotent: normalizing a normalized URL changes
/// nothing.
pub proof fn lemma_normalize_idempotent(s: Seq<char>)
    ensures
        normalize_url(normalize_url(s)) == normalize_url(s),
{
    reveal_strlit("http://");
    reveal_strlit("https://");
    if !(starts_with(s, http_prefix()) || starts_with(s, https_prefix())) {
        let t = https_prefix() + s;
        assert(t.take(https_prefix().len() as int) =~= https_prefix());
    }
}

} // verus!
