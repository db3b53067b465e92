//! Explicit configuration for the core.
//!
//! The salt length, the short-code length and the session lifetime are
//! threaded into each operation as a value instead of being read from
//! the process environment, so behaviour is reproducible and testable.

use vstd::prelude::*;

verus! {

/// Length in characters of the unpadded base64 encoding of `n` bytes.
pub open spec fn b64_nopad_len(n: int) -> int {
    (4 * n + 2) / 3
}

/// The configuration consumed by the core operations.
pub struct Config {
    /// Number of random characters drawn as raw material for a fresh
    /// salt.  The stored salt is their base64 encoding, so the salt
    /// length is fixed by this value.
    pub nano_length: usize,
    /// Length in characters of a generated short code.
    pub wink_length: usize,
    /// Seconds a session stays valid after login.
    pub session_lifetime: i64,
}

impl Config {
    /// The supported configuration range.  The salt raw material must
    /// decode to at least 8 bytes for the hashing primitive and encode
    /// to at most 64 characters for the salt-string format; code
    /// length and session lifetime must be positive.
    pub open spec fn wf(self) -> bool {
        &&& 8 <= self.nano_length <= 48
        &&& 1 <= self.wink_length
        &&& 1 <= self.session_lifetime
    }

    /// Length in characters of every stored salt under this
    /// configuration.  Verification extracts exactly this many
    /// characters from the end of a stored credential, so it must
    /// never change across a dataset's lifetime.
    pub open spec fn salt_length(self) -> int {
        b64_nopad_len(self.nano_length as int)
    }

    /// Computes the salt length of this configuration.
    pub fn salt_length_exec(&self) -> (n: usize)
        requires
            self.wf(),
        ensures
            n == self.salt_length(),
    {
        (4 * self.nano_length + 2) / 3
    }

    /// The stock configuration: 16 raw salt characters (a salt of
    /// 22 characters), short codes of length 8, sessions of 24 hours.
    pub fn standard() -> (c: Config)
        ensures
            c.wf(),
            c.nano_length == 16,
            c.wink_length == 8,
            c.session_lifetime == 86400,
            c.salt_length() == 22,
    {
        Config { nano_length: 16, wink_length: 8, session_lifetime: 86400 }
    }
}

} // verus!
