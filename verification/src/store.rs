//! The in-memory model of the persistent store and every core
//! operation on it.
//!
//! Four tables are modelled as plain vectors: users, sessions, winks
//! (short code, target URL, hit counter) and ownership rows.  The
//! store's well-formedness keeps short codes, session identifiers,
//! user identifiers and user emails unique.  Each operation mutates
//! the store in one call, so a read-then-increment never interleaves
//! with another operation on the same store value.

use vstd::prelude::*;

use crate::config::Config;
use crate::errors::WinkError;
use crate::hasher::{
    argon2_result, credential_matches, lemma_verify_roundtrip, verify_password, Hasher,
};
use crate::random::{get_random_string, is_alnum_char, nanoid_string};
use crate::urls::{normalize_url, parse_url, str_eq};

verus! {

/// How many times a random identifier draw is retried when it
/// collides with a stored one before the operation gives up.
pub const MAX_DRAW_ATTEMPTS: usize = 16;

/// Length in characters of a generated user, session or ownership
/// identifier.
pub const ID_LENGTH: usize = 21;

/// A stored link: short code, target URL and hit counter.
#[derive(Debug)]
pub struct Wink {
    /// The short code, the lookup key of the link.
    pub name: String,
    /// The normalized target URL.
    pub url: String,
    /// How many times the link has been resolved.
    pub hit_counter: u64,
}

impl Clone for Wink {
    /// Copies the record field for field.
    fn clone(&self) -> (r: Self)
        ensures
            r == *self,
    {
        Wink { name: self.name.clone(), url: self.url.clone(), hit_counter: self.hit_counter }
    }
}

/// A stored user account.
pub struct User {
    /// Opaque unique identifier.
    pub id: String,
    /// Unique email address.
    pub email: String,
    /// Packed credential: digest followed by the fixed-length salt.
    pub credential: String,
}

/// A stored session record.
pub struct Session {
    /// Opaque unique identifier, handed to the caller as a bearer
    /// token.
    pub id: String,
    /// The user the session belongs to.
    pub user_id: String,
    /// The instant the session stops validating, in seconds.
    pub expires: i64,
}

/// A stored ownership row linking a user to a short code.
pub struct Ownership {
    /// Opaque row identifier.
    pub id: String,
    /// The owning user.
    pub user_id: String,
    /// The owned short code.
    pub wink_name: String,
}

/// Whether some wink in `winks` carries the short code `name`.
pub open spec fn has_wink(winks: Seq<Wink>, name: Seq<char>) -> bool {
    exists|i: int| 0 <= i < winks.len() && (#[trigger] winks[i]).name@ == name
}

/// The index of the wink carrying `name`; meaningful only under
/// unique short codes.
pub open spec fn wink_index(winks: Seq<Wink>, name: Seq<char>) -> int {
    choose|i: int| 0 <= i < winks.len() && (#[trigger] winks[i]).name@ == name
}

/// The wink carrying `name`.
pub open spec fn wink_at(winks: Seq<Wink>, name: Seq<char>) -> Wink {
    winks[wink_index(winks, name)]
}

/// Whether all short codes in `winks` differ.
pub open spec fn unique_wink_names(winks: Seq<Wink>) -> bool {
    forall|i: int, j: int|
        #![trigger winks[i], winks[j]]
        0 <= i < j < winks.len() ==> winks[i].name@ != winks[j].name@
}

/// Whether some session in `sessions` carries the identifier `id`.
pub open spec fn has_session(sessions: Seq<Session>, id: Seq<char>) -> bool {
    exists|i: int| 0 <= i < sessions.len() && (#[trigger] sessions[i]).id@ == id
}

/// The index of the session carrying `id`; meaningful only under
/// unique session identifiers.
pub open spec fn session_index(sessions: Seq<Session>, id: Seq<char>) -> int {
    choose|i: int| 0 <= i < sessions.len() && (#[trigger] sessions[i]).id@ == id
}

/// The session carrying `id`.
pub open spec fn session_at(sessions: Seq<Session>, id: Seq<char>) -> Session {
    sessions[session_index(sessions, id)]
}

/// Whether all session identifiers in `sessions` differ.
pub open spec fn unique_session_ids(sessions: Seq<Session>) -> bool {
    forall|i: int, j: int|
        #![trigger sessions[i], sessions[j]]
        0 <= i < j < sessions.len() ==> sessions[i].id@ != sessions[j].id@
}

/// Whether some user in `users` carries the email `email`.
pub open spec fn has_user_email(users: Seq<User>, email: Seq<char>) -> bool {
    exists|i: int| 0 <= i < users.len() && (#[trigger] users[i]).email@ == email
}

/// The index of the user carrying `email`; meaningful only under
/// unique emails.
pub open spec fn user_email_index(users: Seq<User>, email: Seq<char>) -> int {
    choose|i: int| 0 <= i < users.len() && (#[trigger] users[i]).email@ == email
}

/// The user carrying `email`.
pub open spec fn user_by_email(users: Seq<User>, email: Seq<char>) -> User {
    users[user_email_index(users, email)]
}

/// Whether some user in `users` carries the identifier `id`.
pub open spec fn has_user_id(users: Seq<User>, id: Seq<char>) -> bool {
    exists|i: int| 0 <= i < users.len() && (#[trigger] users[i]).id@ == id
}

/// Whether all user identifiers in `users` differ.
pub open spec fn unique_user_ids(users: Seq<User>) -> bool {
    forall|i: int, j: int|
        #![trigger users[i], users[j]]
        0 <= i < j < users.len() ==> users[i].id@ != users[j].id@
}

/// Whether all user emails in `users` differ.
pub open spec fn unique_user_emails(users: Seq<User>) -> bool {
    forall|i: int, j: int|
        #![trigger users[i], users[j]]
        0 <= i < j < users.len() ==> users[i].email@ != users[j].email@
}

/// The in-memory store.
pub struct Store {
    /// User accounts.
    pub users: Vec<User>,
    /// Session records; expired ones stay until revoked.
    pub sessions: Vec<Session>,
    /// Stored links.
    pub winks: Vec<Wink>,
    /// Ownership rows.
    pub ownerships: Vec<Ownership>,
}

/// The registry after a successful link insertion: one wink appended
/// carrying `name`, the normalized URL and a zero hit counter, with
/// everything else untouched.
pub open spec fn wink_inserted(pre: Store, post: Store, name: Seq<char>, url_raw: Seq<char>) -> bool {
    &&& !has_wink(pre.winks@, name)
    &&& post.winks@.len() == pre.winks@.len() + 1
    &&& post.winks@.drop_last() == pre.winks@
    &&& post.winks@.last().name@ == name
    &&& post.winks@.last().url@ == normalize_url(url_raw)
    &&& post.winks@.last().hit_counter == 0
    &&& post.users == pre.users
    &&& post.sessions == pre.sessions
    &&& post.ownerships == pre.ownerships
}

/// The registry after a successful resolution of `name`: that wink's
/// hit counter went up by exactly one, and nothing else moved.
pub open spec fn wink_resolved(pre: Store, post: Store, name: Seq<char>) -> bool {
    &&& has_wink(pre.winks@, name)
    &&& wink_at(pre.winks@, name).hit_counter < u64::MAX
    &&& post.winks@ == pre.winks@.update(
        wink_index(pre.winks@, name),
        (Wink {
            name: wink_at(pre.winks@, name).name,
            url: wink_at(pre.winks@, name).url,
            hit_counter: (wink_at(pre.winks@, name).hit_counter + 1) as u64,
        }),
    )
    &&& post.users == pre.users
    &&& post.sessions == pre.sessions
    &&& post.ownerships == pre.ownerships
}

/// The user the store validates for bearer identifier `id` at
/// instant `now`: the owning user where a record with that identifier
/// exists and has not expired, nothing otherwise.  A missing record
/// and an expired record are indistinguishable to the caller.
pub open spec fn validate_spec(sessions: Seq<Session>, id: Seq<char>, now: i64) -> Option<
    Seq<char>,
> {
    if has_session(sessions, id) && session_at(sessions, id).expires > now {
        Some(session_at(sessions, id).user_id@)
    } else {
        None
    }
}

/// The store after a successful session insertion: one session
/// appended with the given identifier, user and expiry instant, and
/// everything else untouched.
pub open spec fn session_inserted(
    pre: Store,
    post: Store,
    id: Seq<char>,
    user_id: Seq<char>,
    expires: i64,
) -> bool {
    &&& !has_session(pre.sessions@, id)
    &&& post.sessions@.len() == pre.sessions@.len() + 1
    &&& post.sessions@.drop_last() == pre.sessions@
    &&& post.sessions@.last().id@ == id
    &&& post.sessions@.last().user_id@ == user_id
    &&& post.sessions@.last().expires == expires
    &&& post.users == pre.users
    &&& post.winks == pre.winks
    &&& post.ownerships == pre.ownerships
}

/// Whether the store accepts a login of `email` with `password`: some
/// user carries the email and the stored credential matches the
/// password under the configured salt length.
pub open spec fn login_accepted(
    store: Store,
    email: Seq<char>,
    password: Seq<char>,
    cfg: Config,
) -> bool {
    &&& has_user_email(store.users@, email)
    &&& credential_matches(
        user_by_email(store.users@, email).credential@,
        password,
        cfg.salt_length(),
    )
}

/// Whether `cred` is `password`'s digest under `salt` followed by
/// `salt` itself, with the salt at the configured length.
pub open spec fn credential_packed(
    cred: Seq<char>,
    password: Seq<char>,
    salt: Seq<char>,
    cfg: Config,
) -> bool {
    &&& salt.len() == cfg.salt_length()
    &&& argon2_result(password, salt) is Some
    &&& cred == argon2_result(password, salt)->0 + salt
}

/// Whether `cred` is a correctly packed credential for `password`
/// under some salt of the configured length.
pub open spec fn credential_for(cred: Seq<char>, password: Seq<char>, cfg: Config) -> bool {
    exists|salt: Seq<char>| #[trigger] credential_packed(cred, password, salt, cfg)
}

/// The store after a successful signup: one user appended with a
/// fresh identifier, the given email and a packed credential for the
/// password, and everything else untouched.
pub open spec fn user_signed_up(
    pre: Store,
    post: Store,
    uid: Seq<char>,
    email: Seq<char>,
    password: Seq<char>,
    cfg: Config,
) -> bool {
    &&& !has_user_email(pre.users@, email)
    &&& !has_user_id(pre.users@, uid)
    &&& uid.len() == ID_LENGTH
    &&& post.users@.len() == pre.users@.len() + 1
    &&& post.users@.drop_last() == pre.users@
    &&& post.users@.last().id@ == uid
    &&& post.users@.last().email@ == email
    &&& credential_for(post.users@.last().credential@, password, cfg)
    &&& post.sessions == pre.sessions
    &&& post.winks == pre.winks
    &&& post.ownerships == pre.ownerships
}

/// Whether `ownerships` links `user_id` to the short code `name`.
pub open spec fn owns(ownerships: Seq<Ownership>, user_id: Seq<char>, name: Seq<char>) -> bool {
    exists|i: int|
        0 <= i < ownerships.len() && (#[trigger] ownerships[i]).user_id@ == user_id
            && ownerships[i].wink_name@ == name
}

/// The store after an ownership row was added linking `user_id` to
/// `name`: one row appended with a fresh identifier, everything else
/// untouched.
pub open spec fn ownership_added(
    pre: Store,
    post: Store,
    user_id: Seq<char>,
    name: Seq<char>,
) -> bool {
    &&& post.ownerships@.len() == pre.ownerships@.len() + 1
    &&& post.ownerships@.drop_last() == pre.ownerships@
    &&& post.ownerships@.last().user_id@ == user_id
    &&& post.ownerships@.last().wink_name@ == name
    &&& post.ownerships@.last().id@.len() == ID_LENGTH
    &&& post.users == pre.users
    &&& post.sessions == pre.sessions
    &&& post.winks == pre.winks
}

/// The view of an optional borrowed session identifier.
pub open spec fn opt_view(o: Option<&str>) -> Option<Seq<char>> {
    match o {
        None => None,
        Some(s) => Some(s@),
    }
}

/// What linking ownership leaves behind: without a session, or with
/// one that is unknown or expired, nothing at all — never an error —
/// and one ownership row for the session's user otherwise.
pub open spec fn ownership_outcome(
    pre: Store,
    post: Store,
    name: Seq<char>,
    session_id: Option<Seq<char>>,
    now: i64,
) -> bool {
    match session_id {
        None => post == pre,
        Some(sid) => match validate_spec(pre.sessions@, sid, now) {
            None => post == pre,
            Some(uid) => ownership_added(pre, post, uid, name),
        },
    }
}

/// The winks of `winks` owned by `user_id` according to `ownerships`,
/// in stored order.
pub open spec fn owned_winks(
    winks: Seq<Wink>,
    ownerships: Seq<Ownership>,
    user_id: Seq<char>,
) -> Seq<Wink>
    decreases winks.len(),
{
    if winks.len() == 0 {
        Seq::empty()
    } else {
        let rest = owned_winks(winks.drop_last(), ownerships, user_id);
        if owns(ownerships, user_id, winks.last().name@) {
            rest.push(winks.last())
        } else {
            rest
        }
    }
}

/// Under unique short codes, an index holding `name` is the index
/// `wink_index` denotes.
pub proof fn lemma_wink_index(winks: Seq<Wink>, name: Seq<char>, i: int)
    requires
        unique_wink_names(winks),
        0 <= i < winks.len(),
        winks[i].name@ == name,
    ensures
        has_wink(winks, name),
        wink_index(winks, name) == i,
{
    assert(has_wink(winks, name));
    let j = wink_index(winks, name);
    if i < j {
        assert(winks[i].name@ != winks[j].name@);
    } else if j < i {
        assert(winks[j].name@ != winks[i].name@);
    }
}

/// Under unique session identifiers, an index holding `id` is the
/// index `session_index` denotes.
pub proof fn lemma_session_index(sessions: Seq<Session>, id: Seq<char>, i: int)
    requires
        unique_session_ids(sessions),
        0 <= i < sessions.len(),
        sessions[i].id@ == id,
    ensures
        has_session(sessions, id),
        session_index(sessions, id) == i,
{
    assert(has_session(sessions, id));
    let j = session_index(sessions, id);
    if i < j {
        assert(sessions[i].id@ != sessions[j].id@);
    } else if j < i {
        assert(sessions[j].id@ != sessions[i].id@);
    }
}

/// Under unique emails, an index holding `email` is the index
/// `user_email_index` denotes.
pub proof fn lemma_user_email_index(users: Seq<User>, email: Seq<char>, i: int)
    requires
        unique_user_emails(users),
        0 <= i < users.len(),
        users[i].email@ == email,
    ensures
        has_user_email(users, email),
        user_email_index(users, email) == i,
{
    assert(has_user_email(users, email));
    let j = user_email_index(users, email);
    if i < j {
        assert(users[i].email@ != users[j].email@);
    } else if j < i {
        assert(users[j].email@ != users[i].email@);
    }
}

impl Store {
    /// All four uniqueness invariants of the store.
    pub open spec fn wf(self) -> bool {
        &&& unique_wink_names(self.winks@)
        &&& unique_session_ids(self.sessions@)
        &&& unique_user_ids(self.users@)
        &&& unique_user_emails(self.users@)
    }

    /// Creates an empty store.
    pub fn new() -> (s: Store)
        ensures
            s.wf(),
            s.users@.len() == 0,
            s.sessions@.len() == 0,
            s.winks@.len() == 0,
            s.ownerships@.len() == 0,
    {
        Store { users: Vec::new(), sessions: Vec::new(), winks: Vec::new(), ownerships: Vec::new() }
    }

    /// Finds the position of the wink carrying `name`.
    fn find_wink(&self, name: &str) -> (r: Option<usize>)
        ensures
            r is Some <==> has_wink(self.winks@, name@),
            r is Some ==> r->0 < self.winks@.len() && self.winks@[r->0 as int].name@ == name@,
    {
        let mut i: usize = 0;
        while i < self.winks.len()
            invariant
                i <= self.winks@.len(),
                forall|j: int| 0 <= j < i ==> (#[trigger] self.winks@[j]).name@ != name@,
            decreases self.winks@.len() - i,
        {
            if str_eq(self.winks[i].name.as_str(), name) {
                return Some(i);
            }
            i += 1;
        }
        None
    }

    /// Inserts a link under the short code `name`, normalizing the
    /// URL and starting the hit counter at zero.  The store enforces
    /// code uniqueness: an insertion under a taken code is refused and
    /// changes nothing.
    pub fn insert_wink(&mut self, name: String, url: &str) -> (r: Result<(), WinkError>)
        requires
            old(self).wf(),
        ensures
            final(self).wf(),
            r is Ok <==> !has_wink(old(self).winks@, name@),
            r is Ok ==> wink_inserted(*old(self), *final(self), name@, url@),
            r is Err ==> *final(self) == *old(self) && r->Err_0 == WinkError::StoreFailure,
    {
        if let Some(_) = self.find_wink(name.as_str()) {
            return Err(WinkError::StoreFailure);
        }
        let ghost pre = self.winks@;
        let ghost n = name@;
        let normalized = parse_url(url);
        self.winks.push(Wink { name, url: normalized, hit_counter: 0 });
        proof {
            let w = self.winks@;
            assert(w.drop_last() =~= pre);
            assert forall|i: int, j: int|
                #![trigger w[i], w[j]]
                0 <= i < j < w.len() implies w[i].name@ != w[j].name@ by {
                if j < pre.len() {
                    assert(w[i] == pre[i] && w[j] == pre[j]);
                } else {
                    assert(w[i] == pre[i]);
                    assert(w[j].name@ == n);
                    if pre[i].name@ == n {
                        assert(has_wink(pre, n));
                    }
                }
            }
        }
        Ok(())
    }

    /// Creates a link: normalizes the URL, draws a fresh random short
    /// code of the configured length, and stores the mapping with a
    /// zero hit counter.  Collisions with stored codes are retried a
    /// bounded number of times; exhaustion is a store failure that
    /// changes nothing.  On an empty registry no draw can collide, so
    /// creation is owed there.
    pub fn create_wink(&mut self, url: &str, cfg: &Config) -> (r: Result<String, WinkError>)
        requires
            old(self).wf(),
            cfg.wf(),
        ensures
            final(self).wf(),
            old(self).winks@.len() == 0 ==> r is Ok,
            r is Ok ==> wink_inserted(*old(self), *final(self), r->Ok_0@, url@),
            r is Ok ==> r->Ok_0@.len() == cfg.wink_length,
            r is Ok ==> forall|i: int| 0 <= i < r->Ok_0@.len() ==> is_alnum_char(#[trigger] r->Ok_0@[i]),
            r is Err ==> *final(self) == *old(self) && r->Err_0 == WinkError::StoreFailure,
    {
        let mut attempts: usize = 0;
        while attempts < MAX_DRAW_ATTEMPTS
            invariant
                *self == *old(self),
                self.wf(),
                cfg.wf(),
                old(self).winks@.len() != 0 || attempts == 0,
            decreases MAX_DRAW_ATTEMPTS - attempts,
        {
            let code = get_random_string(cfg.wink_length);
            match self.insert_wink(code.clone(), url) {
                Ok(()) => {
                    return Ok(code);
                },
                Err(_) => {},
            }
            attempts += 1;
        }
        Err(WinkError::StoreFailure)
    }

    /// Resolves a short code: looks the wink up, counts one hit as a
    /// side effect, and returns the stored target URL.  An unknown
    /// code is `NotFound`; a counter already at its limit refuses the
    /// hit as a store failure.  Either failure changes nothing.
    pub fn resolve_wink(&mut self, name: &str) -> (r: Result<String, WinkError>)
        requires
            old(self).wf(),
        ensures
            final(self).wf(),
            r is Ok <==> has_wink(old(self).winks@, name@) && wink_at(old(self).winks@, name@).hit_counter < u64::MAX,
            r is Ok ==> r->Ok_0@ == wink_at(old(self).winks@, name@).url@,
            r is Ok ==> wink_resolved(*old(self), *final(self), name@),
            r is Err ==> *final(self) == *old(self),
            r is Err ==> r->Err_0 == (if has_wink(old(self).winks@, name@) {
                WinkError::StoreFailure
            } else {
                WinkError::NotFound
            }),
    {
        let i = match self.find_wink(name) {
            None => {
                return Err(WinkError::NotFound);
            },
            Some(i) => i,
        };
        proof {
            lemma_wink_index(self.winks@, name@, i as int);
        }
        let hits = self.winks[i].hit_counter;
        if hits == u64::MAX {
            return Err(WinkError::StoreFailure);
        }
        let url = self.winks[i].url.clone();
        self.winks[i].hit_counter = hits + 1;
        proof {
            let pre = old(self).winks@;
            let w = self.winks@;
            assert forall|a: int, b: int|
                #![trigger w[a], w[b]]
                0 <= a < b < w.len() implies w[a].name@ != w[b].name@ by {
                assert(w[a].name@ == pre[a].name@);
                assert(w[b].name@ == pre[b].name@);
            }
        }
        Ok(url)
    }

    /// Finds the position of the session carrying `id`.
    fn find_session(&self, id: &str) -> (r: Option<usize>)
        ensures
            r is Some <==> has_session(self.sessions@, id@),
            r is Some ==> r->0 < self.sessions@.len() && self.sessions@[r->0 as int].id@ == id@,
    {
        let mut i: usize = 0;
        while i < self.sessions.len()
            invariant
                i <= self.sessions@.len(),
                forall|j: int| 0 <= j < i ==> (#[trigger] self.sessions@[j]).id@ != id@,
            decreases self.sessions@.len() - i,
        {
            if str_eq(self.sessions[i].id.as_str(), id) {
                return Some(i);
            }
            i += 1;
        }
        None
    }

    /// Inserts a session record.  The store enforces identifier
    /// uniqueness: an insertion under a taken identifier is refused
    /// and changes nothing.
    pub fn insert_session(&mut self, id: String, user_id: String, expires: i64) -> (r: Result<
        (),
        WinkError,
    >)
        requires
            old(self).wf(),
        ensures
            final(self).wf(),
            r is Ok <==> !has_session(old(self).sessions@, id@),
            r is Ok ==> session_inserted(*old(self), *final(self), id@, user_id@, expires),
            r is Err ==> *final(self) == *old(self) && r->Err_0 == WinkError::StoreFailure,
    {
        if let Some(_) = self.find_session(id.as_str()) {
            return Err(WinkError::StoreFailure);
        }
        let ghost pre = self.sessions@;
        let ghost n = id@;
        self.sessions.push(Session { id, user_id, expires });
        proof {
            let s = self.sessions@;
            assert(s.drop_last() =~= pre);
            assert forall|i: int, j: int|
                #![trigger s[i], s[j]]
                0 <= i < j < s.len() implies s[i].id@ != s[j].id@ by {
                if j < pre.len() {
                    assert(s[i] == pre[i] && s[j] == pre[j]);
                } else {
                    assert(s[i] == pre[i]);
                    assert(s[j].id@ == n);
                    if pre[i].id@ == n {
                        assert(has_session(pre, n));
                    }
                }
            }
        }
        Ok(())
    }

    /// Validates a bearer session identifier at instant `now` and
    /// returns the owning user exactly where a record exists and has
    /// not expired.
    pub fn validate_session(&self, session_id: &str, now: i64) -> (r: Option<String>)
        requires
            self.wf(),
        ensures
            r is Some <==> validate_spec(self.sessions@, session_id@, now) is Some,
            r is Some ==> Some(r->0@) == validate_spec(self.sessions@, session_id@, now),
    {
        match self.find_session(session_id) {
            None => None,
            Some(i) => {
                proof {
                    lemma_session_index(self.sessions@, session_id@, i as int);
                }
                if self.sessions[i].expires > now {
                    Some(self.sessions[i].user_id.clone())
                } else {
                    None
                }
            },
        }
    }

    /// Revokes a session (logout).  Revoking an absent identifier is
    /// not an error and changes nothing; afterwards the identifier no
    /// longer validates at any instant.
    pub fn logout(&mut self, session_id: &str)
        requires
            old(self).wf(),
        ensures
            final(self).wf(),
            !has_session(old(self).sessions@, session_id@) ==> *final(self) == *old(self),
            has_session(old(self).sessions@, session_id@) ==> final(self).sessions@ == old(
                self,
            ).sessions@.remove(session_index(old(self).sessions@, session_id@)),
            final(self).users == old(self).users,
            final(self).winks == old(self).winks,
            final(self).ownerships == old(self).ownerships,
            !has_session(final(self).sessions@, session_id@),
    {
        let i = match self.find_session(session_id) {
            None => {
                return;
            },
            Some(i) => i,
        };
        proof {
            lemma_session_index(self.sessions@, session_id@, i as int);
        }
        self.sessions.remove(i);
        proof {
            let pre = old(self).sessions@;
            let s = self.sessions@;
            pre.remove_ensures(i as int);
            assert(s == pre.remove(i as int));
            assert forall|a: int, b: int|
                #![trigger s[a], s[b]]
                0 <= a < b < s.len() implies s[a].id@ != s[b].id@ by {
                let a0 = if a < i { a } else { a + 1 };
                let b0 = if b < i { b } else { b + 1 };
                assert(s[a] == pre[a0]);
                assert(s[b] == pre[b0]);
            }
            assert forall|k: int| 0 <= k < s.len() implies (#[trigger] s[k]).id@ != session_id@ by {
                let k0 = if k < i { k } else { k + 1 };
                assert(s[k] == pre[k0]);
                if pre[k0].id@ == session_id@ {
                    if k0 < i {
                        assert(pre[k0].id@ != pre[i as int].id@);
                    } else {
                        assert(pre[i as int].id@ != pre[k0].id@);
                    }
                }
            }
        }
    }

    /// Finds the position of the user carrying `email`.
    fn find_user_by_email(&self, email: &str) -> (r: Option<usize>)
        ensures
            r is Some <==> has_user_email(self.users@, email@),
            r is Some ==> r->0 < self.users@.len() && self.users@[r->0 as int].email@ == email@,
    {
        let mut i: usize = 0;
        while i < self.users.len()
            invariant
                i <= self.users@.len(),
                forall|j: int| 0 <= j < i ==> (#[trigger] self.users@[j]).email@ != email@,
            decreases self.users@.len() - i,
        {
            if str_eq(self.users[i].email.as_str(), email) {
                return Some(i);
            }
            i += 1;
        }
        None
    }

    /// Whether some stored user carries the identifier `id`.
    fn has_user_id_exec(&self, id: &str) -> (r: bool)
        ensures
            r == has_user_id(self.users@, id@),
    {
        let mut i: usize = 0;
        while i < self.users.len()
            invariant
                i <= self.users@.len(),
                forall|j: int| 0 <= j < i ==> (#[trigger] self.users@[j]).id@ != id@,
            decreases self.users@.len() - i,
        {
            if str_eq(self.users[i].id.as_str(), id) {
                return true;
            }
            i += 1;
        }
        false
    }

    /// Inserts a user account.  A taken email is refused as
    /// `DuplicateEmail`, a taken identifier as a store failure;
    /// either refusal changes nothing.
    pub fn insert_user(&mut self, id: String, email: String, credential: String) -> (r: Result<
        (),
        WinkError,
    >)
        requires
            old(self).wf(),
        ensures
            final(self).wf(),
            (r is Err && r->Err_0 == WinkError::DuplicateEmail) <==> has_user_email(
                old(self).users@,
                email@,
            ),
            r is Ok <==> !has_user_email(old(self).users@, email@) && !has_user_id(
                old(self).users@,
                id@,
            ),
            r is Ok ==> final(self).users@.len() == old(self).users@.len() + 1
                && final(self).users@.drop_last() == old(self).users@
                && final(self).users@.last().id@ == id@
                && final(self).users@.last().email@ == email@
                && final(self).users@.last().credential@ == credential@
                && final(self).sessions == old(self).sessions
                && final(self).winks == old(self).winks
                && final(self).ownerships == old(self).ownerships,
            r is Err ==> *final(self) == *old(self),
            r is Err ==> r->Err_0 == WinkError::DuplicateEmail || r->Err_0
                == WinkError::StoreFailure,
    {
        if let Some(_) = self.find_user_by_email(email.as_str()) {
            return Err(WinkError::DuplicateEmail);
        }
        if self.has_user_id_exec(id.as_str()) {
            return Err(WinkError::StoreFailure);
        }
        let ghost pre = self.users@;
        let ghost fresh_id = id@;
        let ghost fresh_email = email@;
        self.users.push(User { id, email, credential });
        proof {
            let u = self.users@;
            assert(u.drop_last() =~= pre);
            assert forall|i: int, j: int|
                #![trigger u[i], u[j]]
                0 <= i < j < u.len() implies u[i].id@ != u[j].id@ && u[i].email@ != u[j].email@ by {
                if j < pre.len() {
                    assert(u[i] == pre[i] && u[j] == pre[j]);
                } else {
                    assert(u[i] == pre[i]);
                    assert(u[j].id@ == fresh_id && u[j].email@ == fresh_email);
                    if pre[i].id@ == fresh_id {
                        assert(has_user_id(pre, fresh_id));
                    }
                    if pre[i].email@ == fresh_email {
                        assert(has_user_email(pre, fresh_email));
                    }
                }
            }
        }
        Ok(())
    }

    /// Signs a user up: refuses a taken email, derives a fresh packed
    /// credential for the password, and stores the account under a
    /// fresh random identifier, retrying identifier collisions a
    /// bounded number of times.  With no users stored yet no draw can
    /// collide, so signup is owed there for any password the hashing
    /// primitive takes.
    pub fn signup(&mut self, email: &str, password: &str, cfg: &Config) -> (r: Result<
        String,
        WinkError,
    >)
        requires
            old(self).wf(),
            cfg.wf(),
        ensures
            final(self).wf(),
            old(self).users@.len() == 0 && 4 * password@.len() <= 0xFFFFFFFF ==> r is Ok,
            (r is Err && r->Err_0 == WinkError::DuplicateEmail) <==> has_user_email(
                old(self).users@,
                email@,
            ),
            r is Ok ==> user_signed_up(*old(self), *final(self), r->Ok_0@, email@, password@, *cfg),
            r is Err ==> *final(self) == *old(self),
            r is Err ==> r->Err_0 == WinkError::DuplicateEmail || r->Err_0
                == WinkError::StoreFailure,
    {
        if let Some(_) = self.find_user_by_email(email) {
            return Err(WinkError::DuplicateEmail);
        }
        let (digest, salt) = match Hasher::hash(password, cfg) {
            Ok(p) => p,
            Err(_) => {
                return Err(WinkError::StoreFailure);
            },
        };
        let ghost d = digest@;
        let ghost sa = salt@;
        let mut credential = digest;
        credential.append(salt.as_str());
        let mut attempts: usize = 0;
        while attempts < MAX_DRAW_ATTEMPTS
            invariant
                *self == *old(self),
                self.wf(),
                cfg.wf(),
                credential@ == d + sa,
                argon2_result(password@, sa) == Some(d),
                sa.len() == cfg.salt_length(),
                !has_user_email(self.users@, email@),
                old(self).users@.len() != 0 || attempts == 0,
            decreases MAX_DRAW_ATTEMPTS - attempts,
        {
            let uid = nanoid_string(ID_LENGTH);
            match self.insert_user(uid.clone(), email.to_owned(), credential.clone()) {
                Ok(()) => {
                    proof {
                        assert(credential_packed(credential@, password@, sa, *cfg));
                    }
                    return Ok(uid);
                },
                Err(_) => {},
            }
            attempts += 1;
        }
        Err(WinkError::StoreFailure)
    }

    /// Logs a user in: finds the account by email, checks the
    /// candidate password against the stored credential, and on a
    /// match issues a fresh session expiring one configured lifetime
    /// after `now`.  A missing account, a malformed credential and a
    /// wrong password are rejected uniformly.  With a matching
    /// credential and no sessions stored yet no identifier draw can
    /// collide, so login is owed there.
    pub fn login(&mut self, email: &str, password: &str, now: i64, cfg: &Config) -> (r: Result<
        String,
        WinkError,
    >)
        requires
            old(self).wf(),
            cfg.wf(),
            now + cfg.session_lifetime <= i64::MAX,
        ensures
            final(self).wf(),
            login_accepted(*old(self), email@, password@, *cfg) && old(self).sessions@.len() == 0
                ==> r is Ok,
            (r is Err && r->Err_0 == WinkError::InvalidCredentials) <==> !login_accepted(
                *old(self),
                email@,
                password@,
                *cfg,
            ),
            r is Ok ==> session_inserted(
                *old(self),
                *final(self),
                r->Ok_0@,
                user_by_email(old(self).users@, email@).id@,
                (now + cfg.session_lifetime) as i64,
            ),
            r is Ok ==> r->Ok_0@.len() == ID_LENGTH,
            r is Err ==> *final(self) == *old(self),
            r is Err ==> r->Err_0 == WinkError::InvalidCredentials || r->Err_0
                == WinkError::StoreFailure,
    {
        let i = match self.find_user_by_email(email) {
            None => {
                return Err(WinkError::InvalidCredentials);
            },
            Some(i) => i,
        };
        proof {
            lemma_user_email_index(self.users@, email@, i as int);
        }
        let salt_len = cfg.salt_length_exec();
        let ok = verify_password(self.users[i].credential.as_str(), password, salt_len);
        if !ok {
            return Err(WinkError::InvalidCredentials);
        }
        let uid = self.users[i].id.clone();
        let expires = now + cfg.session_lifetime;
        let mut attempts: usize = 0;
        while attempts < MAX_DRAW_ATTEMPTS
            invariant
                *self == *old(self),
                self.wf(),
                uid@ == user_by_email(old(self).users@, email@).id@,
                login_accepted(*old(self), email@, password@, *cfg),
                expires == now + cfg.session_lifetime,
                old(self).sessions@.len() != 0 || attempts == 0,
            decreases MAX_DRAW_ATTEMPTS - attempts,
        {
            let sid = nanoid_string(ID_LENGTH);
            match self.insert_session(sid.clone(), uid.clone(), expires) {
                Ok(()) => {
                    return Ok(sid);
                },
                Err(_) => {},
            }
            attempts += 1;
        }
        Err(WinkError::StoreFailure)
    }

    /// Records that `name` was created under an authenticated
    /// session.  A missing, unknown or expired session makes this a
    /// silent no-op — the link stays anonymous and no error is ever
    /// raised.  Otherwise one ownership row is appended for the
    /// session's user.
    pub fn link_ownership(&mut self, name: &str, session_id: Option<&str>, now: i64)
        requires
            old(self).wf(),
        ensures
            final(self).wf(),
            ownership_outcome(*old(self), *final(self), name@, opt_view(session_id), now),
    {
        let sid = match session_id {
            None => {
                return;
            },
            Some(s) => s,
        };
        let uid = match self.validate_session(sid, now) {
            None => {
                return;
            },
            Some(u) => u,
        };
        let ghost pre = self.ownerships@;
        let oid = nanoid_string(ID_LENGTH);
        self.ownerships.push(Ownership { id: oid, user_id: uid, wink_name: name.to_owned() });
        proof {
            assert(self.ownerships@.drop_last() =~= pre);
        }
    }

    /// Whether some ownership row links `user_id` to `name`.
    fn owns_exec(&self, user_id: &str, name: &str) -> (r: bool)
        ensures
            r == owns(self.ownerships@, user_id@, name@),
    {
        let mut i: usize = 0;
        while i < self.ownerships.len()
            invariant
                i <= self.ownerships@.len(),
                forall|j: int|
                    0 <= j < i ==> !((#[trigger] self.ownerships@[j]).user_id@ == user_id@
                        && self.ownerships@[j].wink_name@ == name@),
            decreases self.ownerships@.len() - i,
        {
            if str_eq(self.ownerships[i].user_id.as_str(), user_id) && str_eq(
                self.ownerships[i].wink_name.as_str(),
                name,
            ) {
                return true;
            }
            i += 1;
        }
        false
    }

    /// Lists the winks owned by the session's user, in stored order,
    /// with their current hit counters.  An unknown or expired
    /// session is refused as `SessionInvalid`.
    pub fn list_owned_winks(&self, session_id: &str, now: i64) -> (r: Result<Vec<Wink>, WinkError>)
        requires
            self.wf(),
        ensures
            r is Err <==> validate_spec(self.sessions@, session_id@, now) is None,
            r is Err ==> r->Err_0 == WinkError::SessionInvalid,
            r is Ok ==> r->Ok_0@ == owned_winks(
                self.winks@,
                self.ownerships@,
                validate_spec(self.sessions@, session_id@, now)->0,
            ),
    {
        let uid = match self.validate_session(session_id, now) {
            None => {
                return Err(WinkError::SessionInvalid);
            },
            Some(u) => u,
        };
        let mut out: Vec<Wink> = Vec::new();
        let mut i: usize = 0;
        while i < self.winks.len()
            invariant
                i <= self.winks@.len(),
                Some(uid@) == validate_spec(self.sessions@, session_id@, now),
                out@ == owned_winks(self.winks@.take(i as int), self.ownerships@, uid@),
            decreases self.winks@.len() - i,
        {
            let keep = self.owns_exec(uid.as_str(), self.winks[i].name.as_str());
            proof {
                let t = self.winks@.take(i as int + 1);
                assert(t.drop_last() =~= self.winks@.take(i as int));
                assert(t.last() == self.winks@[i as int]);
            }
            if keep {
                out.push(self.winks[i].clone());
            }
            i += 1;
        }
        proof {
            assert(self.winks@.take(self.winks@.len() as int) =~= self.winks@);
        }
        Ok(out)
    }

    /// Creates a link and, where a valid unexpired session accompanies
    /// the request, additionally records ownership for the session's
    /// user.  Link creation stands on its own: a missing or invalid
    /// session silently leaves the new link anonymous.  On an empty
    /// registry creation is owed, as in `create_wink`.
    pub fn create_wink_for_session(
        &mut self,
        url: &str,
        session_id: Option<&str>,
        now: i64,
        cfg: &Config,
    ) -> (r: Result<String, WinkError>)
        requires
            old(self).wf(),
            cfg.wf(),
        ensures
            final(self).wf(),
            old(self).winks@.len() == 0 ==> r is Ok,
            r is Ok ==> r->Ok_0@.len() == cfg.wink_length,
            r is Ok ==> forall|i: int| 0 <= i < r->Ok_0@.len() ==> is_alnum_char(#[trigger] r->Ok_0@[i]),
            r is Ok ==> exists|mid: Store|
                #[trigger] wink_inserted(*old(self), mid, r->Ok_0@, url@) && ownership_outcome(
                    mid,
                    *final(self),
                    r->Ok_0@,
                    opt_view(session_id),
                    now,
                ),
            r is Err ==> *final(self) == *old(self) && r->Err_0 == WinkError::StoreFailure,
    {
        let code = match self.create_wink(url, cfg) {
            Ok(c) => c,
            Err(e) => {
                return Err(e);
            },
        };
        let ghost mid = *self;
        self.link_ownership(code.as_str(), session_id, now);
        proof {
            assert(wink_inserted(*old(self), mid, code@, url@));
        }
        Ok(code)
    }
}

/// Right after a link is created, resolving its code finds it: the
/// stored URL is the normalized input and the hit counter starts at
/// zero.
pub proof fn lemma_resolve_after_create(pre: Store, post: Store, name: Seq<char>, url_raw: Seq<char>)
    requires
        wink_inserted(pre, post, name, url_raw),
        unique_wink_names(post.winks@),
    ensures
        has_wink(post.winks@, name),
        wink_at(post.winks@, name).url@ == normalize_url(url_raw),
        wink_at(post.winks@, name).hit_counter == 0,
{
    let w = post.winks@;
    assert(w[w.len() - 1] == w.last());
    lemma_wink_index(w, name, w.len() - 1);
}

/// A fresh link resolves to its normalized URL with exactly one hit
/// counted: creation starts the counter at zero and each successful
/// resolution adds exactly one.
pub proof fn lemma_create_then_resolve(
    pre: Store,
    mid: Store,
    post: Store,
    name: Seq<char>,
    url_raw: Seq<char>,
)
    requires
        wink_inserted(pre, mid, name, url_raw),
        unique_wink_names(mid.winks@),
        wink_resolved(mid, post, name),
        unique_wink_names(post.winks@),
    ensures
        wink_at(mid.winks@, name).url@ == normalize_url(url_raw),
        has_wink(post.winks@, name),
        wink_at(post.winks@, name).hit_counter == 1,
        wink_at(post.winks@, name).url@ == normalize_url(url_raw),
{
    lemma_resolve_after_create(pre, mid, name, url_raw);
    let i = wink_index(mid.winks@, name);
    assert(post.winks@[i].name@ == name);
    lemma_wink_index(post.winks@, name, i);
}

/// Whether `states` walks the store through successive successful
/// resolutions of `name`: every step is one atomic increment of that
/// wink's hit counter.
pub open spec fn resolved_chain(states: Seq<Store>, name: Seq<char>) -> bool {
    forall|k: int|
        0 <= k < states.len() - 1 ==> #[trigger] wink_resolved(states[k], states[k + 1], name)
}

/// A chain of `n` successful resolutions of `name` leaves its hit
/// counter exactly `n` above where it started — no hit is lost and
/// none is counted twice — and leaves the code and its URL in place.
pub proof fn lemma_resolved_chain_counts(states: Seq<Store>, name: Seq<char>)
    requires
        states.len() >= 1,
        unique_wink_names(states[0].winks@),
        has_wink(states[0].winks@, name),
        resolved_chain(states, name),
    ensures
        unique_wink_names(states.last().winks@),
        has_wink(states.last().winks@, name),
        wink_at(states.last().winks@, name).hit_counter == wink_at(states[0].winks@, name).hit_counter + states.len() - 1,
        wink_at(states.last().winks@, name).url@ == wink_at(states[0].winks@, name).url@,
    decreases states.len(),
{
    if states.len() > 1 {
        let prefix = states.drop_last();
        assert forall|k: int|
            0 <= k < prefix.len() - 1 implies #[trigger] wink_resolved(
            prefix[k],
            prefix[k + 1],
            name,
        ) by {
            assert(wink_resolved(states[k], states[k + 1], name));
        }
        lemma_resolved_chain_counts(prefix, name);
        let n = states.len() as int;
        let mid = states[n - 2];
        let post = states.last();
        assert(wink_resolved(states[n - 2], states[n - 2 + 1], name));
        assert(states[n - 2 + 1] == post);
        assert(wink_resolved(mid, post, name));
        let i = wink_index(mid.winks@, name);
        let m = mid.winks@;
        let w = post.winks@;
        assert forall|a: int, b: int|
            #![trigger w[a], w[b]]
            0 <= a < b < w.len() implies w[a].name@ != w[b].name@ by {
            assert(w[a].name@ == m[a].name@);
            assert(w[b].name@ == m[b].name@);
        }
        assert(w[i].name@ == name);
        lemma_wink_index(w, name, i);
    }
}

/// A session issued with expiry instant `expires` validates exactly
/// before that instant: any check earlier returns the owning user,
/// and any check at or after it fails.
pub proof fn lemma_session_window(
    pre: Store,
    post: Store,
    sid: Seq<char>,
    uid: Seq<char>,
    expires: i64,
    now: i64,
)
    requires
        session_inserted(pre, post, sid, uid, expires),
        unique_session_ids(post.sessions@),
    ensures
        now < expires ==> validate_spec(post.sessions@, sid, now) == Some(uid),
        now >= expires ==> validate_spec(post.sessions@, sid, now) is None,
{
    let s = post.sessions@;
    assert(s[s.len() - 1] == s.last());
    lemma_session_index(s, sid, s.len() - 1);
}

/// Signing up and then logging in with the same password is accepted:
/// the credential stored at signup matches that password.
pub proof fn lemma_signup_then_login(
    pre: Store,
    post: Store,
    uid: Seq<char>,
    email: Seq<char>,
    password: Seq<char>,
    cfg: Config,
)
    requires
        user_signed_up(pre, post, uid, email, password, cfg),
        unique_user_emails(post.users@),
    ensures
        login_accepted(post, email, password, cfg),
{
    let u = post.users@;
    assert(u[u.len() - 1] == u.last());
    lemma_user_email_index(u, email, u.len() - 1);
    let salt = choose|salt: Seq<char>|
        #[trigger] credential_packed(u.last().credential@, password, salt, cfg);
    lemma_verify_roundtrip(password, argon2_result(password, salt)->0, salt);
}

} // verus!
