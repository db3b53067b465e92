use wink::config::Config;
use wink::errors::WinkError;
use wink::store::Store;

const NOW: i64 = 1_000_000;

#[test]
fn create_stores_normalized_url() {
    let cfg = Config::standard();
    let mut store = Store::new();
    let code = store.create_wink("example.com", &cfg).unwrap();
    let url = store.resolve_wink(&code).unwrap();
    assert_eq!(url, "https://example.com");
}

#[test]
fn create_keeps_explicit_scheme() {
    let cfg = Config::standard();
    let mut store = Store::new();
    let code = store.create_wink("https://example.com", &cfg).unwrap();
    let url = store.resolve_wink(&code).unwrap();
    assert_eq!(url, "https://example.com");
}

#[test]
fn code_has_configured_length_and_alphabet() {
    let cfg = Config::standard();
    let mut store = Store::new();
    let code = store.create_wink("example.com", &cfg).unwrap();
    assert_eq!(code.chars().count(), 8);
    assert!(code.chars().all(|c| c.is_ascii_alphanumeric()));
}

#[test]
fn hit_counter_counts_each_resolution() {
    let cfg = Config::standard();
    let mut store = Store::new();
    let code = store.create_wink("example.com", &cfg).unwrap();
    assert_eq!(store.winks[0].hit_counter, 0);
    for expected in 1u64..=5 {
        store.resolve_wink(&code).unwrap();
        assert_eq!(store.winks[0].hit_counter, expected);
    }
}

#[test]
fn resolve_unknown_code_is_not_found() {
    let mut store = Store::new();
    let r = store.resolve_wink("nothere1");
    assert_eq!(r.unwrap_err(), WinkError::NotFound);
    assert_eq!(store.winks.len(), 0);
}

#[test]
fn insert_wink_refuses_taken_code() {
    let mut store = Store::new();
    store.insert_wink("abcd1234".to_string(), "example.com").unwrap();
    let r = store.insert_wink("abcd1234".to_string(), "other.com");
    assert_eq!(r.unwrap_err(), WinkError::StoreFailure);
    assert_eq!(store.winks.len(), 1);
    assert_eq!(store.winks[0].url, "https://example.com");
}

#[test]
fn signup_login_create_list_logout_flow() {
    let cfg = Config::standard();
    let mut store = Store::new();
    store.signup("a@x.com", "pw1", &cfg).unwrap();
    let sid = store.login("a@x.com", "pw1", NOW, &cfg).unwrap();
    let code = store
        .create_wink_for_session("example.com", Some(&sid), NOW, &cfg)
        .unwrap();
    let owned = store.list_owned_winks(&sid, NOW).unwrap();
    assert_eq!(owned.len(), 1);
    assert_eq!(owned[0].name, code);
    assert_eq!(owned[0].url, "https://example.com");
    assert_eq!(owned[0].hit_counter, 0);
    store.logout(&sid);
    let r = store.list_owned_winks(&sid, NOW);
    assert_eq!(r.unwrap_err(), WinkError::SessionInvalid);
}

#[test]
fn signup_rejects_duplicate_email() {
    let cfg = Config::standard();
    let mut store = Store::new();
    store.signup("a@x.com", "pw1", &cfg).unwrap();
    let r = store.signup("a@x.com", "pw2", &cfg);
    assert_eq!(r.unwrap_err(), WinkError::DuplicateEmail);
    assert_eq!(store.users.len(), 1);
}

#[test]
fn login_rejects_wrong_password_and_unknown_email() {
    let cfg = Config::standard();
    let mut store = Store::new();
    store.signup("a@x.com", "pw1", &cfg).unwrap();
    let wrong = store.login("a@x.com", "pw2", NOW, &cfg);
    assert_eq!(wrong.unwrap_err(), WinkError::InvalidCredentials);
    let unknown = store.login("b@x.com", "pw1", NOW, &cfg);
    assert_eq!(unknown.unwrap_err(), WinkError::InvalidCredentials);
    assert_eq!(store.sessions.len(), 0);
}

#[test]
fn session_validates_before_expiry_and_not_after() {
    let cfg = Config::standard();
    let mut store = Store::new();
    let uid = store.signup("a@x.com", "pw1", &cfg).unwrap();
    let sid = store.login("a@x.com", "pw1", NOW, &cfg).unwrap();
    assert_eq!(store.validate_session(&sid, NOW), Some(uid.clone()));
    assert_eq!(store.validate_session(&sid, NOW + 86399), Some(uid));
    assert_eq!(store.validate_session(&sid, NOW + 86400), None);
    assert_eq!(store.validate_session(&sid, NOW + 500_000), None);
}

#[test]
fn validate_unknown_session_is_none() {
    let store = Store::new();
    assert_eq!(store.validate_session("nope", NOW), None);
}

#[test]
fn link_ownership_without_valid_session_is_a_silent_no_op() {
    let cfg = Config::standard();
    let mut store = Store::new();
    let code = store.create_wink("example.com", &cfg).unwrap();
    store.link_ownership(&code, None, NOW);
    store.link_ownership(&code, Some("unknown-session"), NOW);
    store.signup("a@x.com", "pw1", &cfg).unwrap();
    let sid = store.login("a@x.com", "pw1", NOW, &cfg).unwrap();
    let expired_at = NOW + 86400;
    store.link_ownership(&code, Some(&sid), expired_at);
    assert_eq!(store.ownerships.len(), 0);
}

#[test]
fn link_ownership_with_valid_session_adds_one_row() {
    let cfg = Config::standard();
    let mut store = Store::new();
    let uid = store.signup("a@x.com", "pw1", &cfg).unwrap();
    let sid = store.login("a@x.com", "pw1", NOW, &cfg).unwrap();
    let code = store.create_wink("example.com", &cfg).unwrap();
    store.link_ownership(&code, Some(&sid), NOW);
    assert_eq!(store.ownerships.len(), 1);
    assert_eq!(store.ownerships[0].user_id, uid);
    assert_eq!(store.ownerships[0].wink_name, code);
}

#[test]
fn anonymous_creation_leaves_no_ownership() {
    let cfg = Config::standard();
    let mut store = Store::new();
    let code = store.create_wink_for_session("example.com", None, NOW, &cfg).unwrap();
    assert_eq!(store.winks.len(), 1);
    assert_eq!(store.winks[0].name, code);
    assert_eq!(store.ownerships.len(), 0);
}

#[test]
fn logout_is_idempotent() {
    let cfg = Config::standard();
    let mut store = Store::new();
    store.signup("a@x.com", "pw1", &cfg).unwrap();
    let sid = store.login("a@x.com", "pw1", NOW, &cfg).unwrap();
    assert_eq!(store.sessions.len(), 1);
    store.logout(&sid);
    assert_eq!(store.sessions.len(), 0);
    store.logout(&sid);
    assert_eq!(store.sessions.len(), 0);
    store.logout("never-existed");
    assert_eq!(store.sessions.len(), 0);
}

#[test]
fn generated_identifiers_have_the_fixed_length() {
    let cfg = Config::standard();
    let mut store = Store::new();
    let uid = store.signup("a@x.com", "pw1", &cfg).unwrap();
    assert_eq!(uid.chars().count(), 21);
    let sid = store.login("a@x.com", "pw1", NOW, &cfg).unwrap();
    assert_eq!(sid.chars().count(), 21);
    assert_eq!(store.users[0].id, uid);
    assert_eq!(store.sessions[0].id, sid);
    assert_eq!(store.sessions[0].user_id, uid);
    assert_eq!(store.sessions[0].expires, NOW + 86400);
}

#[test]
fn each_login_issues_a_fresh_session() {
    let cfg = Config::standard();
    let mut store = Store::new();
    store.signup("a@x.com", "pw1", &cfg).unwrap();
    let s1 = store.login("a@x.com", "pw1", NOW, &cfg).unwrap();
    let s2 = store.login("a@x.com", "pw1", NOW, &cfg).unwrap();
    assert_ne!(s1, s2);
    assert_eq!(store.sessions.len(), 2);
    assert_eq!(store.validate_session(&s1, NOW), store.validate_session(&s2, NOW));
}

#[test]
fn error_descriptions() {
    assert_eq!(WinkError::NotFound.describe(), "not found");
    assert_eq!(WinkError::InvalidCredentials.describe(), "invalid credentials");
    assert_eq!(WinkError::DuplicateEmail.describe(), "duplicate email");
    assert_eq!(WinkError::SessionInvalid.describe(), "session invalid");
    assert_eq!(WinkError::StoreFailure.describe(), "store failure");
}

#[test]
fn random_codes_cover_distinct_links() {
    let cfg = Config::standard();
    let mut store = Store::new();
    let a = store.create_wink("one.example", &cfg).unwrap();
    let b = store.create_wink("two.example", &cfg).unwrap();
    assert_ne!(a, b);
    assert_eq!(store.resolve_wink(&a).unwrap(), "https://one.example");
    assert_eq!(store.resolve_wink(&b).unwrap(), "https://two.example");
    assert_eq!(store.winks[0].hit_counter, 1);
    assert_eq!(store.winks[1].hit_counter, 1);
}

#[test]
fn owned_listing_reflects_later_hits() {
    let cfg = Config::standard();
    let mut store = Store::new();
    store.signup("a@x.com", "pw1", &cfg).unwrap();
    let sid = store.login("a@x.com", "pw1", NOW, &cfg).unwrap();
    let code = store
        .create_wink_for_session("example.com", Some(&sid), NOW, &cfg)
        .unwrap();
    store.resolve_wink(&code).unwrap();
    store.resolve_wink(&code).unwrap();
    let owned = store.list_owned_winks(&sid, NOW).unwrap();
    assert_eq!(owned.len(), 1);
    assert_eq!(owned[0].hit_counter, 2);
}

#[test]
fn get_random_string_length_and_alphabet() {
    let s = wink::random::get_random_string(8);
    assert_eq!(s.chars().count(), 8);
    assert!(s.chars().all(|c| c.is_ascii_alphanumeric()));
    let empty = wink::random::get_random_string(0);
    assert_eq!(empty, "");
}
