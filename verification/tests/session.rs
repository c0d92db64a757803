use auth_backend::session::{Identity, SessionStore, SESSION_DURATION_NS};

fn id(bytes: &[u8]) -> Identity {
    Identity::from_bytes(bytes.to_vec())
}

#[test]
fn unknown_identity_invalid() {
    let store = SessionStore::new();
    let alice = id(&[1, 2, 3]);
    assert!(!store.is_session_valid(&alice, 0));
    assert!(!store.is_session_valid(&alice, 123_456_789));
    assert!(store.get_user(&alice, 0).is_none());
}

#[test]
fn login_then_valid() {
    let mut store = SessionStore::new();
    let alice = id(&[1, 2, 3]);
    let t: u64 = 1_000_000;

    let profile = store.login(&alice, t);
    assert!(profile.is_authenticated);
    assert_eq!(profile.timestamp, t);

    assert!(store.is_session_valid(&alice, t));
    let got = store.get_user(&alice, t).expect("profile must be visible");
    assert!(got.principal_id.same_as(&alice));
    assert!(got.is_authenticated);
    assert_eq!(got.timestamp, t);
}

#[test]
fn login_then_logout() {
    let mut store = SessionStore::new();
    let alice = id(&[7]);
    let t: u64 = 500;

    store.login(&alice, t);
    assert!(store.logout(&alice));
    assert!(!store.is_session_valid(&alice, t));
    assert!(store.get_user(&alice, t).is_none());
}

#[test]
fn logout_without_login() {
    let mut store = SessionStore::new();
    let alice = id(&[9, 9]);
    assert!(!store.logout(&alice));
    assert!(!store.is_session_valid(&alice, 0));
    assert!(store.get_user(&alice, 0).is_none());
}

#[test]
fn session_expiry_boundary() {
    let mut store = SessionStore::new();
    let alice = id(&[4, 5]);
    let t: u64 = 1_000;

    store.login(&alice, t);
    assert!(store.is_session_valid(&alice, t));
    assert!(store.is_session_valid(&alice, t + SESSION_DURATION_NS - 1));
    assert!(!store.is_session_valid(&alice, t + SESSION_DURATION_NS));
    assert!(!store.is_session_valid(&alice, t + SESSION_DURATION_NS + 1));
    assert!(store.get_user(&alice, t + SESSION_DURATION_NS).is_none());
}

#[test]
fn clock_before_login_invalid() {
    let mut store = SessionStore::new();
    let alice = id(&[4, 5]);
    let t: u64 = 1_000;

    store.login(&alice, t);
    // A query before the login timestamp must not validate by wrapping.
    assert!(!store.is_session_valid(&alice, t - 1));
    assert!(!store.is_session_valid(&alice, 0));
}

#[test]
fn relogin_resets_timestamp() {
    let mut store = SessionStore::new();
    let alice = id(&[8]);
    let t1: u64 = 1_000;
    let t2: u64 = t1 + SESSION_DURATION_NS / 2;

    store.login(&alice, t1);
    let profile = store.login(&alice, t2);
    assert_eq!(profile.timestamp, t2);

    // Expiry is measured from the most recent login, not the first.
    let q = t1 + SESSION_DURATION_NS; // expired if measured from t1
    assert!(store.is_session_valid(&alice, q));
    assert_eq!(store.get_user(&alice, q).unwrap().timestamp, t2);
    assert!(!store.is_session_valid(&alice, t2 + SESSION_DURATION_NS));
}

#[test]
fn identity_isolation() {
    let mut store = SessionStore::new();
    let alice = id(&[1]);
    let bob = id(&[2]);
    let t: u64 = 10;

    store.login(&alice, t);
    assert!(!store.is_session_valid(&bob, t));
    assert!(store.get_user(&bob, t).is_none());
    assert!(!store.logout(&bob));

    store.login(&bob, t + 1);
    store.logout(&alice);
    assert!(store.is_session_valid(&bob, t + 1));
    assert_eq!(store.get_user(&bob, t + 1).unwrap().timestamp, t + 1);
    assert!(!store.is_session_valid(&alice, t + 1));
}

#[test]
fn identity_equality_by_bytes() {
    let a = id(&[1, 2, 3]);
    let b = id(&[1, 2, 3]);
    let c = id(&[1, 2]);
    let d = id(&[1, 2, 4]);
    assert!(a.same_as(&b));
    assert!(b.same_as(&a));
    assert!(!a.same_as(&c));
    assert!(!a.same_as(&d));
    assert!(a.clone().same_as(&a));
}

#[test]
fn logged_out_record_is_kept() {
    let mut store = SessionStore::new();
    let alice = id(&[3, 1]);
    store.login(&alice, 5);
    store.logout(&alice);
    // The record is only flagged, not removed: a second logout still
    // finds it and reports success.
    assert!(store.logout(&alice));
}
