use seclog::auth::{
    conclude_login, generate_session_token, generate_temporary_password, hash_password,
    hash_password_salted,
    hash_token, verify_password, LoginRateLimiter, MAX_ATTEMPTS, WINDOW_NANOS,
};

#[test]
fn fresh_user_may_try() {
    let mut l = LoginRateLimiter::new();
    assert!(l.check_at("alice", 0));
    assert!(l.check("alice"));
}

#[test]
fn five_recent_failures_lock_the_user_out() {
    let mut l = LoginRateLimiter::new();
    for i in 0..(MAX_ATTEMPTS as u128) {
        assert!(l.check_at("mallory", 1_000 + i));
        l.record_failure_at("mallory", 1_000 + i);
    }
    assert!(!l.check_at("mallory", 2_000));
    // Other users are unaffected.
    assert!(l.check_at("alice", 2_000));
}

#[test]
fn four_failures_still_allow() {
    let mut l = LoginRateLimiter::new();
    for i in 0..4u128 {
        l.record_failure_at("bob", i);
    }
    assert!(l.check_at("bob", 10));
}

#[test]
fn failures_expire_after_the_window() {
    let mut l = LoginRateLimiter::new();
    for i in 0..5u128 {
        l.record_failure_at("carol", i);
    }
    assert!(!l.check_at("carol", WINDOW_NANOS - 1));
    // Once the window has passed for every failure they no longer count.
    assert!(l.check_at("carol", WINDOW_NANOS + 5));
    // And the pruned record stays pruned.
    assert!(l.check_at("carol", WINDOW_NANOS + 5));
}

#[test]
fn success_clears_the_slate() {
    let mut l = LoginRateLimiter::new();
    for i in 0..5u128 {
        l.record_failure_at("dave", i);
    }
    assert!(!l.check_at("dave", 10));
    l.record_success("dave");
    assert!(l.check_at("dave", 10));
}

#[test]
fn live_clock_failures_lock() {
    let mut l = LoginRateLimiter::new();
    for _ in 0..5 {
        l.record_failure("erin");
    }
    assert!(!l.check("erin"));
    l.record_success("erin");
    assert!(l.check("erin"));
}

#[test]
fn password_round_trip() {
    let h = hash_password("correct horse battery staple").ok().expect("hashing works");
    assert!(h.starts_with("$argon2id$v=19$"));
    assert!(verify_password("correct horse battery staple", &h));
    assert!(!verify_password("wrong password entirely", &h));
}

#[test]
fn hashes_are_salted() {
    let a = hash_password("same password here").ok().unwrap();
    let b = hash_password("same password here").ok().unwrap();
    assert_ne!(a, b);
    assert!(verify_password("same password here", &a));
    assert!(verify_password("same password here", &b));
}

#[test]
fn malformed_stored_hash_is_refused() {
    assert!(!verify_password("anything", "not-a-phc-string"));
    assert!(!verify_password("anything", ""));
}

#[test]
fn token_hash_is_sha256_hex() {
    assert_eq!(hash_token("abc"), "ba7816bf8f01cfea414140de5dae2223b00361a396177a9cb410ff61f20015ad");
    assert_eq!(hash_token("abc"), seclog::parser::hash_line("abc"));
}

#[test]
fn session_tokens_are_64_alphanumerics() {
    let t = generate_session_token();
    assert_eq!(t.len(), 64);
    assert!(t.chars().all(|c| c.is_ascii_alphanumeric()));
    assert_ne!(t, generate_session_token());
}

#[test]
fn temporary_passwords_are_24_alphanumerics() {
    let t = generate_temporary_password();
    assert_eq!(t.len(), 24);
    assert!(t.chars().all(|c| c.is_ascii_alphanumeric()));
    assert!(seclog::access::is_password_long_enough(&t));
}

#[test]
fn conclude_login_records_outcomes() {
    let mut l = LoginRateLimiter::new();
    let h = hash_password("a very long password").ok().unwrap();
    assert!(!conclude_login(&mut l, "frank", "bad guess number one", Some(&h)));
    assert!(!conclude_login(&mut l, "frank", "whatever", None));
    assert!(conclude_login(&mut l, "frank", "a very long password", Some(&h)));
    // The success cleared the two failures.
    for _ in 0..4 {
        l.record_failure("frank");
    }
    assert!(l.check("frank"));
}

#[test]
fn salted_hash_carries_its_salt() {
    let salt = [1u8; 16];
    let a = hash_password_salted("correct horse battery staple", salt).ok().expect("hashing works");
    let b = hash_password_salted("correct horse battery staple", salt).ok().expect("hashing works");
    assert_eq!(a, b);
    assert!(a.starts_with("$argon2id$v=19$m=19456,t=2,p=1$AQEBAQEBAQEBAQEBAQEBAQ$"));
    assert!(verify_password("correct horse battery staple", &a));
    let c = hash_password_salted("correct horse battery staple", [2u8; 16]).ok().expect("hashing works");
    assert_ne!(a, c);
}
