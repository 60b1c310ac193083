use arti_web_poc::credentials::{
    hash_password, hash_with_salt, new_token, token_from, HASH_PREFIX,
};
use arti_web_poc::state::AppState;

fn demo() -> AppState {
    AppState::demo("page".to_string())
}

#[test]
fn tokens_are_hexadecimal() {
    let mut bytes = [0u8; 32];
    bytes[0] = 0x01;
    bytes[31] = 0xfe;
    let expected = format!("01{}fe", "00".repeat(30));
    assert_eq!(token_from(&bytes), expected);
    let mut other = bytes;
    other[15] = 1;
    assert_ne!(token_from(&other), expected);
}

#[test]
fn fresh_tokens_are_random() {
    let a = new_token();
    let b = new_token();
    assert_eq!(a.len(), 64);
    assert!(a.chars().all(|c| c.is_ascii_digit() || ('a'..='f').contains(&c)));
    assert_ne!(a, b);
    assert_ne!(a, "0".repeat(64));
}

#[test]
fn hashes_are_salted_argon2id() {
    let a = hash_password("tor-rocks");
    let b = hash_password("tor-rocks");
    assert!(a.starts_with(HASH_PREFIX));
    assert!(a.starts_with("$argon2id$v=19$"));
    assert_ne!(a, b);
    assert!(!a.contains("tor-rocks"));
}

#[test]
fn salts_keep_hashes_apart() {
    let salt = "c29tZXNhbHRzb21lc2FsdA";
    let other_salt = "c29tZXNhbHRzb21lc2FsdQ";
    let a = hash_with_salt("tor-rocks", salt);
    let b = hash_with_salt("tor-rocks", other_salt);
    assert!(a.starts_with(&format!("{HASH_PREFIX}{salt}$")));
    assert!(b.starts_with(&format!("{HASH_PREFIX}{other_salt}$")));
    assert_ne!(a, b);
    assert_ne!(a.rsplit('$').next(), b.rsplit('$').next());
    assert_eq!(a, hash_with_salt("tor-rocks", salt));
    assert_ne!(a, hash_with_salt("tor-rock", salt));
    let users = vec![("a".to_string(), a), ("b".to_string(), b)];
    let state = AppState::new(users, String::new(), String::new());
    for user in ["a", "b"] {
        assert!(state.verify(user, "tor-rocks"));
        assert!(!state.verify(user, "tor-rock"));
    }
}

#[test]
fn every_last_digit_of_a_salt_is_taken() {
    for last in ["A", "Q", "g", "w"] {
        let salt = format!("+/09azAZ+/09azAZ+/09a{last}");
        assert!(hash_with_salt("", &salt).starts_with(&format!("{HASH_PREFIX}{salt}$")));
    }
}

#[test]
fn fresh_salts_are_salts() {
    let hash = hash_password("x");
    let salt = hash.strip_prefix(HASH_PREFIX).unwrap().split('$').next().unwrap();
    assert_eq!(salt.len(), 22);
    assert!(salt.chars().all(|c| c.is_ascii_alphanumeric() || c == '+' || c == '/'));
    assert!(["A", "Q", "g", "w"].contains(&&salt[21..]));
    assert_eq!(hash, hash_with_salt("x", salt));
}

#[test]
fn unusable_parameters_accept_nothing() {
    let rest = format!("c29tZXNhbHRzb21lc2FsdA${}", "A".repeat(43));
    for hash in [
        format!("$argon2id$v=19$m=8,t=1,p=2${rest}"),
        format!("$argon2id$v=19$m=19456,t=2,p=536870911${rest}"),
        format!("$scrypt$m=19456,t=2,p=1${rest}"),
        "$argon2id$v=19$m=19456,t=2,p=536870912$c29tZXNhbHRzb21lc2FsdA".to_string(),
        format!("$argon2id$v=19$m=19456,t=2,p=536870912${rest}$more"),
        format!("$argon2id$v=19$m=19456$p=536870912${rest}"),
    ] {
        let state = AppState::new(vec![("bob".to_string(), hash)], String::new(), String::new());
        assert!(!state.verify("bob", "x"));
    }
}

#[test]
fn demo_user_signs_in_with_the_right_password_only() {
    let state = demo();
    assert!(state.verify("agent", "tor-rocks"));
    assert!(!state.verify("agent", "tor-rock"));
    assert!(!state.verify("agent", ""));
    assert!(!state.verify("Agent", "tor-rocks"));
}

#[test]
fn unknown_user_is_refused_even_with_the_dummy_password() {
    let state = demo();
    assert!(!state.verify("nobody", "this password matches nothing"));
    assert!(!state.verify("", "this password matches nothing"));
    assert!(state.hash_to_check("nobody").starts_with("$argon2id$"));
    assert_ne!(state.hash_to_check("nobody"), state.hash_to_check("agent"));
}

#[test]
fn demo_hashes_ask_for_the_same_work() {
    let state = demo();
    for (user, password) in [("agent", "tor-rocks"), ("nobody", "this password matches nothing")] {
        let hash = state.hash_to_check(user);
        let salt = hash.strip_prefix(HASH_PREFIX).unwrap().split('$').next().unwrap();
        assert_eq!(hash, hash_with_salt(password, salt));
    }
}

#[test]
fn hashed_password_is_accepted() {
    let users = vec![
        ("zoë".to_string(), hash_password("first")),
        ("max".to_string(), hash_password("päss \"word\"")),
        ("zoë".to_string(), hash_password("second")),
    ];
    let state = AppState::new(users, hash_password("x"), String::new());
    assert!(state.verify("max", "päss \"word\""));
    assert!(state.verify("zoë", "second"));
    assert!(!state.verify("zoë", "first"));
}

#[test]
fn stored_hash_is_read() {
    let hash = "$argon2id$v=19$m=65536,t=2,p=1$c29tZXNhbHQ\
        $CTFhFdXPJO1aFaMaO6Mm5c8y7cJHAph8ArZWb2GRPPc";
    let users = vec![("eve".to_string(), hash.to_string())];
    let state = AppState::new(users, String::new(), String::new());
    assert!(state.verify("eve", "password"));
    assert!(!state.verify("eve", "sassword"));
}

#[test]
fn broken_hash_accepts_nothing() {
    let users = vec![("bob".to_string(), "no hash".to_string())];
    let state = AppState::new(users, String::new(), String::new());
    assert_eq!(state.hash_to_check("bob"), "no hash");
    assert!(!state.verify("bob", "no hash"));
    assert!(!state.verify("nobody", ""));
}

#[test]
fn outcome_of_the_check_decides_for_users_that_exist() {
    let state = demo();
    assert!(state.accept("agent", Some(true)));
    assert!(!state.accept("agent", Some(false)));
    assert!(!state.accept("agent", None));
    assert!(!state.accept("nobody", Some(true)));
}

#[test]
fn sessions_come_and_go() {
    let mut state = demo();
    let first = state.create_session("agent");
    let second = state.create_session("other");
    assert_ne!(first, second);
    assert_eq!(state.user_for(&first), Some("agent".to_string()));
    assert_eq!(state.user_for(&second), Some("other".to_string()));
    assert_eq!(state.user_for(""), None);
    state.destroy_session(&first);
    assert_eq!(state.user_for(&first), None);
    assert_eq!(state.user_for(&second), Some("other".to_string()));
    state.destroy_session("no such token");
    assert_eq!(state.user_for(&second), Some("other".to_string()));
}

#[test]
fn chosen_token_names_its_session() {
    let mut state = demo();
    let token = token_from(&[7; 32]);
    state.open_session(token.clone(), "agent");
    assert_eq!(state.user_for(&token), Some("agent".to_string()));
}

#[test]
fn pings_are_counted() {
    let mut state = demo();
    assert_eq!(state.count_ping(), 1);
    assert_eq!(state.count_ping(), 2);
    assert_eq!(state.restricted_html(), "page");
}
