use webtiles_rs::auth::{format_cookie, hash_password, needs_rehash, parse_cookie, verify_password};
use webtiles_rs::error::WebtilesError;

#[test]
fn argon2_round_trips() {
    let hash = hash_password("hunter2").unwrap();
    assert!(hash.starts_with("$argon2id$"));
    assert!(verify_password("hunter2", &hash).unwrap());
    assert!(!verify_password("wrong", &hash).unwrap());
    assert!(!needs_rehash(&hash));
}

#[test]
#[allow(deprecated)]
fn legacy_sha512_crypt_hash_still_verifies() {
    let legacy_hash = pwhash::sha512_crypt::hash("hunter2").unwrap();
    assert!(legacy_hash.starts_with("$6$"));
    assert!(verify_password("hunter2", &legacy_hash).unwrap());
    assert!(!verify_password("wrong", &legacy_hash).unwrap());
    assert!(needs_rehash(&legacy_hash));
}

#[test]
#[allow(deprecated)]
fn legacy_broken_scheme_des_crypt_still_verifies() {
    let legacy_hash = pwhash::unix_crypt::hash("hunter2").unwrap();
    assert!(verify_password("hunter2", &legacy_hash).unwrap());
    assert!(!verify_password("wrong", &legacy_hash).unwrap());
    assert!(needs_rehash(&legacy_hash));
}

#[test]
fn legacy_md5_and_sha256_hashes_verify() {
    let md5 = pwhash::md5_crypt::hash("pw").unwrap();
    assert!(verify_password("pw", &md5).unwrap());
    assert!(!verify_password("px", &md5).unwrap());
    let sha256 = pwhash::sha256_crypt::hash("pw").unwrap();
    assert!(verify_password("pw", &sha256).unwrap());
    assert!(!verify_password("px", &sha256).unwrap());
}

#[test]
fn corrupt_argon2_hash_is_an_auth_error() {
    let err = verify_password("pw", "$argon2_Bad!$x").unwrap_err();
    match err {
        WebtilesError::Auth(m) => assert!(m.starts_with("corrupt password hash: ")),
        other => panic!("unexpected error {other:?}"),
    }
}

#[test]
fn cookie_round_trips() {
    let cookie = format_cookie("alice", 12345678901234567890u128);
    assert_eq!(cookie, "alice%2012345678901234567890");
    assert_eq!(parse_cookie(&cookie), Some(("alice".to_string(), 12345678901234567890u128)));
}

#[test]
fn malformed_cookies_are_rejected() {
    assert_eq!(parse_cookie("alice"), None);
    assert_eq!(parse_cookie("alice%20"), None);
    assert_eq!(parse_cookie("alice%20x1"), None);
    assert_eq!(parse_cookie("alice%20340282366920938463463374607431768211456"), None);
    assert_eq!(
        parse_cookie("alice%20340282366920938463463374607431768211455"),
        Some(("alice".to_string(), u128::MAX))
    );
}

#[test]
fn fresh_hash_verifies_its_password_only() {
    let h = hash_password("hunter2").unwrap();
    assert!(h.starts_with("$argon2id$"));
    assert_eq!(verify_password("hunter2", &h).unwrap(), true);
    assert_eq!(verify_password("hunter3", &h).unwrap(), false);
    assert!(!needs_rehash(&h));
}

#[test]
fn legacy_hash_with_control_character_verifies_nothing() {
    assert_eq!(verify_password("x", "$6$\tab$x").unwrap(), false);
    assert_eq!(verify_password("x", "\u{1}abcdefghijkl").unwrap(), false);
    assert_eq!(verify_password("x", "$1$a\u{7}b$zz").unwrap(), false);
    assert_eq!(verify_password("x", "$6$\u{80}$x").unwrap(), false);
    assert_eq!(verify_password("x", "$5$\u{80}$x").unwrap(), false);
    assert_eq!(verify_password("x", "$1$\u{80}$x").unwrap(), false);
    assert_eq!(verify_password("x", "\u{80}abcdefghijk").unwrap(), false);
}
