use webtiles_rs::error::WebtilesError;
use webtiles_rs::auth::hash_password;
use webtiles_rs::userdb::{
    check_stored_password, flags_update, registration_refusal, truncate_password, PasswordCheck,
    format_blocklist, is_account_hold, is_admin, is_banned, merge_flags, parse_blocklist,
    DGLACCT_ACCOUNT_HOLD, DGLACCT_ADMIN, DGLACCT_LOGIN_LOCK, DGLACCT_WIZARD,
};

#[test]
fn flag_helpers_match_python_semantics() {
    assert!(is_admin(DGLACCT_ADMIN));
    assert!(!is_admin(0));
    assert!(is_banned(DGLACCT_LOGIN_LOCK));
    assert!(!is_banned(DGLACCT_LOGIN_LOCK | DGLACCT_ACCOUNT_HOLD));
    assert!(is_account_hold(DGLACCT_ACCOUNT_HOLD));
}

#[test]
fn merge_flags_sets_only_masked_bits() {
    let old = DGLACCT_ADMIN | DGLACCT_WIZARD;
    assert_eq!(merge_flags(old, DGLACCT_LOGIN_LOCK, DGLACCT_LOGIN_LOCK | DGLACCT_ADMIN), DGLACCT_WIZARD | DGLACCT_LOGIN_LOCK);
    assert_eq!(merge_flags(old, 0, 0), old);
}

#[test]
fn blocklist_round_trips() {
    let list = vec!["dave".to_string(), "[anon]".to_string()];
    let stored = format_blocklist(&list);
    assert_eq!(stored, "dave [anon]");
    assert_eq!(parse_blocklist(Some(&stored)), list);
}

#[test]
fn blocklist_text_ignores_extra_spaces() {
    assert_eq!(parse_blocklist(Some("  a  b ")), vec!["a".to_string(), "b".to_string()]);
    assert!(parse_blocklist(None).is_empty());
    assert!(parse_blocklist(Some("")).is_empty());
    assert_eq!(format_blocklist(&[]), "");
}

#[test]
#[allow(deprecated)]
fn stored_password_checks() {
    assert!(matches!(check_stored_password(None, "pw", 20), Ok(PasswordCheck::UnknownUser)));
    let legacy = pwhash::sha512_crypt::hash("pw").unwrap();
    match check_stored_password(Some(("Alice".to_string(), legacy.clone(), 0)), "pw", 20) {
        Ok(PasswordCheck::Accepted { username, rehash }) => {
            assert_eq!(username, "Alice");
            assert!(rehash);
        }
        _ => panic!("expected acceptance"),
    }
    assert!(matches!(
        check_stored_password(Some(("Alice".to_string(), legacy.clone(), 0)), "nope", 20),
        Ok(PasswordCheck::Wrong)
    ));
    match check_stored_password(Some(("Alice".to_string(), legacy, DGLACCT_LOGIN_LOCK)), "pw", 20) {
        Ok(PasswordCheck::Disabled { username, reason }) => {
            assert_eq!(username, "Alice");
            assert_eq!(reason, "Account is disabled.");
        }
        _ => panic!("expected a disabled account"),
    }
    let fresh = hash_password("pw").unwrap();
    match check_stored_password(Some(("Bob".to_string(), fresh, DGLACCT_ACCOUNT_HOLD | DGLACCT_LOGIN_LOCK)), "pw", 20) {
        Ok(PasswordCheck::Accepted { rehash, .. }) => assert!(!rehash),
        _ => panic!("a held account still logs in"),
    }
    assert!(check_stored_password(Some(("C".to_string(), "$argon2_Bad!$x".to_string(), 0)), "pw", 20).is_err());
    assert_eq!(registration_refusal("", true).as_deref(), Some("The password can't be empty!"));
    assert_eq!(registration_refusal("pw", true).as_deref(), Some("User already exists!"));
    assert_eq!(registration_refusal("pw", false), None);
}

#[test]
fn only_the_first_characters_of_a_password_count() {
    assert_eq!(truncate_password("abcdef", 3), "abc");
    assert_eq!(truncate_password("ab", 3), "ab");
    let hash = hash_password(&truncate_password("0123456789extra", 10)).unwrap();
    assert!(matches!(
        check_stored_password(Some(("A".to_string(), hash, 0)), "0123456789other", 10),
        Ok(PasswordCheck::Accepted { .. })
    ));
}

#[test]
fn setting_flags_needs_an_account() {
    assert_eq!(flags_update(Some(0b1010), 0b0101, 0b0011).unwrap(), 0b1001);
    assert!(matches!(flags_update(None, 1, 1), Err(WebtilesError::Auth(m)) if m == "Invalid username!"));
}
