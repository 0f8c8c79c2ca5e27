use fediversekr::auth::{
    credentials_write_error, first_credentials_state, password_change_state,
    acceptable_hash, attempt_allowed, credentials_may_be_set, hash_new_password, hash_secret,
    is_known_hash, login_outcome, new_token, normalize_display_name, normalize_login_id,
    recovery_allowed, session_authorized, session_times, token_hash, unlink_allowed,
    valid_password, verify_password_with, withdrawal_confirmed, AuthError,
    AuthenticatedMember, PhcFields, SessionAuthentication, SessionGrant, FRESH_WINDOW_MICROS,
};
use argon2::password_hash::PasswordHash;

fn fields(hash: &PasswordHash) -> PhcFields {
    PhcFields {
        algorithm: hash.algorithm.as_str().to_owned(),
        version: hash.version,
        memory: hash.params.get_decimal("m"),
        iterations: hash.params.get_decimal("t"),
        lanes: hash.params.get_decimal("p"),
    }
}

#[test]
fn login_id_is_canonical_ascii_not_an_external_identity() {
    assert_eq!(normalize_login_id("Shuna_01").unwrap(), "shuna_01");
    for invalid in [
        "ab",
        "슈나",
        " shuna",
        "shuna ",
        "shuna@dog.example",
        "a-b",
        "a.b",
        "аbc",
    ] {
        assert_eq!(normalize_login_id(invalid), Err(AuthError::InvalidLoginId));
    }
    assert!(normalize_login_id(&"a".repeat(32)).is_ok());
    assert!(normalize_login_id(&"a".repeat(33)).is_err());
}

#[test]
fn password_limits_count_unicode_and_never_trim() {
    assert!(!valid_password(&"가".repeat(14)));
    assert!(valid_password(&"가".repeat(15)));
    assert!(valid_password(&"🦊".repeat(128)));
    assert!(!valid_password(&"🦊".repeat(129)));
    assert!(valid_password(" 1234567890123 "));
    assert!(!valid_password("1234567890123"));
    assert!(valid_password(&"a".repeat(128)));
    assert!(!valid_password(&"a".repeat(129)));
}

#[test]
fn display_names_are_bounded_and_no_control_characters() {
    assert_eq!(normalize_display_name(" 슈나 ").unwrap(), "슈나");
    for invalid in ["", "   ", "슈\n나", "슈\0나"] {
        assert!(normalize_display_name(invalid).is_err());
    }
    assert!(normalize_display_name(&"a".repeat(65)).is_err());
}

#[test]
fn session_tokens_have_256_bits_and_only_hashes_are_persistable() {
    let a = new_token();
    let b = new_token();
    assert_eq!(a.len(), 64);
    assert_ne!(a, b);
    assert_eq!(token_hash(&a).unwrap().len(), 32);
    assert_ne!(token_hash(&a), token_hash(&b));
    assert!(token_hash("").is_none());
    assert!(token_hash(&"z".repeat(64)).is_none());
    assert!(token_hash(&a.to_uppercase()).is_none());
}

#[test]
fn password_policy_is_argon2id_only_not_bcrypt_or_other_phc_algorithms() {
    assert!(PasswordHash::new("$2b$12$not-a-supported-password-hash").is_err());
    let hash = hash_secret(b"a password for algorithm policy").unwrap();
    assert!(hash.starts_with("$argon2id$v=19$"));
    assert!(!acceptable_hash(&fields(
        &PasswordHash::new(&hash.replace("argon2id", "argon2i")).unwrap()
    )));
    assert!(!acceptable_hash(&fields(
        &PasswordHash::new(&hash.replace("argon2id", "argon2d")).unwrap()
    )));
    assert!(acceptable_hash(&fields(&PasswordHash::new(&hash).unwrap())));
    assert!(is_known_hash(&hash));
    assert!(!is_known_hash(&hash.replace("argon2id", "argon2i")));
    assert!(!is_known_hash("$2b$12$not-a-supported-password-hash"));
}

#[test]
fn password_hashing_is_salted_bounded_and_preserves_exact_secret() {
    let dummy = hash_secret(b"fedkr dummy credential, never a member").unwrap();
    let password = " 가을밤 산책에 나가고 싶어요 ";
    let a = hash_new_password(password).unwrap();
    let b = hash_new_password(password).unwrap();
    assert_ne!(a, b);
    assert!(is_known_hash(&a));
    assert!(verify_password_with(password, Some(&a), &dummy));
    assert!(!verify_password_with(password.trim(), Some(&a), &dummy));
    assert!(!verify_password_with(password, None, &dummy));
    assert!(!verify_password_with(password, Some("invalid hash"), &dummy));
    let dangerous = b.replace("m=19456", "m=4294967295");
    assert!(!verify_password_with(password, Some(&dangerous), &dummy));
    assert_eq!(
        hash_new_password("too short"),
        Err(AuthError::InvalidPassword)
    );
}

#[test]
fn credential_changes_need_fresh_authentication() {
    let now = 10_000_000_000i64;
    assert_eq!(
        credentials_may_be_set(now, now - FRESH_WINDOW_MICROS, false),
        Err(AuthError::FreshAuthenticationRequired)
    );
    assert_eq!(
        credentials_may_be_set(now, now - 1, true),
        Err(AuthError::CredentialAlreadySet)
    );
    assert!(credentials_may_be_set(now, now - 1, false).is_ok());
    assert_eq!(
        recovery_allowed(now, None, true),
        Err(AuthError::FederatedAuthenticationRequired)
    );
    assert_eq!(
        recovery_allowed(now, Some(now - FRESH_WINDOW_MICROS), true),
        Err(AuthError::FederatedAuthenticationRequired)
    );
    assert_eq!(
        recovery_allowed(now, Some(now), false),
        Err(AuthError::InvalidCredentials)
    );
    assert!(recovery_allowed(now, Some(now), true).is_ok());
    assert_eq!(
        session_authorized(false, true, true, now + 1, now),
        Err(AuthError::FreshAuthenticationRequired)
    );
    assert_eq!(
        session_authorized(true, true, false, now, now),
        Err(AuthError::Unauthenticated)
    );
    assert!(session_authorized(false, true, false, 0, now).is_ok());
    assert!(session_authorized(false, true, true, now - 5, now).is_ok());
}

#[test]
fn membership_decisions_are_exact() {
    assert!(withdrawal_confirmed("탈퇴").is_ok());
    assert_eq!(
        withdrawal_confirmed("탈퇴 "),
        Err(AuthError::ConfirmationRequired)
    );
    assert_eq!(
        login_outcome(true, true, true),
        Err(AuthError::InvalidCredentials)
    );
    assert!(login_outcome(true, true, false).is_ok());
    assert_eq!(attempt_allowed(13, 12), Err(AuthError::RateLimited));
    assert!(attempt_allowed(12, 12).is_ok());
    assert_eq!(unlink_allowed(1, false), Err(AuthError::LastLoginMethod));
    assert!(unlink_allowed(1, true).is_ok());
    assert!(unlink_allowed(2, false).is_ok());
    assert_eq!(
        session_times(SessionAuthentication::Federated, 5, 1, None),
        (5, Some(5))
    );
    assert_eq!(
        session_times(SessionAuthentication::Preserve, 5, 1, Some(2)),
        (1, Some(2))
    );
    assert_eq!(session_times(SessionAuthentication::Password, 5, 1, Some(2)), (5, None));
}

#[test]
fn locked_credential_writes_recheck_the_member() {
    assert_eq!(first_credentials_state(false, false, false), Ok(()));
    assert_eq!(first_credentials_state(true, false, false), Err(AuthError::Unauthenticated));
    assert_eq!(first_credentials_state(false, true, false), Err(AuthError::CredentialAlreadySet));
    assert_eq!(first_credentials_state(false, false, true), Err(AuthError::CredentialAlreadySet));
    assert_eq!(credentials_write_error(true), AuthError::LoginIdTaken);
    assert_eq!(credentials_write_error(false), AuthError::Unavailable);
    assert_eq!(password_change_state(false, true), Ok(()));
    assert_eq!(password_change_state(true, true), Err(AuthError::Unauthenticated));
    assert_eq!(password_change_state(false, false), Err(AuthError::Unauthenticated));
}

#[test]
fn every_valid_password_hashes_to_an_accepted_hash() {
    let dummy = hash_secret(b"dummy").unwrap();
    for password in ["a password of fifteen", &"가".repeat(128), " 앞뒤 공백도 그대로 지켜요 "] {
        let h = hash_new_password(password).unwrap();
        assert!(h.starts_with("$argon2id$v=19$m=19456,t=2,p=1$"));
        assert!(is_known_hash(&h));
        assert!(verify_password_with(password, Some(&h), &dummy));
    }
}

#[test]
fn session_debug_is_redacted() {
    let grant = SessionGrant {
        member: AuthenticatedMember {
            id: 0,
            login_id: Some("test".into()),
            display_name: "테스트".into(),
            created_at: 0,
        },
        token: "sensitive-session-value".into(),
        expires_at: 0,
    };
    let debug = grant.redacted();
    assert!(debug.contains("[REDACTED]"));
    assert!(!debug.contains("sensitive-session-value"));
    assert_eq!(debug, "SessionGrant { member: test (테스트), token: [REDACTED] }");
}

#[test]
fn session_text_without_login_uses_a_dash() {
    let grant = SessionGrant {
        member: AuthenticatedMember { id: 7, login_id: None, display_name: "이름".into(), created_at: 1 },
        token: "t".repeat(64),
        expires_at: 2,
    };
    assert_eq!(grant.redacted(), "SessionGrant { member: - (이름), token: [REDACTED] }");
}
