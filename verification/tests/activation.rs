use fediversekr::activation::{
    acknowledged, asset_error, canonical_origin, import_error, isolated_url, validate, AssetError,
    Error, ImportError,
};

#[test]
fn activation_is_not_a_general_database_override() {
    let source = "postgres://u@127.0.0.1:16440/fedkr_snapshot_test";
    let target = "postgres://u@127.0.0.1:16440/fedkr_live_test";
    assert!(validate(source, target, "https://fediverse.kr").is_ok());
    for bad in [
        target.replace("fedkr_live_", "fedkr_rehearsal_"),
        target.replace("fedkr_live_test", "fedkr_dev"),
        format!("{target}?host=elsewhere"),
        target.replace("127.0.0.1", "db.example.org"),
    ] {
        assert_eq!(
            validate(source, &bad, "https://fediverse.kr"),
            Err(Error::Configuration)
        );
    }
    for bad in [
        "http://127.0.0.1:12239",
        "http://fediverse.kr",
        "https://fediverse.kr/",
        "https://fediverse.kr/path",
        "https://user@fediverse.kr",
    ] {
        assert_eq!(validate(source, target, bad), Err(Error::Configuration));
    }
    for error in [
        Error::Configuration,
        Error::Connection,
        Error::Inventory,
        Error::Files,
        Error::Conflict,
        Error::Database,
    ] {
        assert!(!error.message().contains("postgres://"));
    }
}

#[test]
fn isolated_urls_accept_loopback_hosts_ports_and_users_only() {
    assert!(isolated_url("postgres://127.0.0.1/fedkr_live_a", "fedkr_live_"));
    assert!(isolated_url("postgresql://u:p@localhost:5432/fedkr_live_a1", "fedkr_live_"));
    assert!(isolated_url("postgres://[::1]/fedkr_live_x", "fedkr_live_"));
    assert!(!isolated_url("postgres://127.0.0.1/fedkr_live_", "fedkr_live_"));
    assert!(!isolated_url("postgres://127.0.0.1:/fedkr_live_a", "fedkr_live_"));
    assert!(!isolated_url("postgres://127.0.0.1:123456/fedkr_live_a", "fedkr_live_"));
    assert!(!isolated_url("mysql://127.0.0.1/fedkr_live_a", "fedkr_live_"));
    assert!(!isolated_url("postgres://127.0.0.1/fedkr_live_A", "fedkr_live_"));
    assert!(!isolated_url("postgres://a@b@127.0.0.1/fedkr_live_a", "fedkr_live_"));
    assert!(!isolated_url("postgres://127.0.0.1.evil/fedkr_live_a", "fedkr_live_"));
}

#[test]
fn canonical_origins_are_lowercase_without_trailing_slash() {
    assert_eq!(
        canonical_origin("https://Fediverse.KR/"),
        Ok(("https://fediverse.kr".to_string(), true))
    );
    assert_eq!(
        canonical_origin("http://127.0.0.1:12239"),
        Ok(("http://127.0.0.1:12239".to_string(), false))
    );
    assert!(canonical_origin("https://fediverse.kr/path").is_err());
    assert!(canonical_origin("https://user@fediverse.kr").is_err());
    assert!(canonical_origin("ftp://fediverse.kr").is_err());
    assert!(canonical_origin("https://").is_err());
    assert!(validate(
        "postgres://u@127.0.0.1:16440/fedkr_snapshot_test",
        "postgres://u@127.0.0.1:16440/fedkr_live_test",
        "https://Fediverse.kr"
    )
    .is_err());
}

#[test]
fn import_failures_map_to_activation_and_asset_errors() {
    assert_eq!(import_error(ImportError::Connection), Error::Connection);
    assert_eq!(import_error(ImportError::Database), Error::Database);
    assert_eq!(import_error(ImportError::Mismatch), Error::Inventory);
    assert_eq!(import_error(ImportError::Configuration), Error::Inventory);
    assert_eq!(asset_error(ImportError::Connection), AssetError::Database);
    assert_eq!(asset_error(ImportError::Database), AssetError::Database);
    assert_eq!(asset_error(ImportError::Configuration), AssetError::Configuration);
    assert_eq!(asset_error(ImportError::Data), AssetError::Inventory);
}

#[test]
fn applying_requires_the_literal_acknowledgment() {
    assert!(acknowledged(false, None).is_ok());
    assert!(acknowledged(true, Some("source-frozen-and-reviewed")).is_ok());
    assert_eq!(acknowledged(true, Some("yes")), Err(Error::Configuration));
    assert_eq!(acknowledged(true, None), Err(Error::Configuration));
}
