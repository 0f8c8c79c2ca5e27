use sha2::{Digest, Sha256};
use fediversekr::activation::{AssetError, Error, ImportError};
use fediversekr::catalog_editing::Error as CatalogError;
use fediversekr::catalog_logos::{decoded_logo, logo_bytes};
use fediversekr::catalog_moderation::{LOGO_MAX_BYTES, LOGO_MAX_ENCODED};
use fediversekr::legacy::{
    activation_commits, activation_report, identity_domain, signing_key_rows, asset_commits, asset_outcome, fingerprint, fingerprint_check, frame,
    import_commits, import_outcome, inventory_entry, legacy_ledger_table, manifest_check,
    object_action, page_complete, page_within_limits, pages_match, quarantine_inventory,
    recorded_approval, runtime_step, source_inventory, tally_object, target_inventory,
    target_table, transfer_complete, AssetTally, ManifestRow, ObjectAction, PageRow, RuntimeFacts,
    RuntimeQuery, RuntimeStep, MAX_PAGE_BYTES, MAX_ROW_BYTES,
};

fn names(list: &[&str]) -> Vec<String> {
    list.iter().map(|s| s.to_string()).collect()
}

const SOURCES: [&str; 8] = [
    "users",
    "servers",
    "software_categories",
    "softwares",
    "comments",
    "reports",
    "health_checks",
    "instance_keys",
];

#[test]
fn snapshots_and_targets_hold_only_known_tables() {
    let mut source = names(&SOURCES);
    assert!(source_inventory(&source));
    source.push("oban_jobs".into());
    source.push("schema_migrations".into());
    assert!(source_inventory(&source));
    source.push("unexpected".into());
    assert!(!source_inventory(&source));
    assert!(!source_inventory(&names(&SOURCES[1..])));
    assert!(target_table("member_users"));
    assert!(target_table("legacy_runtime_activation"));
    assert!(!target_table("users"));
    assert!(target_inventory(&names(&["member_users", "stored_files"])));
    assert!(target_inventory(&vec![]));
    assert!(!target_inventory(&names(&["member_users", "servers"])));
    assert!(quarantine_inventory(&names(&["legacy_import_state", "member_users"])));
    assert!(!quarantine_inventory(&names(&["member_users"])));
    assert!(!quarantine_inventory(&names(&["legacy_import_state", "users"])));
}

fn facts() -> RuntimeFacts {
    RuntimeFacts {
        database_name: None,
        snapshot_tables: None,
        ledger_table: None,
        ledger_rows: None,
        approval_table: None,
        approval_matches: None,
        legacy_rows: vec![],
    }
}

#[test]
fn startup_refuses_snapshots_unapproved_imports_and_unimported_live_copies() {
    let url = "postgres://app@127.0.0.1/fedkr";
    assert_eq!(runtime_step("not a url", true, &facts()), RuntimeStep::Refuse);
    assert_eq!(runtime_step("postgres://u@127.0.0.1/fedkr_snapshot_1", true, &facts()), RuntimeStep::Refuse);
    assert_eq!(runtime_step("postgres://u@127.0.0.1/fedkr_rehearsal_1", true, &facts()), RuntimeStep::Refuse);
    let mut f = facts();
    assert_eq!(runtime_step(url, true, &f), RuntimeStep::Ask(RuntimeQuery::DatabaseName));
    f.database_name = Some("fedkr_rehearsal_renamed".into());
    assert_eq!(runtime_step(url, true, &f), RuntimeStep::Refuse);
    f.database_name = Some("fedkr".into());
    assert_eq!(runtime_step(url, true, &f), RuntimeStep::Ask(RuntimeQuery::SnapshotTables));
    f.snapshot_tables = Some(true);
    assert_eq!(runtime_step(url, true, &f), RuntimeStep::Refuse);
    f.snapshot_tables = Some(false);
    assert_eq!(runtime_step(url, true, &f), RuntimeStep::Ask(RuntimeQuery::LedgerTable));
    f.ledger_table = Some(false);
    assert_eq!(runtime_step(url, true, &f), RuntimeStep::Allow);
    f.database_name = Some("fedkr_live_1".into());
    assert_eq!(runtime_step(url, true, &f), RuntimeStep::Refuse);

    // A fresh install: the ledger exists but is empty, and so are the imported tables.
    f.database_name = Some("fedkr".into());
    f.ledger_table = Some(true);
    assert_eq!(runtime_step(url, true, &f), RuntimeStep::Ask(RuntimeQuery::LedgerRows));
    f.ledger_rows = Some(0);
    for i in 0..4u8 {
        assert_eq!(runtime_step(url, true, &f), RuntimeStep::Ask(RuntimeQuery::LegacyRows(i)));
        f.legacy_rows.push(0);
    }
    assert_eq!(runtime_step(url, true, &f), RuntimeStep::Allow);
    f.legacy_rows = vec![0, 3];
    assert_eq!(runtime_step(url, true, &f), RuntimeStep::Refuse);
    assert_eq!(legacy_ledger_table(0), "legacy_members");
    assert_eq!(legacy_ledger_table(3), "legacy_instance_keys");

    // An imported database starts only with a matching approval.
    f.legacy_rows = vec![];
    f.ledger_rows = Some(1);
    assert_eq!(runtime_step(url, false, &f), RuntimeStep::Refuse);
    assert_eq!(runtime_step(url, true, &f), RuntimeStep::Ask(RuntimeQuery::ApprovalTable));
    f.approval_table = Some(false);
    assert_eq!(runtime_step(url, true, &f), RuntimeStep::Refuse);
    f.approval_table = Some(true);
    assert_eq!(runtime_step(url, true, &f), RuntimeStep::Ask(RuntimeQuery::ApprovalMatches));
    f.approval_matches = Some(false);
    assert_eq!(runtime_step(url, true, &f), RuntimeStep::Refuse);
    f.approval_matches = Some(true);
    assert_eq!(runtime_step(url, true, &f), RuntimeStep::Allow);
    f.database_name = Some("fedkr_live_1".into());
    assert_eq!(runtime_step(url, true, &f), RuntimeStep::Allow);
}

#[test]
fn transferred_pages_are_bounded_complete_and_retained_exactly() {
    assert!(page_complete(&vec![1, 2]));
    assert!(!page_complete(&vec![1, 0]));
    assert!(page_within_limits(&vec![MAX_ROW_BYTES; 16]));
    assert!(!page_within_limits(&vec![MAX_ROW_BYTES + 1]));
    assert!(!page_within_limits(&vec![MAX_ROW_BYTES; 17]));
    assert_eq!(MAX_PAGE_BYTES, 16 * MAX_ROW_BYTES);
    let row = |c: &str, p: &str| PageRow { cursor: c.into(), payload: p.into() };
    assert!(pages_match(&vec![row("1", "{}"), row("2", "{\"a\":1}")], &vec![row("1", "{}"), row("2", "{\"a\":1}")]));
    assert!(!pages_match(&vec![row("1", "{}")], &vec![row("1", "{ }")]));
    assert!(!pages_match(&vec![row("1", "{}")], &vec![]));
    assert_eq!(transfer_complete(3, 3, 3), Ok(()));
    assert_eq!(transfer_complete(2, 3, 3), Err(ImportError::Mismatch));
    assert_eq!(transfer_complete(3, 3, 4), Err(ImportError::Mismatch));
}

#[test]
fn fingerprint_records_are_length_prefixed() {
    assert_eq!(frame("users"), vec![0, 0, 0, 0, 0, 0, 0, 5, b'u', b's', b'e', b'r', b's']);
    assert_eq!(frame(""), vec![0; 8]);
    let long = "가".repeat(100);
    let framed = frame(&long);
    assert_eq!(&framed[..8], &[0, 0, 0, 0, 0, 0, 1, 44]);
    assert_eq!(&framed[8..], long.as_bytes());
    // Without the prefix "ab"+"c" and "a"+"bc" would feed the same bytes.
    let mut one = frame("ab");
    one.extend(frame("c"));
    let mut two = frame("a");
    two.extend(frame("bc"));
    assert_ne!(one, two);
    assert_eq!(fingerprint_check(None, "abc"), Ok(()));
    assert_eq!(fingerprint_check(Some("abc"), "abc"), Ok(()));
    assert_eq!(fingerprint_check(Some("abd"), "abc"), Err(ImportError::Mismatch));
}

#[test]
fn only_first_applied_runs_commit() {
    assert_eq!(import_outcome(true, true), "already_imported_verified");
    assert_eq!(import_outcome(false, true), "applied_quarantined");
    assert_eq!(import_outcome(false, false), "dry_run_rolled_back");
    assert!(import_commits(false, true));
    assert!(!import_commits(true, true));
    assert!(!import_commits(false, false));
    assert_eq!(asset_outcome(true, true), "already_preserved_verified");
    assert_eq!(asset_outcome(false, true), "preserved_quarantined");
    assert_eq!(asset_outcome(false, false), "dry_run_verified");
    assert!(asset_commits(false, true));
    assert!(!asset_commits(true, true));
    let applied = Ok(activation_report(true, 3, 300));
    assert!(activation_commits(true, &applied));
    assert!(!activation_commits(false, &applied));
    let verified = Ok(activation_report(false, 3, 300));
    assert!(!activation_commits(false, &verified));
    let again = recorded_approval(true, 2, 20);
    assert!(!activation_commits(true, &again));
    assert!(!activation_commits(true, &Err(Error::Files)));
}

#[test]
fn activation_reports_say_what_was_validated() {
    let r = activation_report(true, 3, 300);
    assert_eq!((r.outcome, r.runtime_enabled, r.validated_now, r.asset_objects, r.asset_bytes), ("activated", true, true, 3, 300));
    let r = activation_report(false, 0, 0);
    assert_eq!((r.outcome, r.runtime_enabled, r.validated_now), ("verified_not_activated", false, true));
    let r = recorded_approval(true, 2, 20).unwrap();
    assert_eq!((r.outcome, r.runtime_enabled, r.validated_now, r.asset_objects, r.asset_bytes), ("already_activated", true, false, 2, 20));
    assert_eq!(recorded_approval(false, 2, 20).unwrap_err(), Error::Conflict);
}

#[test]
fn preserved_objects_must_match_the_inventory() {
    assert_eq!(inventory_entry(true, true), Ok(()));
    assert_eq!(inventory_entry(false, false), Ok(()));
    assert_eq!(inventory_entry(true, false), Err(AssetError::Inventory));
    assert_eq!(inventory_entry(false, true), Err(AssetError::Inventory));
    assert_eq!(object_action(Some(("h", 3)), "h", 3, true), Ok(ObjectAction::Verify));
    assert_eq!(object_action(Some(("h", 3)), "g", 3, true), Err(AssetError::Changed));
    assert_eq!(object_action(Some(("h", 3)), "h", 4, false), Err(AssetError::Changed));
    assert_eq!(object_action(None, "h", 3, true), Ok(ObjectAction::Put));
    assert_eq!(object_action(None, "h", 3, false), Ok(ObjectAction::CheckDestination));
    let t = AssetTally { objects: 0, bytes: 0, copied: 0 };
    let t = tally_object(t, 10, true).unwrap();
    let t = tally_object(t, 5, false).unwrap();
    assert_eq!(t, AssetTally { objects: 2, bytes: 15, copied: 1 });
    assert_eq!(tally_object(AssetTally { objects: 1, bytes: i64::MAX, copied: 0 }, 1, false), Err(AssetError::Inventory));
    let m = ManifestRow { source_fingerprint: "fp".into(), object_count: 2, byte_count: 15 };
    assert_eq!(manifest_check(Some(&m), "fp", 2, 2, 15), Ok(()));
    assert_eq!(manifest_check(Some(&m), "other", 2, 2, 15), Err(ImportError::Mismatch));
    assert_eq!(manifest_check(Some(&m), "fp", 3, 3, 15), Err(ImportError::Mismatch));
    assert_eq!(manifest_check(None, "fp", 0, 0, 0), Ok(()));
    assert_eq!(manifest_check(None, "fp", 0, 1, 0), Err(ImportError::Mismatch));
}

#[test]
fn logo_uploads_are_bounded_before_decoding() {
    assert_eq!(logo_bytes("aGVsbG8=").unwrap(), b"hello");
    assert_eq!(logo_bytes("!not-base64!"), Err(CatalogError::Invalid));
    assert_eq!(logo_bytes(""), Err(CatalogError::Invalid));
    assert_eq!(logo_bytes("aGVsbG8"), Err(CatalogError::Invalid));
    assert_eq!(LOGO_MAX_ENCODED, (LOGO_MAX_BYTES + 2) / 3 * 4);
    assert_eq!(logo_bytes(&"A".repeat(LOGO_MAX_ENCODED + 4)), Err(CatalogError::Invalid));
    assert_eq!(decoded_logo(Some(vec![0; LOGO_MAX_BYTES])).unwrap().len(), LOGO_MAX_BYTES);
    assert_eq!(decoded_logo(Some(vec![0; LOGO_MAX_BYTES + 1])), Err(CatalogError::Invalid));
    assert_eq!(decoded_logo(Some(vec![])), Err(CatalogError::Invalid));
    assert_eq!(decoded_logo(None), Err(CatalogError::Invalid));
}

#[test]
fn imported_identities_and_keys_are_checked() {
    assert_eq!(identity_domain("dog.example", " Dog.Example "), Ok(()));
    assert_eq!(identity_domain("dog.example", "cat.example"), Err(ImportError::Identity));
    assert_eq!(identity_domain("localhost", "localhost"), Err(ImportError::Identity));
    assert_eq!(identity_domain("Dog.Example", "dog.example"), Err(ImportError::Identity));
    assert_eq!(signing_key_rows(0), Ok(()));
    assert_eq!(signing_key_rows(1), Ok(()));
    assert_eq!(signing_key_rows(2), Err(ImportError::SigningKey));
}

fn expected_fingerprint(records: &[&str]) -> String {
    let mut digest = Sha256::new();
    for r in records {
        digest.update((r.len() as u64).to_be_bytes());
        digest.update(r.as_bytes());
    }
    digest.finalize().iter().map(|b| format!("{b:02x}")).collect()
}

#[test]
fn fingerprint_is_sha256_of_framed_records_in_lowercase_hex() {
    let records = vec!["users".to_string(), "".to_string(), "한글 행".to_string()];
    let fp = fingerprint(&records);
    assert_eq!(fp, expected_fingerprint(&["users", "", "한글 행"]));
    assert_eq!(fp.len(), 64);
    assert!(fp.chars().all(|c| c.is_ascii_digit() || ('a'..='f').contains(&c)));
    assert_eq!(
        fingerprint(&Vec::new()),
        "e3b0c44298fc1c149afbf4c8996fb92427ae41e4649b934ca495991b7852b855"
    );
    let a = fingerprint(&vec!["ab".to_string(), "c".to_string()]);
    let b = fingerprint(&vec!["a".to_string(), "bc".to_string()]);
    assert_ne!(a, b);
}
