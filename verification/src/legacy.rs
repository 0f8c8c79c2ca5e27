//! The offline snapshot import: which tables a snapshot and a target may hold,
//! how transferred pages are checked and fingerprinted, and when an import, a
//! preserved asset inventory or an approval is committed.
use crate::activation::{AssetError, Error, ImportError, Report};
use crate::catalog_editing::{parse_url_facts, url_facts};
use crate::directory::{canonical_domain, canonical_form, domain_ok};
use crate::auth::{hex_of, hex_string, sha256, sha256_digest};
use crate::text::{chars_eq_str, chars_of, prefix_eq, starts_with};
use vstd::prelude::*;
use vstd::string::StringSliceAdditionalSpecFns;

verus! {

/// The snapshot tables that are copied.
pub open spec fn is_mapped_source(n: Seq<char>) -> bool {
    ||| n == "users"@
    ||| n == "servers"@
    ||| n == "software_categories"@
    ||| n == "softwares"@
    ||| n == "comments"@
    ||| n == "reports"@
    ||| n == "health_checks"@
    ||| n == "instance_keys"@
}

/// Snapshot tables that are deliberately left behind.
pub open spec fn is_excluded(n: Seq<char>) -> bool {
    ||| n == "schema_migrations"@
    ||| n == "verifications"@
    ||| n == "oban_jobs"@
    ||| n == "oban_peers"@
}

/// The tables a target database may hold.
pub open spec fn is_target_table(n: Seq<char>) -> bool {
    ||| n == "__diesel_schema_migrations"@
    ||| n == "member_users"@
    ||| n == "member_profile_media"@
    ||| n == "profile_refresh_batches"@
    ||| n == "profile_refresh_jobs"@
    ||| n == "member_sessions"@
    ||| n == "member_linked_accounts"@
    ||| n == "member_link_challenges"@
    ||| n == "member_auth_rate_limits"@
    ||| n == "federation_instance_keys"@
    ||| n == "directory_sites"@
    ||| n == "directory_observations"@
    ||| n == "directory_jobs"@
    ||| n == "directory_health_checks"@
    ||| n == "directory_icons"@
    ||| n == "directory_site_details"@
    ||| n == "directory_owner_challenges"@
    ||| n == "directory_site_edits"@
    ||| n == "directory_site_registrations"@
    ||| n == "maintenance_schedule"@
    ||| n == "legacy_members"@
    ||| n == "member_legacy_claims"@
    ||| n == "legacy_sites"@
    ||| n == "catalog_categories"@
    ||| n == "catalog_software"@
    ||| n == "catalog_software_state"@
    ||| n == "catalog_software_edits"@
    ||| n == "catalog_category_state"@
    ||| n == "catalog_admin_events"@
    ||| n == "community_comments"@
    ||| n == "community_reports"@
    ||| n == "community_report_evidence"@
    ||| n == "member_admin_roles"@
    ||| n == "moderation_events"@
    ||| n == "legacy_health_checks"@
    ||| n == "legacy_instance_keys"@
    ||| n == "legacy_import_state"@
    ||| n == "legacy_asset_manifest"@
    ||| n == "legacy_asset_files"@
    ||| n == "stored_files"@
    ||| n == "media_deletions"@
    ||| n == "legacy_runtime_activation"@
}

pub open spec fn names_view(tables: Seq<String>) -> Seq<Seq<char>> {
    tables.map_values(|s: String| s@)
}

pub open spec fn has_name(tables: Seq<Seq<char>>, n: Seq<char>) -> bool {
    exists|i: int| 0 <= i < tables.len() && tables[i] == n
}

/// A snapshot holds every copied table and nothing but copied or excluded ones.
pub open spec fn source_inventory_ok(tables: Seq<Seq<char>>) -> bool {
    &&& has_name(tables, "users"@)
    &&& has_name(tables, "servers"@)
    &&& has_name(tables, "software_categories"@)
    &&& has_name(tables, "softwares"@)
    &&& has_name(tables, "comments"@)
    &&& has_name(tables, "reports"@)
    &&& has_name(tables, "health_checks"@)
    &&& has_name(tables, "instance_keys"@)
    &&& forall|i: int|
        0 <= i < tables.len() ==> is_mapped_source(#[trigger] tables[i]) || is_excluded(tables[i])
}

/// A target holds no table that this application does not know.
pub open spec fn target_inventory_known(tables: Seq<Seq<char>>) -> bool {
    forall|i: int| 0 <= i < tables.len() ==> is_target_table(#[trigger] tables[i])
}

/// A quarantined copy: an import ledger and only known tables.
pub open spec fn quarantine_inventory_ok(tables: Seq<Seq<char>>) -> bool {
    has_name(tables, "legacy_import_state"@) && target_inventory_known(tables)
}

fn mapped_source_name(v: &Vec<char>) -> (b: bool)
    ensures
        b == is_mapped_source(v@),
{
    chars_eq_str(v, "users") || chars_eq_str(v, "servers") || chars_eq_str(
        v,
        "software_categories",
    ) || chars_eq_str(v, "softwares") || chars_eq_str(v, "comments") || chars_eq_str(v, "reports")
        || chars_eq_str(v, "health_checks") || chars_eq_str(v, "instance_keys")
}

fn excluded_name(v: &Vec<char>) -> (b: bool)
    ensures
        b == is_excluded(v@),
{
    chars_eq_str(v, "schema_migrations") || chars_eq_str(v, "verifications") || chars_eq_str(
        v,
        "oban_jobs",
    ) || chars_eq_str(v, "oban_peers")
}

fn target_member_name(v: &Vec<char>) -> (b: bool)
    ensures
        b == (v@ == "__diesel_schema_migrations"@ || v@ == "member_users"@ || v@
            == "member_profile_media"@ || v@ == "profile_refresh_batches"@ || v@
            == "profile_refresh_jobs"@ || v@ == "member_sessions"@ || v@
            == "member_linked_accounts"@ || v@ == "member_link_challenges"@ || v@
            == "member_auth_rate_limits"@ || v@ == "federation_instance_keys"@),
{
    chars_eq_str(v, "__diesel_schema_migrations") || chars_eq_str(v, "member_users")
        || chars_eq_str(v, "member_profile_media") || chars_eq_str(v, "profile_refresh_batches")
        || chars_eq_str(v, "profile_refresh_jobs") || chars_eq_str(v, "member_sessions")
        || chars_eq_str(v, "member_linked_accounts") || chars_eq_str(v, "member_link_challenges")
        || chars_eq_str(v, "member_auth_rate_limits") || chars_eq_str(
        v,
        "federation_instance_keys",
    )
}

fn target_directory_name(v: &Vec<char>) -> (b: bool)
    ensures
        b == (v@ == "directory_sites"@ || v@ == "directory_observations"@ || v@
            == "directory_jobs"@ || v@ == "directory_health_checks"@ || v@ == "directory_icons"@
            || v@ == "directory_site_details"@ || v@ == "directory_owner_challenges"@ || v@
            == "directory_site_edits"@ || v@ == "directory_site_registrations"@ || v@
            == "maintenance_schedule"@),
{
    chars_eq_str(v, "directory_sites") || chars_eq_str(v, "directory_observations")
        || chars_eq_str(v, "directory_jobs") || chars_eq_str(v, "directory_health_checks")
        || chars_eq_str(v, "directory_icons") || chars_eq_str(v, "directory_site_details")
        || chars_eq_str(v, "directory_owner_challenges") || chars_eq_str(
        v,
        "directory_site_edits",
    ) || chars_eq_str(v, "directory_site_registrations") || chars_eq_str(
        v,
        "maintenance_schedule",
    )
}

fn target_catalog_name(v: &Vec<char>) -> (b: bool)
    ensures
        b == (v@ == "legacy_members"@ || v@ == "member_legacy_claims"@ || v@ == "legacy_sites"@
            || v@ == "catalog_categories"@ || v@ == "catalog_software"@ || v@
            == "catalog_software_state"@ || v@ == "catalog_software_edits"@ || v@
            == "catalog_category_state"@ || v@ == "catalog_admin_events"@ || v@
            == "community_comments"@ || v@ == "community_reports"@),
{
    chars_eq_str(v, "legacy_members") || chars_eq_str(v, "member_legacy_claims") || chars_eq_str(
        v,
        "legacy_sites",
    ) || chars_eq_str(v, "catalog_categories") || chars_eq_str(v, "catalog_software")
        || chars_eq_str(v, "catalog_software_state") || chars_eq_str(v, "catalog_software_edits")
        || chars_eq_str(v, "catalog_category_state") || chars_eq_str(v, "catalog_admin_events")
        || chars_eq_str(v, "community_comments") || chars_eq_str(v, "community_reports")
}

fn target_legacy_name(v: &Vec<char>) -> (b: bool)
    ensures
        b == (v@ == "community_report_evidence"@ || v@ == "member_admin_roles"@ || v@
            == "moderation_events"@ || v@ == "legacy_health_checks"@ || v@
            == "legacy_instance_keys"@ || v@ == "legacy_import_state"@ || v@
            == "legacy_asset_manifest"@ || v@ == "legacy_asset_files"@ || v@ == "stored_files"@
            || v@ == "media_deletions"@ || v@ == "legacy_runtime_activation"@),
{
    chars_eq_str(v, "community_report_evidence") || chars_eq_str(v, "member_admin_roles")
        || chars_eq_str(v, "moderation_events") || chars_eq_str(v, "legacy_health_checks")
        || chars_eq_str(v, "legacy_instance_keys") || chars_eq_str(v, "legacy_import_state")
        || chars_eq_str(v, "legacy_asset_manifest") || chars_eq_str(v, "legacy_asset_files")
        || chars_eq_str(v, "stored_files") || chars_eq_str(v, "media_deletions") || chars_eq_str(
        v,
        "legacy_runtime_activation",
    )
}

/// Whether `name` is a table this application may find in its database.
pub fn target_table(name: &str) -> (b: bool)
    ensures
        b == is_target_table(name@),
{
    let v = chars_of(name);
    target_member_name(&v) || target_directory_name(&v) || target_catalog_name(&v)
        || target_legacy_name(&v)
}

/// Whether `tables` lists `lit`.
fn lists(tables: &Vec<String>, lit: &str) -> (b: bool)
    ensures
        b == has_name(names_view(tables@), lit@),
{
    let ghost nv = names_view(tables@);
    let mut i: usize = 0;
    while i < tables.len()
        invariant
            i <= tables.len(),
            nv == names_view(tables@),
            forall|k: int| 0 <= k < i ==> nv[k] != lit@,
        decreases tables.len() - i,
    {
        let v = chars_of(tables[i].as_str());
        if chars_eq_str(&v, lit) {
            assert(nv[i as int] == lit@);
            return true;
        }
        i = i + 1;
    }
    false
}

/// Whether a snapshot lists every copied table and only copied or excluded
/// ones; anything else is a schema this importer does not understand.
pub fn source_inventory(tables: &Vec<String>) -> (b: bool)
    ensures
        b == source_inventory_ok(names_view(tables@)),
{
    if !(lists(tables, "users") && lists(tables, "servers") && lists(tables, "software_categories")
        && lists(tables, "softwares") && lists(tables, "comments") && lists(tables, "reports")
        && lists(tables, "health_checks") && lists(tables, "instance_keys")) {
        return false;
    }
    let ghost nv = names_view(tables@);
    let mut i: usize = 0;
    while i < tables.len()
        invariant
            i <= tables.len(),
            nv == names_view(tables@),
            forall|k: int| 0 <= k < i ==> is_mapped_source(#[trigger] nv[k]) || is_excluded(nv[k]),
        decreases tables.len() - i,
    {
        let v = chars_of(tables[i].as_str());
        if !mapped_source_name(&v) && !excluded_name(&v) {
            assert(!(is_mapped_source(nv[i as int]) || is_excluded(nv[i as int])));
            return false;
        }
        i = i + 1;
    }
    true
}

/// Whether every listed table is one this application knows.
pub fn target_inventory(tables: &Vec<String>) -> (b: bool)
    ensures
        b == target_inventory_known(names_view(tables@)),
{
    let ghost nv = names_view(tables@);
    let mut i: usize = 0;
    while i < tables.len()
        invariant
            i <= tables.len(),
            nv == names_view(tables@),
            forall|k: int| 0 <= k < i ==> is_target_table(#[trigger] nv[k]),
        decreases tables.len() - i,
    {
        if !target_table(tables[i].as_str()) {
            assert(!is_target_table(nv[i as int]));
            return false;
        }
        i = i + 1;
    }
    true
}

/// Whether the listed tables are those of a quarantined import.
pub fn quarantine_inventory(tables: &Vec<String>) -> (b: bool)
    ensures
        b == quarantine_inventory_ok(names_view(tables@)),
{
    lists(tables, "legacy_import_state") && target_inventory(tables)
}

/// A fact the startup gate may need from the database.
#[derive(Clone, Copy, Debug, PartialEq, Eq, Structural)]
pub enum RuntimeQuery {
    /// `current_database()`.
    DatabaseName,
    /// Whether tables of the snapshot's own application are present.
    SnapshotTables,
    /// Whether the import ledger table exists.
    LedgerTable,
    /// How many rows the import ledger holds.
    LedgerRows,
    /// Whether the runtime approval table exists.
    ApprovalTable,
    /// Whether the recorded approval matches the ledger, this database and
    /// the configured public origin.
    ApprovalMatches,
    /// How many rows the imported table `legacy_ledger_table(i)` holds.
    LegacyRows(u8),
}

/// What the startup gate does next.
#[derive(Clone, Copy, Debug, PartialEq, Eq, Structural)]
pub enum RuntimeStep {
    Ask(RuntimeQuery),
    Allow,
    Refuse,
}

/// What the startup gate has learned so far; `None` is not asked yet.
/// `legacy_rows` holds the row counts of the imported tables in order.
pub struct RuntimeFacts {
    pub database_name: Option<String>,
    pub snapshot_tables: Option<bool>,
    pub ledger_table: Option<bool>,
    pub ledger_rows: Option<i64>,
    pub approval_table: Option<bool>,
    pub approval_matches: Option<bool>,
    pub legacy_rows: Vec<i64>,
}

/// Database paths and names reserved for snapshots and rehearsals.
pub open spec fn isolated_path(p: Seq<char>) -> bool {
    starts_with(p, "/fedkr_snapshot_"@) || starts_with(p, "/fedkr_rehearsal_"@)
}

pub open spec fn isolated_name(n: Seq<char>) -> bool {
    starts_with(n, "fedkr_snapshot_"@) || starts_with(n, "fedkr_rehearsal_"@)
}

/// The imported tables that must stay empty where nothing was imported.
pub open spec fn legacy_ledger_name(i: int) -> Seq<char> {
    if i == 0 {
        "legacy_members"@
    } else if i == 1 {
        "legacy_sites"@
    } else if i == 2 {
        "legacy_health_checks"@
    } else {
        "legacy_instance_keys"@
    }
}

pub open spec fn legacy_rows_step(rows: Seq<i64>) -> RuntimeStep {
    if exists|i: int| 0 <= i < rows.len() && rows[i] != 0 {
        RuntimeStep::Refuse
    } else if rows.len() < 4 {
        RuntimeStep::Ask(RuntimeQuery::LegacyRows(rows.len() as u8))
    } else {
        RuntimeStep::Allow
    }
}

/// Whether the application may start on a database: never on a snapshot or a
/// rehearsal, never on a database holding the snapshot application's tables,
/// on an imported database only with a matching recorded approval, on a
/// `fedkr_live_` database only after an import, and otherwise only where the
/// imported tables are empty.
pub open spec fn runtime_decision(
    parts: Option<(bool, bool, bool, Seq<char>)>,
    origin_given: bool,
    f: RuntimeFacts,
) -> RuntimeStep {
    match parts {
        None => RuntimeStep::Refuse,
        Some(p) => if isolated_path(p.3) {
            RuntimeStep::Refuse
        } else {
            match f.database_name {
                None => RuntimeStep::Ask(RuntimeQuery::DatabaseName),
                Some(n) => if isolated_name(n@) {
                    RuntimeStep::Refuse
                } else {
                    let approval = starts_with(n@, "fedkr_live_"@);
                    match f.snapshot_tables {
                        None => RuntimeStep::Ask(RuntimeQuery::SnapshotTables),
                        Some(true) => RuntimeStep::Refuse,
                        Some(false) => match f.ledger_table {
                            None => RuntimeStep::Ask(RuntimeQuery::LedgerTable),
                            Some(false) => if approval {
                                RuntimeStep::Refuse
                            } else {
                                RuntimeStep::Allow
                            },
                            Some(true) => match f.ledger_rows {
                                None => RuntimeStep::Ask(RuntimeQuery::LedgerRows),
                                Some(rows) => if rows != 0 {
                                    if !origin_given {
                                        RuntimeStep::Refuse
                                    } else {
                                        match f.approval_table {
                                            None => RuntimeStep::Ask(RuntimeQuery::ApprovalTable),
                                            Some(false) => RuntimeStep::Refuse,
                                            Some(true) => match f.approval_matches {
                                                None => RuntimeStep::Ask(
                                                    RuntimeQuery::ApprovalMatches,
                                                ),
                                                Some(m) => if m {
                                                    RuntimeStep::Allow
                                                } else {
                                                    RuntimeStep::Refuse
                                                },
                                            },
                                        }
                                    }
                                } else if approval {
                                    RuntimeStep::Refuse
                                } else {
                                    legacy_rows_step(f.legacy_rows@)
                                },
                            },
                        },
                    }
                },
            }
        },
    }
}

/// The name of the `i`-th imported table that must be empty without an import.
pub fn legacy_ledger_table(i: u8) -> (r: &'static str)
    requires
        i < 4,
    ensures
        r@ == legacy_ledger_name(i as int),
{
    if i == 0 {
        "legacy_members"
    } else if i == 1 {
        "legacy_sites"
    } else if i == 2 {
        "legacy_health_checks"
    } else {
        "legacy_instance_keys"
    }
}

fn legacy_rows_next(rows: &Vec<i64>) -> (r: RuntimeStep)
    ensures
        r == legacy_rows_step(rows@),
{
    let mut i: usize = 0;
    while i < rows.len()
        invariant
            i <= rows.len(),
            forall|k: int| 0 <= k < i ==> rows@[k] == 0,
        decreases rows.len() - i,
    {
        if rows[i] != 0 {
            return RuntimeStep::Refuse;
        }
        i = i + 1;
    }
    if rows.len() < 4 {
        RuntimeStep::Ask(RuntimeQuery::LegacyRows(rows.len() as u8))
    } else {
        RuntimeStep::Allow
    }
}

/// The next step of the startup gate for the configured database `url`, given
/// whether a public origin is configured and the facts learned so far. Any
/// failure to learn a fact refuses startup.
pub fn runtime_step(url: &str, origin_given: bool, facts: &RuntimeFacts) -> (r: RuntimeStep)
    ensures
        r == runtime_decision(url_facts(url@), origin_given, *facts),
{
    let parts = match parse_url_facts(url) {
        None => {
            return RuntimeStep::Refuse;
        },
        Some(p) => p,
    };
    let path = chars_of(parts.3.as_str());
    if prefix_eq(&path, "/fedkr_snapshot_") || prefix_eq(&path, "/fedkr_rehearsal_") {
        return RuntimeStep::Refuse;
    }
    let name = match &facts.database_name {
        None => {
            return RuntimeStep::Ask(RuntimeQuery::DatabaseName);
        },
        Some(n) => chars_of(n.as_str()),
    };
    if prefix_eq(&name, "fedkr_snapshot_") || prefix_eq(&name, "fedkr_rehearsal_") {
        return RuntimeStep::Refuse;
    }
    let approval = prefix_eq(&name, "fedkr_live_");
    match facts.snapshot_tables {
        None => {
            return RuntimeStep::Ask(RuntimeQuery::SnapshotTables);
        },
        Some(true) => {
            return RuntimeStep::Refuse;
        },
        Some(false) => {},
    }
    match facts.ledger_table {
        None => RuntimeStep::Ask(RuntimeQuery::LedgerTable),
        Some(false) => if approval {
            RuntimeStep::Refuse
        } else {
            RuntimeStep::Allow
        },
        Some(true) => match facts.ledger_rows {
            None => RuntimeStep::Ask(RuntimeQuery::LedgerRows),
            Some(rows) => if rows != 0 {
                if !origin_given {
                    RuntimeStep::Refuse
                } else {
                    match facts.approval_table {
                        None => RuntimeStep::Ask(RuntimeQuery::ApprovalTable),
                        Some(false) => RuntimeStep::Refuse,
                        Some(true) => match facts.approval_matches {
                            None => RuntimeStep::Ask(RuntimeQuery::ApprovalMatches),
                            Some(m) => if m {
                                RuntimeStep::Allow
                            } else {
                                RuntimeStep::Refuse
                            },
                        },
                    }
                }
            } else if approval {
                RuntimeStep::Refuse
            } else {
                legacy_rows_next(&facts.legacy_rows)
            },
        },
    }
}

/// The snapshot's eight copied tables and four left-behind tables are
/// recognised as such, and none of them is a table of this application, so a
/// target database holding one is refused.
pub proof fn lemma_snapshot_tables_are_not_targets()
    ensures
        is_mapped_source("users"@),
        is_mapped_source("servers"@),
        is_mapped_source("software_categories"@),
        is_mapped_source("softwares"@),
        is_mapped_source("comments"@),
        is_mapped_source("reports"@),
        is_mapped_source("health_checks"@),
        is_mapped_source("instance_keys"@),
        is_excluded("schema_migrations"@),
        is_excluded("verifications"@),
        is_excluded("oban_jobs"@),
        is_excluded("oban_peers"@),
        !is_target_table("users"@),
        !is_target_table("servers"@),
        !is_target_table("software_categories"@),
        !is_target_table("softwares"@),
        !is_target_table("comments"@),
        !is_target_table("reports"@),
        !is_target_table("health_checks"@),
        !is_target_table("instance_keys"@),
        !is_target_table("schema_migrations"@),
        !is_target_table("verifications"@),
        !is_target_table("oban_jobs"@),
        !is_target_table("oban_peers"@),
{
    reveal_strlit("users");
    reveal_strlit("servers");
    reveal_strlit("software_categories");
    reveal_strlit("softwares");
    reveal_strlit("comments");
    reveal_strlit("reports");
    reveal_strlit("health_checks");
    reveal_strlit("instance_keys");
    reveal_strlit("schema_migrations");
    reveal_strlit("verifications");
    reveal_strlit("oban_jobs");
    reveal_strlit("oban_peers");
    reveal_strlit("__diesel_schema_migrations");
    reveal_strlit("member_users");
    reveal_strlit("member_profile_media");
    reveal_strlit("profile_refresh_batches");
    reveal_strlit("profile_refresh_jobs");
    reveal_strlit("member_sessions");
    reveal_strlit("member_linked_accounts");
    reveal_strlit("member_link_challenges");
    reveal_strlit("member_auth_rate_limits");
    reveal_strlit("federation_instance_keys");
    reveal_strlit("directory_sites");
    reveal_strlit("directory_observations");
    reveal_strlit("directory_jobs");
    reveal_strlit("directory_health_checks");
    reveal_strlit("directory_icons");
    reveal_strlit("directory_site_details");
    reveal_strlit("directory_owner_challenges");
    reveal_strlit("directory_site_edits");
    reveal_strlit("directory_site_registrations");
    reveal_strlit("maintenance_schedule");
    reveal_strlit("legacy_members");
    reveal_strlit("member_legacy_claims");
    reveal_strlit("legacy_sites");
    reveal_strlit("catalog_categories");
    reveal_strlit("catalog_software");
    reveal_strlit("catalog_software_state");
    reveal_strlit("catalog_software_edits");
    reveal_strlit("catalog_category_state");
    reveal_strlit("catalog_admin_events");
    reveal_strlit("community_comments");
    reveal_strlit("community_reports");
    reveal_strlit("community_report_evidence");
    reveal_strlit("member_admin_roles");
    reveal_strlit("moderation_events");
    reveal_strlit("legacy_health_checks");
    reveal_strlit("legacy_instance_keys");
    reveal_strlit("legacy_import_state");
    reveal_strlit("legacy_asset_manifest");
    reveal_strlit("legacy_asset_files");
    reveal_strlit("stored_files");
    reveal_strlit("media_deletions");
    reveal_strlit("legacy_runtime_activation");
    assert("users"@.len() == 5);
    assert("servers"@.len() == 7);
    assert("software_categories"@.len() == 19);
    assert("softwares"@.len() == 9);
    assert("comments"@.len() == 8);
    assert("reports"@.len() == 7);
    assert("health_checks"@.len() == 13);
    assert("instance_keys"@.len() == 13);
    assert("schema_migrations"@.len() == 17);
    assert("verifications"@.len() == 13);
    assert("oban_jobs"@.len() == 9);
    assert("oban_peers"@.len() == 10);
    assert("__diesel_schema_migrations"@.len() == 26);
    assert("member_users"@.len() == 12);
    assert("member_profile_media"@.len() == 20);
    assert("profile_refresh_batches"@.len() == 23);
    assert("profile_refresh_jobs"@.len() == 20);
    assert("member_sessions"@.len() == 15);
    assert("member_linked_accounts"@.len() == 22);
    assert("member_link_challenges"@.len() == 22);
    assert("member_auth_rate_limits"@.len() == 23);
    assert("federation_instance_keys"@.len() == 24);
    assert("directory_sites"@.len() == 15);
    assert("directory_observations"@.len() == 22);
    assert("directory_jobs"@.len() == 14);
    assert("directory_health_checks"@.len() == 23);
    assert("directory_icons"@.len() == 15);
    assert("directory_site_details"@.len() == 22);
    assert("directory_owner_challenges"@.len() == 26);
    assert("directory_site_edits"@.len() == 20);
    assert("directory_site_registrations"@.len() == 28);
    assert("maintenance_schedule"@.len() == 20);
    assert("legacy_members"@.len() == 14);
    assert("member_legacy_claims"@.len() == 20);
    assert("legacy_sites"@.len() == 12);
    assert("catalog_categories"@.len() == 18);
    assert("catalog_software"@.len() == 16);
    assert("catalog_software_state"@.len() == 22);
    assert("catalog_software_edits"@.len() == 22);
    assert("catalog_category_state"@.len() == 22);
    assert("catalog_admin_events"@.len() == 20);
    assert("community_comments"@.len() == 18);
    assert("community_reports"@.len() == 17);
    assert("community_report_evidence"@.len() == 25);
    assert("member_admin_roles"@.len() == 18);
    assert("moderation_events"@.len() == 17);
    assert("legacy_health_checks"@.len() == 20);
    assert("legacy_instance_keys"@.len() == 20);
    assert("legacy_import_state"@.len() == 19);
    assert("legacy_asset_manifest"@.len() == 21);
    assert("legacy_asset_files"@.len() == 18);
    assert("stored_files"@.len() == 12);
    assert("media_deletions"@.len() == 15);
    assert("legacy_runtime_activation"@.len() == 25);
    assert("software_categories"@[0] != "legacy_import_state"@[0]);
    assert("schema_migrations"@[0] != "community_reports"@[0]);
    assert("schema_migrations"@[0] != "moderation_events"@[0]);
}

/// A `fedkr_live_` database starts only after an approved import: its import
/// ledger exists and holds rows, a public origin is configured and the recorded
/// approval matches. With an empty ledger it is refused, whatever the imported
/// tables hold, once the presence of snapshot tables has been answered.
pub proof fn lemma_live_database_needs_an_approved_import(
    parts: Option<(bool, bool, bool, Seq<char>)>,
    origin_given: bool,
    f: RuntimeFacts,
)
    requires
        f.database_name matches Some(n) && starts_with(n@, "fedkr_live_"@),
    ensures
        runtime_decision(parts, origin_given, f) == RuntimeStep::Allow ==> {
            &&& f.ledger_table == Some(true)
            &&& f.ledger_rows matches Some(rows) && rows != 0
            &&& origin_given
            &&& f.approval_table == Some(true)
            &&& f.approval_matches == Some(true)
        },
        f.ledger_table == Some(true) && f.ledger_rows == Some(0i64) && f.snapshot_tables is Some
            ==> runtime_decision(parts, origin_given, f) == RuntimeStep::Refuse,
        f.ledger_table == Some(true) && f.ledger_rows == Some(0i64) ==> runtime_decision(
            parts,
            origin_given,
            f,
        ) != RuntimeStep::Allow,
{
}

/// For any database, startup is allowed only for an address that parses and
/// whose path is not a snapshot or rehearsal path, with the database name answered
/// and no snapshot application tables present; without a non-empty
/// import ledger, only when all four imported tables were counted and are
/// empty; with one, only when a public origin is configured and the recorded
/// approval matches.
pub proof fn lemma_runtime_allow_conditions(
    parts: Option<(bool, bool, bool, Seq<char>)>,
    origin_given: bool,
    f: RuntimeFacts,
)
    ensures
        runtime_decision(parts, origin_given, f) == RuntimeStep::Allow ==> {
            &&& parts is Some
            &&& !isolated_path(parts.unwrap().3)
            &&& f.database_name is Some
            &&& !isolated_name(f.database_name.unwrap()@)
            &&& f.snapshot_tables == Some(false)
            &&& f.ledger_table is Some
        },
        runtime_decision(parts, origin_given, f) == RuntimeStep::Allow && (f.ledger_table == Some(
            true,
        ) && f.ledger_rows == Some(0i64)) ==> {
            &&& f.legacy_rows@.len() >= 4
            &&& forall|i: int| 0 <= i < f.legacy_rows@.len() ==> f.legacy_rows@[i] == 0
        },
        runtime_decision(parts, origin_given, f) == RuntimeStep::Allow && f.ledger_table == Some(
            true,
        ) && f.ledger_rows != Some(0i64) ==> {
            &&& origin_given
            &&& f.approval_table == Some(true)
            &&& f.approval_matches == Some(true)
        },
{
}

/// On an ordinary database (an address that parses, a path and a name that
/// are neither snapshot nor rehearsal ones, no snapshot application tables),
/// startup is allowed without a ledger except on a `fedkr_live_` database;
/// with a non-empty ledger, exactly when a public origin is configured and the
/// recorded approval matches; with an empty ledger, outside `fedkr_live_`,
/// exactly when all four imported tables were counted empty, and a table
/// holding rows refuses at once.
pub proof fn lemma_runtime_allows_ordinary_databases(
    p: (bool, bool, bool, Seq<char>),
    origin_given: bool,
    f: RuntimeFacts,
)
    requires
        !isolated_path(p.3),
        f.database_name is Some,
        !isolated_name(f.database_name.unwrap()@),
        f.snapshot_tables == Some(false),
    ensures
        ({
            let live = starts_with(f.database_name.unwrap()@, "fedkr_live_"@);
            let r = runtime_decision(Some(p), origin_given, f);
            &&& f.ledger_table == Some(false) ==> (r == RuntimeStep::Allow <==> !live)
            &&& f.ledger_table == Some(false) && live ==> r == RuntimeStep::Refuse
            &&& f.ledger_table == Some(true) && f.ledger_rows is Some && f.ledger_rows.unwrap()
                != 0 && f.approval_table is Some && f.approval_matches is Some ==> (r
                == RuntimeStep::Allow <==> origin_given && f.approval_table == Some(true)
                && f.approval_matches == Some(true))
            &&& f.ledger_table == Some(true) && f.ledger_rows == Some(0i64) && !live ==> (r
                == RuntimeStep::Allow <==> (f.legacy_rows@.len() >= 4 && forall|i: int|
                0 <= i < f.legacy_rows@.len() ==> f.legacy_rows@[i] == 0))
            &&& f.ledger_table == Some(true) && f.ledger_rows == Some(0i64) && (exists|i: int|
                0 <= i < f.legacy_rows@.len() && f.legacy_rows@[i] != 0) ==> r
                == RuntimeStep::Refuse
        }),
{
}

/// Startup is refused on an address that does not parse or names a snapshot
/// or rehearsal database, on a database whose name marks it as one, and where
/// the snapshot application's tables are present.
pub proof fn lemma_runtime_refuses_isolated_databases(
    parts: Option<(bool, bool, bool, Seq<char>)>,
    origin_given: bool,
    f: RuntimeFacts,
)
    ensures
        parts is None ==> runtime_decision(parts, origin_given, f) == RuntimeStep::Refuse,
        parts matches Some(p) && (starts_with(p.3, "/fedkr_snapshot_"@) || starts_with(
            p.3,
            "/fedkr_rehearsal_"@,
        )) ==> runtime_decision(parts, origin_given, f) == RuntimeStep::Refuse,
        f.database_name matches Some(n) && (starts_with(n@, "fedkr_snapshot_"@) || starts_with(
            n@,
            "fedkr_rehearsal_"@,
        )) ==> runtime_decision(parts, origin_given, f) == RuntimeStep::Refuse,
        f.database_name is Some && f.snapshot_tables == Some(true) ==> runtime_decision(
            parts,
            origin_given,
            f,
        ) == RuntimeStep::Refuse,
{
}

/// Every table the application's migrations create may be found in a target
/// database.
pub proof fn lemma_application_tables_are_targets()
    ensures
        is_target_table("__diesel_schema_migrations"@),
        is_target_table("member_users"@),
        is_target_table("member_profile_media"@),
        is_target_table("profile_refresh_batches"@),
        is_target_table("profile_refresh_jobs"@),
        is_target_table("member_sessions"@),
        is_target_table("member_linked_accounts"@),
        is_target_table("member_link_challenges"@),
        is_target_table("member_auth_rate_limits"@),
        is_target_table("federation_instance_keys"@),
        is_target_table("directory_sites"@),
        is_target_table("directory_observations"@),
        is_target_table("directory_jobs"@),
        is_target_table("directory_health_checks"@),
        is_target_table("directory_icons"@),
        is_target_table("directory_site_details"@),
        is_target_table("directory_owner_challenges"@),
        is_target_table("directory_site_edits"@),
        is_target_table("directory_site_registrations"@),
        is_target_table("maintenance_schedule"@),
        is_target_table("legacy_members"@),
        is_target_table("member_legacy_claims"@),
        is_target_table("legacy_sites"@),
        is_target_table("catalog_categories"@),
        is_target_table("catalog_software"@),
        is_target_table("catalog_software_state"@),
        is_target_table("catalog_software_edits"@),
        is_target_table("catalog_category_state"@),
        is_target_table("catalog_admin_events"@),
        is_target_table("community_comments"@),
        is_target_table("community_reports"@),
        is_target_table("community_report_evidence"@),
        is_target_table("member_admin_roles"@),
        is_target_table("moderation_events"@),
        is_target_table("legacy_health_checks"@),
        is_target_table("legacy_instance_keys"@),
        is_target_table("legacy_import_state"@),
        is_target_table("legacy_asset_manifest"@),
        is_target_table("legacy_asset_files"@),
        is_target_table("stored_files"@),
        is_target_table("media_deletions"@),
        is_target_table("legacy_runtime_activation"@),
{
}

/// The startup gate only ever asks for a fact it does not have yet, so a loop
/// that answers each question reaches `Allow` or `Refuse`.
pub proof fn lemma_runtime_gate_asks_unknown_facts(
    parts: Option<(bool, bool, bool, Seq<char>)>,
    origin_given: bool,
    f: RuntimeFacts,
)
    ensures
        runtime_decision(parts, origin_given, f) == RuntimeStep::Ask(RuntimeQuery::DatabaseName)
            ==> f.database_name is None,
        runtime_decision(parts, origin_given, f) == RuntimeStep::Ask(RuntimeQuery::SnapshotTables)
            ==> f.snapshot_tables is None,
        runtime_decision(parts, origin_given, f) == RuntimeStep::Ask(RuntimeQuery::LedgerTable)
            ==> f.ledger_table is None,
        runtime_decision(parts, origin_given, f) == RuntimeStep::Ask(RuntimeQuery::LedgerRows)
            ==> f.ledger_rows is None,
        runtime_decision(parts, origin_given, f) == RuntimeStep::Ask(RuntimeQuery::ApprovalTable)
            ==> f.approval_table is None,
        runtime_decision(parts, origin_given, f) == RuntimeStep::Ask(
            RuntimeQuery::ApprovalMatches,
        ) ==> f.approval_matches is None,
        runtime_decision(parts, origin_given, f) matches RuntimeStep::Ask(
            RuntimeQuery::LegacyRows(i),
        ) ==> i == f.legacy_rows@.len() && i < 4,
{
}

/// The largest row, and the largest page, a transfer accepts, in bytes.
pub const MAX_ROW_BYTES: usize = 1048576;

pub const MAX_PAGE_BYTES: usize = 16777216;

pub open spec fn total(lens: Seq<usize>) -> int
    decreases lens.len(),
{
    if lens.len() == 0 {
        0
    } else {
        total(lens.drop_last()) + lens.last()
    }
}

/// A page read with its byte limits enforced in the database marks an
/// over-limit row with an empty payload; such a page is refused, never
/// skipped.
pub fn page_complete(payload_lens: &Vec<usize>) -> (b: bool)
    ensures
        b == forall|i: int| 0 <= i < payload_lens@.len() ==> #[trigger] payload_lens@[i] != 0,
{
    let mut i: usize = 0;
    while i < payload_lens.len()
        invariant
            i <= payload_lens.len(),
            forall|k: int| 0 <= k < i ==> #[trigger] payload_lens@[k] != 0,
        decreases payload_lens.len() - i,
    {
        if payload_lens[i] == 0 {
            return false;
        }
        i = i + 1;
    }
    true
}

/// Whether every row of a page, and the page as a whole, fit the transfer
/// limits.
pub fn page_within_limits(payload_lens: &Vec<usize>) -> (b: bool)
    ensures
        b == ((forall|i: int|
            0 <= i < payload_lens@.len() ==> #[trigger] payload_lens@[i] <= MAX_ROW_BYTES) && total(
            payload_lens@,
        ) <= MAX_PAGE_BYTES),
{
    let mut i: usize = 0;
    let mut sum: usize = 0;
    while i < payload_lens.len()
        invariant
            i <= payload_lens.len(),
            forall|k: int| 0 <= k < i ==> #[trigger] payload_lens@[k] <= MAX_ROW_BYTES,
            sum == total(payload_lens@.take(i as int)),
            sum <= MAX_PAGE_BYTES,
        decreases payload_lens.len() - i,
    {
        proof {
            assert(payload_lens@.take(i + 1).drop_last() =~= payload_lens@.take(i as int));
        }
        if payload_lens[i] > MAX_ROW_BYTES {
            return false;
        }
        if sum + payload_lens[i] > MAX_PAGE_BYTES {
            proof {
                lemma_total_prefix_monotone(payload_lens@, i + 1);
            }
            return false;
        }
        sum = sum + payload_lens[i];
        i = i + 1;
    }
    proof {
        assert(payload_lens@.take(i as int) =~= payload_lens@);
    }
    true
}

proof fn lemma_total_prefix_monotone(lens: Seq<usize>, n: int)
    requires
        0 <= n <= lens.len(),
    ensures
        total(lens.take(n)) <= total(lens),
    decreases lens.len(),
{
    if n < lens.len() {
        assert(lens.drop_last().take(n) =~= lens.take(n));
        lemma_total_prefix_monotone(lens.drop_last(), n);
    } else {
        assert(lens.take(n) =~= lens);
    }
}

/// A transferred row: its key, as text, and its whole content as JSON.
pub struct PageRow {
    pub cursor: String,
    pub payload: String,
}

pub open spec fn rows_view(rows: Seq<PageRow>) -> Seq<(Seq<char>, Seq<char>)> {
    rows.map_values(|r: PageRow| (r.cursor@, r.payload@))
}

/// Whether the rows read back from the target are exactly the rows written:
/// the same keys and the same retained content, field by field.
pub fn pages_match(written: &Vec<PageRow>, retained: &Vec<PageRow>) -> (b: bool)
    ensures
        b == (rows_view(written@) == rows_view(retained@)),
{
    if written.len() != retained.len() {
        proof {
            assert(rows_view(written@).len() != rows_view(retained@).len());
        }
        return false;
    }
    let ghost wv = rows_view(written@);
    let ghost rv = rows_view(retained@);
    let mut i: usize = 0;
    while i < written.len()
        invariant
            i <= written.len(),
            written.len() == retained.len(),
            wv == rows_view(written@),
            rv == rows_view(retained@),
            forall|k: int| 0 <= k < i ==> #[trigger] wv[k] == rv[k],
        decreases written.len() - i,
    {
        if written[i].cursor != retained[i].cursor || written[i].payload != retained[i].payload {
            proof {
                assert(wv[i as int] != rv[i as int]);
            }
            return false;
        }
        i = i + 1;
    }
    proof {
        assert(wv =~= rv);
    }
    true
}

/// A table transfer is complete when every counted source row was copied and
/// the target holds exactly as many.
pub fn transfer_complete(transferred: i64, expected: i64, target_rows: i64) -> (r: Result<
    (),
    ImportError,
>)
    ensures
        r is Ok <==> transferred == expected && target_rows == expected,
        r matches Err(e) ==> e == ImportError::Mismatch,
{
    if transferred != expected || target_rows != expected {
        Err(ImportError::Mismatch)
    } else {
        Ok(())
    }
}

/// The eight bytes of `n`, most significant first.
pub open spec fn be64(n: u64) -> Seq<u8> {
    seq![
        (n >> 56u64) as u8,
        (n >> 48u64) as u8,
        (n >> 40u64) as u8,
        (n >> 32u64) as u8,
        (n >> 24u64) as u8,
        (n >> 16u64) as u8,
        (n >> 8u64) as u8,
        n as u8,
    ]
}

/// A record as it enters the fingerprint: its length in eight big-endian
/// bytes, then its bytes.
pub open spec fn frame_of(bytes: Seq<u8>) -> Seq<u8> {
    be64(bytes.len() as u64) + bytes
}

/// A sequence of records as it enters the fingerprint.
pub open spec fn framed(records: Seq<Seq<u8>>) -> Seq<u8>
    decreases records.len(),
{
    if records.len() == 0 {
        Seq::empty()
    } else {
        frame_of(records[0]) + framed(records.drop_first())
    }
}

/// The bytes that enter the fingerprint for one table name or one row.
pub fn frame(text: &str) -> (r: Vec<u8>)
    ensures
        r@ == frame_of(text.spec_bytes()),
{
    let bytes = text.as_bytes();
    let n: u64 = bytes.len() as u64;
    let mut r: Vec<u8> = Vec::new();
    r.push((n >> 56u64) as u8);
    r.push((n >> 48u64) as u8);
    r.push((n >> 40u64) as u8);
    r.push((n >> 32u64) as u8);
    r.push((n >> 24u64) as u8);
    r.push((n >> 16u64) as u8);
    r.push((n >> 8u64) as u8);
    r.push(n as u8);
    let mut i: usize = 0;
    while i < bytes.len()
        invariant
            i <= bytes@.len(),
            bytes@ == text.spec_bytes(),
            n == bytes@.len(),
            r@ == be64(n) + bytes@.take(i as int),
        decreases bytes.len() - i,
    {
        r.push(bytes[i]);
        proof {
            assert(bytes@.take(i + 1) =~= bytes@.take(i as int).push(bytes@[i as int]));
        }
        i = i + 1;
    }
    proof {
        assert(bytes@.take(i as int) =~= bytes@);
    }
    r
}

proof fn lemma_be64_injective(n: u64, m: u64)
    requires
        be64(n) == be64(m),
    ensures
        n == m,
{
    assert(be64(n)[0] == be64(m)[0]);
    assert(be64(n)[1] == be64(m)[1]);
    assert(be64(n)[2] == be64(m)[2]);
    assert(be64(n)[3] == be64(m)[3]);
    assert(be64(n)[4] == be64(m)[4]);
    assert(be64(n)[5] == be64(m)[5]);
    assert(be64(n)[6] == be64(m)[6]);
    assert(be64(n)[7] == be64(m)[7]);
    assert(n == m) by (bit_vector)
        requires
            (n >> 56u64) as u8 == (m >> 56u64) as u8,
            (n >> 48u64) as u8 == (m >> 48u64) as u8,
            (n >> 40u64) as u8 == (m >> 40u64) as u8,
            (n >> 32u64) as u8 == (m >> 32u64) as u8,
            (n >> 24u64) as u8 == (m >> 24u64) as u8,
            (n >> 16u64) as u8 == (m >> 16u64) as u8,
            (n >> 8u64) as u8 == (m >> 8u64) as u8,
            n as u8 == m as u8,
    ;
}

/// The fingerprint input determines the records it was made of: two different
/// sequences of tables and rows never feed the same bytes to the digest.
pub proof fn lemma_framing_is_unambiguous(a: Seq<Seq<u8>>, b: Seq<Seq<u8>>)
    requires
        forall|i: int| 0 <= i < a.len() ==> (#[trigger] a[i]).len() <= u64::MAX,
        forall|i: int| 0 <= i < b.len() ==> (#[trigger] b[i]).len() <= u64::MAX,
        framed(a) == framed(b),
    ensures
        a == b,
    decreases a.len(),
{
    if a.len() == 0 {
        if b.len() > 0 {
            assert(framed(b).len() >= 8);
        }
        assert(a =~= b);
    } else {
        if b.len() == 0 {
            assert(framed(a).len() >= 8);
        }
        let fa = frame_of(a[0]);
        let fb = frame_of(b[0]);
        let la = a[0].len() as u64;
        let lb = b[0].len() as u64;
        assert(framed(a) == fa + framed(a.drop_first()));
        assert(framed(b) == fb + framed(b.drop_first()));
        assert(framed(a).subrange(0, 8) =~= be64(la));
        assert(framed(b).subrange(0, 8) =~= be64(lb));
        lemma_be64_injective(la, lb);
        assert(a[0].len() == b[0].len());
        let n = a[0].len() as int;
        assert(framed(a).subrange(8, 8 + n) =~= a[0]);
        assert(framed(b).subrange(8, 8 + n) =~= b[0]);
        assert(framed(a).subrange(8 + n, framed(a).len() as int) =~= framed(a.drop_first()));
        assert(framed(b).subrange(8 + n, framed(b).len() as int) =~= framed(b.drop_first()));
        assert forall|i: int| 0 <= i < a.drop_first().len() implies (
        #[trigger] a.drop_first()[i]).len() <= u64::MAX by {
            assert(a.drop_first()[i] == a[i + 1]);
        }
        assert forall|i: int| 0 <= i < b.drop_first().len() implies (
        #[trigger] b.drop_first()[i]).len() <= u64::MAX by {
            assert(b.drop_first()[i] == b[i + 1]);
        }
        lemma_framing_is_unambiguous(a.drop_first(), b.drop_first());
        assert(a =~= b.drop_first().insert(0, b[0]));
        assert(b =~= b.drop_first().insert(0, b[0]));
    }
}

/// A repeated import must reproduce the recorded fingerprint.
pub fn fingerprint_check(recorded: Option<&str>, fingerprint: &str) -> (r: Result<(), ImportError>)
    ensures
        r is Ok <==> (recorded is None || recorded.unwrap()@ == fingerprint@),
        r matches Err(e) ==> e == ImportError::Mismatch,
{
    match recorded {
        None => Ok(()),
        Some(old) => {
            let a = chars_of(old);
            if chars_eq_str(&a, fingerprint) {
                Ok(())
            } else {
                Err(ImportError::Mismatch)
            }
        },
    }
}

/// The outcome an import reports: a repeated import only verifies; a first
/// import is kept, quarantined, when applied and rolled back otherwise.
pub fn import_outcome(recorded: bool, apply: bool) -> (r: &'static str)
    ensures
        recorded ==> r@ == "already_imported_verified"@,
        !recorded && apply ==> r@ == "applied_quarantined"@,
        !recorded && !apply ==> r@ == "dry_run_rolled_back"@,
{
    if recorded {
        "already_imported_verified"
    } else if apply {
        "applied_quarantined"
    } else {
        "dry_run_rolled_back"
    }
}

/// Only a first, applied import records a ledger and commits.
pub fn import_commits(recorded: bool, apply: bool) -> (b: bool)
    ensures
        b == (!recorded && apply),
{
    !recorded && apply
}

/// What becomes of one referenced object once its bytes are read.
#[derive(Clone, Copy, Debug, PartialEq, Eq, Structural)]
pub enum ObjectAction {
    /// It was preserved before: check the stored copy.
    Verify,
    /// Store it.
    Put,
    /// A dry run: only check that it could be stored.
    CheckDestination,
}

/// A preserved inventory must list exactly the referenced objects: every one
/// where a manifest exists, none where it does not.
pub fn inventory_entry(manifest_exists: bool, listed: bool) -> (r: Result<(), AssetError>)
    ensures
        r is Ok <==> manifest_exists == listed,
        r matches Err(e) ==> e == AssetError::Inventory,
{
    if manifest_exists != listed {
        Err(AssetError::Inventory)
    } else {
        Ok(())
    }
}

/// An object already listed must be unchanged; one not listed is stored when
/// applying and only checked otherwise.
pub fn object_action(listed: Option<(&str, i64)>, hash: &str, size: i64, apply: bool) -> (r: Result<
    ObjectAction,
    AssetError,
>)
    ensures
        match listed {
            Some((h, len)) => if h@ != hash@ || len != size {
                r == Err::<ObjectAction, AssetError>(AssetError::Changed)
            } else {
                r == Ok::<ObjectAction, AssetError>(ObjectAction::Verify)
            },
            None => if apply {
                r == Ok::<ObjectAction, AssetError>(ObjectAction::Put)
            } else {
                r == Ok::<ObjectAction, AssetError>(ObjectAction::CheckDestination)
            },
        },
{
    match listed {
        Some((h, len)) => {
            let a = chars_of(h);
            if !chars_eq_str(&a, hash) || len != size {
                Err(AssetError::Changed)
            } else {
                Ok(ObjectAction::Verify)
            }
        },
        None => if apply {
            Ok(ObjectAction::Put)
        } else {
            Ok(ObjectAction::CheckDestination)
        },
    }
}

/// Running totals of a preserved inventory.
#[derive(Clone, Copy, Debug, PartialEq, Eq, Structural)]
pub struct AssetTally {
    pub objects: i64,
    pub bytes: i64,
    pub copied: i64,
}

/// Counts one more object; a byte total that no longer fits refuses the
/// inventory.
pub fn tally_object(t: AssetTally, bytes: i64, copied: bool) -> (r: Result<AssetTally, AssetError>)
    requires
        t.objects < i64::MAX,
        t.copied < i64::MAX,
    ensures
        i64::MIN <= t.bytes + bytes <= i64::MAX ==> r == Ok::<AssetTally, AssetError>(
            AssetTally {
                objects: (t.objects + 1) as i64,
                bytes: (t.bytes + bytes) as i64,
                copied: (t.copied + if copied {
                    1int
                } else {
                    0int
                }) as i64,
            },
        ),
        !(i64::MIN <= t.bytes + bytes <= i64::MAX) ==> r == Err::<AssetTally, AssetError>(
            AssetError::Inventory,
        ),
{
    let total = match t.bytes.checked_add(bytes) {
        Some(v) => v,
        None => {
            return Err(AssetError::Inventory);
        },
    };
    let extra: i64 = if copied {
        1
    } else {
        0
    };
    Ok(AssetTally { objects: t.objects + 1, bytes: total, copied: t.copied + extra })
}

/// The outcome a preservation run reports.
pub fn asset_outcome(manifest_exists: bool, apply: bool) -> (r: &'static str)
    ensures
        manifest_exists ==> r@ == "already_preserved_verified"@,
        !manifest_exists && apply ==> r@ == "preserved_quarantined"@,
        !manifest_exists && !apply ==> r@ == "dry_run_verified"@,
{
    if manifest_exists {
        "already_preserved_verified"
    } else if apply {
        "preserved_quarantined"
    } else {
        "dry_run_verified"
    }
}

/// Only a first, applied preservation records files and a manifest and
/// commits; every other run rolls back.
pub fn asset_commits(manifest_exists: bool, apply: bool) -> (b: bool)
    ensures
        b == (!manifest_exists && apply),
{
    !manifest_exists && apply
}

/// The recorded asset manifest.
pub struct ManifestRow {
    pub source_fingerprint: String,
    pub object_count: i64,
    pub byte_count: i64,
}

/// Without a manifest no file may be listed or stored; with one, it must
/// belong to this import and match the listed files' count and bytes.
pub fn manifest_check(
    manifest: Option<&ManifestRow>,
    fingerprint: &str,
    listed_files: i64,
    stored_files: i64,
    listed_bytes: i64,
) -> (r: Result<(), ImportError>)
    ensures
        r is Ok <==> match manifest {
            None => listed_files == 0 && stored_files == 0,
            Some(m) => m.source_fingerprint@ == fingerprint@ && m.object_count == listed_files
                && m.byte_count == listed_bytes,
        },
        r matches Err(e) ==> e == ImportError::Mismatch,
{
    match manifest {
        None => if listed_files == 0 && stored_files == 0 {
            Ok(())
        } else {
            Err(ImportError::Mismatch)
        },
        Some(m) => {
            let a = chars_of(m.source_fingerprint.as_str());
            if !chars_eq_str(&a, fingerprint) || m.object_count != listed_files || m.byte_count
                != listed_bytes {
                Err(ImportError::Mismatch)
            } else {
                Ok(())
            }
        },
    }
}

/// An approval found already recorded: kept as it is where it matches this
/// database and origin, a conflict otherwise. Nothing is revalidated.
pub fn recorded_approval(matches: bool, objects: i64, bytes: i64) -> (r: Result<Report, Error>)
    ensures
        !matches ==> r == Err::<Report, Error>(Error::Conflict),
        matches ==> (r matches Ok(rep) && rep.outcome@ == "already_activated"@
            && rep.runtime_enabled && !rep.validated_now && rep.asset_objects == objects
            && rep.asset_bytes == bytes),
{
    if !matches {
        return Err(Error::Conflict);
    }
    Ok(
        Report {
            outcome: "already_activated",
            runtime_enabled: true,
            validated_now: false,
            asset_objects: objects,
            asset_bytes: bytes,
        },
    )
}

/// The report of an activation that revalidated the snapshot and files.
pub fn activation_report(apply: bool, objects: i64, bytes: i64) -> (rep: Report)
    ensures
        apply ==> rep.outcome@ == "activated"@,
        !apply ==> rep.outcome@ == "verified_not_activated"@,
        rep.runtime_enabled == apply,
        rep.validated_now,
        rep.asset_objects == objects,
        rep.asset_bytes == bytes,
{
    Report {
        outcome: if apply {
            "activated"
        } else {
            "verified_not_activated"
        },
        runtime_enabled: apply,
        validated_now: true,
        asset_objects: objects,
        asset_bytes: bytes,
    }
}

/// An activation run commits only a new, applied approval.
pub fn activation_commits(apply: bool, result: &Result<Report, Error>) -> (b: bool)
    ensures
        b == (apply && (result matches Ok(rep) && rep.outcome@ == "activated"@)),
{
    match result {
        Ok(rep) => {
            let o = chars_of(rep.outcome);
            apply && chars_eq_str(&o, "activated")
        },
        Err(_) => false,
    }
}

/// An imported member's handle must belong to the member's recorded server:
/// the recorded domain, canonicalized, is the handle's domain.
pub fn identity_domain(handle_domain: &str, recorded_domain: &str) -> (r: Result<(), ImportError>)
    ensures
        r is Ok <==> (domain_ok(canonical_form(recorded_domain@)) && canonical_form(
            recorded_domain@,
        ) == handle_domain@),
        r matches Err(e) ==> e == ImportError::Identity,
{
    match canonical_domain(recorded_domain) {
        Ok(d) => {
            let a = chars_of(d.as_str());
            if chars_eq_str(&a, handle_domain) {
                Ok(())
            } else {
                Err(ImportError::Identity)
            }
        },
        Err(_) => Err(ImportError::Identity),
    }
}

/// An import carries at most one instance signing key.
pub fn signing_key_rows(rows: usize) -> (r: Result<(), ImportError>)
    ensures
        r is Ok <==> rows <= 1,
        r matches Err(e) ==> e == ImportError::SigningKey,
{
    if rows > 1 {
        Err(ImportError::SigningKey)
    } else {
        Ok(())
    }
}

/// The records of a fingerprint, as UTF-8 bytes.
pub open spec fn records_bytes(records: Seq<String>) -> Seq<Seq<u8>> {
    records.map_values(|r: String| vstd::utf8::encode_utf8(r@))
}

proof fn lemma_framed_push(s: Seq<Seq<u8>>, x: Seq<u8>)
    ensures
        framed(s.push(x)) == framed(s) + frame_of(x),
    decreases s.len(),
{
    if s.len() == 0 {
        let p = s.push(x);
        assert(p.drop_first() =~= Seq::<Seq<u8>>::empty());
        assert(framed(p.drop_first()) == Seq::<u8>::empty());
        assert(p[0] == x);
        assert(framed(p) == frame_of(x) + framed(p.drop_first()));
        assert(framed(p) =~= frame_of(x));
        assert(framed(s) == Seq::<u8>::empty());
    } else {
        assert(s.push(x).drop_first() =~= s.drop_first().push(x));
        lemma_framed_push(s.drop_first(), x);
        assert(framed(s.push(x)) =~= frame_of(s[0]) + (framed(s.drop_first()) + frame_of(x)));
    }
}

/// The fingerprint of a snapshot: the lowercase hexadecimal SHA-256 of its
/// records (each table name, then that table's rows, in transfer order), each
/// record framed by its length.
pub fn fingerprint(records: &Vec<String>) -> (r: String)
    ensures
        r@ == hex_of(sha256(framed(records_bytes(records@)))),
{
    let mut input: Vec<u8> = Vec::new();
    let ghost rb = records_bytes(records@);
    let mut i: usize = 0;
    while i < records.len()
        invariant
            i <= records.len(),
            rb == records_bytes(records@),
            input@ == framed(rb.take(i as int)),
        decreases records.len() - i,
    {
        let mut f = frame(records[i].as_str());
        proof {
            assert(rb.take(i + 1) =~= rb.take(i as int).push(rb[i as int]));
            lemma_framed_push(rb.take(i as int), rb[i as int]);
        }
        input.append(&mut f);
        i = i + 1;
    }
    proof {
        assert(rb.take(i as int) =~= rb);
    }
    let digest = sha256_digest(input.as_slice());
    hex_string(digest.as_slice())
}

} // verus!
