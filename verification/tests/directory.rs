use fediversekr::directory::{
    canonical_domain, completed_job_error, expired_lease_state, icon_change, icon_improves,
    observation_usable, IconChange,
};

#[test]
fn automatic_icon_replacement_requires_a_verified_quality_improvement() {
    let large = Some((1u8, 512u64 * 512));
    let small = Some((1u8, 32u64 * 32));
    let legacy_undecodable = None;
    assert!(icon_improves(large, small));
    assert!(!icon_improves(small, large));
    assert!(!icon_improves(small, legacy_undecodable));
}

#[test]
fn domains_are_trimmed_lowercased_host_names() {
    assert_eq!(canonical_domain(" Social.Example.COM ").unwrap(), "social.example.com");
    assert_eq!(canonical_domain("a-b.example").unwrap(), "a-b.example");
    assert_eq!(canonical_domain("xn--9n2bp8q.kr").unwrap(), "xn--9n2bp8q.kr");
    for bad in [
        "",
        "localhost",
        "-a.example",
        "a-.example",
        "a..example",
        ".example.com",
        "example.com.",
        "exa mple.com",
        "user@example.com",
        "example.com:443",
        "https://example.com",
        "예시.kr",
    ] {
        assert_eq!(canonical_domain(bad), Err(()), "{bad}");
    }
    let label = "a".repeat(63);
    assert!(canonical_domain(&format!("{label}.example")).is_ok());
    assert!(canonical_domain(&format!("{label}a.example")).is_err());
    let long = format!("{}.kr", ["abcdefghi"; 25].join("."));
    assert!(long.len() == 252);
    assert!(canonical_domain(&long).is_ok());
    assert!(canonical_domain(&format!("a{long}")).is_ok());
    assert!(canonical_domain(&format!("ab{long}")).is_err());
}

#[test]
fn crawl_results_apply_only_to_the_leased_site() {
    assert!(observation_usable(false, false, "a.example", "a.example"));
    assert!(observation_usable(true, true, "a.example", "a.example"));
    assert!(!observation_usable(true, false, "a.example", "a.example"));
    assert!(!observation_usable(false, false, "a.example", "b.example"));
    assert_eq!(
        completed_job_error(true, &Some("timeout".into()), &Some("no_nodeinfo_link".into())),
        Some("timeout".to_string())
    );
    assert_eq!(
        completed_job_error(true, &None, &Some("no_nodeinfo_link".into())),
        Some("no_nodeinfo_link".to_string())
    );
    assert_eq!(completed_job_error(true, &None, &None), None);
    assert_eq!(
        completed_job_error(false, &None, &None),
        Some("site_changed_or_closed".to_string())
    );
    assert_eq!(expired_lease_state(2), "pending");
    assert_eq!(expired_lease_state(3), "dead");
}

#[test]
fn collected_icons_fill_or_improve_the_stored_icon() {
    let svg = Some(Some((2u8, u64::MAX)));
    let raster = Some(Some((1u8, 1024u64)));
    assert_eq!(icon_change(raster, None, false), IconChange::Insert);
    assert_eq!(icon_change(svg, Some(Some((1, 4096))), true), IconChange::Replace);
    assert_eq!(icon_change(svg, Some(Some((1, 4096))), false), IconChange::Keep);
    assert_eq!(icon_change(raster, Some(Some((1, 1024))), true), IconChange::Keep);
    assert_eq!(icon_change(raster, Some(None), true), IconChange::Keep);
    assert_eq!(icon_change(Some(None), None, true), IconChange::Keep);
    assert_eq!(icon_change(None, None, true), IconChange::Keep);
}
