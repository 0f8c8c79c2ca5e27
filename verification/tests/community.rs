use fediversekr::community::{
    access_request, change_allowed, create_allowed, domain, id, page, report_allowed, revision,
    revision_text, text, Error, LockedComment, RevisionTime,
};


#[test]
fn text_limits_and_revision_are_exact() {
    assert_eq!(text(" 가\r\n나 ".into(), 2000, true).unwrap(), "가\n나");
    assert!(text("가".repeat(2000), 2000, true).is_ok());
    assert!(text("가".repeat(2001), 2000, true).is_err());
    assert!(text(" \n ".into(), 2000, true).is_err());
    assert!(text("a\0b".into(), 2000, true).is_err());
    assert!(revision("2026-09-13T12:00:00.000001").is_ok());
    assert!(revision("2026-09-13T12:00:00").is_err());
}

#[test]
fn revisions_round_trip_through_their_text() {
    let t = revision("2026-09-13T12:00:00.000001").unwrap();
    assert_eq!(revision_text(t).as_deref(), Some("2026-09-13T12:00:00.000001"));
    assert_eq!(revision("1970-01-01T00:00:00.000000").unwrap(), RevisionTime { seconds: 0, nanos: 0 });
    let leap = revision("2016-12-31T23:59:60.500000").unwrap();
    assert_eq!(leap, RevisionTime { seconds: 1_483_228_799, nanos: 1_500_000_000 });
    assert_eq!(revision_text(leap).as_deref(), Some("2016-12-31T23:59:60.500000"));
    assert!(revision("2016-12-31T23:59:61.000000").is_err());
    assert_eq!(revision_text(revision("1999-12-31T23:59:59.999999").unwrap()).as_deref(), Some("1999-12-31T23:59:59.999999"));
    assert!(revision("2026-09-13T12:00:00.0000010").is_err());
    assert!(revision("2026-02-30T12:00:00.000000").is_err());
}

#[test]
fn identifiers_domains_and_pages_are_bounded() {
    let u = id("67e55044-10b1-426f-9247-bb680e5fe0c8").unwrap();
    assert_eq!(u, 0x67e55044_10b1_426f_9247_bb680e5fe0c8);
    assert_eq!(id("67e5504410b1426f9247bb680e5fe0c8"), Err(Error::Missing));
    assert_eq!(id("67e55044-10b1-426f-9247-bb680e5fe0cz"), Err(Error::Missing));
    assert_eq!(domain(" Social.Example.COM ").unwrap(), "social.example.com");
    assert_eq!(domain("localhost"), Err(Error::Missing));
    assert_eq!(domain("-a.example"), Err(Error::Missing));
    assert_eq!(domain("a..example"), Err(Error::Missing));
    assert_eq!(domain("a.example."), Err(Error::Missing));
    assert!(page(10_000).is_ok());
    assert_eq!(page(10_001), Err(Error::Invalid));
    assert!(text(String::new(), 500, false).is_ok());
    assert_eq!(text("x".repeat(501), 500, false), Err(Error::Invalid));
    assert!(access_request(100).is_ok());
    assert_eq!(access_request(101), Err(Error::Invalid));
}

#[test]
fn comment_writes_follow_ownership_revision_and_window() {
    let own = LockedComment {
        own: true,
        is_reply: false,
        deleted: false,
        editable: true,
        revision: 7,
    };
    assert_eq!(change_allowed(&own, 7, Some(true)), Ok(true));
    assert_eq!(change_allowed(&own, 7, Some(false)), Ok(false));
    assert_eq!(change_allowed(&own, 7, None), Ok(true));
    assert_eq!(change_allowed(&own, 6, None), Err(Error::Conflict));
    let late = LockedComment {
        editable: false,
        ..own
    };
    assert_eq!(change_allowed(&late, 7, Some(true)), Err(Error::TooLate));
    assert_eq!(change_allowed(&late, 7, None), Ok(true));
    let other = LockedComment { own: false, ..own };
    assert_eq!(change_allowed(&other, 7, None), Err(Error::Missing));
    assert_eq!(report_allowed(&own, false, 0), Err(Error::Missing));
    assert_eq!(report_allowed(&other, true, 0), Err(Error::DuplicateReport));
    assert_eq!(report_allowed(&other, false, 30), Err(Error::ReportRate));
    assert!(report_allowed(&other, false, 29).is_ok());
    assert_eq!(create_allowed(true, None), Err(Error::TooSoon));
    let reply = LockedComment {
        is_reply: true,
        ..other
    };
    assert_eq!(create_allowed(false, Some(&reply)), Err(Error::Missing));
    assert!(create_allowed(false, Some(&other)).is_ok());
}

#[test]
fn revision_texts_are_read_back_as_the_same_instant() {
    for t in [
        RevisionTime { seconds: 0, nanos: 0 },
        RevisionTime { seconds: 1_789_300_800, nanos: 1_000 },
        RevisionTime { seconds: -62_198_755_200, nanos: 999_999_000 },
        RevisionTime { seconds: 253_402_300_800, nanos: 0 },
        RevisionTime { seconds: -62_167_219_201, nanos: 500_000 },
    ] {
        let s = revision_text(t).unwrap();
        assert_eq!(revision(&s), Ok(t), "{s}");
    }
    assert_eq!(
        revision_text(RevisionTime { seconds: 253_402_300_800, nanos: 0 }).as_deref(),
        Some("+10000-01-01T00:00:00.000000")
    );
    assert_eq!(revision_text(RevisionTime { seconds: i64::MAX, nanos: 0 }), None);
}
