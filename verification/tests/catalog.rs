use fediversekr::catalog_editing::{
    categories_needing_check, edit_allowed, edit_rate, existing_name, new_name, restore_arguments,
    same_edit, text, validate, web_link, Error, SoftwareEdit,
};
use fediversekr::catalog_moderation::{
    logo_change, LogoChange,
    category, logo, next_revision, note, query, settings_unchanged, software, Action,
    CategoryEdit, CategoryRequest, LogoRequest, Request, LOGO_MAX_ENCODED,
};

#[test]
fn contributions_are_bounded_plain_text_and_safe_navigation() {
    let base = SoftwareEdit {
        display_name: "새 도구".into(),
        categories: vec!["image".into()],
        ..Default::default()
    };
    assert_eq!(new_name(" New_App ").unwrap(), "new_app");
    for name in ["", "../x", "a/b", "-x", "새도구"] {
        assert!(new_name(name).is_err());
    }
    assert!(validate(base.clone(), "소개 추가".into()).is_ok());
    for bad in [
        "javascript:alert(1)",
        "https://",
        "https://user@site.example.org",
        "https://x\\evil",
    ] {
        assert!(validate(
            SoftwareEdit {
                website_url: bad.into(),
                ..base.clone()
            },
            "수정".into()
        )
        .is_err());
    }
    assert!(validate(base.clone(), "".into()).is_err());
    assert!(validate(
        SoftwareEdit {
            description: "가".repeat(4001),
            ..base.clone()
        },
        "수정".into()
    )
    .is_err());
    assert!(validate(
        SoftwareEdit {
            description: "<script>not markup</script>".into(),
            ..base
        },
        "수정".into()
    )
    .is_ok());
}

#[test]
fn validation_normalizes_categories_features_and_text() {
    let edit = SoftwareEdit {
        display_name: "  도구\r\n  ".into(),
        description: " 첫 줄\r\n둘째 줄\t끝 ".into(),
        website_url: " https://tool.example.org/about ".into(),
        categories: vec![" video ".into(), "image".into(), "video".into(), "audio".into()],
        features: vec!["a".into(), " a ".into(), "".into(), "b".into(), "a".into()],
        ..Default::default()
    };
    let v = validate(edit, " 요약 ".into()).unwrap();
    assert_eq!(v.summary, "요약");
    assert_eq!(v.edit.display_name, "도구");
    assert_eq!(v.edit.description, "첫 줄\n둘째 줄\t끝");
    assert_eq!(v.edit.website_url, "https://tool.example.org/about");
    assert_eq!(v.edit.categories, vec!["audio", "image", "video"]);
    assert_eq!(v.edit.features, vec!["a", "b", "a"]);
    let tabbed = SoftwareEdit {
        display_name: "a\tb".into(),
        categories: vec!["x".into()],
        ..Default::default()
    };
    assert_eq!(validate(tabbed, "s".into()).err(), Some(Error::Invalid));
    let empty_category = SoftwareEdit {
        display_name: "a".into(),
        categories: vec!["  ".into()],
        ..Default::default()
    };
    assert!(validate(empty_category, "s".into()).is_err());
    let too_many = SoftwareEdit {
        display_name: "a".into(),
        categories: (0..33).map(|i| format!("c{i}")).collect(),
        ..Default::default()
    };
    assert!(validate(too_many, "s".into()).is_err());
}

#[test]
fn names_text_and_links_follow_the_catalog_rules() {
    assert!(existing_name("legacy.name").is_ok());
    assert!(existing_name("").is_err());
    assert!(existing_name("a\u{7f}b").is_err());
    assert!(existing_name(&"a".repeat(129)).is_err());
    let mut s = String::from(" x\r\ny ");
    assert!(text(&mut s, 3, true).is_ok());
    assert_eq!(s, "x\ny");
    let mut s = String::from(" x\r\ny ");
    assert_eq!(text(&mut s, 3, false), Err(Error::Invalid));
    assert_eq!(s, "x\ny");
    assert_eq!(
        web_link("https://example.org/a").as_deref(),
        Some("https://example.org/a")
    );
    assert!(web_link("https://example.org/a b").is_none());
    assert!(web_link("ftp://example.org").is_none());
}

#[test]
fn edit_revisions_locks_and_rates_are_checked() {
    assert_eq!(edit_allowed(true, false, 3, 3), Err(Error::Locked));
    assert!(edit_allowed(true, true, 3, 3).is_ok());
    assert_eq!(edit_allowed(false, false, 3, 2), Err(Error::Conflict));
    assert_eq!(restore_arguments(2, 2), Err(Error::Invalid));
    assert_eq!(restore_arguments(-1, 2), Err(Error::Invalid));
    assert!(restore_arguments(3, 1).is_ok());
    assert_eq!(edit_rate(30), Err(Error::RateLimited));
    assert!(edit_rate(29).is_ok());
    let a = SoftwareEdit {
        categories: vec!["image".into(), "video".into()],
        ..Default::default()
    };
    let b = SoftwareEdit {
        categories: vec!["audio".into(), "image".into()],
        ..Default::default()
    };
    assert_eq!(categories_needing_check(&a, Some(&b)), vec!["video"]);
    assert_eq!(categories_needing_check(&a, None), vec!["image", "video"]);
    assert!(same_edit(&a, &a.clone()));
    assert!(!same_edit(&a, &b));
}

#[test]
fn admin_validation_preserves_names_and_rejects_css() {
    let make = |s: &str| Request {
        name: "legacy.name".into(),
        revision: 0,
        action: Action::BrandColor(Some(s.into())),
        note: " 수정 ".into(),
    };
    assert_eq!(
        software(make(" #abcdef ")).unwrap().action,
        Action::BrandColor(Some("#ABCDEF".into()))
    );
    for bad in [
        "red",
        "#fff",
        "#123456;display:none",
        "url(https://example.org)",
    ] {
        assert!(software(make(bad)).is_err());
    }
    assert!(query("%_\\", 0).is_ok());
    assert!(query("\n", 0).is_err());
    assert!(query("", 10001).is_err());
}

#[test]
fn admin_requests_normalize_notes_colors_logos_and_categories() {
    let r = software(Request {
        name: "legacy.name".into(),
        revision: 1,
        action: Action::BrandColor(Some("  ".into())),
        note: " 비움 ".into(),
    })
    .unwrap();
    assert_eq!(r.action, Action::BrandColor(None));
    assert_eq!(r.note, "비움");
    assert!(software(Request {
        name: "x".into(),
        revision: -1,
        action: Action::Locked(true),
        note: "n".into(),
    })
    .is_err());
    let mut n = String::from("   ");
    assert_eq!(note(&mut n), Err(Error::Invalid));
    let ok = logo(LogoRequest {
        name: "x".into(),
        revision: 0,
        data: Some("aGVsbG8=".into()),
        note: " 로고 ".into(),
    })
    .unwrap();
    assert_eq!(ok.note, "로고");
    assert!(logo(LogoRequest {
        name: "x".into(),
        revision: 0,
        data: Some(String::new()),
        note: "n".into(),
    })
    .is_err());
    assert!(logo(LogoRequest {
        name: "x".into(),
        revision: 0,
        data: Some("a".repeat(LOGO_MAX_ENCODED + 1)),
        note: "n".into(),
    })
    .is_err());
    let created = category(CategoryRequest {
        name: " Books ".into(),
        revision: None,
        edit: CategoryEdit {
            label: " 책 ".into(),
            emoji: " 📚 ".into(),
            display_order: 3,
        },
        note: "추가".into(),
    })
    .unwrap();
    assert_eq!(created.name, "books");
    assert_eq!(created.edit.label, "책");
    assert_eq!(created.edit.emoji, "📚");
    let kept = category(CategoryRequest {
        name: "Legacy Name".into(),
        revision: Some(2),
        edit: CategoryEdit {
            label: "라벨".into(),
            emoji: String::new(),
            display_order: 0,
        },
        note: "수정".into(),
    })
    .unwrap();
    assert_eq!(kept.name, "Legacy Name");
    assert!(category(CategoryRequest {
        name: "x".into(),
        revision: Some(1),
        edit: CategoryEdit {
            label: " ".into(),
            emoji: String::new(),
            display_order: 0,
        },
        note: "n".into(),
    })
    .is_err());
    assert_eq!(next_revision(4), Ok(5));
    assert_eq!(next_revision(i64::MAX), Err(Error::Invalid));
    assert!(settings_unchanged(
        &Action::BrandColor(Some("#ABCDEF".into())),
        false,
        &Some("#ABCDEF".into()),
        false,
        0
    ));
    assert!(!settings_unchanged(&Action::Featured(true), false, &None, false, 0));
    assert!(settings_unchanged(&Action::DisplayOrder(4), false, &None, false, 4));
}

#[test]
fn logo_changes_write_only_real_changes() {
    assert_eq!(logo_change(3, 2, true, true, false), LogoChange::Conflict);
    assert_eq!(logo_change(3, 3, true, true, true), LogoChange::Unchanged);
    assert_eq!(logo_change(3, 3, false, false, false), LogoChange::Unchanged);
    assert_eq!(logo_change(3, 3, true, true, false), LogoChange::Replace { baseline: false, retire_old: true });
    assert_eq!(logo_change(0, 0, false, true, false), LogoChange::Replace { baseline: true, retire_old: false });
    assert_eq!(logo_change(0, 0, true, false, false), LogoChange::Remove { baseline: true });
    assert_eq!(LogoChange::Replace { baseline: false, retire_old: true }.label(), Some("로고 변경"));
    assert_eq!(LogoChange::Remove { baseline: false }.label(), Some("로고 제거"));
    assert_eq!(LogoChange::Unchanged.label(), None);
}
