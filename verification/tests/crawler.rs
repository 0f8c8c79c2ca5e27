use fediversekr::crawler::{
    add_link, best_icon_index, collect_plan, link_address, manifest_icon_entries, nodeinfo_link, reply_score,
    CollectPlan, IconLinks, MANIFEST_FETCH_LIMIT,
    declared_icon_area, icon_fetch_plan, icon_reply_usable, image_mime, improves_best, json,
    link_kinds, link_priority, nodeinfo_from_fields, nodeinfo_rel, parse_nodeinfo,
    push_icon_candidate, rank_positions, response_ms, score_icon, site_alive, IconCandidate,
    NodeInfoFields, PublicHttp, Reply, ANY_AREA, ICON_CANDIDATE_LIMIT, ICON_LIMIT,
};

fn value(text: &str) -> serde_json::Value {
    serde_json::from_str(text).unwrap()
}

fn candidate(url: &str, area: u64, priority: u8) -> IconCandidate {
    IconCandidate { url: url.to_string(), declared_area: area, source_priority: priority }
}

#[test]
fn missing_or_malformed_values_are_unknown_not_zero_or_false() {
    let n = parse_nodeinfo(&value(
        r#"{"version":"2.0","usage":{"users":{"total":-1,"activeMonth":"12"}},"openRegistrations":"true"}"#,
    ))
    .unwrap();
    assert_eq!(n.users, None);
    assert_eq!(n.active_users, None);
    assert_eq!(n.registration_open, None);
    assert!(parse_nodeinfo(&value(r#"{"version":"3.0"}"#)).is_err());
    let n = parse_nodeinfo(&value(
        r#"{"version":"2.1","usage":{"users":{"total":0}},"openRegistrations":false}"#,
    ))
    .unwrap();
    assert_eq!(n.users, Some(0));
    assert_eq!(n.registration_open, Some(false));
}

#[test]
fn image_mime_preserves_legacy_raster_formats_without_enabling_decoders() {
    let signatures: &[(&[u8], &str)] = &[
        (b"\x89PNG\r\n\x1a\n", "image/png"),
        (b"\xff\xd8\xff", "image/jpeg"),
        (b"GIF87a", "image/gif"),
        (b"GIF89a", "image/gif"),
        (b"RIFF\x12\x34\x56\x78WEBP", "image/webp"),
        (b"\0\0\x01\0", "image/x-icon"),
        (b"\0\0\0\x20ftypavif", "image/avif"),
        (b"BM\0\0\0\0", "image/bmp"),
        (b"II*\0", "image/tiff"),
        (b"MM\0*", "image/tiff"),
    ];
    for (bytes, mime) in signatures {
        assert_eq!(image_mime(bytes), Some(*mime));
    }
    for unsupported in [
        b"".as_slice(),
        b"RIFF\0\0\0\0WAVE",
        b"\0\0\0\x20ftypmp42",
        b"<html><img src='/private'></html>",
        b"DDS ",
        b"qoif",
    ] {
        assert_eq!(image_mime(unsupported), None);
    }
}

#[test]
fn icon_relations_are_ascii_case_insensitive_tokens_and_remote_types_are_ignored() {
    assert_eq!(link_kinds("SHORTCUT ICON"), (false, true, false));
    assert_eq!(link_kinds("apple-touch-icon manifest"), (true, false, true));
    assert_eq!(link_kinds(" Apple-Touch-Icon-Precomposed\ticon "), (false, true, true));
    assert_eq!(link_kinds("icons stylesheet"), (false, false, false));
    assert_eq!(link_kinds(""), (false, false, false));
    assert_eq!(link_priority(true, true), 2);
    assert_eq!(link_priority(true, false), 1);
    assert_eq!(link_priority(false, false), 0);
    assert_eq!(image_mime(b"<svg onload='alert(1)'/>"), None);
    assert_eq!(image_mime(b"<html>not an icon"), None);
}

#[test]
fn nodeinfo_fields_are_trimmed_bounded_and_counts_fit() {
    let n = parse_nodeinfo(&value(
        r#"{"version":"2.1","software":{"name":"  mastodon ","version":"4.2.0"},
            "metadata":{"nodeName":"","nodeDescription":"a\u0000b"},
            "usage":{"users":{"total":9223372036854775808,"activeMonth":7},"localPosts":42}}"#,
    ))
    .unwrap();
    assert_eq!(n.software.as_deref(), Some("mastodon"));
    assert_eq!(n.version.as_deref(), Some("4.2.0"));
    assert_eq!(n.name, None);
    assert_eq!(n.description, None);
    assert_eq!(n.users, None);
    assert_eq!(n.active_users, Some(7));
    assert_eq!(n.posts, Some(42));
    assert!(parse_nodeinfo(&value("[1,2]")).is_err());
    assert_eq!(parse_nodeinfo(&value(r#"{"version":2.0}"#)).unwrap_err(), "unsupported_nodeinfo");

    let long = "x".repeat(129);
    let fields = NodeInfoFields {
        is_object: true,
        version: Some("2.0".into()),
        software_name: Some(long),
        users_total: Some(i64::MAX as u64),
        ..Default::default()
    };
    let n = nodeinfo_from_fields(&fields).unwrap();
    assert_eq!(n.software, None);
    assert_eq!(n.users, Some(i64::MAX));
    let fields = NodeInfoFields { is_object: false, version: Some("2.0".into()), ..Default::default() };
    assert_eq!(nodeinfo_from_fields(&fields).unwrap_err(), "unsupported_nodeinfo");
}

#[test]
fn nodeinfo_replies_need_a_successful_json_body() {
    let reply = |status: u16, body: Result<Vec<u8>, &'static str>| Reply {
        url: "https://social.example.com/nodeinfo".into(),
        status,
        body,
    };
    assert_eq!(json(reply(404, Ok(b"{}".to_vec()))).unwrap_err(), "nodeinfo_http_status");
    assert_eq!(json(reply(200, Err("body_too_large"))).unwrap_err(), "body_too_large");
    assert_eq!(json(reply(200, Ok(b"not json".to_vec()))).unwrap_err(), "invalid_json");
    assert!(json(reply(200, Ok(br#"{"links":[]}"#.to_vec()))).unwrap().is_object());
    assert_eq!(nodeinfo_rel(true), "http://nodeinfo.diaspora.software/ns/schema/2.1");
    assert_eq!(nodeinfo_rel(false), "http://nodeinfo.diaspora.software/ns/schema/2.0");
}

#[test]
fn declared_icon_sizes_take_the_largest_valid_area() {
    assert_eq!(declared_icon_area(None), 0);
    assert_eq!(declared_icon_area(Some("")), 0);
    assert_eq!(declared_icon_area(Some("16x16 32x32\t24x24")), 1024);
    assert_eq!(declared_icon_area(Some("ANY")), ANY_AREA);
    assert_eq!(ANY_AREA, u64::MAX / 2);
    assert_eq!(declared_icon_area(Some("16X16")), 0);
    assert_eq!(declared_icon_area(Some("ax1 -1x2 3x")), 0);
    assert_eq!(declared_icon_area(Some("4294967296x4294967296 2x3")), 6);
    assert_eq!(declared_icon_area(Some("+4x4")), 16);
}

#[test]
fn icon_candidates_are_unique_ranked_and_keep_the_fallback_reachable() {
    let mut list = Vec::new();
    push_icon_candidate(&mut list, candidate("https://s.example/a.png", 16, 1));
    push_icon_candidate(&mut list, candidate("https://s.example/a.png", 999, 2));
    assert_eq!(list.len(), 1);
    assert_eq!(list[0].declared_area, 16);
    push_icon_candidate(&mut list, candidate("https://s.example/favicon.ico", 4096, 2));
    push_icon_candidate(&mut list, candidate("https://s.example/b.png", 64, 1));
    push_icon_candidate(&mut list, candidate("https://s.example/c.png", 64, 2));
    push_icon_candidate(&mut list, candidate("https://s.example/d.png", 16, 1));
    let order = rank_positions(&list, "https://s.example/favicon.ico");
    assert_eq!(order, vec![3, 2, 0, 4]);
    let plan = icon_fetch_plan(&list, "https://s.example/favicon.ico");
    let urls: Vec<&str> = plan.iter().map(|c| c.url.as_str()).collect();
    assert_eq!(
        urls,
        vec![
            "https://s.example/c.png",
            "https://s.example/b.png",
            "https://s.example/a.png",
            "https://s.example/d.png",
            "https://s.example/favicon.ico",
        ]
    );
    assert_eq!(plan[4].declared_area, 0);
    assert_eq!(plan[4].source_priority, 0);

    let mut noisy = Vec::new();
    for i in 0..20u64 {
        push_icon_candidate(&mut noisy, candidate(&format!("https://s.example/{i}.png"), i, 0));
    }
    let plan = icon_fetch_plan(&noisy, "https://s.example/favicon.ico");
    assert_eq!(plan.len(), ICON_CANDIDATE_LIMIT + 1);
    assert_eq!(plan[0].url, "https://s.example/19.png");
    assert_eq!(plan[ICON_CANDIDATE_LIMIT].url, "https://s.example/favicon.ico");
}

#[test]
fn fetched_icons_are_scored_and_only_strictly_better_ones_win() {
    assert_eq!(score_icon(true, None), Some((2, u64::MAX)));
    assert_eq!(score_icon(false, Some(1024)), Some((1, 1024)));
    assert_eq!(score_icon(false, None), None);
    assert!(improves_best(None, (1, 1)));
    assert!(improves_best(Some((1, 1024)), (2, u64::MAX)));
    assert!(improves_best(Some((1, 256)), (1, 1024)));
    assert!(!improves_best(Some((1, 1024)), (1, 1024)));
    assert!(!improves_best(Some((2, u64::MAX)), (1, u64::MAX)));
    assert!(icon_reply_usable(200, Some(1)));
    assert!(icon_reply_usable(200, Some(ICON_LIMIT)));
    assert!(!icon_reply_usable(200, Some(ICON_LIMIT + 1)));
    assert!(!icon_reply_usable(200, Some(0)));
    assert!(!icon_reply_usable(200, None));
    assert!(!icon_reply_usable(304, Some(10)));
}

#[test]
fn health_is_the_root_status_and_time_saturates() {
    assert!(site_alive(200));
    assert!(site_alive(302));
    assert!(site_alive(399));
    assert!(!site_alive(400));
    assert!(!site_alive(199));
    assert_eq!(response_ms(12), 12);
    assert_eq!(response_ms(i32::MAX as u128 + 1), i32::MAX);
}

#[test]
fn public_reads_follow_three_redirects_and_cap_bodies() {
    let http = PublicHttp;
    for status in [301u16, 302, 303, 307, 308] {
        assert_eq!(http.after_status(status, 0), Ok(true));
        assert_eq!(http.after_status(status, 2), Ok(true));
        assert_eq!(http.after_status(status, 3), Err("redirect_limit"));
    }
    assert_eq!(http.after_status(200, 3), Ok(false));
    assert_eq!(http.after_status(304, 0), Ok(false));
    assert_eq!(http.body_start(Some(11), 10), Err("body_too_large"));
    assert_eq!(http.body_start(Some(10), 10), Ok(Vec::new()));
    assert_eq!(http.body_start(None, 10), Ok(Vec::new()));
    let body = http.body_chunk(Vec::new(), b"hello", 10).unwrap();
    let body = http.body_chunk(body, b"world", 10).unwrap();
    assert_eq!(body, b"helloworld");
    assert_eq!(http.body_chunk(body, b"!", 10), Err("body_too_large"));
}

#[test]
fn nodeinfo_replies_carry_the_parsed_document() {
    let reply = Reply { url: "https://s.example/x".into(), status: 200, body: Ok(br#"{"version":"2.1"}"#.to_vec()) };
    assert_eq!(json(reply).unwrap(), value(r#"{"version":"2.1"}"#));
}

#[test]
fn manifest_icons_are_read_in_order_with_their_sizes() {
    let entries = manifest_icon_entries(
        br#"{"icons":[{"src":"/a.png","sizes":"48x48 96x96"},{"sizes":"1x1"},{"src":7},{"src":"b.svg","sizes":"any"},{"src":"/c.png"}]}"#,
    );
    assert_eq!(
        entries,
        vec![("/a.png".to_string(), 9216), ("b.svg".to_string(), ANY_AREA), ("/c.png".to_string(), 0)]
    );
    assert!(manifest_icon_entries(b"not json").is_empty());
    assert!(manifest_icon_entries(br#"{"icons":{"src":"/a.png"}}"#).is_empty());
    assert!(manifest_icon_entries(br#"[{"src":"/a.png"}]"#).is_empty());
}

#[test]
fn link_tags_add_manifests_and_icons_once() {
    let mut links = IconLinks::default();
    add_link(&mut links, "SHORTCUT ICON", "https://s.example/logo.png".into(), Some("32x32"));
    add_link(&mut links, "icon", "https://s.example/logo.png".into(), Some("64x64"));
    add_link(&mut links, "apple-touch-icon icon", "https://s.example/t.png".into(), None);
    add_link(&mut links, "manifest", "https://s.example/m.json".into(), None);
    add_link(&mut links, "manifest", "https://s.example/m.json".into(), None);
    add_link(&mut links, "stylesheet", "https://s.example/s.css".into(), None);
    assert_eq!(links.manifests, vec!["https://s.example/m.json".to_string()]);
    assert_eq!(links.icons.len(), 2);
    assert_eq!(links.icons[0].declared_area, 1024);
    assert_eq!(links.icons[0].source_priority, 1);
    assert_eq!(links.icons[1].source_priority, 2);
}

#[test]
fn fetched_icon_replies_are_scored_by_their_bytes() {
    assert_eq!(reply_score(200, Some(10), Some("image/png"), Some(1024)), Some((1, 1024)));
    assert_eq!(reply_score(200, Some(10), Some("image/svg+xml"), None), Some((2, u64::MAX)));
    assert_eq!(reply_score(200, Some(10), Some("image/png"), None), None);
    assert_eq!(reply_score(200, Some(10), None, Some(1024)), None);
    assert_eq!(reply_score(404, Some(10), Some("image/png"), Some(1024)), None);
    assert_eq!(reply_score(200, Some(0), Some("image/png"), Some(1024)), None);
    assert_eq!(reply_score(200, None, Some("image/png"), Some(1024)), None);
}

#[test]
fn fetched_icons_replace_the_best_only_when_strictly_better() {
    let scores = vec![None, Some((1, 16)), Some((1, 1024)), Some((1, 1024)), Some((1, 8))];
    assert_eq!(best_icon_index(&scores), Some(2));
    let svg_later = vec![Some((1, 4096)), None, Some((2, u64::MAX)), Some((2, u64::MAX))];
    assert_eq!(best_icon_index(&svg_later), Some(2));
    assert_eq!(best_icon_index(&vec![None, None]), None);
    assert_eq!(best_icon_index(&Vec::new()), None);
    assert_eq!(best_icon_index(&vec![Some((1, 1))]), Some(0));
}

#[test]
fn collection_steps_follow_the_root_page() {
    assert_eq!(collect_plan(200, true, 5), CollectPlan { nodeinfo: true, icons: true, manifests: MANIFEST_FETCH_LIMIT });
    assert_eq!(collect_plan(301, true, 1), CollectPlan { nodeinfo: true, icons: true, manifests: 1 });
    assert_eq!(collect_plan(200, false, 3), CollectPlan { nodeinfo: true, icons: false, manifests: 0 });
    assert_eq!(collect_plan(404, true, 3), CollectPlan { nodeinfo: false, icons: false, manifests: 0 });
    assert_eq!(collect_plan(199, true, 0), CollectPlan { nodeinfo: false, icons: false, manifests: 0 });
    assert_eq!(MANIFEST_FETCH_LIMIT, 2);
}

#[test]
fn nodeinfo_discovery_prefers_schema_two_one() {
    let both = value(
        r#"{"links":[{"rel":"http://nodeinfo.diaspora.software/ns/schema/2.0","href":"https://s.example/20"},
                     {"rel":"http://nodeinfo.diaspora.software/ns/schema/2.1","href":"https://s.example/21"}]}"#,
    );
    assert_eq!(nodeinfo_link(&both), Ok("https://s.example/21".to_string()));
    let only_20 = value(
        r#"{"links":[{"rel":"other","href":"https://s.example/x"},
                     {"rel":"http://nodeinfo.diaspora.software/ns/schema/2.0","href":"https://s.example/20"}]}"#,
    );
    assert_eq!(nodeinfo_link(&only_20), Ok("https://s.example/20".to_string()));
    let no_href = value(r#"{"links":[{"rel":"http://nodeinfo.diaspora.software/ns/schema/2.1"}]}"#);
    assert_eq!(nodeinfo_link(&no_href), Err("invalid_nodeinfo_link"));
    let other = value(r#"{"links":[{"rel":"other","href":"https://s.example/x"}]}"#);
    assert_eq!(nodeinfo_link(&other), Err("no_nodeinfo_link"));
    assert_eq!(nodeinfo_link(&value(r#"{"links":{}}"#)), Err("no_nodeinfo_link"));
    assert_eq!(nodeinfo_link(&value(r#"{}"#)), Err("no_nodeinfo_link"));
}

#[test]
fn signature_table_order_decides_overlapping_prefixes() {
    assert_eq!(image_mime(b"\0\0\x01\0ftypavif"), Some("image/x-icon"));
    assert_eq!(image_mime(b"\0\0\x07\x08ftypavif"), Some("image/avif"));
    assert_eq!(image_mime(b"RIFF\x01\x02\x03\x04WEBPVP8 "), Some("image/webp"));
    assert_eq!(image_mime(b"RIFFWEBP"), None);
    assert_eq!(image_mime(b"#?RADIANCE"), None);
    assert_eq!(image_mime(b"BMP"), Some("image/bmp"));
}

#[test]
fn page_links_resolve_against_the_page_address() {
    assert_eq!(
        link_address("https://s.example/a/b.html", "../icons/c.png"),
        Some("https://s.example/icons/c.png".to_string())
    );
    assert_eq!(
        link_address("https://s.example/a/", "/favicon.ico"),
        Some("https://s.example/favicon.ico".to_string())
    );
    assert_eq!(
        link_address("https://s.example/", "https://cdn.example/i.png"),
        Some("https://cdn.example/i.png".to_string())
    );
    assert_eq!(link_address("not a url", "/x.png"), None);
}
