use petit_filou::ListingItem;
use petit_filou::MimeEntry;
use petit_filou::MimeRegistry;
use petit_filou::cascade::stage_candidates;
use petit_filou::extract::strategy_body;
use petit_filou::extract::strategy_direct;
use petit_filou::extract::strategy_embedded;
use petit_filou::extract::strategy_link_date;
use petit_filou::page::parse_page;

fn merge(into: &mut Vec<String>, from: Vec<String>) {
    for u in from {
        if !into.contains(&u) {
            into.push(u);
        }
    }
}

fn mp4_only() -> MimeRegistry {
    MimeRegistry::new(vec![MimeEntry {
        extension: "mp4".to_string(),
        mime: "video/mp4".to_string(),
    }])
    .unwrap()
}

#[test]
fn test_p0_retrieves_urls() {
    let items = parse_page(
        r#"[
        {"source_url": "http://example.com/wp-content/uploads/2003/02/image.jpg"},
        {"source_url": "http://example.com/wp-content/uploads/2004/04/image.png"},
        {"source_url": "https://example.com/blog/wp-content/uploads/2005/05/image.gif"}
    ]"#,
    )
    .unwrap();

    let mut urls: Vec<String> = Vec::new();
    for item in &items {
        merge(&mut urls, strategy_direct(item));
    }

    assert_eq!(urls.len(), 3);
    assert!(urls.contains(&"http://example.com/wp-content/uploads/2003/02/image.mp4".to_string()));
}

#[test]
fn test_p0_handles_empty_string() {
    let items = parse_page(r#"[{"source_url": ""}]"#).unwrap();
    let urls = strategy_direct(&items[0]);
    assert!(urls.is_empty());
}

#[test]
fn test_p0_handles_empty_json() {
    let items = parse_page("[{}]").unwrap();
    let urls = strategy_direct(&items[0]);
    assert!(urls.is_empty());
}

#[test]
fn test_p1_retrieves_urls() {
    let items = parse_page(
        r#"[
        {"_embedded":{"wp:featuredmedia":[
            {"source_url":"http://example.com/wp-content/uploads/2024/03/image1.jpg"},
            {"source_url":"http://example.com/wp-content/uploads/2024/03/image2.jpg"}]}},
        {"_embedded":{"wp:featuredmedia":[
            {"source_url":"http://example.com/wp-content/uploads/2024/03/image2.jpg"},
            {"source_url":"http://example.com/wp-content/uploads/2024/03/image3.jpg"}]}},
        {"_embedded":{"wp:featuredmedia":[
            {"source_url":"http://example.com/wp-content/uploads/2020/05/image2.jpg"},
            {"source_url":"http://example.com/wp-content/uploads/2021/05/video.mp4"}]}}
    ]"#,
    )
    .unwrap();

    let mut urls: Vec<String> = Vec::new();
    for item in &items {
        merge(&mut urls, strategy_embedded(item));
    }

    assert_eq!(urls.len(), 5);
    assert!(urls.contains(&"http://example.com/wp-content/uploads/2020/05/image2.mp4".to_string()));
    assert!(urls.contains(&"http://example.com/wp-content/uploads/2021/05/video.mp4".to_string()));
}

#[test]
fn test_p1_handles_empty_array() {
    let items = parse_page(r#"[{"_embedded": {"wp:featuredmedia": []}}]"#).unwrap();
    let urls = strategy_embedded(&items[0]);
    assert!(urls.is_empty());
}

#[test]
fn test_p1_handles_empty_string() {
    let items = parse_page(r#"[{"_embedded": {"wp:featuredmedia": [{"source_url": ""}]}}]"#)
        .unwrap();
    let urls = strategy_embedded(&items[0]);
    assert!(urls.is_empty());
}

#[test]
fn test_p1_handles_empty_json() {
    let items = parse_page(r#"[{"_embedded": {"wp:featuredmedia": [{}]}}]"#).unwrap();
    let urls = strategy_embedded(&items[0]);
    assert!(urls.is_empty());
}

#[test]
fn test_p2_retrieves_urls() {
    let items = parse_page(
        r#"[
        {"content": {"rendered": "Check this link https://example.com/wp-content/uploads/2024/03/first-post.mp4."},
         "excerpt": {"rendered": "Check this link https://example.com/wp-content/uploads/2024/03/first-post.mp4."}},
        {"content": {"rendered": "Check this link https://example.com/wp-content/uploads/2024/03/second-post.mp4."},
         "excerpt": {"rendered": "Check this link https://example.com/blog/wp-content/uploads/2024/03/third-post.mp4.\n And then there is also this: https://example.com/blog/wp-content/uploads/2024/03/fourth-post.mp4."}},
        {"content": {"rendered": ""},
         "excerpt": {"rendered": "Check this link https://example.com/blog/wp-content/uploads/2024/03/fifth-post.mp4"}}
    ]"#,
    )
    .unwrap();

    let reg = MimeRegistry::standard();
    let exts = reg.extension_chars();
    let mut urls: Vec<String> = Vec::new();
    for item in &items {
        merge(&mut urls, strategy_body(item, &exts));
    }

    assert_eq!(urls.len(), 5);
}

#[test]
fn test_p2_handles_empty_strings() {
    let items = parse_page(r#"[{"content": {"rendered": ""}, "excerpt": {"rendered": ""}}]"#)
        .unwrap();
    let reg = MimeRegistry::standard();
    let exts = reg.extension_chars();
    let urls = strategy_body(&items[0], &exts);
    assert!(urls.is_empty());
}

#[test]
fn test_p2_handles_empty_json() {
    let items = parse_page("[{}]").unwrap();
    let reg = MimeRegistry::standard();
    let exts = reg.extension_chars();
    let urls = strategy_body(&items[0], &exts);
    assert!(urls.is_empty());
}

#[test]
fn test_p3_retrieves_urls() {
    let items = parse_page(
        r#"[
        {"date": "2024-03-21T18:25:20", "link": "http://example.com/first-post/"},
        {"date": "2015-12-15T18:25:20", "link": "https://example.com/second-post/"},
        {"date": "2012-01-15T18:25:20", "link": "https://example.com/third-post/"}
    ]"#,
    )
    .unwrap();

    let reg = mp4_only();
    let mut urls: Vec<String> = Vec::new();
    for item in &items {
        merge(&mut urls, strategy_link_date(item, &reg));
    }

    assert_eq!(urls.len(), 6);
    assert!(urls.contains(&"https://example.com/wp-content/uploads/2015/12/second-post.mp4".to_string()));
    assert!(urls.contains(&"https://example.com/blog/wp-content/uploads/2015/12/second-post.mp4".to_string()));
}

#[test]
fn test_p3_handles_empty_strings() {
    let items = parse_page(
        r#"[
        {"date": "", "link": ""},
        {"date": "2024-03-21T18:25:20", "link": ""},
        {"date": "", "link": "http://example.com/blog/first-post/"}
    ]"#,
    )
    .unwrap();

    let reg = mp4_only();
    let mut urls: Vec<String> = Vec::new();
    for item in &items {
        merge(&mut urls, strategy_link_date(item, &reg));
    }

    assert!(urls.is_empty());
}

#[test]
fn test_p3_handles_empty_json() {
    let items = parse_page("[{}]").unwrap();
    let reg = mp4_only();
    let urls = strategy_link_date(&items[0], &reg);
    assert!(urls.is_empty());
}

#[test]
fn test_direct_rewrite_is_independent_of_extension() {
    for ext in ["jpg", "png", "mov", "mp4", "webm", "x"] {
        let item = ListingItem {
            source_url: Some(format!("http://h/wp-content/uploads/2021/01/image.{}", ext)),
            featured_media: Vec::new(),
            content: None,
            excerpt: None,
            link: None,
            date: None,
        };
        let urls = strategy_direct(&item);
        assert_eq!(urls, vec!["http://h/wp-content/uploads/2021/01/image.mp4".to_string()]);
    }
}

#[test]
fn test_direct_rejects_other_shapes() {
    for bad in [
        "http://h/uploads/2021/01/image.jpg",
        "http://h/wp-content/uploads/201/01/image.jpg",
        "http://h/wp-content/uploads/2021/01/image",
        "http://h/wp-content/uploads/2021/01/a/image.jpg",
        "ftp://h/wp-content/uploads/2021/01/image.jpg",
        "http:///wp-content/uploads/2021/01/image.jpg",
    ] {
        let item = ListingItem {
            source_url: Some(bad.to_string()),
            featured_media: Vec::new(),
            content: None,
            excerpt: None,
            link: None,
            date: None,
        };
        assert!(strategy_direct(&item).is_empty(), "accepted {}", bad);
    }
}

#[test]
fn test_link_date_candidate_count_is_twice_the_registry() {
    let item = ListingItem {
        source_url: None,
        featured_media: Vec::new(),
        content: None,
        excerpt: None,
        link: Some("http://h/post-slug".to_string()),
        date: Some("2021-01-01T00:00:00".to_string()),
    };
    let reg = MimeRegistry::standard();
    let urls = strategy_link_date(&item, &reg);
    assert_eq!(urls.len(), 2 * reg.count());
    assert!(urls.contains(&"http://h/wp-content/uploads/2021/01/post-slug.mp4".to_string()));
    assert!(urls.contains(&"http://h/blog/wp-content/uploads/2021/01/post-slug.mp4".to_string()));
    assert!(urls.contains(&"http://h/wp-content/uploads/2021/01/post-slug.mov".to_string()));
    assert!(urls.contains(&"http://h/blog/wp-content/uploads/2021/01/post-slug.mov".to_string()));
}

#[test]
fn test_body_scan_strips_backslashes() {
    let item = ListingItem {
        source_url: None,
        featured_media: Vec::new(),
        content: None,
        excerpt: Some(
            "https:\\/\\/www.example.com\\/wp-content\\/uploads\\/2021\\/01\\/video.mov"
                .to_string(),
        ),
        link: None,
        date: None,
    };
    let reg = MimeRegistry::standard();
    let exts = reg.extension_chars();
    let urls = strategy_body(&item, &exts);
    assert_eq!(urls, vec!["https://www.example.com/wp-content/uploads/2021/01/video.mov".to_string()]);
}

#[test]
fn test_body_scan_normalizes_case() {
    let item = ListingItem {
        source_url: None,
        featured_media: Vec::new(),
        content: Some(
            "see HTTPS://WWW.EXAMPLE.COM/WP-CONTENT/UPLOADS/2021/01/VIDEO.MP4 there".to_string(),
        ),
        excerpt: None,
        link: None,
        date: None,
    };
    let reg = MimeRegistry::standard();
    let exts = reg.extension_chars();
    let urls = strategy_body(&item, &exts);
    assert_eq!(urls, vec!["https://www.example.com/wp-content/uploads/2021/01/video.mp4".to_string()]);
}

#[test]
fn test_body_scan_requires_known_extension() {
    let item = ListingItem {
        source_url: None,
        featured_media: Vec::new(),
        content: Some("http://h/wp-content/uploads/2021/01/video.avi and more".to_string()),
        excerpt: None,
        link: None,
        date: None,
    };
    let reg = MimeRegistry::standard();
    let exts = reg.extension_chars();
    assert!(strategy_body(&item, &exts).is_empty());
}

#[test]
fn test_stage_order_matches_strategy_rank() {
    let item = ListingItem {
        source_url: Some("http://h/wp-content/uploads/2021/01/a.jpg".to_string()),
        featured_media: vec!["http://h/wp-content/uploads/2021/01/b.jpg".to_string()],
        content: Some("http://h/wp-content/uploads/2021/01/c.mp4".to_string()),
        excerpt: None,
        link: Some("http://h/post-slug".to_string()),
        date: Some("2021-01-01T00:00:00".to_string()),
    };
    let reg = mp4_only();
    assert_eq!(
        stage_candidates(&item, &reg, 0),
        vec!["http://h/wp-content/uploads/2021/01/a.mp4".to_string()]
    );
    assert_eq!(
        stage_candidates(&item, &reg, 1),
        vec!["http://h/wp-content/uploads/2021/01/b.mp4".to_string()]
    );
    assert_eq!(
        stage_candidates(&item, &reg, 2),
        vec!["http://h/wp-content/uploads/2021/01/c.mp4".to_string()]
    );
    assert_eq!(
        stage_candidates(&item, &reg, 3),
        vec![
            "http://h/wp-content/uploads/2021/01/post-slug.mp4".to_string(),
            "http://h/blog/wp-content/uploads/2021/01/post-slug.mp4".to_string()
        ]
    );
}

#[test]
fn test_direct_rewrite_replaces_only_the_last_extension() {
    let item = ListingItem {
        source_url: Some("http://h/wp-content/uploads/2021/01/a.b.jpg".to_string()),
        featured_media: Vec::new(),
        content: None,
        excerpt: None,
        link: None,
        date: None,
    };
    let urls = strategy_direct(&item);
    assert_eq!(urls, vec!["http://h/wp-content/uploads/2021/01/a.b.mp4".to_string()]);
}

#[test]
fn test_body_scan_takes_the_longest_match() {
    let item = ListingItem {
        source_url: None,
        featured_media: Vec::new(),
        content: Some("http://h/wp-content/uploads/2021/01/a.mp4.mov".to_string()),
        excerpt: None,
        link: None,
        date: None,
    };
    let reg = MimeRegistry::standard();
    let exts = reg.extension_chars();
    let urls = strategy_body(&item, &exts);
    assert_eq!(urls, vec!["http://h/wp-content/uploads/2021/01/a.mp4.mov".to_string()]);
}

#[test]
fn test_body_scan_match_can_end_inside_a_word() {
    let item = ListingItem {
        source_url: None,
        featured_media: Vec::new(),
        content: Some("http://h/wp-content/uploads/2021/01/a.mp4x".to_string()),
        excerpt: None,
        link: None,
        date: None,
    };
    let reg = MimeRegistry::standard();
    let exts = reg.extension_chars();
    let urls = strategy_body(&item, &exts);
    assert_eq!(urls, vec!["http://h/wp-content/uploads/2021/01/a.mp4".to_string()]);
}

#[test]
fn test_link_date_uses_last_segment_as_slug() {
    let item = ListingItem {
        source_url: None,
        featured_media: Vec::new(),
        content: None,
        excerpt: None,
        link: Some("http://h/a/b/post-slug/".to_string()),
        date: Some("2020-01-01T00:00:00".to_string()),
    };
    let reg = mp4_only();
    let urls = strategy_link_date(&item, &reg);
    assert_eq!(
        urls,
        vec![
            "http://h/wp-content/uploads/2020/01/post-slug.mp4".to_string(),
            "http://h/blog/wp-content/uploads/2020/01/post-slug.mp4".to_string()
        ]
    );
}

#[test]
fn test_link_without_path_segment_yields_nothing() {
    for link in ["http://h", "http://h/", "http://h//x", "ftp://h/x"] {
        let item = ListingItem {
            source_url: None,
            featured_media: Vec::new(),
            content: None,
            excerpt: None,
            link: Some(link.to_string()),
            date: Some("2020-01-01T00:00:00".to_string()),
        };
        let reg = mp4_only();
        assert!(strategy_link_date(&item, &reg).is_empty(), "accepted {}", link);
    }
}
