use petit_filou::Action;
use petit_filou::Crawler;
use petit_filou::Event;
use petit_filou::FinderConfig;
use petit_filou::FinderError;
use petit_filou::MimeRegistry;

fn config(url: &str) -> FinderConfig {
    FinderConfig { url: url.to_string(), ..Default::default() }
}

fn fetch_target(a: &Action) -> String {
    match a {
        Action::Fetch(u) => u.clone(),
        _ => panic!("expected a fetch action"),
    }
}

fn probe_cands(a: &Action) -> Vec<String> {
    match a {
        Action::Probe(cs) => cs.clone(),
        _ => panic!("expected a probe action"),
    }
}

fn finished_urls(a: &Action) -> Vec<String> {
    match a {
        Action::Finished(urls) => urls.clone(),
        _ => panic!("expected the crawl to finish"),
    }
}

#[test]
fn test_refuses_empty_base_address_without_any_request() {
    let res = Crawler::new(&config(""), MimeRegistry::standard());
    assert!(matches!(res, Err(FinderError::Configuration)));
}

#[test]
fn test_pagination_follows_next_until_absent() {
    let (mut c, a0) = Crawler::new(&config("http://example.com"), MimeRegistry::standard())
        .unwrap();
    assert_eq!(fetch_target(&a0), "http://example.com/wp-json/wp/v2/media?per_page=100");

    let mut fetches = 1;
    let a1 = c.step(Event::Response {
        status: 200,
        link: Some(
            r#"<http://example.com/wp-json/wp/v2/media?per_page=100&page=2>; rel="next""#
                .to_string(),
        ),
        body: "[]".to_string(),
    });
    assert_eq!(
        fetch_target(&a1),
        "http://example.com/wp-json/wp/v2/media?per_page=100&page=2"
    );
    fetches += 1;

    let a2 = c.step(Event::Response { status: 200, link: None, body: "[]".to_string() });
    assert!(finished_urls(&a2).is_empty());
    assert_eq!(fetches, 2);
}

#[test]
fn test_header_without_next_ends_after_one_page() {
    let (mut c, _) = Crawler::new(&config("http://example.com"), MimeRegistry::standard())
        .unwrap();
    let a = c.step(Event::Response {
        status: 200,
        link: Some(r#"<http://example.com/?page=2>; rel="prev""#.to_string()),
        body: "[]".to_string(),
    });
    assert!(matches!(a, Action::Finished(_)));
}

#[test]
fn test_failure_status_aborts_the_crawl() {
    let (mut c, _) = Crawler::new(&config("http://example.com"), MimeRegistry::standard())
        .unwrap();
    let a = c.step(Event::Response { status: 404, link: None, body: "[]".to_string() });
    match a {
        Action::Failed(e) => {
            assert_eq!(e.message(), "Failed to fetch URL, status code: 404");
        },
        _ => panic!("expected a failure"),
    }
}

#[test]
fn test_transport_failure_aborts_the_crawl() {
    let (mut c, _) = Crawler::new(&config("http://example.com"), MimeRegistry::standard())
        .unwrap();
    let a = c.step(Event::TransportFailed("connection refused".to_string()));
    match a {
        Action::Failed(FinderError::Transport(m)) => {
            assert_eq!(m, "Failed to send request: connection refused");
        },
        _ => panic!("expected a transport failure"),
    }
}

#[test]
fn test_unreadable_body_aborts_the_crawl() {
    let (mut c, _) = Crawler::new(&config("http://example.com"), MimeRegistry::standard())
        .unwrap();
    let a = c.step(Event::Response { status: 200, link: None, body: "hello world".to_string() });
    assert!(matches!(a, Action::Failed(FinderError::Protocol(_))));
}

#[test]
fn test_cascade_prefers_earlier_strategy_and_skips_later() {
    let body = r#"[{
        "source_url": "http://h/wp-content/uploads/2021/01/image.jpg",
        "_embedded": {"wp:featuredmedia": [
            {"source_url": "http://h/wp-content/uploads/2021/01/video.jpg"}]},
        "content": {"rendered": "http://h/wp-content/uploads/2021/01/body.mp4"},
        "excerpt": {"rendered": ""},
        "link": "http://h/post-slug",
        "date": "2021-01-01T00:00:00"
    }]"#;
    let (mut c, _) = Crawler::new(&config("http://h"), MimeRegistry::standard()).unwrap();
    let a1 = c.step(Event::Response { status: 200, link: None, body: body.to_string() });
    assert_eq!(probe_cands(&a1), vec!["http://h/wp-content/uploads/2021/01/image.mp4".to_string()]);

    // the direct candidate fails verification: fall through to embedded media
    let a2 = c.step(Event::Verdicts(vec![false]));
    assert_eq!(probe_cands(&a2), vec!["http://h/wp-content/uploads/2021/01/video.mp4".to_string()]);

    // the embedded candidate is confirmed: accept it and never look at the
    // body or link strategies of this item
    let a3 = c.step(Event::Verdicts(vec![true]));
    let urls = finished_urls(&a3);
    assert_eq!(urls, vec!["http://h/wp-content/uploads/2021/01/video.mp4".to_string()]);
}

#[test]
fn test_item_with_no_confirmed_candidate_contributes_nothing() {
    let body = r#"[{"source_url": "http://h/wp-content/uploads/2021/01/image.jpg"}]"#;
    let (mut c, _) = Crawler::new(&config("http://h"), MimeRegistry::standard()).unwrap();
    let a1 = c.step(Event::Response { status: 200, link: None, body: body.to_string() });
    assert!(matches!(a1, Action::Probe(_)));
    let a2 = c.step(Event::Verdicts(vec![false]));
    assert!(finished_urls(&a2).is_empty());
}

#[test]
fn test_crawl_accumulates_across_pages_without_duplicates() {
    let page1 = r#"[{"source_url": "http://h/wp-content/uploads/2021/01/image.jpg"}]"#;
    let page2 = r#"[{"source_url": "http://h/wp-content/uploads/2021/01/image.png"},
                    {"source_url": "http://h/wp-content/uploads/2022/02/video.mp4"}]"#;
    let (mut c, _) = Crawler::new(&config("http://h"), MimeRegistry::standard()).unwrap();

    let a1 = c.step(Event::Response {
        status: 200,
        link: Some(r#"<http://h/?page=2>; rel="next""#.to_string()),
        body: page1.to_string(),
    });
    assert!(matches!(a1, Action::Probe(_)));
    let a2 = c.step(Event::Verdicts(vec![true]));
    assert_eq!(fetch_target(&a2), "http://h/?page=2");

    let a3 = c.step(Event::Response { status: 200, link: None, body: page2.to_string() });
    // page two's first item rewrites to the same address already confirmed
    assert_eq!(probe_cands(&a3), vec!["http://h/wp-content/uploads/2021/01/image.mp4".to_string()]);
    let a4 = c.step(Event::Verdicts(vec![true]));
    assert_eq!(probe_cands(&a4), vec!["http://h/wp-content/uploads/2022/02/video.mp4".to_string()]);
    let a5 = c.step(Event::Verdicts(vec![true]));

    let urls = finished_urls(&a5);
    assert_eq!(
        urls,
        vec![
            "http://h/wp-content/uploads/2021/01/image.mp4".to_string(),
            "http://h/wp-content/uploads/2022/02/video.mp4".to_string()
        ]
    );
}

fn run_fixed_crawl() -> Vec<String> {
    let page1 = r#"[{"source_url": "http://h/wp-content/uploads/2021/01/image.jpg"},
                    {"source_url": "http://h/wp-content/uploads/2021/02/other.jpg"}]"#;
    let (mut c, _) = Crawler::new(&config("http://h"), MimeRegistry::standard()).unwrap();
    let mut action = c.step(Event::Response { status: 200, link: None, body: page1.to_string() });
    // the fixed remote state: only addresses under 2021/01 exist
    loop {
        action = match action {
            Action::Probe(cands) => {
                let verdicts = cands.iter().map(|u| u.contains("/2021/01/")).collect();
                c.step(Event::Verdicts(verdicts))
            },
            Action::Finished(urls) => {
                let mut sorted = urls;
                sorted.sort();
                return sorted;
            },
            _ => panic!("unexpected action"),
        };
    }
}

#[test]
fn test_rerun_against_unchanged_remote_state_yields_same_set() {
    let first = run_fixed_crawl();
    let second = run_fixed_crawl();
    assert_eq!(first, second);
    assert_eq!(first, vec!["http://h/wp-content/uploads/2021/01/image.mp4".to_string()]);
}

#[test]
fn test_mismatched_answer_reissues_the_pending_action() {
    let (mut c, a0) = Crawler::new(&config("http://h"), MimeRegistry::standard()).unwrap();
    let a1 = c.step(Event::Verdicts(vec![true]));
    assert_eq!(fetch_target(&a0), fetch_target(&a1));
}

#[test]
fn test_successful_status_with_non_array_body_aborts() {
    let (mut c, _) = Crawler::new(&config("http://example.com"), MimeRegistry::standard())
        .unwrap();
    let a = c.step(Event::Response { status: 200, link: None, body: "{}".to_string() });
    assert!(matches!(a, Action::Failed(FinderError::Protocol(_))));
}
