use petit_filou::MimeEntry;
use petit_filou::MimeRegistry;
use petit_filou::dates::parse_date;
use petit_filou::dates::validate_date;
use petit_filou::page::get_next_link_from_headers;
use petit_filou::does_link_exist;
use petit_filou::page::parse_page;

#[test]
fn test_get_next_link_from_headers() {
    let header = Some(
        r#"<http://example.com/wp-json/wp/v2/posts?page=2>; rel="next""#.to_string(),
    );

    let next_link = get_next_link_from_headers(&header);
    assert_eq!(next_link, Some("http://example.com/wp-json/wp/v2/posts?page=2".to_string()));
}

#[test]
fn test_get_next_link_from_headers_with_no_next() {
    let header = Some(
        r#"<http://example.com/wp-json/wp/v2/posts?page=2>; rel="prev""#.to_string(),
    );

    let next_link = get_next_link_from_headers(&header);

    assert_eq!(next_link, None);
}

#[test]
fn test_get_next_link_with_absent_header() {
    assert_eq!(get_next_link_from_headers(&None), None);
}

#[test]
fn test_get_next_link_picks_next_among_tokens() {
    let header = Some(
        r#"<http://h/?page=1>; rel="prev", <http://h/?page=3>; rel="next", <http://h/?page=9>; rel="last""#
            .to_string(),
    );
    let next_link = get_next_link_from_headers(&header);
    assert_eq!(next_link, Some("http://h/?page=3".to_string()));
}

#[test]
fn test_validate_date() {
    assert!(validate_date("2023-01-01T00:00:00").is_ok());
    assert!(validate_date("2023-01-01T00:00:00Z").is_ok());
    assert!(validate_date("2023-01-01T00:00:00+00:00").is_ok());
    assert!(validate_date("2023-01-01T00:00:00-00:00").is_ok());
    assert!(validate_date("2023-01-01T00:00:00+00").is_ok());
    assert!(validate_date("2023-01-01T00:00:00-00").is_ok());
    assert!(validate_date("2023-01-01T00:00:00+00:00").is_ok());
    assert!(validate_date("2023-01-01T00:00:00-00:00").is_ok());
    assert!(validate_date("2023-01-01T00:00:00.123Z").is_ok());
    assert!(validate_date("2023-01-01T00:00:00.123+00:00").is_ok());
    assert!(validate_date("2023-01-01T00:00:00.123-00:00").is_ok());
    assert!(validate_date("2023-01-01T00:00:00.123+00").is_ok());
    assert!(validate_date("2023-01-01T00:00:00.123-00").is_ok());
    assert!(validate_date("2023-01-01T00:00:00.123+00:00").is_ok());
    assert!(validate_date("2023-01-01T00:00:00.123-00:00").is_ok());
    assert!(validate_date("2023-01-01").is_err());
    assert!(validate_date("2023-01-01T00:00:00+").is_err());
    assert!(validate_date("2023-01-01T00:00:00-").is_err());
    assert!(validate_date("2023-01-01T00:00:00+00:").is_err());
    assert!(validate_date("2023-01-01T00:00:00-00:").is_err());
    assert!(validate_date("2023-01-01T00:00:00+00:00:00").is_err());
}

#[test]
fn test_parse_date_reads_year_and_month() {
    assert_eq!(
        parse_date("2021-01-01T00:00:00"),
        Some(("2021".to_string(), "01".to_string()))
    );
    assert_eq!(parse_date("2021-01-01t00:00:00"), None);
    assert_eq!(parse_date("2021-01-01T00:00:00Z"), None);
    assert_eq!(parse_date(""), None);
}

#[test]
fn test_parse_page_rejects_invalid_json() {
    let res = parse_page("invalid json");
    assert!(res.is_err());
}

#[test]
fn test_parse_page_rejects_non_array() {
    let res = parse_page("{}");
    assert!(res.is_err());
}

#[test]
fn test_parse_page_accepts_empty_array() {
    let items = parse_page("[]").unwrap();
    assert!(items.is_empty());
}

#[test]
fn test_parse_page_reads_fields() {
    let items = parse_page(
        r#"[{
            "source_url": "http://h/a.jpg",
            "_embedded": {"wp:featuredmedia": [{"source_url": "http://h/b.jpg"}, {}]},
            "content": {"rendered": "body"},
            "excerpt": {"rendered": "teaser"},
            "link": "http://h/post",
            "date": "2021-01-01T00:00:00"
        }]"#,
    )
    .unwrap();
    assert_eq!(items.len(), 1);
    assert_eq!(items[0].source_url, Some("http://h/a.jpg".to_string()));
    assert_eq!(items[0].featured_media, vec!["http://h/b.jpg".to_string()]);
    assert_eq!(items[0].content, Some("body".to_string()));
    assert_eq!(items[0].excerpt, Some("teaser".to_string()));
    assert_eq!(items[0].link, Some("http://h/post".to_string()));
    assert_eq!(items[0].date, Some("2021-01-01T00:00:00".to_string()));
}

#[test]
fn test_registry_refuses_empty_and_duplicates() {
    assert!(MimeRegistry::new(Vec::new()).is_none());
    assert!(
        MimeRegistry::new(vec![
            MimeEntry { extension: "mp4".to_string(), mime: "video/mp4".to_string() },
            MimeEntry { extension: "mp4".to_string(), mime: "video/x".to_string() },
        ])
        .is_none()
    );
    assert!(
        MimeRegistry::new(vec![MimeEntry {
            extension: "".to_string(),
            mime: "video/mp4".to_string(),
        }])
        .is_none()
    );
    assert!(
        MimeRegistry::new(vec![MimeEntry {
            extension: "mp/4".to_string(),
            mime: "video/mp4".to_string(),
        }])
        .is_none()
    );
}

#[test]
fn test_standard_registry_entries() {
    let reg = MimeRegistry::standard();
    assert_eq!(reg.count(), 2);
    assert_eq!(reg.extension_at(0), "mp4");
    assert_eq!(reg.mime_at(0), "video/mp4");
    assert_eq!(reg.extension_at(1), "mov");
    assert_eq!(reg.mime_at(1), "video/quicktime");
}

#[test]
fn test_does_link_exist() {
    let reg = MimeRegistry::standard();
    assert!(does_link_exist(&reg, 200, &Some("video/mp4".to_string())));
    assert!(does_link_exist(&reg, 204, &Some("video/quicktime".to_string())));
}

#[test]
fn test_does_link_exist_when_incorrect_header() {
    let reg = MimeRegistry::standard();
    assert!(!does_link_exist(&reg, 200, &Some("text/html; charset=UTF-8".to_string())));
    assert!(!does_link_exist(&reg, 200, &None));
}

#[test]
fn test_does_link_exist_when_url_does_not_exist() {
    let reg = MimeRegistry::standard();
    assert!(!does_link_exist(&reg, 503, &Some("video/mp4".to_string())));
    assert!(!does_link_exist(&reg, 404, &Some("video/mp4".to_string())));
    assert!(!does_link_exist(&reg, 301, &Some("video/mp4".to_string())));
}

#[test]
fn test_validate_date_rejection_message() {
    let err = validate_date("2023-01-01").err().unwrap();
    assert_eq!(
        err,
        "Invalid date format. Use YYYY-MM-DDTHH:MM:SS plus optional fractional seconds plus an optional timezone specifier in the form Z, +XX, -XX, +XX:XX, or -XX:XX (cf. <https://core.trac.wordpress.org/ticket/41032>)."
    );
}
