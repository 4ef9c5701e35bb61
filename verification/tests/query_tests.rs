use petit_filou::Config;
use petit_filou::FinderConfig;
use petit_filou::FinderTarget;
use petit_filou::Opt;
use petit_filou::Target;
use petit_filou::build;
use petit_filou::build_url_from_config;

#[test]
fn test_build_url_from_config() {
    let config = FinderConfig {
        after: Some("2021-01-01T00:00:00".to_string()),
        before: Some("2022-02-02T00:00:00".to_string()),
        exclude: vec![1, 2, 3],
        modified_after: Some("2023-03-03T00:00:00".to_string()),
        modified_before: Some("2024-04-04T00:00:00".to_string()),
        target: FinderTarget::Posts {
            categories_exclude: vec![4, 5, 6],
            tags_exclude: vec![7, 8, 9],
        },
        url: "http://example.com".to_string(),
    };

    let url = build_url_from_config(&config).unwrap();

    assert_eq!(
        url,
        "http://example.com/wp-json/wp/v2/posts?per_page=100&before=2022-02-02T00:00:00&modified_before=2024-04-04T00:00:00&after=2021-01-01T00:00:00&modified_after=2023-03-03T00:00:00&exclude=1,2,3&_embed=wp:featuredmedia&categories_exclude=4,5,6&tags_exclude=7,8,9"
    );
}

#[test]
fn test_build_url_from_config_with_default_config() {
    let config = FinderConfig { url: "http://example.com".to_string(), ..Default::default() };

    let url = build_url_from_config(&config).unwrap();

    assert_eq!(url, "http://example.com/wp-json/wp/v2/media?per_page=100");
}

#[test]
fn test_build_url_from_config_with_posts_target_and_empty_fields() {
    let config = FinderConfig {
        url: "http://example.com".to_string(),
        target: FinderTarget::Posts { categories_exclude: vec![], tags_exclude: vec![] },
        ..Default::default()
    };

    let url = build_url_from_config(&config).unwrap();

    assert_eq!(url, "http://example.com/wp-json/wp/v2/posts?per_page=100&_embed=wp:featuredmedia");
}

#[test]
fn test_build_url_from_config_with_invalid_config() {
    let config = FinderConfig { ..Default::default() };

    let res = build_url_from_config(&config);

    assert!(res.is_err());
    assert_eq!(res.err().unwrap().message(), "URL is required");
}

#[test]
fn test_build_with_target_posts() {
    let config = Config {
        url: String::from("https://domain.tld"),
        target: Target::Posts { categories_exclude: vec![1, 2], tags_exclude: vec![3, 4] },
        before: Some(String::from("2001-01-01T00:00:00")),
        modified_before: Some(String::from("2002-02-02T00:00:00")),
        after: Some(String::from("2003-03-03T00:00:00")),
        modified_after: Some(String::from("2004-04-04T00:00:00")),
        exclude: vec![5, 6],
    };

    let url = build(&config);

    assert_eq!(
        url,
        "https://domain.tld/wp-json/wp/v2/posts?per_page=100&before=2001-01-01T00:00:00&modified_before=2002-02-02T00:00:00&after=2003-03-03T00:00:00&modified_after=2004-04-04T00:00:00&exclude=5,6&_embed=wp:featuredmedia&categories_exclude=1,2&tags_exclude=3,4"
    );
}

#[test]
fn test_build_with_target_media() {
    let config = Config {
        url: String::from("https://domain.tld"),
        target: Target::Media,
        before: Some(String::from("2001-01-01T00:00:00")),
        modified_before: Some(String::from("2002-02-02T00:00:00")),
        after: Some(String::from("2003-03-03T00:00:00")),
        modified_after: Some(String::from("2004-04-04T00:00:00")),
        exclude: vec![5, 6],
    };

    let url = build(&config);

    assert_eq!(
        url,
        "https://domain.tld/wp-json/wp/v2/media?per_page=100&before=2001-01-01T00:00:00&modified_before=2002-02-02T00:00:00&after=2003-03-03T00:00:00&modified_after=2004-04-04T00:00:00&exclude=5,6"
    );
}

#[test]
fn test_build_with_minimal_config() {
    let config = Config {
        url: String::from("https://domain.tld"),
        target: Target::Posts { categories_exclude: Vec::new(), tags_exclude: Vec::new() },
        before: None,
        modified_before: None,
        after: None,
        modified_after: None,
        exclude: Vec::new(),
    };

    let url = build(&config);

    assert_eq!(url, "https://domain.tld/wp-json/wp/v2/posts?per_page=100&_embed=wp:featuredmedia");
}

#[test]
fn test_to_finder_config() {
    let opt = Opt {
        url: "http://example.com".to_string(),
        before: Some("2023-01-01T00:00:00".to_string()),
        modified_before: Some("2023-01-01T00:00:00".to_string()),
        after: Some("2023-01-01T00:00:00".to_string()),
        modified_after: Some("2023-01-01T00:00:00".to_string()),
        exclude: vec![1, 2],
        categories_exclude: vec![3],
        tags_exclude: vec![4],
    };
    let config = opt.to_finder_config();
    assert_eq!(config.url, "http://example.com");
    assert_eq!(config.before, Some("2023-01-01T00:00:00".to_string()));
    assert_eq!(config.modified_before, Some("2023-01-01T00:00:00".to_string()));
    assert_eq!(config.after, Some("2023-01-01T00:00:00".to_string()));
    assert_eq!(config.modified_after, Some("2023-01-01T00:00:00".to_string()));
    assert_eq!(config.exclude, vec![1, 2]);
    assert_eq!(
        config.target,
        FinderTarget::Posts { categories_exclude: vec![3], tags_exclude: vec![4] }
    );
}

#[test]
fn test_build_url_keeps_base_address_verbatim() {
    let config = FinderConfig { url: "https://www.example.com/blog".to_string(), ..Default::default() };
    let url = build_url_from_config(&config).unwrap();
    assert_eq!(url, "https://www.example.com/blog/wp-json/wp/v2/media?per_page=100");
}

#[test]
fn test_exclude_list_renders_full_range() {
    let config = FinderConfig {
        url: "http://h".to_string(),
        exclude: vec![0, 65535, 10],
        ..Default::default()
    };
    let url = build_url_from_config(&config).unwrap();
    assert_eq!(url, "http://h/wp-json/wp/v2/media?per_page=100&exclude=0,65535,10");
}
