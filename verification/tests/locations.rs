//! Path template expansion and location assignment.
use gempost::config::{Config, RawConfig};
use gempost::error::Error;
use gempost::feed::{compute_location, location_from_rendered};
use gempost::template::{PostPathParams, PostPathTemplateData};
use gempost::time::parse_rfc3339;

fn raw_config(url: &str, post_path: &str) -> RawConfig {
    RawConfig {
        public_dir: None,
        static_dir: None,
        posts_dir: None,
        index_template_file: None,
        post_template_file: None,
        post_path: Some(post_path.to_string()),
        index_path: None,
        feed_path: None,
        title: "My Capsule".to_string(),
        url: url.to_string(),
        subtitle: None,
        rights: None,
        author: None,
    }
}

#[test]
fn location_round_trip_for_dated_template() {
    let config = Config::from_raw(raw_config("gemini://example.com", "/posts/{{year}}/{{slug}}"))
        .unwrap();
    let published = parse_rfc3339("2024-03-05T12:00:00Z").unwrap();
    let loc = compute_location(&config, "hello", Some(&published)).unwrap();
    assert_eq!(loc.path, "posts/2024/hello");
    assert_eq!(loc.url, "gemini://example.com/posts/2024/hello");
}

#[test]
fn date_fields_are_zero_padded() {
    let published = parse_rfc3339("0987-06-05T00:00:00Z").unwrap();
    let data = PostPathTemplateData::from_params(PostPathParams {
        slug: "s".to_string(),
        published: Some(published),
    });
    assert_eq!(data.year, "0987");
    assert_eq!(data.month, "06");
    assert_eq!(data.day, "05");
    assert_eq!(data.slug, "s");
}

#[test]
fn date_fields_are_empty_without_publish_date() {
    let data = PostPathTemplateData::from_params(PostPathParams {
        slug: "page".to_string(),
        published: None,
    });
    assert_eq!(data.year, "");
    assert_eq!(data.month, "");
    assert_eq!(data.day, "");
    // The collapsed path is accepted, not an error.
    let rendered = data.render("/posts/{{ year }}/{{ slug }}").unwrap();
    assert_eq!(rendered, "/posts//page");
    let loc = location_from_rendered("gemini://example.com", &rendered).unwrap();
    assert_eq!(loc.path, "posts/page");
    assert_eq!(loc.url, "gemini://example.com/posts/page");
}

#[test]
fn broken_template_is_a_config_error_naming_the_template() {
    let config = Config::from_raw(raw_config("gemini://example.com", "/posts/{{ slug")).unwrap();
    let err = compute_location(&config, "hello", None).unwrap_err();
    match err {
        Error::InvalidPostPath { template, reason } => {
            assert_eq!(template, "/posts/{{ slug");
            assert!(!reason.is_empty());
        },
        other => panic!("unexpected error: {}", other.message()),
    }
}

#[test]
fn url_segments_are_percent_encoded() {
    let loc = location_from_rendered("gemini://example.com", "/posts/a b").unwrap();
    assert_eq!(loc.url, "gemini://example.com/posts/a%20b");
    assert_eq!(loc.path, "posts/a b");
}

#[test]
fn cannot_be_a_base_url_fails_location() {
    let err = location_from_rendered("data:text/plain,hi", "/posts/x").unwrap_err();
    assert!(matches!(err, Error::InvalidCapsuleUrl { .. }));
}
