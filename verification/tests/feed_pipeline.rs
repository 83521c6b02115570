//! Loading entries from sources, draft filtering, feed ordering, and
//! determinism across repeated builds.
use gempost::config::{Config, RawConfig};
use gempost::entry::{Entry, EntrySource};
use gempost::feed::Feed;
use gempost::time::{parse_rfc3339, Timestamp};
use gempost::value::MetaValue;

fn s(text: &str) -> MetaValue {
    MetaValue::Str(text.to_string())
}

fn pair(key: &str, value: MetaValue) -> (MetaValue, MetaValue) {
    (s(key), value)
}

fn config() -> Config {
    Config::from_raw(RawConfig {
        public_dir: None,
        static_dir: None,
        posts_dir: None,
        index_template_file: None,
        post_template_file: None,
        post_path: None,
        index_path: None,
        feed_path: None,
        title: "My Capsule".to_string(),
        url: "gemini://example.com".to_string(),
        subtitle: Some("a gemlog".to_string()),
        rights: None,
        author: None,
    })
    .unwrap()
}

fn source(slug: &str, id: &str, updated: &str, published: Option<&str>, draft: bool) -> EntrySource {
    let mut doc = vec![
        pair("id", s(id)),
        pair("title", s(slug)),
        pair("updated", s(updated)),
    ];
    if let Some(p) = published {
        doc.push(pair("published", s(p)));
    }
    if draft {
        doc.push(pair("draft", MetaValue::Bool(true)));
    }
    EntrySource {
        gemtext_path: format!("posts/{}.gmi", slug),
        metadata_path: format!("posts/{}.yaml", slug),
        body: format!("# {}", slug),
        metadata: MetaValue::Mapping(doc),
    }
}

fn ts(text: &str) -> Timestamp {
    parse_rfc3339(text).unwrap()
}

#[test]
fn entries_load_with_slug_locations() {
    let entries = Entry::from_sources(
        vec![source("hello", "urn:a", "2024-03-05T12:00:00Z", None, false)],
        &config(),
    )
    .unwrap();
    assert_eq!(entries.len(), 1);
    assert_eq!(entries[0].metadata.id, "urn:a");
    assert_eq!(entries[0].body, "# hello");
    // Default post path template is "/posts/{{ slug }}".
    assert_eq!(entries[0].path, "posts/hello");
    assert_eq!(entries[0].url, "gemini://example.com/posts/hello");
}

#[test]
fn drafts_never_appear_anywhere() {
    let sources = vec![
        source("visible", "urn:a", "2024-03-05T12:00:00Z", None, false),
        source("hidden", "urn:b", "2024-03-06T12:00:00Z", None, true),
    ];
    let entries = Entry::from_sources(sources, &config()).unwrap();
    assert_eq!(entries.len(), 1);
    assert_eq!(entries[0].metadata.id, "urn:a");

    let feed = Feed::from_entries(&config(), entries, ts("2024-01-01T00:00:00Z")).unwrap();
    assert_eq!(feed.entries.len(), 1);
    assert!(feed.entries.iter().all(|e| !e.metadata.draft));
    assert!(feed.entries.iter().all(|e| e.metadata.id != "urn:b"));
}

#[test]
fn invalid_draft_metadata_is_still_fatal() {
    // A draft with a malformed sidecar aborts the build: validation comes
    // before the draft filter.
    let mut bad = source("hidden", "urn:b", "2024-03-06T12:00:00Z", None, true);
    bad.metadata = MetaValue::Mapping(vec![pair("id", s("urn:b"))]);
    let err = Entry::from_sources(vec![bad], &config()).unwrap_err();
    assert!(err.message().contains("posts/hidden.yaml"));
}

#[test]
fn feed_orders_reverse_chronologically_with_updated_fallback() {
    let sources = vec![
        source("a", "urn:a", "2024-01-01T00:00:00Z", Some("2024-01-01T00:00:00Z"), false),
        source("b", "urn:b", "2024-06-01T00:00:00Z", None, false),
        source("c", "urn:c", "2024-01-02T00:00:00Z", Some("2024-12-01T00:00:00Z"), false),
    ];
    let entries = Entry::from_sources(sources, &config()).unwrap();
    let feed = Feed::from_entries(&config(), entries, ts("2020-01-01T00:00:00Z")).unwrap();
    let ids: Vec<&str> = feed.entries.iter().map(|e| e.metadata.id.as_str()).collect();
    assert_eq!(ids, vec!["urn:c", "urn:b", "urn:a"]);
}

#[test]
fn equal_keys_keep_discovery_order() {
    let same = "2024-05-05T05:05:05Z";
    let sources = vec![
        source("first", "urn:1", same, Some(same), false),
        source("second", "urn:2", same, Some(same), false),
        source("third", "urn:3", same, Some(same), false),
    ];
    let entries = Entry::from_sources(sources, &config()).unwrap();
    let feed = Feed::from_entries(&config(), entries, ts("2020-01-01T00:00:00Z")).unwrap();
    let ids: Vec<&str> = feed.entries.iter().map(|e| e.metadata.id.as_str()).collect();
    assert_eq!(ids, vec!["urn:1", "urn:2", "urn:3"]);
}

#[test]
fn feed_metadata_comes_from_config_and_entries() {
    let sources = vec![
        source("a", "urn:a", "2024-01-01T00:00:00Z", None, false),
        source("b", "urn:b", "2024-06-01T00:00:00Z", None, false),
    ];
    let entries = Entry::from_sources(sources, &config()).unwrap();
    let feed = Feed::from_entries(&config(), entries, ts("2020-01-01T00:00:00Z")).unwrap();
    assert_eq!(feed.capsule_url, "gemini://example.com");
    assert_eq!(feed.feed_url, "gemini://example.com/posts/atom.xml");
    assert_eq!(feed.index_url, "gemini://example.com/posts/index.gmi");
    assert_eq!(feed.title, "My Capsule");
    assert_eq!(feed.subtitle.as_deref(), Some("a gemlog"));
    // The most recent update wins.
    assert_eq!(feed.updated.rfc3339, ts("2024-06-01T00:00:00Z").rfc3339);
}

#[test]
fn a_capsule_of_only_drafts_still_builds() {
    let sources = vec![
        source("one", "urn:a", "2024-03-05T12:00:00Z", None, true),
        source("two", "urn:b", "2024-03-06T12:00:00Z", None, true),
    ];
    let entries = Entry::from_sources(sources, &config()).unwrap();
    assert!(entries.is_empty());
    let feed = Feed::from_entries(&config(), entries, ts("2024-07-01T00:00:00Z")).unwrap();
    assert!(feed.entries.is_empty());
}

#[test]
fn configured_author_reaches_the_feed() {
    let mut raw = RawConfig {
        public_dir: None,
        static_dir: None,
        posts_dir: None,
        index_template_file: None,
        post_template_file: None,
        post_path: None,
        index_path: None,
        feed_path: None,
        title: "My Capsule".to_string(),
        url: "gemini://example.com".to_string(),
        subtitle: None,
        rights: None,
        author: None,
    };
    raw.author = Some(gempost::config::RawAuthorConfig {
        name: "A. Writer".to_string(),
        email: Some("a@example.com".to_string()),
        uri: None,
    });
    let config = Config::from_raw(raw).unwrap();
    let feed = Feed::assemble(&config, Vec::new()).unwrap();
    let author = feed.author.unwrap();
    assert_eq!(author.name, "A. Writer");
    assert_eq!(author.email.as_deref(), Some("a@example.com"));
    assert!(author.uri.is_none());
}

#[test]
fn empty_capsule_uses_the_given_build_time() {
    let now = ts("2024-07-01T00:00:00Z");
    let feed = Feed::from_entries(&config(), Vec::new(), now).unwrap();
    assert_eq!(feed.entries.len(), 0);
    assert_eq!(feed.updated.rfc3339, "2024-07-01T00:00:00+00:00");
}

#[test]
fn identical_input_builds_identical_feeds() {
    let build = || {
        let sources = vec![
            source("a", "urn:a", "2024-01-01T00:00:00Z", Some("2024-01-01T00:00:00Z"), false),
            source("b", "urn:b", "2024-06-01T00:00:00Z", None, false),
            source("c", "urn:c", "2024-01-02T00:00:00Z", Some("2024-12-01T00:00:00Z"), false),
        ];
        let entries = Entry::from_sources(sources, &config()).unwrap();
        Feed::from_entries(&config(), entries, ts("2020-01-01T00:00:00Z")).unwrap()
    };
    let f1 = build();
    let f2 = build();
    let ids1: Vec<&str> = f1.entries.iter().map(|e| e.metadata.id.as_str()).collect();
    let ids2: Vec<&str> = f2.entries.iter().map(|e| e.metadata.id.as_str()).collect();
    assert_eq!(ids1, ids2);
    for (a, b) in f1.entries.iter().zip(f2.entries.iter()) {
        assert_eq!(a.url, b.url);
        assert_eq!(a.path, b.path);
    }
    assert_eq!(f1.feed_url, f2.feed_url);
    assert_eq!(f1.index_url, f2.index_url);
}
