//! Output planning and static-merge decisions.
use gempost::config::{Config, RawConfig};
use gempost::entry::{Entry, EntrySource};
use gempost::feed::Feed;
use gempost::output::{merge_action, plan_build, url_to_filepath, FileKind, MergeAction};
use gempost::time::parse_rfc3339;
use gempost::value::MetaValue;

fn s(text: &str) -> MetaValue {
    MetaValue::Str(text.to_string())
}

fn config() -> Config {
    Config::from_raw(RawConfig {
        public_dir: None,
        static_dir: None,
        posts_dir: None,
        index_template_file: None,
        post_template_file: None,
        post_path: None,
        index_path: None,
        feed_path: None,
        title: "My Capsule".to_string(),
        url: "gemini://example.com".to_string(),
        subtitle: None,
        rights: None,
        author: None,
    })
    .unwrap()
}

#[test]
fn url_paths_become_file_paths_under_the_base() {
    assert_eq!(url_to_filepath("./public/", "/posts/atom.xml"), "./public/posts/atom.xml");
    assert_eq!(url_to_filepath("out", "/posts//index.gmi"), "out/posts/index.gmi");
    assert_eq!(url_to_filepath("", "/a/b"), "a/b");
}

#[test]
fn plan_places_every_output() {
    let sources = vec![EntrySource {
        gemtext_path: "posts/hello.gmi".to_string(),
        metadata_path: "posts/hello.yaml".to_string(),
        body: "# hello".to_string(),
        metadata: MetaValue::Mapping(vec![
            (s("id"), s("urn:a")),
            (s("title"), s("Hello")),
            (s("updated"), s("2024-03-05T12:00:00Z")),
        ]),
    }];
    let entries = Entry::from_sources(sources, &config()).unwrap();
    let feed = Feed::from_entries(&config(), entries, parse_rfc3339("2020-01-01T00:00:00Z").unwrap())
        .unwrap();
    let plan = plan_build(&config(), feed);
    assert_eq!(plan.public_dir, "./public/");
    assert_eq!(plan.static_dir, "./static/");
    assert_eq!(plan.index_template_file, "./templates/index.tera");
    assert_eq!(plan.post_template_file, "./templates/post.tera");
    assert_eq!(plan.index_output, "./public/posts/index.gmi");
    assert_eq!(plan.feed_output, "./public/posts/atom.xml");
    assert_eq!(plan.post_outputs, vec!["./public/posts/hello".to_string()]);
    assert_eq!(plan.feed_data.entries.len(), 1);
    assert_eq!(plan.feed_data.entries[0].id, "urn:a");
    assert_eq!(plan.feed_data.entries[0].url, "gemini://example.com/posts/hello");
    assert_eq!(plan.feed_data.entries[0].updated, "2024-03-05T12:00:00+00:00");
    assert_eq!(plan.feed_data.title, "My Capsule");
}

#[test]
fn static_merge_always_overwrites_regular_files() {
    // A static `index.html` colliding with a generated `index.html` is
    // resolved the same way every time: overwrite, never a silent skip.
    assert_eq!(merge_action(FileKind::Regular, true), MergeAction::CopyOverwrite);
    assert_eq!(merge_action(FileKind::Regular, false), MergeAction::CopyOverwrite);
    assert_eq!(merge_action(FileKind::Regular, true), merge_action(FileKind::Regular, true));
}

#[test]
fn directories_are_created_and_recursed() {
    assert_eq!(merge_action(FileKind::Directory, true), MergeAction::EnsureDirAndRecurse);
}

#[test]
fn symlinks_depend_on_platform_support() {
    assert_eq!(merge_action(FileKind::Symlink, true), MergeAction::ReplaceSymlink);
    assert_eq!(merge_action(FileKind::Symlink, false), MergeAction::FailUnsupportedSymlink);
}

#[test]
fn unclassifiable_files_are_refused() {
    assert_eq!(merge_action(FileKind::Other, true), MergeAction::FailUnknownKind);
}
