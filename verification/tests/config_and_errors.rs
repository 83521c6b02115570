//! Configuration defaults, URL validation, and error messages.
use gempost::config::{
    feed_path, index_path, index_template_file, post_path, post_template_file, posts_dir,
    public_dir, static_dir, Config, RawAuthorConfig, RawConfig,
};
use gempost::error::Error;

fn raw() -> RawConfig {
    RawConfig {
        public_dir: None,
        static_dir: None,
        posts_dir: None,
        index_template_file: None,
        post_template_file: None,
        post_path: None,
        index_path: None,
        feed_path: None,
        title: "T".to_string(),
        url: "gemini://example.com".to_string(),
        subtitle: None,
        rights: None,
        author: None,
    }
}

#[test]
fn defaults_have_their_documented_values() {
    assert_eq!(public_dir(), "./public/");
    assert_eq!(static_dir(), "./static/");
    assert_eq!(posts_dir(), "./posts/");
    assert_eq!(index_template_file(), "./templates/index.tera");
    assert_eq!(post_template_file(), "./templates/post.tera");
    assert_eq!(post_path(), "/posts/{{ slug }}");
    assert_eq!(index_path(), "/posts/index.gmi");
    assert_eq!(feed_path(), "/posts/atom.xml");
}

#[test]
fn absent_settings_take_the_defaults() {
    let c = Config::from_raw(raw()).unwrap();
    assert_eq!(c.public_dir, "./public/");
    assert_eq!(c.static_dir, "./static/");
    assert_eq!(c.posts_dir, "./posts/");
    assert_eq!(c.index_template_file, "./templates/index.tera");
    assert_eq!(c.post_template_file, "./templates/post.tera");
    assert_eq!(c.post_path, "/posts/{{ slug }}");
    assert_eq!(c.index_path, "/posts/index.gmi");
    assert_eq!(c.feed_path, "/posts/atom.xml");
    assert_eq!(c.title, "T");
}

#[test]
fn given_settings_override_the_defaults() {
    let mut r = raw();
    r.public_dir = Some("out".to_string());
    r.post_path = Some("/p/{{ slug }}".to_string());
    r.author = Some(RawAuthorConfig {
        name: "A".to_string(),
        email: None,
        uri: None,
    });
    let c = Config::from_raw(r).unwrap();
    assert_eq!(c.public_dir, "out");
    assert_eq!(c.post_path, "/p/{{ slug }}");
    assert_eq!(c.author.unwrap().name, "A");
}

#[test]
fn capsule_url_is_normalized_by_parsing() {
    let mut r = raw();
    r.url = "gemini://example.com/a/../".to_string();
    let c = Config::from_raw(r).unwrap();
    assert_eq!(c.url, "gemini://example.com/");
}

#[test]
fn invalid_capsule_url_is_rejected() {
    let mut r = raw();
    r.url = "not a url".to_string();
    let err = Config::from_raw(r).unwrap_err();
    match err {
        Error::InvalidCapsuleUrl { url } => assert_eq!(url, "not a url"),
        other => panic!("unexpected error: {}", other.message()),
    }
}

#[test]
fn error_messages_name_the_artifact_at_fault() {
    let e = Error::NonexistentConfigFile { path: "gempost.yaml".to_string() };
    assert_eq!(e.message(), "There is no config file at `gempost.yaml`.");

    let e = Error::InvalidMetadataFile {
        path: "p.yaml".to_string(),
        reason: "broken".to_string(),
    };
    assert_eq!(
        e.message(),
        "There is a problem with the post metadata file at `p.yaml`.\n\nbroken"
    );

    let e = Error::PostAlreadyExists { slug: "hi".to_string() };
    assert_eq!(e.message(), "There is already a post with this slug: hi");

    let e = Error::InvalidPostPath {
        template: "/x/{{".to_string(),
        reason: "r".to_string(),
    };
    assert!(e.message().contains("/x/{{"));

    let e = Error::InvalidCapsuleUrl { url: "u".to_string() };
    assert_eq!(e.message(), "The capsule URL you provided is not a valid URL: u");
}
