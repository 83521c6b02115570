//! Build configuration: the raw values read from the config file, the
//! defaults applied to the ones left out, and the validated `Config` the
//! pipeline runs with.
use vstd::prelude::*;
use crate::error::Error;
use crate::urls::{parse_url, url_parsed};

verus! {

/// The default directory the built capsule is written to.
pub fn public_dir() -> (r: String)
    ensures
        r@ == "./public/"@,
{
    String::from_str("./public/")
}

/// The default directory holding the static asset tree.
pub fn static_dir() -> (r: String)
    ensures
        r@ == "./static/"@,
{
    String::from_str("./static/")
}

/// The default directory holding the post body and metadata files.
pub fn posts_dir() -> (r: String)
    ensures
        r@ == "./posts/"@,
{
    String::from_str("./posts/")
}

/// The default path of the index page template.
pub fn index_template_file() -> (r: String)
    ensures
        r@ == "./templates/index.tera"@,
{
    String::from_str("./templates/index.tera")
}

/// The default path of the post page template.
pub fn post_template_file() -> (r: String)
    ensures
        r@ == "./templates/post.tera"@,
{
    String::from_str("./templates/post.tera")
}

/// The default post path template.
pub fn post_path() -> (r: String)
    ensures
        r@ == "/posts/{{ slug }}"@,
{
    String::from_str("/posts/{{ slug }}")
}

/// The default URL path of the index page.
pub fn index_path() -> (r: String)
    ensures
        r@ == "/posts/index.gmi"@,
{
    String::from_str("/posts/index.gmi")
}

/// The default URL path of the feed.
pub fn feed_path() -> (r: String)
    ensures
        r@ == "/posts/atom.xml"@,
{
    String::from_str("/posts/atom.xml")
}

/// Author details as they appear in the config file.
#[derive(Debug)]
pub struct RawAuthorConfig {
    pub name: String,
    pub email: Option<String>,
    pub uri: Option<String>,
}

/// The capsule-wide author attached to the feed.
#[derive(Debug)]
pub struct AuthorConfig {
    pub name: String,
    pub email: Option<String>,
    pub uri: Option<String>,
}

impl AuthorConfig {
    /// The author taken over from the raw config value.
    pub fn from_raw(raw: RawAuthorConfig) -> (r: Self)
        ensures
            r.name == raw.name,
            r.email == raw.email,
            r.uri == raw.uri,
    {
        AuthorConfig { name: raw.name, email: raw.email, uri: raw.uri }
    }
}

/// The configuration as read from the config file, before defaults are
/// applied and the capsule URL is validated.
#[derive(Debug)]
pub struct RawConfig {
    pub public_dir: Option<String>,
    pub static_dir: Option<String>,
    pub posts_dir: Option<String>,
    pub index_template_file: Option<String>,
    pub post_template_file: Option<String>,
    pub post_path: Option<String>,
    pub index_path: Option<String>,
    pub feed_path: Option<String>,
    pub title: String,
    pub url: String,
    pub subtitle: Option<String>,
    pub rights: Option<String>,
    pub author: Option<RawAuthorConfig>,
}

/// The validated build configuration.
#[derive(Debug)]
pub struct Config {
    pub public_dir: String,
    pub static_dir: String,
    pub posts_dir: String,
    pub index_template_file: String,
    pub post_template_file: String,
    pub post_path: String,
    pub index_path: String,
    pub feed_path: String,
    pub title: String,
    /// The capsule base URL, in the serialization the URL parser produced.
    pub url: String,
    pub subtitle: Option<String>,
    pub rights: Option<String>,
    pub author: Option<AuthorConfig>,
}

/// The value of an optional raw setting with its default applied.
pub open spec fn with_default(raw: Option<String>, default: Seq<char>) -> Seq<char> {
    match raw {
        Some(s) => s@,
        None => default,
    }
}

impl Config {
    /// Apply defaults to the raw configuration and validate the capsule
    /// URL. Fails exactly when the URL does not parse as an absolute URL.
    pub fn from_raw(raw: RawConfig) -> (r: Result<Config, Error>)
        ensures
            r is Ok <==> url_parsed(raw.url@) is Some,
            r matches Ok(c) ==> {
                &&& url_parsed(raw.url@) == Some(c.url@)
                &&& c.public_dir@ == with_default(raw.public_dir, "./public/"@)
                &&& c.static_dir@ == with_default(raw.static_dir, "./static/"@)
                &&& c.posts_dir@ == with_default(raw.posts_dir, "./posts/"@)
                &&& c.index_template_file@ == with_default(
                    raw.index_template_file,
                    "./templates/index.tera"@,
                )
                &&& c.post_template_file@ == with_default(
                    raw.post_template_file,
                    "./templates/post.tera"@,
                )
                &&& c.post_path@ == with_default(raw.post_path, "/posts/{{ slug }}"@)
                &&& c.index_path@ == with_default(raw.index_path, "/posts/index.gmi"@)
                &&& c.feed_path@ == with_default(raw.feed_path, "/posts/atom.xml"@)
                &&& c.title == raw.title
                &&& c.subtitle == raw.subtitle
                &&& c.rights == raw.rights
                &&& match (c.author, raw.author) {
                    (None, None) => true,
                    (Some(a), Some(ra)) => a.name == ra.name && a.email == ra.email && a.uri
                        == ra.uri,
                    _ => false,
                }
            },
            r matches Err(e) ==> e matches Error::InvalidCapsuleUrl { url } && url == raw.url,
    {
        let url = match parse_url(raw.url.as_str()) {
            Some(u) => u,
            None => {
                return Err(Error::InvalidCapsuleUrl { url: raw.url });
            },
        };
        Ok(Config {
            public_dir: match raw.public_dir {
                Some(s) => s,
                None => public_dir(),
            },
            static_dir: match raw.static_dir {
                Some(s) => s,
                None => static_dir(),
            },
            posts_dir: match raw.posts_dir {
                Some(s) => s,
                None => posts_dir(),
            },
            index_template_file: match raw.index_template_file {
                Some(s) => s,
                None => index_template_file(),
            },
            post_template_file: match raw.post_template_file {
                Some(s) => s,
                None => post_template_file(),
            },
            post_path: match raw.post_path {
                Some(s) => s,
                None => post_path(),
            },
            index_path: match raw.index_path {
                Some(s) => s,
                None => index_path(),
            },
            feed_path: match raw.feed_path {
                Some(s) => s,
                None => feed_path(),
            },
            title: raw.title,
            url,
            subtitle: raw.subtitle,
            rights: raw.rights,
            author: match raw.author {
                Some(a) => Some(AuthorConfig::from_raw(a)),
                None => None,
            },
        })
    }
}

} // verus!
