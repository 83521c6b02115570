//! User-facing errors.
//!
//! These are the failures expected in common use of the pipeline; each one
//! renders to a readable message naming the artifact at fault.
use vstd::prelude::*;

verus! {

/// A user-facing error.
#[derive(Debug)]
pub enum Error {
    /// No config file exists at `path`.
    NonexistentConfigFile { path: String },
    /// The config file at `path` could not be read as configuration.
    InvalidConfigFile { path: String, reason: String },
    /// The metadata sidecar at `path` is malformed or fails validation.
    InvalidMetadataFile { path: String, reason: String },
    /// Project initialization would overwrite the file at `path`.
    ExampleFileAlreadyExists { path: String },
    /// A post with this slug already exists.
    PostAlreadyExists { slug: String },
    /// The user-supplied index page template failed.
    InvalidIndexPageTemplate { reason: String },
    /// The user-supplied post page template failed for the page at `path`.
    InvalidPostPageTemplate { path: String, reason: String },
    /// A user-supplied page template failed for the page at `path`.
    InvalidPageTemplate { path: String, reason: String },
    /// The post path template in the configuration is invalid.
    InvalidPostPath { template: String, reason: String },
    /// The configured capsule URL is not a valid URL.
    InvalidCapsuleUrl { url: String },
}

/// The message that `Error::message` renders for `e`.
pub open spec fn message_of(e: Error) -> Seq<char> {
    match e {
        Error::NonexistentConfigFile { path } => "There is no config file at `"@ + path@
            + "`."@,
        Error::InvalidConfigFile { path, reason } => "There is a problem with the config file at `"@
            + path@ + "`.\n\n"@ + reason@,
        Error::InvalidMetadataFile { path, reason } =>
            "There is a problem with the post metadata file at `"@ + path@ + "`.\n\n"@ + reason@,
        Error::ExampleFileAlreadyExists { path } =>
            "You cannot initialize this directory as a gempost project because this file already exists: "@
            + path@,
        Error::PostAlreadyExists { slug } => "There is already a post with this slug: "@ + slug@,
        Error::InvalidIndexPageTemplate { reason } =>
            "There was an issue generating the index page.\n\n"@ + reason@,
        Error::InvalidPostPageTemplate { path, reason } =>
            "There was an issue generating a post page.\n\n"@ + reason@,
        Error::InvalidPageTemplate { path, reason } =>
            "There was an issue generating a templated page.\n\n"@ + reason@,
        Error::InvalidPostPath { template, reason } =>
            "The post path template in your gempost.yaml is invalid.\n\nTemplate: `"@ + template@
            + "`\n\n"@ + reason@,
        Error::InvalidCapsuleUrl { url } => "The capsule URL you provided is not a valid URL: "@
            + url@,
    }
}

impl Error {
    /// The user-facing message for this error.
    pub fn message(&self) -> (r: String)
        ensures
            r@ == message_of(*self),
    {
        match self {
            Error::NonexistentConfigFile { path } => {
                let mut m = String::from_str("There is no config file at `");
                m.append(path.as_str());
                m.append("`.");
                m
            },
            Error::InvalidConfigFile { path, reason } => {
                let mut m = String::from_str("There is a problem with the config file at `");
                m.append(path.as_str());
                m.append("`.\n\n");
                m.append(reason.as_str());
                m
            },
            Error::InvalidMetadataFile { path, reason } => {
                let mut m = String::from_str("There is a problem with the post metadata file at `");
                m.append(path.as_str());
                m.append("`.\n\n");
                m.append(reason.as_str());
                m
            },
            Error::ExampleFileAlreadyExists { path } => {
                let mut m = String::from_str(
                    "You cannot initialize this directory as a gempost project because this file already exists: ",
                );
                m.append(path.as_str());
                m
            },
            Error::PostAlreadyExists { slug } => {
                let mut m = String::from_str("There is already a post with this slug: ");
                m.append(slug.as_str());
                m
            },
            Error::InvalidIndexPageTemplate { reason } => {
                let mut m = String::from_str("There was an issue generating the index page.\n\n");
                m.append(reason.as_str());
                m
            },
            Error::InvalidPostPageTemplate { path, reason } => {
                let mut m = String::from_str("There was an issue generating a post page.\n\n");
                m.append(reason.as_str());
                m
            },
            Error::InvalidPageTemplate { path, reason } => {
                let mut m = String::from_str("There was an issue generating a templated page.\n\n");
                m.append(reason.as_str());
                m
            },
            Error::InvalidPostPath { template, reason } => {
                let mut m = String::from_str(
                    "The post path template in your gempost.yaml is invalid.\n\nTemplate: `",
                );
                m.append(template.as_str());
                m.append("`\n\n");
                m.append(reason.as_str());
                m
            },
            Error::InvalidCapsuleUrl { url } => {
                let mut m = String::from_str(
                    "The capsule URL you provided is not a valid URL: ",
                );
                m.append(url.as_str());
                m
            },
        }
    }
}

} // verus!
