//! The command-line surface: plain data describing each invocation. The
//! argument parser itself lives outside the library and hands these values
//! over.
use vstd::prelude::*;

verus! {

/// A parsed invocation.
#[derive(Debug)]
pub struct Cli {
    pub command: Commands,
}

/// Create a new gempost project.
#[derive(Debug)]
pub struct Init {
    /// The directory to create the new project in; the current directory
    /// when absent.
    pub directory: Option<String>,
}

/// Build the capsule.
#[derive(Debug)]
pub struct Build {
    /// The path of the gempost config file.
    pub config: String,
}

/// Create a new post.
#[derive(Debug)]
pub struct New {
    /// The URL slug of the post to create.
    pub slug: String,
    /// The title of the post.
    pub title: Option<String>,
    /// The path of the gempost config file.
    pub config: String,
}

/// Create a new page.
#[derive(Debug)]
pub struct NewPage {
    /// The URL slug of the page to create.
    pub slug: String,
    /// The optional path beneath the pages directory to create the page at.
    pub subpath: Option<String>,
    /// The title of the page.
    pub title: Option<String>,
    /// The path of the gempost config file.
    pub config: String,
}

/// The subcommands.
#[derive(Debug)]
pub enum Commands {
    /// Create a new gempost project with basic templates and an example
    /// post.
    Init(Init),
    /// Build the capsule.
    Build(Build),
    /// Create a new post with an empty body file and a fresh metadata file.
    New(New),
    /// Create a new page with an empty body file and a fresh metadata file.
    NewPage(NewPage),
}

} // verus!
