//! The build plan: where each output file goes, the template data each one
//! is rendered from, and the per-entry merge decisions of the static copy.
use vstd::prelude::*;
use crate::config::Config;
use crate::feed::Feed;
use crate::template::{feed_data_of, FeedTemplateData};
use crate::text::{join_path, join_segments, segments_of, split_segments};

verus! {

/// `rel` placed under the directory `base`: the two joined with exactly one
/// `'/'` between them.
pub open spec fn joined_under(base: Seq<char>, rel: Seq<char>) -> Seq<char> {
    if base.len() == 0 {
        rel
    } else if base[base.len() - 1] == '/' {
        base + rel
    } else {
        base + seq!['/'] + rel
    }
}

/// Place the relative path `rel` under the directory `base`.
pub fn join_under(base: &str, rel: &str) -> (r: String)
    ensures
        r@ == joined_under(base@, rel@),
{
    let n = base.unicode_len();
    if n == 0 {
        return String::from_str(rel);
    }
    let mut out = String::from_str(base);
    if base.get_char(n - 1) != '/' {
        out.append("/");
        proof {
            reveal_strlit("/");
            assert("/"@ =~= seq!['/']);
        }
    }
    out.append(rel);
    out
}

/// The output file path for a configured URL path: its non-empty segments,
/// joined and placed under the public directory.
pub open spec fn filepath_of_url_path(base: Seq<char>, url_path: Seq<char>) -> Seq<char> {
    joined_under(base, join_segments(segments_of(url_path)))
}

/// The file path under `base_path` for the configured URL path `url_path`:
/// split on `'/'`, empty segments dropped, the rest joined again.
pub fn url_to_filepath(base_path: &str, url_path: &str) -> (r: String)
    ensures
        r@ == filepath_of_url_path(base_path@, url_path@),
{
    let segs = split_segments(url_path);
    let rel = join_path(&segs);
    join_under(base_path, rel.as_str())
}

/// The kind of one entry of the static source tree.
#[derive(Clone, Copy, PartialEq, Eq, Structural, Debug)]
pub enum FileKind {
    /// A regular file.
    Regular,
    /// A directory.
    Directory,
    /// A symbolic link.
    Symlink,
    /// Anything else: a device, socket, or other special file.
    Other,
}

/// What the static merge does with one entry of the source tree.
#[derive(Clone, Copy, PartialEq, Eq, Structural, Debug)]
pub enum MergeAction {
    /// Copy the file's bytes, overwriting any existing destination file.
    CopyOverwrite,
    /// Create the destination directory if absent, then recurse into it.
    EnsureDirAndRecurse,
    /// Recreate the symlink at the destination, replacing a previous one.
    ReplaceSymlink,
    /// Abort: symbolic links are not supported on this platform.
    FailUnsupportedSymlink,
    /// Abort: the entry is not a regular file, directory, or symlink.
    FailUnknownKind,
}

/// The merge decision for one entry of the static source tree.
///
/// The conflict policy for regular files is always-overwrite: the static
/// tree is copied after all generated output exists and deliberately
/// clobbers generated files at the same relative path, never silently
/// skipping them.
pub fn merge_action(kind: FileKind, symlinks_supported: bool) -> (r: MergeAction)
    ensures
        kind == FileKind::Regular ==> r == MergeAction::CopyOverwrite,
        kind == FileKind::Directory ==> r == MergeAction::EnsureDirAndRecurse,
        (kind == FileKind::Symlink && symlinks_supported) ==> r == MergeAction::ReplaceSymlink,
        (kind == FileKind::Symlink && !symlinks_supported) ==> r
            == MergeAction::FailUnsupportedSymlink,
        kind == FileKind::Other ==> r == MergeAction::FailUnknownKind,
{
    match kind {
        FileKind::Regular => MergeAction::CopyOverwrite,
        FileKind::Directory => MergeAction::EnsureDirAndRecurse,
        FileKind::Symlink => {
            if symlinks_supported {
                MergeAction::ReplaceSymlink
            } else {
                MergeAction::FailUnsupportedSymlink
            }
        },
        FileKind::Other => MergeAction::FailUnknownKind,
    }
}

/// Everything the render step needs: the destination of every output file
/// and the template data each one is rendered from. The post at index `i`
/// of `post_outputs` is rendered from `feed_data.entries[i]`.
#[derive(Debug)]
pub struct BuildPlan {
    /// The directory the capsule is built into.
    pub public_dir: String,
    /// The static asset tree merged in after rendering.
    pub static_dir: String,
    /// The user-supplied index page template file.
    pub index_template_file: String,
    /// The user-supplied post page template file.
    pub post_template_file: String,
    /// Where the index page is written.
    pub index_output: String,
    /// Where the feed file is written.
    pub feed_output: String,
    /// Where each post page is written, in feed order.
    pub post_outputs: Vec<String>,
    /// The template data for the index, the feed, and each post.
    pub feed_data: FeedTemplateData,
}

/// Plan the render step for `feed` under `config`: fix each output file's
/// destination and project the feed into template data.
#[verifier::loop_isolation(false)]
pub fn plan_build(config: &Config, feed: Feed) -> (r: BuildPlan)
    ensures
        r.public_dir == config.public_dir,
        r.static_dir == config.static_dir,
        r.index_template_file == config.index_template_file,
        r.post_template_file == config.post_template_file,
        r.index_output@ == filepath_of_url_path(config.public_dir@, config.index_path@),
        r.feed_output@ == filepath_of_url_path(config.public_dir@, config.feed_path@),
        r.post_outputs@.len() == feed.entries@.len(),
        forall|i: int|
            0 <= i < feed.entries@.len() ==> (#[trigger] r.post_outputs@[i])@ == joined_under(
                config.public_dir@,
                feed.entries@[i].path@,
            ),
        feed_data_of(r.feed_data, feed),
{
    let index_output = url_to_filepath(config.public_dir.as_str(), config.index_path.as_str());
    let feed_output = url_to_filepath(config.public_dir.as_str(), config.feed_path.as_str());
    let mut post_outputs: Vec<String> = Vec::new();
    let mut i: usize = 0;
    while i < feed.entries.len()
        invariant
            i <= feed.entries@.len(),
            post_outputs@.len() == i,
            forall|k: int|
                0 <= k < i ==> (#[trigger] post_outputs@[k])@ == joined_under(
                    config.public_dir@,
                    feed.entries@[k].path@,
                ),
        decreases feed.entries@.len() - i,
    {
        let out = join_under(config.public_dir.as_str(), feed.entries[i].path.as_str());
        post_outputs.push(out);
        i = i + 1;
    }
    let feed_data = FeedTemplateData::from_feed(feed);
    BuildPlan {
        public_dir: config.public_dir.clone(),
        static_dir: config.static_dir.clone(),
        index_template_file: config.index_template_file.clone(),
        post_template_file: config.post_template_file.clone(),
        index_output,
        feed_output,
        post_outputs,
        feed_data,
    }
}

} // verus!
