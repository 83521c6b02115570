//! File-pair reconciliation: partition a directory's entries into body
//! (gemtext) files and metadata sidecars by extension, derive each file's
//! counterpart path, pair the files present on both sides, and emit one
//! warning for every orphan or unrecognized file.
use vstd::prelude::*;
use crate::text::{
    all_distinct, find_last, last_index_of, lemma_filter_complement_len, lemma_filter_congruent,
    lemma_filter_keeps_distinct, lemma_filter_push, lemma_last_index_of, str_eq, views_of,
};

verus! {

/// The two recognized file roles, and the single place where the mapping
/// between the body extension and the metadata extension is defined.
#[derive(Clone, Copy, PartialEq, Eq, Structural, Debug)]
pub enum SidecarExt {
    /// A gemtext body file, extension `gmi`.
    Gemtext,
    /// A metadata sidecar file, extension `yaml`.
    Metadata,
}

impl SidecarExt {
    /// The extension this role uses.
    pub open spec fn ext_view(self) -> Seq<char> {
        match self {
            SidecarExt::Gemtext => "gmi"@,
            SidecarExt::Metadata => "yaml"@,
        }
    }

    /// The extension this role uses.
    pub fn ext_str(self) -> (r: &'static str)
        ensures
            r@ == self.ext_view(),
    {
        match self {
            SidecarExt::Gemtext => "gmi",
            SidecarExt::Metadata => "yaml",
        }
    }

    /// The role a file of this role is paired with.
    pub fn counterpart(self) -> (r: Self)
        ensures
            self == SidecarExt::Gemtext ==> r == SidecarExt::Metadata,
            self == SidecarExt::Metadata ==> r == SidecarExt::Gemtext,
    {
        match self {
            SidecarExt::Gemtext => SidecarExt::Metadata,
            SidecarExt::Metadata => SidecarExt::Gemtext,
        }
    }
}

/// A matched body file and metadata sidecar sharing a stem.
#[derive(Debug)]
pub struct PathPair {
    /// Path of the gemtext body file.
    pub gemtext: String,
    /// Path of the metadata sidecar file.
    pub metadata: String,
}

/// The final path component of `s`: everything after the last `'/'`.
pub open spec fn filename_of(s: Seq<char>) -> Seq<char> {
    s.subrange(last_index_of(s, '/') + 1, s.len() as int)
}

/// Everything up to and including the last `'/'` of `s`.
pub open spec fn dir_prefix_of(s: Seq<char>) -> Seq<char> {
    s.subrange(0, last_index_of(s, '/') + 1)
}

/// The filename `f` without its extension. The split is at the last `'.'`,
/// except that a lone leading `'.'` does not begin an extension.
pub open spec fn stem_of(f: Seq<char>) -> Seq<char> {
    let d = last_index_of(f, '.');
    if d >= 1 {
        f.subrange(0, d)
    } else {
        f
    }
}

/// Whether the path `s` has an extension in its final component.
pub open spec fn has_extension(s: Seq<char>) -> bool {
    last_index_of(filename_of(s), '.') >= 1
}

/// The extension of `s`: what follows the last `'.'` of its final component.
pub open spec fn ext_of(s: Seq<char>) -> Seq<char> {
    let f = filename_of(s);
    f.subrange(last_index_of(f, '.') + 1, f.len() as int)
}

/// The path `s` with its extension replaced by `new_ext`.
pub open spec fn changed_ext(s: Seq<char>, new_ext: Seq<char>) -> Seq<char> {
    dir_prefix_of(s) + stem_of(filename_of(s)) + seq!['.'] + new_ext
}

/// Whether `s` names a gemtext body file.
pub open spec fn is_gemtext_path(s: Seq<char>) -> bool {
    has_extension(s) && ext_of(s) == "gmi"@
}

/// Whether `s` names a metadata sidecar file.
pub open spec fn is_metadata_path(s: Seq<char>) -> bool {
    has_extension(s) && ext_of(s) == "yaml"@
}

/// The metadata sidecar path paired with the body file `p`.
pub open spec fn meta_counterpart(p: Seq<char>) -> Seq<char> {
    changed_ext(p, "yaml"@)
}

/// The body file path paired with the metadata sidecar `m`.
pub open spec fn post_counterpart(m: Seq<char>) -> Seq<char> {
    changed_ext(m, "gmi"@)
}

/// The final path component of `s`, as a borrowed slice.
fn filename_part<'a>(s: &'a str) -> (r: &'a str)
    ensures
        r@ == filename_of(s@),
{
    let n = s.unicode_len();
    proof {
        lemma_last_index_of(s@, '/');
    }
    let start: usize = match find_last(s, '/') {
        Some(j) => j + 1,
        None => 0,
    };
    s.substring_char(start, n)
}

/// The extension of the path `s`, if its final component has one.
pub fn path_extension(s: &str) -> (r: Option<String>)
    ensures
        match r {
            Some(e) => has_extension(s@) && e@ == ext_of(s@),
            None => !has_extension(s@),
        },
{
    let f = filename_part(s);
    let n = f.unicode_len();
    proof {
        lemma_last_index_of(f@, '.');
    }
    match find_last(f, '.') {
        Some(d) => {
            if d >= 1 {
                let e = f.substring_char(d + 1, n);
                Some(String::from_str(e))
            } else {
                None
            }
        },
        None => None,
    }
}

/// The path `s` with its extension replaced by `new_ext`, or `None` when `s`
/// has no final component to rename.
pub fn change_file_ext(s: &str, new_ext: &str) -> (r: Option<String>)
    ensures
        match r {
            Some(t) => filename_of(s@).len() > 0 && t@ == changed_ext(s@, new_ext@),
            None => filename_of(s@).len() == 0,
        },
{
    let n = s.unicode_len();
    proof {
        lemma_last_index_of(s@, '/');
    }
    let start: usize = match find_last(s, '/') {
        Some(j) => j + 1,
        None => 0,
    };
    if start >= n {
        return None;
    }
    let f = s.substring_char(start, n);
    let fn_len = f.unicode_len();
    proof {
        lemma_last_index_of(f@, '.');
    }
    let d: usize = match find_last(f, '.') {
        Some(j) => {
            if j >= 1 {
                j
            } else {
                fn_len
            }
        },
        None => fn_len,
    };
    let mut out = String::from_str(s.substring_char(0, start));
    out.append(f.substring_char(0, d));
    out.append(".");
    out.append(new_ext);
    proof {
        reveal_strlit(".");
        assert("."@ =~= seq!['.']);
        assert(f@.subrange(0, d as int) =~= stem_of(filename_of(s@)));
        assert(out@ =~= changed_ext(s@, new_ext@));
    }
    Some(out)
}

/// The stem of the final component of `s`: the filename without its
/// extension. This is the slug of a post's body file.
pub fn file_stem_part(s: &str) -> (r: String)
    ensures
        r@ == stem_of(filename_of(s@)),
{
    let f = filename_part(s);
    let n = f.unicode_len();
    proof {
        lemma_last_index_of(f@, '.');
    }
    let d: usize = match find_last(f, '.') {
        Some(j) => {
            if j >= 1 {
                j
            } else {
                n
            }
        },
        None => n,
    };
    let stem = f.substring_char(0, d);
    proof {
        assert(stem@ =~= stem_of(filename_of(s@)));
    }
    String::from_str(stem)
}

/// The role of the file at `s`, by its extension, or `None` when the
/// extension is missing or unrecognized.
pub fn classify_path(s: &str) -> (r: Option<SidecarExt>)
    ensures
        match r {
            Some(SidecarExt::Gemtext) => is_gemtext_path(s@),
            Some(SidecarExt::Metadata) => is_metadata_path(s@),
            None => !is_gemtext_path(s@) && !is_metadata_path(s@),
        },
{
    match path_extension(s) {
        Some(e) => {
            if str_eq(e.as_str(), "gmi") {
                Some(SidecarExt::Gemtext)
            } else if str_eq(e.as_str(), "yaml") {
                Some(SidecarExt::Metadata)
            } else {
                None
            }
        },
        None => None,
    }
}

/// The warning text for a file that is neither a body file nor a sidecar.
pub open spec fn unrecognized_warning(p: Seq<char>) -> Seq<char> {
    "This is not a .gmi or .yaml file: "@ + p
}

/// The warning text for a sidecar without a body file.
pub open spec fn meta_orphan_warning(m: Seq<char>) -> Seq<char> {
    "This YAML metadata file does not have an accompanying gemtext file: "@ + m
}

/// The warning text for a body file without a sidecar.
pub open spec fn post_orphan_warning(p: Seq<char>) -> Seq<char> {
    "This gemtext file does not have an accompanying YAML metadata file: "@ + p
}

/// Whether a body file path has its sidecar counterpart among `metas`.
pub open spec fn has_meta_pred(metas: Seq<Seq<char>>) -> spec_fn(Seq<char>) -> bool {
    |p: Seq<char>| metas.contains(meta_counterpart(p))
}

/// Whether a body file path lacks its sidecar counterpart among `metas`.
pub open spec fn no_meta_pred(metas: Seq<Seq<char>>) -> spec_fn(Seq<char>) -> bool {
    |p: Seq<char>| !metas.contains(meta_counterpart(p))
}

/// Whether a sidecar path lacks its body counterpart among `posts`.
pub open spec fn no_post_pred(posts: Seq<Seq<char>>) -> spec_fn(Seq<char>) -> bool {
    |m: Seq<char>| !posts.contains(post_counterpart(m))
}

/// The warning text for a sidecar orphan, as a mapping function.
pub open spec fn meta_orphan_warning_fn() -> spec_fn(Seq<char>) -> Seq<char> {
    |m: Seq<char>| meta_orphan_warning(m)
}

/// The warning text for a body-file orphan, as a mapping function.
pub open spec fn post_orphan_warning_fn() -> spec_fn(Seq<char>) -> Seq<char> {
    |p: Seq<char>| post_orphan_warning(p)
}

/// The body-file paths among `posts` whose sidecar counterpart is in `metas`.
pub open spec fn matched_posts(posts: Seq<Seq<char>>, metas: Seq<Seq<char>>) -> Seq<Seq<char>> {
    posts.filter(has_meta_pred(metas))
}

/// The body-file paths among `posts` without a sidecar counterpart in `metas`.
pub open spec fn orphan_posts(posts: Seq<Seq<char>>, metas: Seq<Seq<char>>) -> Seq<Seq<char>> {
    posts.filter(no_meta_pred(metas))
}

/// The sidecar paths among `metas` without a body counterpart in `posts`.
pub open spec fn orphan_metas(posts: Seq<Seq<char>>, metas: Seq<Seq<char>>) -> Seq<Seq<char>> {
    metas.filter(no_post_pred(posts))
}

/// The warnings that reconciliation emits: one per orphaned sidecar, then
/// one per orphaned body file.
pub open spec fn mismatch_warnings(posts: Seq<Seq<char>>, metas: Seq<Seq<char>>) -> Seq<
    Seq<char>,
> {
    orphan_metas(posts, metas).map_values(meta_orphan_warning_fn()) + orphan_posts(
        posts,
        metas,
    ).map_values(post_orphan_warning_fn())
}

/// Whether a path names a gemtext body file, as a predicate value.
pub open spec fn gemtext_pred() -> spec_fn(Seq<char>) -> bool {
    |p: Seq<char>| is_gemtext_path(p)
}

/// Whether a path names a metadata sidecar, as a predicate value.
pub open spec fn metadata_pred() -> spec_fn(Seq<char>) -> bool {
    |p: Seq<char>| is_metadata_path(p)
}

/// Whether a path names neither recognized role, as a predicate value.
pub open spec fn unrecognized_pred() -> spec_fn(Seq<char>) -> bool {
    |p: Seq<char>| !is_gemtext_path(p) && !is_metadata_path(p)
}

/// The warning text for an unrecognized file, as a mapping function.
pub open spec fn unrecognized_warning_fn() -> spec_fn(Seq<char>) -> Seq<char> {
    |p: Seq<char>| unrecognized_warning(p)
}

/// A path with a recognized extension has a final component.
pub proof fn lemma_recognized_filename(p: Seq<char>)
    ensures
        is_gemtext_path(p) ==> filename_of(p).len() > 0,
        is_metadata_path(p) ==> filename_of(p).len() > 0,
{
    lemma_last_index_of(filename_of(p), '.');
}

/// Partition a directory's entries by recognized extension into body files
/// and metadata sidecars, in their input order, and emit one warning for
/// every file whose extension is missing or unrecognized.
pub fn partition_dir_entries(paths: &Vec<String>) -> (r: (Vec<String>, Vec<String>, Vec<String>))
    ensures
        views_of(r.0@) == views_of(paths@).filter(gemtext_pred()),
        views_of(r.1@) == views_of(paths@).filter(metadata_pred()),
        views_of(r.2@) == views_of(paths@).filter(unrecognized_pred()).map_values(
            unrecognized_warning_fn(),
        ),
        forall|i: int| 0 <= i < r.0@.len() ==> filename_of(#[trigger] r.0@[i]@).len() > 0,
        forall|i: int| 0 <= i < r.1@.len() ==> filename_of(#[trigger] r.1@[i]@).len() > 0,
{
    let ghost all = views_of(paths@);
    let mut gemtexts: Vec<String> = Vec::new();
    let mut metas: Vec<String> = Vec::new();
    let mut warnings: Vec<String> = Vec::new();
    let mut i: usize = 0;
    proof {
        assert(all.subrange(0, 0).filter(gemtext_pred()) =~= Seq::<Seq<char>>::empty());
        assert(all.subrange(0, 0).filter(metadata_pred()) =~= Seq::<Seq<char>>::empty());
        assert(views_of(gemtexts@) =~= all.subrange(0, 0).filter(gemtext_pred()));
        assert(views_of(metas@) =~= all.subrange(0, 0).filter(metadata_pred()));
        assert(views_of(warnings@) =~= all.subrange(0, 0).filter(unrecognized_pred()).map_values(
            unrecognized_warning_fn(),
        ));
    }
    while i < paths.len()
        invariant
            i <= paths@.len(),
            all == views_of(paths@),
            views_of(gemtexts@) == all.subrange(0, i as int).filter(gemtext_pred()),
            views_of(metas@) == all.subrange(0, i as int).filter(metadata_pred()),
            views_of(warnings@) == all.subrange(0, i as int).filter(unrecognized_pred()).map_values(
                unrecognized_warning_fn(),
            ),
            forall|k: int| 0 <= k < gemtexts@.len() ==> filename_of(
                #[trigger] gemtexts@[k]@,
            ).len() > 0,
            forall|k: int| 0 <= k < metas@.len() ==> filename_of(#[trigger] metas@[k]@).len() > 0,
        decreases paths@.len() - i,
    {
        let p = &paths[i];
        proof {
            reveal_strlit("gmi");
            reveal_strlit("yaml");
            assert("gmi"@.len() != "yaml"@.len());
            assert(all[i as int] == paths@[i as int]@);
            lemma_recognized_filename(all[i as int]);
            lemma_filter_push(all.subrange(0, i as int), gemtext_pred(), all[i as int]);
            lemma_filter_push(all.subrange(0, i as int), metadata_pred(), all[i as int]);
            lemma_filter_push(all.subrange(0, i as int), unrecognized_pred(), all[i as int]);
            assert(all.subrange(0, i as int).push(all[i as int]) =~= all.subrange(0, i + 1));
        }
        match classify_path(p.as_str()) {
            Some(SidecarExt::Gemtext) => {
                gemtexts.push(p.clone());
                proof {
                    assert(views_of(gemtexts@) =~= all.subrange(0, i + 1).filter(gemtext_pred()));
                }
            },
            Some(SidecarExt::Metadata) => {
                metas.push(p.clone());
                proof {
                    assert(views_of(metas@) =~= all.subrange(0, i + 1).filter(metadata_pred()));
                }
            },
            None => {
                let ghost before_filtered = all.subrange(0, i as int).filter(unrecognized_pred());
                let ghost before_warns = views_of(warnings@);
                let mut w = String::from_str("This is not a .gmi or .yaml file: ");
                w.append(p.as_str());
                warnings.push(w);
                proof {
                    assert(w@ == unrecognized_warning(all[i as int]));
                    assert(views_of(warnings@) =~= before_warns.push(w@));
                    assert(all.subrange(0, i + 1).filter(unrecognized_pred())
                        == before_filtered.push(all[i as int]));
                    assert(before_filtered.push(all[i as int]).map_values(
                        unrecognized_warning_fn(),
                    ) =~= before_filtered.map_values(unrecognized_warning_fn()).push(
                        unrecognized_warning_fn()(all[i as int]),
                    ));
                    assert(views_of(warnings@) =~= all.subrange(0, i + 1).filter(
                        unrecognized_pred(),
                    ).map_values(unrecognized_warning_fn()));
                }
            },
        }
        i = i + 1;
    }
    proof {
        assert(all.subrange(0, all.len() as int) =~= all);
    }
    (gemtexts, metas, warnings)
}

/// Reconciliation accounts for every input exactly once: each body file is
/// either matched or warned about, and the warnings are exactly one per
/// orphan on either side.
pub proof fn lemma_reconciliation_counts(posts: Seq<Seq<char>>, metas: Seq<Seq<char>>)
    ensures
        matched_posts(posts, metas).len() + orphan_posts(posts, metas).len() == posts.len(),
        mismatch_warnings(posts, metas).len() == orphan_metas(posts, metas).len() + orphan_posts(
            posts,
            metas,
        ).len(),
{
    let keep = has_meta_pred(metas);
    lemma_filter_complement_len(posts, keep);
    lemma_filter_congruent(posts, |x: Seq<char>| !keep(x), no_meta_pred(metas));
}

/// Whether some string in `v` holds exactly the characters `x`.
fn contains_str(v: &Vec<String>, x: &str) -> (r: bool)
    ensures
        r == views_of(v@).contains(x@),
{
    let mut i: usize = 0;
    while i < v.len()
        invariant
            i <= v.len(),
            forall|k: int| 0 <= k < i ==> views_of(v@)[k] != x@,
        decreases v.len() - i,
    {
        if str_eq(v[i].as_str(), x) {
            proof {
                assert(views_of(v@)[i as int] == x@);
            }
            return true;
        }
        i = i + 1;
    }
    proof {
        if views_of(v@).contains(x@) {
            let k = choose|k: int| 0 <= k < views_of(v@).len() && views_of(v@)[k] == x@;
            assert(views_of(v@)[k] != x@);
        }
    }
    false
}

/// Pair each body file with its sidecar, dropping files without a
/// counterpart and emitting one warning per orphan: first for each sidecar
/// without a body file, then for each body file without a sidecar.
///
/// Every input path must have a final component, and each list must be free
/// of duplicates; the directory scan that produces these paths only keeps
/// files with a recognized extension and each side de-duplicated, which
/// guarantees both. The resulting pair list is then itself duplicate-free.
pub fn check_mismatched_files(post_paths: Vec<String>, metadata_paths: &Vec<String>) -> (r: (
    Vec<PathPair>,
    Vec<String>,
))
    requires
        forall|i: int| 0 <= i < post_paths@.len() ==> filename_of(#[trigger] post_paths@[i]@).len()
            > 0,
        forall|i: int|
            0 <= i < metadata_paths@.len() ==> filename_of(#[trigger] metadata_paths@[i]@).len()
                > 0,
        all_distinct(views_of(post_paths@)),
        all_distinct(views_of(metadata_paths@)),
    ensures
        ({
            let posts = views_of(post_paths@);
            let metas = views_of(metadata_paths@);
            let matched = matched_posts(posts, metas);
            &&& r.0@.len() == matched.len()
            &&& forall|i: int|
                0 <= i < matched.len() ==> #[trigger] r.0@[i].gemtext@ == matched[i]
                    && r.0@[i].metadata@ == meta_counterpart(matched[i])
            &&& all_distinct(matched)
            &&& views_of(r.1@) == mismatch_warnings(posts, metas)
        }),
{
    proof {
        lemma_filter_keeps_distinct(views_of(post_paths@), has_meta_pred(views_of(metadata_paths@)));
    }
    let ghost posts = views_of(post_paths@);
    let ghost metas = views_of(metadata_paths@);
    let mut warnings: Vec<String> = Vec::new();

    // Warn about metadata files that do not have an accompanying body file.
    let mut i: usize = 0;
    proof {
        assert(metas.subrange(0, 0).filter(no_post_pred(posts)) =~= Seq::<Seq<char>>::empty());
        assert(views_of(warnings@) =~= metas.subrange(0, 0).filter(no_post_pred(posts)).map_values(
            meta_orphan_warning_fn(),
        ));
    }
    while i < metadata_paths.len()
        invariant
            i <= metadata_paths@.len(),
            posts == views_of(post_paths@),
            metas == views_of(metadata_paths@),
            forall|k: int|
                0 <= k < metadata_paths@.len() ==> filename_of(
                    #[trigger] metadata_paths@[k]@,
                ).len() > 0,
            views_of(warnings@) == metas.subrange(0, i as int).filter(
                no_post_pred(posts),
            ).map_values(meta_orphan_warning_fn()),
        decreases metadata_paths@.len() - i,
    {
        let m = &metadata_paths[i];
        let maybe_post = match change_file_ext(m.as_str(), "gmi") {
            Some(p) => p,
            None => {
                proof {
                    // Unreachable: every input has a final component.
                    assert(filename_of(metadata_paths@[i as int]@).len() > 0);
                    assert(false);
                }
                String::new()
            },
        };
        proof {
            assert(metas[i as int] == metadata_paths@[i as int]@);
            assert(maybe_post@ == post_counterpart(metas[i as int]));
            assert(no_post_pred(posts)(metas[i as int]) == !posts.contains(
                post_counterpart(metas[i as int]),
            ));
            lemma_filter_push(metas.subrange(0, i as int), no_post_pred(posts), metas[i as int]);
            assert(metas.subrange(0, i as int).push(metas[i as int]) =~= metas.subrange(
                0,
                i + 1,
            ));
        }
        if !contains_str(&post_paths, maybe_post.as_str()) {
            let ghost before_filtered = metas.subrange(0, i as int).filter(no_post_pred(posts));
            let ghost before_warns = views_of(warnings@);
            let mut w = String::from_str(
                "This YAML metadata file does not have an accompanying gemtext file: ",
            );
            w.append(m.as_str());
            warnings.push(w);
            proof {
                assert(w@ == meta_orphan_warning(metas[i as int]));
                assert(views_of(warnings@) =~= before_warns.push(w@));
                assert(metas.subrange(0, i + 1).filter(no_post_pred(posts))
                    == before_filtered.push(metas[i as int]));
                assert(before_filtered.push(metas[i as int]).map_values(meta_orphan_warning_fn())
                    =~= before_filtered.map_values(meta_orphan_warning_fn()).push(
                    meta_orphan_warning_fn()(metas[i as int]),
                ));
                assert(views_of(warnings@) =~= metas.subrange(0, i + 1).filter(
                    no_post_pred(posts),
                ).map_values(meta_orphan_warning_fn()));
            }
        } else {
            proof {
                assert(views_of(warnings@) =~= metas.subrange(0, i + 1).filter(
                    no_post_pred(posts),
                ).map_values(meta_orphan_warning_fn()));
            }
        }
        i = i + 1;
    }
    proof {
        assert(metas.subrange(0, metas.len() as int) =~= metas);
    }

    // Keep body files that have an accompanying sidecar; warn about the rest.
    let mut pairs: Vec<PathPair> = Vec::new();
    let ghost warns_so_far = views_of(warnings@);
    let mut j: usize = 0;
    proof {
        assert(posts.subrange(0, 0).filter(has_meta_pred(metas)) =~= Seq::<Seq<char>>::empty());
        assert(posts.subrange(0, 0).filter(no_meta_pred(metas)) =~= Seq::<Seq<char>>::empty());
        assert(views_of(warnings@) =~= warns_so_far + posts.subrange(0, 0).filter(
            no_meta_pred(metas),
        ).map_values(post_orphan_warning_fn()));
    }
    while j < post_paths.len()
        invariant
            j <= post_paths@.len(),
            posts == views_of(post_paths@),
            metas == views_of(metadata_paths@),
            forall|k: int|
                0 <= k < post_paths@.len() ==> filename_of(#[trigger] post_paths@[k]@).len() > 0,
            warns_so_far == orphan_metas(posts, metas).map_values(meta_orphan_warning_fn()),
            ({
                let matched = posts.subrange(0, j as int).filter(has_meta_pred(metas));
                &&& pairs@.len() == matched.len()
                &&& forall|k: int|
                    0 <= k < matched.len() ==> #[trigger] pairs@[k].gemtext@ == matched[k]
                        && pairs@[k].metadata@ == meta_counterpart(matched[k])
            }),
            views_of(warnings@) == warns_so_far + posts.subrange(0, j as int).filter(
                no_meta_pred(metas),
            ).map_values(post_orphan_warning_fn()),
        decreases post_paths@.len() - j,
    {
        let p = &post_paths[j];
        let maybe_meta = match change_file_ext(p.as_str(), "yaml") {
            Some(m) => m,
            None => {
                proof {
                    // Unreachable: every input has a final component.
                    assert(filename_of(post_paths@[j as int]@).len() > 0);
                    assert(false);
                }
                String::new()
            },
        };
        proof {
            assert(posts[j as int] == post_paths@[j as int]@);
            assert(maybe_meta@ == meta_counterpart(posts[j as int]));
            assert(has_meta_pred(metas)(posts[j as int]) == metas.contains(
                meta_counterpart(posts[j as int]),
            ));
            assert(no_meta_pred(metas)(posts[j as int]) == !metas.contains(
                meta_counterpart(posts[j as int]),
            ));
            lemma_filter_push(posts.subrange(0, j as int), has_meta_pred(metas), posts[j as int]);
            lemma_filter_push(posts.subrange(0, j as int), no_meta_pred(metas), posts[j as int]);
            assert(posts.subrange(0, j as int).push(posts[j as int]) =~= posts.subrange(
                0,
                j + 1,
            ));
        }
        if contains_str(metadata_paths, maybe_meta.as_str()) {
            let pair = PathPair { gemtext: p.clone(), metadata: maybe_meta };
            pairs.push(pair);
            proof {
                assert(views_of(warnings@) =~= warns_so_far + posts.subrange(0, j + 1).filter(
                    no_meta_pred(metas),
                ).map_values(post_orphan_warning_fn()));
            }
        } else {
            let ghost before_filtered = posts.subrange(0, j as int).filter(no_meta_pred(metas));
            let ghost before_warns = views_of(warnings@);
            let mut w = String::from_str(
                "This gemtext file does not have an accompanying YAML metadata file: ",
            );
            w.append(p.as_str());
            warnings.push(w);
            proof {
                assert(w@ == post_orphan_warning(posts[j as int]));
                assert(views_of(warnings@) =~= before_warns.push(w@));
                assert(posts.subrange(0, j + 1).filter(no_meta_pred(metas))
                    == before_filtered.push(posts[j as int]));
                assert(before_filtered.push(posts[j as int]).map_values(post_orphan_warning_fn())
                    =~= before_filtered.map_values(post_orphan_warning_fn()).push(
                    post_orphan_warning_fn()(posts[j as int]),
                ));
                assert(views_of(warnings@) =~= warns_so_far + posts.subrange(0, j + 1).filter(
                    no_meta_pred(metas),
                ).map_values(post_orphan_warning_fn()));
            }
        }
        j = j + 1;
    }
    proof {
        assert(posts.subrange(0, posts.len() as int) =~= posts);
    }
    (pairs, warnings)
}

/// The sequence with every repeat of an earlier element dropped: first
/// occurrences survive, in their order.
pub open spec fn dedup_first(s: Seq<Seq<char>>) -> Seq<Seq<char>>
    decreases s.len(),
{
    if s.len() == 0 {
        s
    } else {
        let d = dedup_first(s.drop_last());
        if d.contains(s.last()) {
            d
        } else {
            d.push(s.last())
        }
    }
}

/// De-duplication yields a duplicate-free sequence with exactly the
/// members of the input.
pub proof fn lemma_dedup_first(s: Seq<Seq<char>>)
    ensures
        all_distinct(dedup_first(s)),
        forall|x: Seq<char>| #[trigger] dedup_first(s).contains(x) ==> s.contains(x),
        forall|x: Seq<char>| #[trigger] s.contains(x) ==> dedup_first(s).contains(x),
    decreases s.len(),
{
    if s.len() == 0 {
    } else {
        let t = s.drop_last();
        lemma_dedup_first(t);
        let d = dedup_first(t);
        let r = dedup_first(s);
        assert forall|x: Seq<char>| #[trigger] r.contains(x) implies s.contains(x) by {
            if d.contains(x) {
                assert(t.contains(x));
                let j = choose|j: int| 0 <= j < t.len() && t[j] == x;
                assert(s[j] == x);
            } else {
                let i = choose|i: int| 0 <= i < r.len() && r[i] == x;
                assert(r == d.push(s.last()));
                if i < d.len() {
                    assert(d[i] == x);
                    assert(d.contains(x));
                } else {
                    assert(x == s.last());
                    assert(s[s.len() - 1] == x);
                }
            }
        }
        assert forall|x: Seq<char>| #[trigger] s.contains(x) implies r.contains(x) by {
            let i = choose|i: int| 0 <= i < s.len() && s[i] == x;
            if i < s.len() - 1 {
                assert(t[i] == x);
                assert(t.contains(x));
                assert(d.contains(x));
                if d.contains(s.last()) {
                    assert(r == d);
                } else {
                    let j = choose|j: int| 0 <= j < d.len() && d[j] == x;
                    assert(r[j] == x);
                }
            } else {
                if d.contains(s.last()) {
                    assert(r == d);
                } else {
                    assert(r == d.push(s.last()));
                    assert(r[r.len() - 1] == x);
                }
            }
        }
        if !d.contains(s.last()) {
            assert(r == d.push(s.last()));
            assert forall|i: int, j: int| 0 <= i < j < r.len() implies r[i] != r[j] by {
                if j < d.len() {
                    assert(r[i] == d[i] && r[j] == d[j]);
                } else {
                    assert(r[j] == s.last());
                    assert(r[i] == d[i]);
                    assert(d.contains(d[i]));
                }
            }
        }
    }
}

/// Drop every repeat of an earlier path, keeping first occurrences in
/// order: the set semantics of the directory scan.
pub fn dedup_paths(paths: &Vec<String>) -> (r: Vec<String>)
    ensures
        views_of(r@) == dedup_first(views_of(paths@)),
{
    let ghost all = views_of(paths@);
    let mut out: Vec<String> = Vec::new();
    let mut i: usize = 0;
    proof {
        assert(views_of(out@) =~= dedup_first(all.subrange(0, 0)));
    }
    while i < paths.len()
        invariant
            i <= paths@.len(),
            all == views_of(paths@),
            views_of(out@) == dedup_first(all.subrange(0, i as int)),
        decreases paths@.len() - i,
    {
        let p = &paths[i];
        proof {
            assert(all[i as int] == paths@[i as int]@);
            assert(all.subrange(0, i + 1).drop_last() =~= all.subrange(0, i as int));
            assert(all.subrange(0, i + 1).last() == all[i as int]);
        }
        if !contains_str(&out, p.as_str()) {
            out.push(p.clone());
            proof {
                assert(views_of(out@) =~= dedup_first(all.subrange(0, i + 1)));
            }
        } else {
            proof {
                assert(views_of(out@) =~= dedup_first(all.subrange(0, i + 1)));
            }
        }
        i = i + 1;
    }
    proof {
        assert(all.subrange(0, all.len() as int) =~= all);
    }
    out
}

/// Reconcile a directory's entries end to end: classify every path,
/// de-duplicate each side as the scan's set semantics did, and pair the
/// files present on both sides. The warnings come in scan order: one per
/// unrecognized file, then one per orphaned sidecar, then one per orphaned
/// body file.
pub fn reconcile_dir_entries(paths: &Vec<String>) -> (r: (Vec<PathPair>, Vec<String>))
    ensures
        ({
            let all = views_of(paths@);
            let posts = dedup_first(all.filter(gemtext_pred()));
            let metas = dedup_first(all.filter(metadata_pred()));
            let matched = matched_posts(posts, metas);
            &&& r.0@.len() == matched.len()
            &&& forall|i: int|
                0 <= i < matched.len() ==> #[trigger] r.0@[i].gemtext@ == matched[i]
                    && r.0@[i].metadata@ == meta_counterpart(matched[i])
            &&& all_distinct(matched)
            &&& views_of(r.1@) == all.filter(unrecognized_pred()).map_values(
                unrecognized_warning_fn(),
            ) + mismatch_warnings(posts, metas)
        }),
{
    let ghost all = views_of(paths@);
    let (gemtexts_raw, metadatas_raw, mut warnings) = partition_dir_entries(paths);
    let gemtexts = dedup_paths(&gemtexts_raw);
    let metadatas = dedup_paths(&metadatas_raw);
    proof {
        lemma_dedup_first(all.filter(gemtext_pred()));
        lemma_dedup_first(all.filter(metadata_pred()));
        assert forall|i: int| 0 <= i < gemtexts@.len() implies filename_of(
            #[trigger] gemtexts@[i]@,
        ).len() > 0 by {
            let x = views_of(gemtexts@)[i];
            assert(x == gemtexts@[i]@);
            assert(views_of(gemtexts@).contains(x));
            assert(all.filter(gemtext_pred()).contains(x));
            let j = choose|j: int|
                0 <= j < all.filter(gemtext_pred()).len() && all.filter(gemtext_pred())[j] == x;
            assert(gemtexts_raw@[j]@ == x);
            assert(filename_of(gemtexts_raw@[j]@).len() > 0);
        }
        assert forall|i: int| 0 <= i < metadatas@.len() implies filename_of(
            #[trigger] metadatas@[i]@,
        ).len() > 0 by {
            let x = views_of(metadatas@)[i];
            assert(x == metadatas@[i]@);
            assert(views_of(metadatas@).contains(x));
            assert(all.filter(metadata_pred()).contains(x));
            let j = choose|j: int|
                0 <= j < all.filter(metadata_pred()).len() && all.filter(metadata_pred())[j]
                    == x;
            assert(metadatas_raw@[j]@ == x);
            assert(filename_of(metadatas_raw@[j]@).len() > 0);
        }
    }
    let (pairs, mut mismatch) = check_mismatched_files(gemtexts, &metadatas);
    let ghost scan_warns = views_of(warnings@);
    let ghost mismatch_warns = views_of(mismatch@);
    warnings.append(&mut mismatch);
    proof {
        assert(views_of(warnings@) =~= scan_warns + mismatch_warns);
    }
    (pairs, warnings)
}

} // verus!
