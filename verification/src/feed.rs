//! The feed: locations are assigned to validated entries through the path
//! template, the entries are sorted reverse-chronologically with a stable
//! tie-break, and the publication-wide feed model is assembled.
use vstd::prelude::*;
use crate::config::Config;
use crate::entry::{
    is_draft_doc, kept_sources, kept_src_pred, metadata_failure_reason, metadata_matches,
    wf_metadata, Entry, EntryMetadata, EntrySource, PostLocation,
};
use crate::entry_util::file_stem_part;
use crate::error::Error;
use crate::template::{PostPathParams, PostPathTemplateData};
use crate::text::{join_segments, lemma_filter_push, segments_of, split_segments, join_path};
use crate::time::{instant_le, now_timestamp, ts_like, Timestamp};
use crate::urls::{push_url_segments, set_url_path, url_after_segments, url_with_path};

verus! {

/// The capsule-wide author attached to the feed.
#[derive(Debug)]
pub struct FeedAuthor {
    pub name: String,
    pub email: Option<String>,
    pub uri: Option<String>,
}

/// The location that the rendered path template output `rendered` assigns
/// under the base URL `base_url`: the URL with the non-empty `/`-separated
/// segments of `rendered` appended, and those segments joined as a relative
/// output path. `None` when the base URL cannot take path segments.
pub open spec fn location_model(base_url: Seq<char>, rendered: Seq<char>) -> Option<
    (Seq<char>, Seq<char>),
> {
    match url_after_segments(base_url, segments_of(rendered)) {
        Some(u) => Some((u, join_segments(segments_of(rendered)))),
        None => None,
    }
}

/// Turn the rendered path template output into a location under `base_url`.
/// Fails exactly when the base URL cannot take path segments, which is
/// reported as a problem with the capsule URL.
pub fn location_from_rendered(base_url: &str, rendered: &str) -> (r: Result<PostLocation, Error>)
    ensures
        r is Ok <==> location_model(base_url@, rendered@) is Some,
        r matches Ok(loc) ==> location_model(base_url@, rendered@) == Some(
            (loc.url@, loc.path@),
        ),
        r matches Err(e) ==> e matches Error::InvalidCapsuleUrl { url } && url@ == base_url@,
{
    let segs = split_segments(rendered);
    let path = join_path(&segs);
    match push_url_segments(base_url, &segs) {
        Some(u) => Ok(PostLocation { url: u, path }),
        None => Err(Error::InvalidCapsuleUrl { url: String::from_str(base_url) }),
    }
}

/// Compute the location of the post with this slug and publish date: render
/// the configured path template, then place the result under the capsule
/// URL.
pub fn compute_location(config: &Config, slug: &str, published: Option<&Timestamp>) -> (r: Result<
    PostLocation,
    Error,
>)
    ensures
        r matches Ok(loc) ==> (exists|rendered: Seq<char>|
            location_model(config.url@, rendered) == Some((loc.url@, loc.path@))),
        r matches Err(e) ==> (e matches Error::InvalidPostPath { template, reason: _ } && template@
            == config.post_path@) || (e matches Error::InvalidCapsuleUrl { url } && url@
            == config.url@),
{
    let published_owned = match published {
        Some(ts) => Some(ts.clone()),
        None => None,
    };
    let params = PostPathParams { slug: String::from_str(slug), published: published_owned };
    let data = PostPathTemplateData::from_params(params);
    let rendered = match data.render(config.post_path.as_str()) {
        Ok(p) => p,
        Err(e) => {
            return Err(e);
        },
    };
    match location_from_rendered(config.url.as_str(), rendered.as_str()) {
        Ok(loc) => {
            proof {
                assert(location_model(config.url@, rendered@) == Some((loc.url@, loc.path@)));
            }
            Ok(loc)
        },
        Err(e) => Err(e),
    }
}

impl Entry {
    /// Load the entries from their sources: validate each sidecar, silently
    /// skip drafts, and give each kept entry the location computed from its
    /// slug (the body file's stem) and publish date. The first invalid
    /// sidecar or failed location computation aborts the load.
    #[verifier::loop_isolation(false)]
    pub fn from_sources(sources: Vec<EntrySource>, config: &Config) -> (r: Result<
        Vec<Entry>,
        Error,
    >)
        ensures
            r is Ok ==> forall|i: int|
                0 <= i < sources@.len() ==> wf_metadata(#[trigger] sources@[i].metadata),
            sources@.len() == 0 ==> r is Ok,
            ((forall|i: int|
                0 <= i < sources@.len() ==> wf_metadata(#[trigger] sources@[i].metadata))
                && kept_sources(sources@).len() == 0) ==> r is Ok,
            r matches Ok(entries) ==> {
                let kept = kept_sources(sources@);
                &&& entries@.len() == kept.len()
                &&& forall|k: int|
                    0 <= k < kept.len() ==> {
                        &&& metadata_matches(#[trigger] entries@[k].metadata, kept[k].metadata)
                        &&& entries@[k].body == kept[k].body
                        &&& !entries@[k].metadata.draft
                        &&& (exists|rendered: Seq<char>|
                            location_model(config.url@, rendered) == Some(
                                (entries@[k].url@, entries@[k].path@),
                            ))
                    }
            },
            r matches Err(e) ==> {
                ||| (e matches Error::InvalidMetadataFile { path, reason } && (exists|i: int|
                    0 <= i < sources@.len() && path@ == (#[trigger] sources@[i]).metadata_path@
                        && !wf_metadata(sources@[i].metadata) && reason@
                        == metadata_failure_reason(sources@[i].metadata) && (forall|j: int|
                        0 <= j < i ==> wf_metadata(#[trigger] sources@[j].metadata))))
                ||| (e matches Error::InvalidPostPath { template, reason: _ } && template@
                    == config.post_path@ && kept_sources(sources@).len() > 0)
                ||| (e matches Error::InvalidCapsuleUrl { url } && url@ == config.url@
                    && kept_sources(sources@).len() > 0)
            },
    {
        let ghost orig = sources@;
        let mut rest = sources;
        let mut entries: Vec<Entry> = Vec::new();
        proof {
            assert(orig.subrange(0, 0).filter(kept_src_pred()) =~= Seq::<EntrySource>::empty());
            assert(rest@ =~= orig.subrange(0, orig.len() as int));
        }
        while rest.len() > 0
            invariant
                rest@.len() <= orig.len(),
                rest@ == orig.subrange(orig.len() - rest@.len(), orig.len() as int),
                forall|j: int|
                    0 <= j < orig.len() - rest@.len() ==> wf_metadata(
                        #[trigger] orig[j].metadata,
                    ),
                ({
                    let kept = orig.subrange(0, orig.len() - rest@.len()).filter(
                        kept_src_pred(),
                    );
                    &&& entries@.len() == kept.len()
                    &&& forall|k: int|
                        0 <= k < kept.len() ==> {
                            &&& metadata_matches(
                                #[trigger] entries@[k].metadata,
                                kept[k].metadata,
                            )
                            &&& entries@[k].body == kept[k].body
                            &&& !entries@[k].metadata.draft
                            &&& (exists|rendered: Seq<char>|
                                location_model(config.url@, rendered) == Some(
                                    (entries@[k].url@, entries@[k].path@),
                                ))
                        }
                }),
            decreases rest@.len(),
        {
            let ghost k = orig.len() - rest@.len();
            let source = rest.remove(0);
            proof {
                assert(source == orig[k]);
                assert(rest@ =~= orig.subrange(k + 1, orig.len() as int));
                lemma_filter_push(orig.subrange(0, k), kept_src_pred(), orig[k]);
                assert(orig.subrange(0, k).push(orig[k]) =~= orig.subrange(0, k + 1));
            }
            let EntrySource { gemtext_path, metadata_path, body, metadata } = source;
            let post_metadata = match EntryMetadata::from_value(metadata, metadata_path.as_str()) {
                Ok(m) => m,
                Err(e) => {
                    proof {
                        assert(!wf_metadata(orig[k].metadata));
                    }
                    return Err(e);
                },
            };
            // Draft posts are excluded from publication.
            if post_metadata.draft {
                proof {
                    assert(is_draft_doc(orig[k].metadata));
                    assert(!kept_src_pred()(orig[k]));
                }
            } else {
                proof {
                    assert(!is_draft_doc(orig[k].metadata));
                    assert(kept_src_pred()(orig[k]));
                }
                let slug = file_stem_part(gemtext_path.as_str());
                let location = match compute_location(
                    config,
                    slug.as_str(),
                    post_metadata.published.as_ref(),
                ) {
                    Ok(loc) => loc,
                    Err(e) => {
                        proof {
                            // A location error presupposes a kept source.
                            orig.lemma_filter_contains(kept_src_pred(), k);
                            assert(kept_sources(orig).contains(orig[k]));
                            let w = choose|w: int|
                                0 <= w < kept_sources(orig).len() && kept_sources(orig)[w]
                                    == orig[k];
                            assert(kept_sources(orig).len() > 0);
                        }
                        return Err(e);
                    },
                };
                let entry = Entry {
                    metadata: post_metadata,
                    body,
                    url: location.url,
                    path: location.path,
                };
                entries.push(entry);
            }
        }
        proof {
            assert(orig.subrange(0, orig.len() as int) =~= orig);
        }
        Ok(entries)
    }
}

/// The sort key of an entry, seconds part: its publish instant, falling
/// back to its update instant.
pub open spec fn entry_sort_secs(e: Entry) -> int {
    match e.metadata.published {
        Some(ts) => ts.epoch_secs as int,
        None => e.metadata.updated.epoch_secs as int,
    }
}

/// The sort key of an entry, nanoseconds part.
pub open spec fn entry_sort_nanos(e: Entry) -> int {
    match e.metadata.published {
        Some(ts) => ts.subsec_nanos as int,
        None => e.metadata.updated.subsec_nanos as int,
    }
}

/// Whether `a` sorts no later than `b` in the feed: `a`'s key instant is at
/// or after `b`'s.
pub open spec fn key_ge(a: Entry, b: Entry) -> bool {
    ||| entry_sort_secs(a) > entry_sort_secs(b)
    ||| (entry_sort_secs(a) == entry_sort_secs(b) && entry_sort_nanos(a) >= entry_sort_nanos(b))
}

/// `e` inserted into `s` behind every element whose key is at least `e`'s:
/// the insertion step of a stable descending sort.
pub open spec fn insert_desc(e: Entry, s: Seq<Entry>) -> Seq<Entry>
    decreases s.len(),
{
    if s.len() == 0 {
        seq![e]
    } else if key_ge(s[0], e) {
        seq![s[0]] + insert_desc(e, s.subrange(1, s.len() as int))
    } else {
        seq![e] + s
    }
}

/// The entries of `s` in reverse-chronological order by publish instant
/// (falling back to update instant), ties kept in their input order.
pub open spec fn sort_desc(s: Seq<Entry>) -> Seq<Entry>
    decreases s.len(),
{
    if s.len() == 0 {
        Seq::empty()
    } else {
        insert_desc(s.last(), sort_desc(s.drop_last()))
    }
}

/// Whether `s` is sorted in descending key order.
pub open spec fn sorted_desc(s: Seq<Entry>) -> bool {
    forall|i: int, j: int| 0 <= i < j < s.len() ==> key_ge(#[trigger] s[i], #[trigger] s[j])
}

pub proof fn lemma_insert_desc_len(e: Entry, s: Seq<Entry>)
    ensures
        insert_desc(e, s).len() == s.len() + 1,
    decreases s.len(),
{
    if s.len() == 0 {
    } else if key_ge(s[0], e) {
        lemma_insert_desc_len(e, s.subrange(1, s.len() as int));
    }
}

pub proof fn lemma_insert_desc_contains(e: Entry, s: Seq<Entry>, x: Entry)
    ensures
        insert_desc(e, s).contains(x) <==> (x == e || s.contains(x)),
    decreases s.len(),
{
    let r = insert_desc(e, s);
    if s.len() == 0 {
        assert(r =~= seq![e]);
        assert(r.contains(x) <==> x == e) by {
            if r.contains(x) {
                let i = choose|i: int| 0 <= i < r.len() && r[i] == x;
                assert(r[i] == e);
            }
            if x == e {
                assert(r[0] == x);
            }
        }
    } else if key_ge(s[0], e) {
        let t = s.subrange(1, s.len() as int);
        lemma_insert_desc_contains(e, t, x);
        assert(r == seq![s[0]] + insert_desc(e, t));
        assert(r.contains(x) <==> (x == s[0] || insert_desc(e, t).contains(x))) by {
            if r.contains(x) {
                let i = choose|i: int| 0 <= i < r.len() && r[i] == x;
                if i > 0 {
                    assert(insert_desc(e, t)[i - 1] == x);
                }
            }
            if x == s[0] {
                assert(r[0] == x);
            }
            if insert_desc(e, t).contains(x) {
                let i = choose|i: int| 0 <= i < insert_desc(e, t).len() && insert_desc(
                    e,
                    t,
                )[i] == x;
                assert(r[i + 1] == x);
            }
        }
        assert(s.contains(x) <==> (x == s[0] || t.contains(x))) by {
            if s.contains(x) {
                let i = choose|i: int| 0 <= i < s.len() && s[i] == x;
                if i > 0 {
                    assert(t[i - 1] == x);
                }
            }
            if x == s[0] {
                assert(s[0] == x);
            }
            if t.contains(x) {
                let i = choose|i: int| 0 <= i < t.len() && t[i] == x;
                assert(s[i + 1] == x);
            }
        }
    } else {
        assert(r == seq![e] + s);
        assert(r.contains(x) <==> (x == e || s.contains(x))) by {
            if r.contains(x) {
                let i = choose|i: int| 0 <= i < r.len() && r[i] == x;
                if i > 0 {
                    assert(s[i - 1] == x);
                }
            }
            if x == e {
                assert(r[0] == x);
            }
            if s.contains(x) {
                let i = choose|i: int| 0 <= i < s.len() && s[i] == x;
                assert(r[i + 1] == x);
            }
        }
    }
}

/// Sorting neither loses nor invents entries: the sorted sequence has the
/// same length and exactly the same members.
pub proof fn lemma_sort_desc_members(s: Seq<Entry>)
    ensures
        sort_desc(s).len() == s.len(),
        forall|x: Entry| sort_desc(s).contains(x) <==> s.contains(x),
    decreases s.len(),
{
    if s.len() == 0 {
    } else {
        let d = s.drop_last();
        lemma_sort_desc_members(d);
        lemma_insert_desc_len(s.last(), sort_desc(d));
        assert forall|x: Entry| sort_desc(s).contains(x) <==> s.contains(x) by {
            lemma_insert_desc_contains(s.last(), sort_desc(d), x);
            assert(s.contains(x) <==> (x == s.last() || d.contains(x))) by {
                if s.contains(x) {
                    let i = choose|i: int| 0 <= i < s.len() && s[i] == x;
                    if i < s.len() - 1 {
                        assert(d[i] == x);
                    }
                }
                if x == s.last() {
                    assert(s[s.len() - 1] == x);
                }
                if d.contains(x) {
                    let i = choose|i: int| 0 <= i < d.len() && d[i] == x;
                    assert(s[i] == x);
                }
            }
        }
    }
}

pub proof fn lemma_insert_desc_sorted(e: Entry, s: Seq<Entry>)
    requires
        sorted_desc(s),
    ensures
        sorted_desc(insert_desc(e, s)),
    decreases s.len(),
{
    let r = insert_desc(e, s);
    if s.len() == 0 {
    } else if key_ge(s[0], e) {
        let t = s.subrange(1, s.len() as int);
        assert(sorted_desc(t)) by {
            assert forall|i: int, j: int| 0 <= i < j < t.len() implies key_ge(
                #[trigger] t[i],
                #[trigger] t[j],
            ) by {
                assert(t[i] == s[i + 1] && t[j] == s[j + 1]);
            }
        }
        lemma_insert_desc_sorted(e, t);
        let rt = insert_desc(e, t);
        lemma_insert_desc_len(e, t);
        // every element of rt is either e or from t; s[0] dominates both
        assert forall|j: int| 0 <= j < rt.len() implies key_ge(s[0], #[trigger] rt[j]) by {
            lemma_insert_desc_contains(e, t, rt[j]);
            assert(rt.contains(rt[j]));
            if rt[j] == e {
            } else {
                let i = choose|i: int| 0 <= i < t.len() && t[i] == rt[j];
                assert(t[i] == s[i + 1]);
                assert(key_ge(s[0], s[i + 1]));
            }
        }
        assert forall|i: int, j: int| 0 <= i < j < r.len() implies key_ge(
            #[trigger] r[i],
            #[trigger] r[j],
        ) by {
            if i == 0 {
                assert(r[j] == rt[j - 1]);
            } else {
                assert(r[i] == rt[i - 1] && r[j] == rt[j - 1]);
            }
        }
    } else {
        // !key_ge(s[0], e) means e's key is strictly greater than s[0]'s
        assert forall|i: int, j: int| 0 <= i < j < r.len() implies key_ge(
            #[trigger] r[i],
            #[trigger] r[j],
        ) by {
            if i == 0 {
                assert(r[0] == e);
                assert(r[j] == s[j - 1]);
                if j - 1 > 0 {
                    assert(key_ge(s[0], s[j - 1]));
                }
            } else {
                assert(r[i] == s[i - 1] && r[j] == s[j - 1]);
            }
        }
    }
}

/// The sorted feed is in descending key order.
pub proof fn lemma_sort_desc_sorted(s: Seq<Entry>)
    ensures
        sorted_desc(sort_desc(s)),
    decreases s.len(),
{
    if s.len() == 0 {
    } else {
        lemma_sort_desc_sorted(s.drop_last());
        lemma_insert_desc_sorted(s.last(), sort_desc(s.drop_last()));
    }
}

/// Whether an entry's key is exactly the given instant, as a predicate
/// value.
pub open spec fn key_is_pred(secs: int, nanos: int) -> spec_fn(Entry) -> bool {
    |e: Entry| entry_sort_secs(e) == secs && entry_sort_nanos(e) == nanos
}

pub proof fn lemma_insert_desc_filter_key(e: Entry, s: Seq<Entry>, secs: int, nanos: int)
    requires
        sorted_desc(s),
    ensures
        insert_desc(e, s).filter(key_is_pred(secs, nanos)) == if key_is_pred(secs, nanos)(e) {
            s.filter(key_is_pred(secs, nanos)).push(e)
        } else {
            s.filter(key_is_pred(secs, nanos))
        },
    decreases s.len(),
{
    reveal(Seq::filter);
    let p = key_is_pred(secs, nanos);
    let r = insert_desc(e, s);
    if s.len() == 0 {
        assert(r =~= Seq::<Entry>::empty().push(e));
        assert(Seq::<Entry>::empty().push(e).filter(p) == if p(e) {
            Seq::<Entry>::empty().filter(p).push(e)
        } else {
            Seq::<Entry>::empty().filter(p)
        }) by {
            lemma_filter_push(Seq::<Entry>::empty(), p, e);
        }
        assert(Seq::<Entry>::empty().filter(p) =~= s.filter(p));
    } else if key_ge(s[0], e) {
        let t = s.subrange(1, s.len() as int);
        assert(sorted_desc(t)) by {
            assert forall|i: int, j: int| 0 <= i < j < t.len() implies key_ge(
                #[trigger] t[i],
                #[trigger] t[j],
            ) by {
                assert(t[i] == s[i + 1] && t[j] == s[j + 1]);
            }
        }
        lemma_insert_desc_filter_key(e, t, secs, nanos);
        // filtering distributes over the head element
        assert(r == seq![s[0]] + insert_desc(e, t));
        lemma_filter_head(s[0], insert_desc(e, t), p);
        lemma_filter_head(s[0], t, p);
        assert(s =~= seq![s[0]] + t);
        if p(e) {
            assert(r.filter(p) =~= s.filter(p).push(e)) by {
                if p(s[0]) {
                    assert(r.filter(p) == seq![s[0]] + t.filter(p).push(e));
                    assert(s.filter(p) == seq![s[0]] + t.filter(p));
                    assert(seq![s[0]] + t.filter(p).push(e) =~= (seq![s[0]] + t.filter(p)).push(
                        e,
                    ));
                } else {
                    assert(r.filter(p) == t.filter(p).push(e));
                    assert(s.filter(p) == t.filter(p));
                }
            }
        } else {
            assert(r.filter(p) =~= s.filter(p)) by {
                if p(s[0]) {
                    assert(r.filter(p) == seq![s[0]] + t.filter(p));
                    assert(s.filter(p) == seq![s[0]] + t.filter(p));
                } else {
                    assert(r.filter(p) == t.filter(p));
                    assert(s.filter(p) == t.filter(p));
                }
            }
        }
    } else {
        // e goes in front; everything in s has a strictly smaller key, so
        // none of it shares e's key when p(e) holds
        assert(r == seq![e] + s);
        lemma_filter_head(e, s, p);
        if p(e) {
            // every element of s has key strictly below e's, so s's filter is
            // empty exactly when... it may still contain elements with the
            // key (secs, nanos) only if that key is not e's; here p(e) holds,
            // so s cannot contain any element satisfying p
            assert(s.filter(p) =~= Seq::<Entry>::empty()) by {
                lemma_filter_in_source(s, p);
                if s.filter(p).len() > 0 {
                    let x = s.filter(p)[0];
                    assert(s.filter(p).contains(x));
                    assert(s.contains(x) && p(x));
                    let i = choose|i: int| 0 <= i < s.len() && s[i] == x;
                    if i > 0 {
                        assert(key_ge(s[0], s[i]));
                    }
                    assert(!key_ge(s[0], e));
                    assert(false);
                }
            }
            assert(r.filter(p) == seq![e] + s.filter(p));
            assert(seq![e] + s.filter(p) =~= s.filter(p).push(e));
        } else {
            assert(r.filter(p) == s.filter(p));
        }
    }
}

/// Filtering distributes over prepending one element.
pub proof fn lemma_filter_head(x: Entry, s: Seq<Entry>, p: spec_fn(Entry) -> bool)
    ensures
        (seq![x] + s).filter(p) == if p(x) {
            seq![x] + s.filter(p)
        } else {
            s.filter(p)
        },
    decreases s.len(),
{
    reveal(Seq::filter);
    let w = seq![x] + s;
    if s.len() == 0 {
        assert(w =~= seq![x]);
        assert(w.len() == 1);
        assert(w.drop_last() =~= Seq::<Entry>::empty());
        assert(Seq::<Entry>::empty().filter(p) =~= Seq::<Entry>::empty());
        assert(s.filter(p) =~= s);
        assert(w.last() == x);
        if p(x) {
            assert(w.filter(p) == w.drop_last().filter(p).push(w.last()));
            assert(w.filter(p) =~= seq![x] + s.filter(p));
        } else {
            assert(w.filter(p) == w.drop_last().filter(p));
            assert(w.filter(p) =~= s.filter(p));
        }
    } else {
        assert(w.drop_last() =~= seq![x] + s.drop_last());
        lemma_filter_head(x, s.drop_last(), p);
        assert(w.last() == s.last());
        if p(x) {
            assert(w.filter(p) =~= seq![x] + s.filter(p)) by {
                if p(s.last()) {
                    assert(w.filter(p) == (seq![x] + s.drop_last().filter(p)).push(s.last()));
                    assert((seq![x] + s.drop_last().filter(p)).push(s.last()) =~= seq![x] + (
                    s.drop_last().filter(p).push(s.last())));
                }
            }
        } else {
            assert(w.filter(p) =~= s.filter(p));
        }
    }
}

/// Every element a filter keeps comes from the source sequence.
pub proof fn lemma_filter_in_source(s: Seq<Entry>, p: spec_fn(Entry) -> bool)
    ensures
        forall|x: Entry| #[trigger] s.filter(p).contains(x) ==> s.contains(x) && p(x),
    decreases s.len(),
{
    reveal(Seq::filter);
    if s.len() == 0 {
    } else {
        let d = s.drop_last();
        lemma_filter_in_source(d, p);
        assert forall|x: Entry| #[trigger] s.filter(p).contains(x) implies s.contains(x) && p(
            x,
        ) by {
            let f = s.filter(p);
            let i = choose|i: int| 0 <= i < f.len() && f[i] == x;
            if p(s.last()) {
                assert(f == d.filter(p).push(s.last()));
                if i < f.len() - 1 {
                    assert(d.filter(p)[i] == x);
                    assert(d.filter(p).contains(x));
                    let j = choose|j: int| 0 <= j < d.len() && d[j] == x;
                    assert(s[j] == x);
                } else {
                    assert(x == s.last());
                    assert(s[s.len() - 1] == x);
                }
            } else {
                assert(f == d.filter(p));
                assert(d.filter(p).contains(x));
                let j = choose|j: int| 0 <= j < d.len() && d[j] == x;
                assert(s[j] == x);
            }
        }
    }
}

/// Sorting is stable: for any key, the entries carrying that key appear in
/// the sorted feed in exactly their input order.
pub proof fn lemma_sort_desc_stable(s: Seq<Entry>, secs: int, nanos: int)
    ensures
        sort_desc(s).filter(key_is_pred(secs, nanos)) == s.filter(key_is_pred(secs, nanos)),
    decreases s.len(),
{
    reveal(Seq::filter);
    let p = key_is_pred(secs, nanos);
    if s.len() == 0 {
    } else {
        let d = s.drop_last();
        lemma_sort_desc_stable(d, secs, nanos);
        lemma_sort_desc_sorted(d);
        lemma_insert_desc_filter_key(s.last(), sort_desc(d), secs, nanos);
        if p(s.last()) {
            assert(sort_desc(s).filter(p) == sort_desc(d).filter(p).push(s.last()));
            assert(s.filter(p) == d.filter(p).push(s.last()));
        } else {
            assert(sort_desc(s).filter(p) == sort_desc(d).filter(p));
            assert(s.filter(p) == d.filter(p));
        }
    }
}

/// Any two sequences that are sorted in descending key order and agree on
/// which entries carry each key, in which order, are equal: together,
/// sortedness and stability determine the feed ordering uniquely.
pub proof fn lemma_stable_order_unique(r1: Seq<Entry>, r2: Seq<Entry>)
    requires
        sorted_desc(r1),
        sorted_desc(r2),
        forall|secs: int, nanos: int|
            #[trigger] r1.filter(key_is_pred(secs, nanos)) == r2.filter(key_is_pred(secs, nanos)),
    ensures
        r1 == r2,
    decreases r1.len(),
{
    reveal(Seq::filter);
    if r1.len() == 0 {
        if r2.len() > 0 {
            let x = r2[0];
            let p = key_is_pred(entry_sort_secs(x), entry_sort_nanos(x));
            assert(p(x));
            r2.lemma_filter_contains(p, 0);
            assert(r2.filter(p).contains(x));
            assert(r1.filter(p) == r2.filter(p));
            assert(r1.filter(p).len() == 0);
            assert(false);
        }
        assert(r1 =~= r2);
    } else if r2.len() == 0 {
        let x = r1[0];
        let p = key_is_pred(entry_sort_secs(x), entry_sort_nanos(x));
        assert(p(x));
        r1.lemma_filter_contains(p, 0);
        assert(r1.filter(p).contains(x));
        assert(r2.filter(p) == r1.filter(p));
        assert(r2.filter(p).len() == 0);
        assert(false);
    } else {
        let x1 = r1[0];
        let x2 = r2[0];
        let s1 = entry_sort_secs(x1);
        let n1 = entry_sort_nanos(x1);
        let s2 = entry_sort_secs(x2);
        let n2 = entry_sort_nanos(x2);
        // The heads carry the same key: a strictly greater head key on one
        // side would put entries with that key in one filter and not the
        // other.
        assert(s1 == s2 && n1 == n2) by {
            if !(s1 == s2 && n1 == n2) {
                if key_ge(x1, x2) {
                    let p = key_is_pred(s1, n1);
                    assert(p(x1));
                    r1.lemma_filter_contains(p, 0);
                    assert(r1.filter(p).contains(x1));
                    let f = r2.filter(p);
                    assert(f == r1.filter(p));
                    assert(f.len() > 0) by {
                        let i = choose|i: int|
                            0 <= i < r1.filter(p).len() && r1.filter(p)[i] == x1;
                    }
                    let y = f[0];
                    assert(f.contains(y));
                    lemma_filter_in_source(r2, p);
                    assert(r2.contains(y) && p(y));
                    let i = choose|i: int| 0 <= i < r2.len() && r2[i] == y;
                    if i > 0 {
                        assert(key_ge(r2[0], r2[i]));
                    }
                    assert(false);
                } else {
                    let p = key_is_pred(s2, n2);
                    assert(p(x2));
                    r2.lemma_filter_contains(p, 0);
                    assert(r2.filter(p).contains(x2));
                    let f = r1.filter(p);
                    assert(f == r2.filter(p));
                    assert(f.len() > 0) by {
                        let i = choose|i: int|
                            0 <= i < r2.filter(p).len() && r2.filter(p)[i] == x2;
                    }
                    let y = f[0];
                    assert(f.contains(y));
                    lemma_filter_in_source(r1, p);
                    assert(r1.contains(y) && p(y));
                    let i = choose|i: int| 0 <= i < r1.len() && r1[i] == y;
                    if i > 0 {
                        assert(key_ge(r1[0], r1[i]));
                    }
                    assert(false);
                }
            }
        }
        // The heads are equal: each is the first entry of the shared key's
        // filter.
        let p = key_is_pred(s1, n1);
        let t1 = r1.subrange(1, r1.len() as int);
        let t2 = r2.subrange(1, r2.len() as int);
        assert(r1 =~= seq![x1] + t1);
        assert(r2 =~= seq![x2] + t2);
        lemma_filter_head(x1, t1, p);
        lemma_filter_head(x2, t2, p);
        assert(p(x1) && p(x2));
        assert(r1.filter(p) == seq![x1] + t1.filter(p));
        assert(r2.filter(p) == seq![x2] + t2.filter(p));
        assert(x1 == x2) by {
            assert(r1.filter(p)[0] == x1);
            assert(r2.filter(p)[0] == x2);
        }
        // The tails again satisfy the hypotheses.
        assert(sorted_desc(t1)) by {
            assert forall|i: int, j: int| 0 <= i < j < t1.len() implies key_ge(
                #[trigger] t1[i],
                #[trigger] t1[j],
            ) by {
                assert(t1[i] == r1[i + 1] && t1[j] == r1[j + 1]);
            }
        }
        assert(sorted_desc(t2)) by {
            assert forall|i: int, j: int| 0 <= i < j < t2.len() implies key_ge(
                #[trigger] t2[i],
                #[trigger] t2[j],
            ) by {
                assert(t2[i] == r2[i + 1] && t2[j] == r2[j + 1]);
            }
        }
        assert forall|secs: int, nanos: int|
            #[trigger] t1.filter(key_is_pred(secs, nanos)) == t2.filter(
                key_is_pred(secs, nanos),
            ) by {
            let q = key_is_pred(secs, nanos);
            lemma_filter_head(x1, t1, q);
            lemma_filter_head(x1, t2, q);
            assert(r1.filter(q) == r2.filter(q));
            if q(x1) {
                assert(r1.filter(q) == seq![x1] + t1.filter(q));
                assert(r2.filter(q) == seq![x1] + t2.filter(q));
                assert(t1.filter(q) =~= t2.filter(q)) by {
                    assert(t1.filter(q).len() == t2.filter(q).len());
                    assert forall|i: int| 0 <= i < t1.filter(q).len() implies t1.filter(q)[i]
                        == t2.filter(q)[i] by {
                        assert((seq![x1] + t1.filter(q))[i + 1] == t1.filter(q)[i]);
                        assert((seq![x1] + t2.filter(q))[i + 1] == t2.filter(q)[i]);
                    }
                }
            } else {
                assert(r1.filter(q) == t1.filter(q));
                assert(r2.filter(q) == t2.filter(q));
            }
        }
        lemma_stable_order_unique(t1, t2);
        assert(r1 =~= r2);
    }
}

/// The feed ordering is deterministic: `sort_desc(s)` is the only
/// reverse-chronologically sorted ordering of `s`'s entries that keeps each
/// key's entries in their input order.
pub proof fn lemma_sort_desc_unique(r: Seq<Entry>, s: Seq<Entry>)
    requires
        sorted_desc(r),
        forall|secs: int, nanos: int|
            #[trigger] r.filter(key_is_pred(secs, nanos)) == s.filter(key_is_pred(secs, nanos)),
    ensures
        r == sort_desc(s),
{
    lemma_sort_desc_sorted(s);
    assert forall|secs: int, nanos: int|
        #[trigger] r.filter(key_is_pred(secs, nanos)) == sort_desc(s).filter(
            key_is_pred(secs, nanos),
        ) by {
        lemma_sort_desc_stable(s, secs, nanos);
    }
    lemma_stable_order_unique(r, sort_desc(s));
}

/// Whether `a` sorts no later than `b`, decided on the entries themselves.
fn entry_key_ge(a: &Entry, b: &Entry) -> (r: bool)
    ensures
        r == key_ge(*a, *b),
{
    let (a_secs, a_nanos) = match &a.metadata.published {
        Some(ts) => (ts.epoch_secs, ts.subsec_nanos),
        None => (a.metadata.updated.epoch_secs, a.metadata.updated.subsec_nanos),
    };
    let (b_secs, b_nanos) = match &b.metadata.published {
        Some(ts) => (ts.epoch_secs, ts.subsec_nanos),
        None => (b.metadata.updated.epoch_secs, b.metadata.updated.subsec_nanos),
    };
    a_secs > b_secs || (a_secs == b_secs && a_nanos >= b_nanos)
}

/// `insert_desc` places the element at the first position whose key falls
/// below the element's.
proof fn lemma_insert_desc_at(e: Entry, s: Seq<Entry>, pos: int)
    requires
        0 <= pos <= s.len(),
        forall|j: int| 0 <= j < pos ==> key_ge(#[trigger] s[j], e),
        pos < s.len() ==> !key_ge(s[pos], e),
    ensures
        insert_desc(e, s) == s.insert(pos, e),
    decreases s.len(),
{
    if s.len() == 0 {
        assert(insert_desc(e, s) =~= s.insert(0, e));
    } else if pos == 0 {
        assert(!key_ge(s[0], e));
        assert(insert_desc(e, s) =~= s.insert(0, e));
    } else {
        assert(key_ge(s[0], e));
        let t = s.subrange(1, s.len() as int);
        assert forall|j: int| 0 <= j < pos - 1 implies key_ge(#[trigger] t[j], e) by {
            assert(t[j] == s[j + 1]);
        }
        if pos - 1 < t.len() {
            assert(t[pos - 1] == s[pos]);
        }
        lemma_insert_desc_at(e, t, pos - 1);
        assert(insert_desc(e, s) == seq![s[0]] + t.insert(pos - 1, e));
        assert(seq![s[0]] + t.insert(pos - 1, e) =~= s.insert(pos, e));
    }
}

/// Sort the entries into reverse-chronological order with a stable
/// tie-break by input order.
#[verifier::loop_isolation(false)]
#[verifier::rlimit(50)]
pub fn sort_entries(entries: Vec<Entry>) -> (r: Vec<Entry>)
    ensures
        r@ == sort_desc(entries@),
{
    let ghost orig = entries@;
    let mut rest = entries;
    let mut out: Vec<Entry> = Vec::new();
    proof {
        assert(sort_desc(orig.subrange(0, 0)) =~= Seq::<Entry>::empty());
        assert(rest@ =~= orig.subrange(0, orig.len() as int));
    }
    while rest.len() > 0
        invariant
            rest@.len() <= orig.len(),
            rest@ == orig.subrange(orig.len() - rest@.len(), orig.len() as int),
            out@ == sort_desc(orig.subrange(0, orig.len() - rest@.len())),
        decreases rest@.len(),
    {
        let ghost k = orig.len() - rest@.len();
        let e = rest.remove(0);
        proof {
            assert(e == orig[k]);
            assert(rest@ =~= orig.subrange(k + 1, orig.len() as int));
        }
        let mut pos: usize = 0;
        while pos < out.len() && entry_key_ge(&out[pos], &e)
            invariant
                pos <= out@.len(),
                forall|j: int| 0 <= j < pos ==> key_ge(#[trigger] out@[j], e),
            decreases out@.len() - pos,
        {
            pos = pos + 1;
        }
        proof {
            lemma_insert_desc_at(e, out@, pos as int);
            assert(orig.subrange(0, k + 1).drop_last() =~= orig.subrange(0, k));
            assert(orig.subrange(0, k + 1).last() == orig[k]);
        }
        out.insert(pos, e);
    }
    proof {
        assert(orig.subrange(0, orig.len() as int) =~= orig);
    }
    out
}

/// Sorting introduces no entry that was not loaded; in particular, a feed
/// built from draft-free entries stays draft-free.
pub proof fn lemma_no_drafts_survive_sort(entries: Seq<Entry>)
    requires
        forall|k: int| 0 <= k < entries.len() ==> !(#[trigger] entries[k]).metadata.draft,
    ensures
        forall|k: int|
            0 <= k < sort_desc(entries).len() ==> !(#[trigger] sort_desc(entries)[k]).metadata.draft,
{
    lemma_sort_desc_members(entries);
    assert forall|k: int|
        0 <= k < sort_desc(entries).len() implies !(#[trigger] sort_desc(
        entries,
    )[k]).metadata.draft by {
        let x = sort_desc(entries)[k];
        assert(sort_desc(entries).contains(x));
        assert(entries.contains(x));
        let i = choose|i: int| 0 <= i < entries.len() && entries[i] == x;
        assert(!entries[i].metadata.draft);
    }
}

/// Determinism: every stage of the pipeline pins its result as a function
/// of its inputs, so two builds over byte-identical input agree. This
/// records it for the two derived quantities, the entry ordering and the
/// computed locations.
pub proof fn lemma_build_deterministic(
    s1: Seq<Entry>,
    s2: Seq<Entry>,
    base1: Seq<char>,
    base2: Seq<char>,
    rendered1: Seq<char>,
    rendered2: Seq<char>,
)
    requires
        s1 == s2,
        base1 == base2,
        rendered1 == rendered2,
    ensures
        sort_desc(s1) == sort_desc(s2),
        location_model(base1, rendered1) == location_model(base2, rendered2),
{
}

/// Clone an optional string, keeping the value.
fn clone_opt_string(o: &Option<String>) -> (r: Option<String>)
    ensures
        r == *o,
{
    match o {
        Some(s) => Some(s.clone()),
        None => None,
    }
}

/// The update time of the most recently updated entry, or `None` when there
/// are no entries. Among equally recent entries the last one wins.
fn latest_updated(entries: &Vec<Entry>) -> (r: Option<Timestamp>)
    ensures
        match r {
            Some(ts) => entries@.len() > 0 && (exists|k: int|
                0 <= k < entries@.len() && ts_like(ts, entries@[k].metadata.updated)) && (forall|
                k: int,
            |
                0 <= k < entries@.len() ==> instant_le(
                    (#[trigger] entries@[k]).metadata.updated,
                    ts,
                )),
            None => entries@.len() == 0,
        },
{
    if entries.len() == 0 {
        return None;
    }
    let mut best: usize = 0;
    let mut i: usize = 1;
    while i < entries.len()
        invariant
            best < i <= entries@.len(),
            forall|k: int|
                0 <= k < i ==> instant_le(
                    (#[trigger] entries@[k]).metadata.updated,
                    entries@[best as int].metadata.updated,
                ),
        decreases entries@.len() - i,
    {
        if entries[best].metadata.updated.is_no_later_than(&entries[i].metadata.updated) {
            best = i;
        }
        i = i + 1;
    }
    let ts = entries[best].metadata.updated.clone();
    proof {
        assert(ts_like(ts, entries@[best as int].metadata.updated));
    }
    Some(ts)
}

/// The publication-wide feed model.
#[derive(Debug)]
pub struct Feed {
    /// The capsule base URL, as serialized by the URL parser.
    pub capsule_url: String,
    /// The absolute URL of the feed file.
    pub feed_url: String,
    /// The absolute URL of the index page.
    pub index_url: String,
    pub title: String,
    /// The most recent update time over all entries, or the build time when
    /// there are none.
    pub updated: Timestamp,
    pub subtitle: Option<String>,
    pub rights: Option<String>,
    pub author: Option<FeedAuthor>,
    /// The entries, in reverse-chronological order with a stable tie-break.
    pub entries: Vec<Entry>,
}

impl Feed {
    /// Assemble the feed from the loaded entries: sort them, take the most
    /// recent update time (or `now` for an empty capsule), and resolve the
    /// feed and index URLs against the capsule URL. Fails exactly when one
    /// of those URL resolutions is impossible.
    pub fn from_entries(config: &Config, entries: Vec<Entry>, now: Timestamp) -> (r: Result<
        Feed,
        Error,
    >)
        ensures
            r is Ok <==> (url_with_path(config.url@, config.feed_path@) is Some && url_with_path(
                config.url@,
                config.index_path@,
            ) is Some),
            r matches Ok(f) ==> {
                &&& f.entries@ == sort_desc(entries@)
                &&& f.capsule_url@ == config.url@
                &&& url_with_path(config.url@, config.feed_path@) == Some(f.feed_url@)
                &&& url_with_path(config.url@, config.index_path@) == Some(f.index_url@)
                &&& f.title == config.title
                &&& f.subtitle == config.subtitle
                &&& f.rights == config.rights
                &&& match (f.author, config.author) {
                    (None, None) => true,
                    (Some(a), Some(c)) => a.name == c.name && a.email == c.email && a.uri == c.uri,
                    _ => false,
                }
                &&& (entries@.len() == 0 ==> ts_like(f.updated, now))
                &&& (entries@.len() > 0 ==> (exists|k: int|
                    0 <= k < entries@.len() && ts_like(f.updated, entries@[k].metadata.updated))
                    && (forall|k: int|
                    0 <= k < entries@.len() ==> instant_le(
                        (#[trigger] entries@[k]).metadata.updated,
                        f.updated,
                    )))
            },
            r matches Err(e) ==> e matches Error::InvalidCapsuleUrl { url } && url@ == config.url@,
    {
        let updated = match latest_updated(&entries) {
            Some(ts) => ts,
            None => now,
        };
        let sorted = sort_entries(entries);
        let feed_url = match set_url_path(config.url.as_str(), config.feed_path.as_str()) {
            Some(u) => u,
            None => {
                return Err(Error::InvalidCapsuleUrl { url: config.url.clone() });
            },
        };
        let index_url = match set_url_path(config.url.as_str(), config.index_path.as_str()) {
            Some(u) => u,
            None => {
                return Err(Error::InvalidCapsuleUrl { url: config.url.clone() });
            },
        };
        let author = match &config.author {
            Some(a) => Some(
                FeedAuthor {
                    name: a.name.clone(),
                    email: clone_opt_string(&a.email),
                    uri: clone_opt_string(&a.uri),
                },
            ),
            None => None,
        };
        Ok(
            Feed {
                capsule_url: config.url.clone(),
                feed_url,
                index_url,
                title: config.title.clone(),
                updated,
                subtitle: clone_opt_string(&config.subtitle),
                rights: clone_opt_string(&config.rights),
                author,
                entries: sorted,
            },
        )
    }

    /// Assemble the feed with the current time as the fallback update time
    /// for an empty capsule.
    pub fn assemble(config: &Config, entries: Vec<Entry>) -> (r: Result<Feed, Error>)
        ensures
            r is Ok <==> (url_with_path(config.url@, config.feed_path@) is Some && url_with_path(
                config.url@,
                config.index_path@,
            ) is Some),
            r matches Ok(f) ==> {
                &&& f.entries@ == sort_desc(entries@)
                &&& f.capsule_url@ == config.url@
                &&& url_with_path(config.url@, config.feed_path@) == Some(f.feed_url@)
                &&& url_with_path(config.url@, config.index_path@) == Some(f.index_url@)
                &&& f.title == config.title
                &&& f.subtitle == config.subtitle
                &&& f.rights == config.rights
                &&& match (f.author, config.author) {
                    (None, None) => true,
                    (Some(a), Some(c)) => a.name == c.name && a.email == c.email && a.uri == c.uri,
                    _ => false,
                }
                &&& (entries@.len() > 0 ==> (exists|k: int|
                    0 <= k < entries@.len() && ts_like(f.updated, entries@[k].metadata.updated))
                    && (forall|k: int|
                    0 <= k < entries@.len() ==> instant_le(
                        (#[trigger] entries@[k]).metadata.updated,
                        f.updated,
                    )))
            },
            r matches Err(e) ==> e matches Error::InvalidCapsuleUrl { url } && url@ == config.url@,
    {
        let now = now_timestamp();
        Feed::from_entries(config, entries, now)
    }
}

} // verus!

