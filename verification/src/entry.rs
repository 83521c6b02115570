//! Entry metadata: extraction and validation of the metadata sidecar
//! document, and the loaded entries the feed is aggregated from.
use vstd::prelude::*;
use crate::error::Error;
use crate::text::{lemma_filter_push, str_eq, views_of};
use crate::time::{parse_rfc3339, rfc3339_parse, ts_parsed_from, Timestamp};
use crate::value::{is_str_key, lookup, map_lookup, MetaValue};

verus! {

/// Author details attached to a single entry.
#[derive(Debug)]
pub struct AuthorMetadata {
    pub name: String,
    pub email: Option<String>,
    pub uri: Option<String>,
}

/// The validated metadata of one entry.
#[derive(Debug)]
pub struct EntryMetadata {
    /// Stable identifier of the entry.
    pub id: String,
    pub title: String,
    /// When the entry was last updated; always present.
    pub updated: Timestamp,
    pub summary: Option<String>,
    /// When the entry was published, if it has been.
    pub published: Option<Timestamp>,
    pub author: Option<AuthorMetadata>,
    pub rights: Option<String>,
    pub lang: Option<String>,
    pub categories: Vec<String>,
    /// Whether the entry is excluded from publication.
    pub draft: bool,
    /// Sidecar fields outside the fixed schema, in their document order.
    pub extra_values: Vec<(MetaValue, MetaValue)>,
}

/// One source pair as read from the posts directory: the two paths, the
/// body text, and the parsed sidecar document.
#[derive(Debug)]
pub struct EntrySource {
    /// Path of the gemtext body file.
    pub gemtext_path: String,
    /// Path of the metadata sidecar.
    pub metadata_path: String,
    /// The body file's text.
    pub body: String,
    /// The sidecar document, parsed but not yet validated.
    pub metadata: MetaValue,
}

/// The resolved URL and output path of one post.
#[derive(Debug)]
pub struct PostLocation {
    /// The absolute URL of the post, as a serialized URL.
    pub url: String,
    /// The output path of the post, relative to the public directory.
    pub path: String,
}

/// One published entry: validated metadata, body text, and location.
#[derive(Debug)]
pub struct Entry {
    pub metadata: EntryMetadata,
    pub body: String,
    /// The absolute URL of the entry, as a serialized URL.
    pub url: String,
    /// The output path of the entry, relative to the public directory.
    pub path: String,
}

/// Whether the document marks its entry as a draft.
pub open spec fn is_draft_doc(v: MetaValue) -> bool {
    match v {
        MetaValue::Mapping(pairs_vec) => field_bool(pairs_vec@, "draft"@) == Some(true),
        _ => false,
    }
}

/// Whether a source is kept for publication, as a predicate value.
pub open spec fn kept_src_pred() -> spec_fn(EntrySource) -> bool {
    |s: EntrySource| !is_draft_doc(s.metadata)
}

/// The sources that are not drafts, in order.
pub open spec fn kept_sources(srcs: Seq<EntrySource>) -> Seq<EntrySource> {
    srcs.filter(kept_src_pred())
}

/// The string content of `v`, when `v` is a string.
pub open spec fn str_of(v: MetaValue) -> Option<Seq<char>> {
    match v {
        MetaValue::Str(s) => Some(s@),
        _ => None,
    }
}

/// Whether the field `key` is absent, where an explicit null counts as
/// absent.
pub open spec fn field_absent(pairs: Seq<(MetaValue, MetaValue)>, key: Seq<char>) -> bool {
    match map_lookup(pairs, key) {
        None => true,
        Some(MetaValue::Null) => true,
        _ => false,
    }
}

/// The string under `key`, when the field is present and a string.
pub open spec fn field_str(pairs: Seq<(MetaValue, MetaValue)>, key: Seq<char>) -> Option<
    Seq<char>,
> {
    match map_lookup(pairs, key) {
        Some(MetaValue::Str(s)) => Some(s@),
        _ => None,
    }
}

/// The boolean under `key`, when the field is present and a boolean.
pub open spec fn field_bool(pairs: Seq<(MetaValue, MetaValue)>, key: Seq<char>) -> Option<bool> {
    match map_lookup(pairs, key) {
        Some(MetaValue::Bool(b)) => Some(b),
        _ => None,
    }
}

/// Whether the optional field `key` is absent or a string.
pub open spec fn opt_str_field_ok(pairs: Seq<(MetaValue, MetaValue)>, key: Seq<char>) -> bool {
    field_absent(pairs, key) || field_str(pairs, key) is Some
}

/// Whether the optional field `key` is absent or a boolean.
pub open spec fn opt_bool_field_ok(pairs: Seq<(MetaValue, MetaValue)>, key: Seq<char>) -> bool {
    field_absent(pairs, key) || field_bool(pairs, key) is Some
}

/// Whether every item is a string.
pub open spec fn all_strings(items: Seq<MetaValue>) -> bool {
    forall|i: int| 0 <= i < items.len() ==> str_of(#[trigger] items[i]) is Some
}

/// The string content of `v`, or empty for any other value.
pub open spec fn str_view_of(v: MetaValue) -> Seq<char> {
    match v {
        MetaValue::Str(s) => s@,
        _ => Seq::empty(),
    }
}

/// The string contents of a sequence of string values.
pub open spec fn string_views(items: Seq<MetaValue>) -> Seq<Seq<char>> {
    items.map_values(|v: MetaValue| str_view_of(v))
}

/// Whether the `categories` field is absent or a list of strings.
pub open spec fn categories_ok(pairs: Seq<(MetaValue, MetaValue)>) -> bool {
    match map_lookup(pairs, "categories"@) {
        None => true,
        Some(MetaValue::Null) => true,
        Some(MetaValue::List(items)) => all_strings(items@),
        _ => false,
    }
}

/// The category names, with an absent field reading as the empty list.
pub open spec fn categories_of(pairs: Seq<(MetaValue, MetaValue)>) -> Seq<Seq<char>> {
    match map_lookup(pairs, "categories"@) {
        Some(MetaValue::List(items)) => string_views(items@),
        _ => Seq::empty(),
    }
}

/// Whether the `author` field is absent or a mapping with a string `name`
/// and optional string `email` and `uri`.
pub open spec fn author_field_ok(pairs: Seq<(MetaValue, MetaValue)>) -> bool {
    match map_lookup(pairs, "author"@) {
        None => true,
        Some(MetaValue::Null) => true,
        Some(MetaValue::Mapping(ap)) => field_str(ap@, "name"@) is Some && opt_str_field_ok(
            ap@,
            "email"@,
        ) && opt_str_field_ok(ap@, "uri"@),
        _ => false,
    }
}

/// Whether `a` holds the author details of the `author` field of `pairs`.
pub open spec fn author_matches(a: Option<AuthorMetadata>, pairs: Seq<(MetaValue, MetaValue)>)
    -> bool {
    match a {
        None => field_absent(pairs, "author"@),
        Some(am) => match map_lookup(pairs, "author"@) {
            Some(MetaValue::Mapping(ap)) => {
                &&& field_str(ap@, "name"@) == Some(am.name@)
                &&& match am.email {
                    Some(e) => field_str(ap@, "email"@) == Some(e@),
                    None => field_absent(ap@, "email"@),
                }
                &&& match am.uri {
                    Some(u) => field_str(ap@, "uri"@) == Some(u@),
                    None => field_absent(ap@, "uri"@),
                }
            },
            _ => false,
        },
    }
}

/// Whether `v` is a well-formed metadata document: a mapping with string
/// `id` and `title`, a parsable `updated` time, a parsable `published` time
/// if one is present, and correctly typed optional fields.
pub open spec fn wf_metadata(v: MetaValue) -> bool {
    match v {
        MetaValue::Mapping(pairs_vec) => {
            let pairs = pairs_vec@;
            &&& field_str(pairs, "id"@) is Some
            &&& field_str(pairs, "title"@) is Some
            &&& (field_str(pairs, "updated"@) matches Some(u) && rfc3339_parse(u) is Some)
            &&& opt_str_field_ok(pairs, "summary"@)
            &&& (field_absent(pairs, "published"@) || (field_str(pairs, "published"@)
                matches Some(p) && rfc3339_parse(p) is Some))
            &&& author_field_ok(pairs)
            &&& opt_str_field_ok(pairs, "rights"@)
            &&& opt_str_field_ok(pairs, "lang"@)
            &&& categories_ok(pairs)
            &&& opt_bool_field_ok(pairs, "draft"@)
        },
        _ => false,
    }
}

/// The reason reported for the first failing validation check of `v`.
pub open spec fn metadata_failure_reason(v: MetaValue) -> Seq<char> {
    match v {
        MetaValue::Mapping(pairs_vec) => {
            let pairs = pairs_vec@;
            if !(field_str(pairs, "id"@) is Some) {
                "The post metadata must have a string `id`."@
            } else if !(field_str(pairs, "title"@) is Some) {
                "The post metadata must have a string `title`."@
            } else if !(field_str(pairs, "updated"@) is Some) {
                "The post metadata must have a string `updated` time."@
            } else if rfc3339_parse(field_str(pairs, "updated"@) -> Some_0) is None {
                "The post `updated` time must be in RFC 3339 format (e.g. 2006-01-02T15:04:05Z07:00)."@
            } else if !opt_str_field_ok(pairs, "summary"@) {
                "The post `summary` must be a string."@
            } else if !(field_absent(pairs, "published"@) || field_str(pairs, "published"@)
                is Some) {
                "The post `published` time must be a string."@
            } else if !field_absent(pairs, "published"@) && rfc3339_parse(
                field_str(pairs, "published"@) -> Some_0,
            ) is None {
                "The post `published` time must be in RFC 3339 format (e.g. 2006-01-02T15:04:05Z07:00)."@
            } else if !author_field_ok(pairs) {
                "The post `author` must have a string `name` and optional string `email` and `uri`."@
            } else if !opt_str_field_ok(pairs, "rights"@) {
                "The post `rights` must be a string."@
            } else if !opt_str_field_ok(pairs, "lang"@) {
                "The post `lang` must be a string."@
            } else if !categories_ok(pairs) {
                "The post `categories` must be a list of strings."@
            } else {
                "The post `draft` flag must be a boolean."@
            }
        },
        _ => "The post metadata must be a key/value document."@,
    }
}

/// A malformed `updated` time is fatal: in a document whose `id` and
/// `title` are in place, an `updated` string that the RFC 3339 parser
/// rejects makes the document ill-formed, and the reported reason is
/// exactly the format message with its concrete example. Together with
/// `EntryMetadata::from_value`'s contract, such a sidecar always yields an
/// `InvalidMetadataFile` error naming its path and carrying this reason.
pub proof fn lemma_malformed_updated_is_fatal(v: MetaValue)
    ensures
        (match v {
            MetaValue::Mapping(pairs_vec) => {
                let pairs = pairs_vec@;
                &&& field_str(pairs, "id"@) is Some
                &&& field_str(pairs, "title"@) is Some
                &&& (field_str(pairs, "updated"@) matches Some(u) && rfc3339_parse(u) is None)
            },
            _ => false,
        }) ==> (!wf_metadata(v) && metadata_failure_reason(v)
            == "The post `updated` time must be in RFC 3339 format (e.g. 2006-01-02T15:04:05Z07:00)."@),
{
}

/// Whether the key of a sidecar pair is one of the fixed schema fields.
pub open spec fn is_fixed_key(k: MetaValue) -> bool {
    ||| is_str_key(k, "id"@)
    ||| is_str_key(k, "title"@)
    ||| is_str_key(k, "updated"@)
    ||| is_str_key(k, "summary"@)
    ||| is_str_key(k, "published"@)
    ||| is_str_key(k, "author"@)
    ||| is_str_key(k, "rights"@)
    ||| is_str_key(k, "lang"@)
    ||| is_str_key(k, "categories"@)
    ||| is_str_key(k, "draft"@)
    ||| is_str_key(k, "extra_variables"@)
}

/// Whether a sidecar pair is outside the fixed schema, as a predicate value.
pub open spec fn extra_pred() -> spec_fn((MetaValue, MetaValue)) -> bool {
    |p: (MetaValue, MetaValue)| !is_fixed_key(p.0)
}

/// Whether `m` holds exactly what the well-formed document `v` says.
pub open spec fn metadata_matches(m: EntryMetadata, v: MetaValue) -> bool {
    match v {
        MetaValue::Mapping(pairs_vec) => {
            let pairs = pairs_vec@;
            &&& field_str(pairs, "id"@) == Some(m.id@)
            &&& field_str(pairs, "title"@) == Some(m.title@)
            &&& (field_str(pairs, "updated"@) matches Some(u) && ts_parsed_from(m.updated, u))
            &&& match m.summary {
                Some(s) => field_str(pairs, "summary"@) == Some(s@),
                None => field_absent(pairs, "summary"@),
            }
            &&& match m.published {
                Some(ts) => field_str(pairs, "published"@) matches Some(p) && ts_parsed_from(
                    ts,
                    p,
                ),
                None => field_absent(pairs, "published"@),
            }
            &&& author_matches(m.author, pairs)
            &&& match m.rights {
                Some(s) => field_str(pairs, "rights"@) == Some(s@),
                None => field_absent(pairs, "rights"@),
            }
            &&& match m.lang {
                Some(s) => field_str(pairs, "lang"@) == Some(s@),
                None => field_absent(pairs, "lang"@),
            }
            &&& views_of(m.categories@) == categories_of(pairs)
            &&& m.draft == match field_bool(pairs, "draft"@) {
                Some(b) => b,
                None => false,
            }
            &&& m.extra_values@ == pairs.filter(extra_pred())
        },
        _ => false,
    }
}

/// The string under `key`, cloned out, when the field is present and a
/// string.
fn get_str_field(pairs: &Vec<(MetaValue, MetaValue)>, key: &str) -> (r: Option<String>)
    ensures
        match r {
            Some(s) => field_str(pairs@, key@) == Some(s@),
            None => field_str(pairs@, key@) is None,
        },
{
    match lookup(pairs, key) {
        Some(MetaValue::Str(s)) => Some(s.clone()),
        _ => None,
    }
}

/// Whether the field `key` is absent (or an explicit null).
fn field_is_absent(pairs: &Vec<(MetaValue, MetaValue)>, key: &str) -> (r: bool)
    ensures
        r == field_absent(pairs@, key@),
{
    match lookup(pairs, key) {
        None => true,
        Some(MetaValue::Null) => true,
        _ => false,
    }
}

/// The boolean under `key`, when the field is present and a boolean.
fn get_bool_field(pairs: &Vec<(MetaValue, MetaValue)>, key: &str) -> (r: Option<bool>)
    ensures
        match r {
            Some(b) => field_bool(pairs@, key@) == Some(b),
            None => field_bool(pairs@, key@) is None,
        },
{
    match lookup(pairs, key) {
        Some(MetaValue::Bool(b)) => Some(*b),
        _ => None,
    }
}

/// The metadata-file error for `path` with the given reason text.
fn invalid_metadata(path: &str, reason: &str) -> (r: Error)
    ensures
        r matches Error::InvalidMetadataFile { path: p, reason: re } && p@ == path@ && re@
            == reason@,
{
    Error::InvalidMetadataFile {
        path: String::from_str(path),
        reason: String::from_str(reason),
    }
}

/// Whether `k` is a string key of the fixed schema.
fn key_is_fixed(k: &MetaValue) -> (r: bool)
    ensures
        r == is_fixed_key(*k),
{
    match k {
        MetaValue::Str(s) => {
            str_eq(s.as_str(), "id") || str_eq(s.as_str(), "title") || str_eq(
                s.as_str(),
                "updated",
            ) || str_eq(s.as_str(), "summary") || str_eq(s.as_str(), "published") || str_eq(
                s.as_str(),
                "author",
            ) || str_eq(s.as_str(), "rights") || str_eq(s.as_str(), "lang") || str_eq(
                s.as_str(),
                "categories",
            ) || str_eq(s.as_str(), "draft") || str_eq(s.as_str(), "extra_variables")
        },
        _ => false,
    }
}

impl EntryMetadata {
    /// Validate the metadata document `value` and read it into an
    /// `EntryMetadata`. Succeeds exactly on well-formed documents; a failure
    /// is attributed to the sidecar at `path` and cites the first failing
    /// check.
    #[verifier::loop_isolation(false)]
    pub fn from_value(value: MetaValue, path: &str) -> (r: Result<EntryMetadata, Error>)
        ensures
            r is Ok <==> wf_metadata(value),
            r matches Ok(m) ==> metadata_matches(m, value),
            r matches Err(e) ==> e matches Error::InvalidMetadataFile { path: p, reason } && p@
                == path@ && reason@ == metadata_failure_reason(value),
    {
        let pairs_vec = match value {
            MetaValue::Mapping(p) => p,
            _ => {
                return Err(
                    invalid_metadata(path, "The post metadata must be a key/value document."),
                );
            },
        };
        proof {
            assert(value == MetaValue::Mapping(pairs_vec));
        }
        let id = match get_str_field(&pairs_vec, "id") {
            Some(s) => s,
            None => {
                return Err(invalid_metadata(path, "The post metadata must have a string `id`."));
            },
        };
        let title = match get_str_field(&pairs_vec, "title") {
            Some(s) => s,
            None => {
                return Err(
                    invalid_metadata(path, "The post metadata must have a string `title`."),
                );
            },
        };
        let updated_str = match get_str_field(&pairs_vec, "updated") {
            Some(s) => s,
            None => {
                return Err(
                    invalid_metadata(path, "The post metadata must have a string `updated` time."),
                );
            },
        };
        let updated = match parse_rfc3339(updated_str.as_str()) {
            Some(ts) => ts,
            None => {
                return Err(
                    invalid_metadata(
                        path,
                        "The post `updated` time must be in RFC 3339 format (e.g. 2006-01-02T15:04:05Z07:00).",
                    ),
                );
            },
        };
        let summary = if field_is_absent(&pairs_vec, "summary") {
            None
        } else {
            match get_str_field(&pairs_vec, "summary") {
                Some(s) => Some(s),
                None => {
                    return Err(invalid_metadata(path, "The post `summary` must be a string."));
                },
            }
        };
        let published = if field_is_absent(&pairs_vec, "published") {
            None
        } else {
            let p = match get_str_field(&pairs_vec, "published") {
                Some(s) => s,
                None => {
                    return Err(
                        invalid_metadata(path, "The post `published` time must be a string."),
                    );
                },
            };
            match parse_rfc3339(p.as_str()) {
                Some(ts) => Some(ts),
                None => {
                    return Err(
                        invalid_metadata(
                            path,
                            "The post `published` time must be in RFC 3339 format (e.g. 2006-01-02T15:04:05Z07:00).",
                        ),
                    );
                },
            }
        };
        let author = match lookup(&pairs_vec, "author") {
            None => None,
            Some(v) => {
                proof {
                    assert(map_lookup(pairs_vec@, "author"@) == Some(*v));
                }
                match v {
                    MetaValue::Null => None,
                    MetaValue::Mapping(ap) => {
                        proof {
                            assert(*v == MetaValue::Mapping(*ap));
                        }
                        let name = match get_str_field(ap, "name") {
                            Some(s) => s,
                            None => {
                                return Err(
                                    invalid_metadata(
                                        path,
                                        "The post `author` must have a string `name` and optional string `email` and `uri`.",
                                    ),
                                );
                            },
                        };
                        let email = if field_is_absent(ap, "email") {
                            None
                        } else {
                            match get_str_field(ap, "email") {
                                Some(s) => Some(s),
                                None => {
                                    return Err(
                                        invalid_metadata(
                                            path,
                                            "The post `author` must have a string `name` and optional string `email` and `uri`.",
                                        ),
                                    );
                                },
                            }
                        };
                        let uri = if field_is_absent(ap, "uri") {
                            None
                        } else {
                            match get_str_field(ap, "uri") {
                                Some(s) => Some(s),
                                None => {
                                    return Err(
                                        invalid_metadata(
                                            path,
                                            "The post `author` must have a string `name` and optional string `email` and `uri`.",
                                        ),
                                    );
                                },
                            }
                        };
                        Some(AuthorMetadata { name, email, uri })
                    },
                    _ => {
                        return Err(
                            invalid_metadata(
                                path,
                                "The post `author` must have a string `name` and optional string `email` and `uri`.",
                            ),
                        );
                    },
                }
            },
        };
        let rights = if field_is_absent(&pairs_vec, "rights") {
            None
        } else {
            match get_str_field(&pairs_vec, "rights") {
                Some(s) => Some(s),
                None => {
                    return Err(invalid_metadata(path, "The post `rights` must be a string."));
                },
            }
        };
        let lang = if field_is_absent(&pairs_vec, "lang") {
            None
        } else {
            match get_str_field(&pairs_vec, "lang") {
                Some(s) => Some(s),
                None => {
                    return Err(invalid_metadata(path, "The post `lang` must be a string."));
                },
            }
        };
        let categories = if field_is_absent(&pairs_vec, "categories") {
            let empty_cats: Vec<String> = Vec::new();
            proof {
                assert(views_of(empty_cats@) =~= categories_of(pairs_vec@));
            }
            empty_cats
        } else {
            match lookup(&pairs_vec, "categories") {
                Some(v) => {
                    proof {
                        assert(map_lookup(pairs_vec@, "categories"@) == Some(*v));
                    }
                    match v {
                        MetaValue::List(items) => {
                            proof {
                                assert(*v == MetaValue::List(*items));
                            }
                            let mut cats: Vec<String> = Vec::new();
                            let mut i: usize = 0;
                            proof {
                                assert(views_of(cats@) =~= string_views(
                                    items@.subrange(0, 0),
                                ));
                            }
                            while i < items.len()
                                invariant
                                    i <= items@.len(),
                                    forall|k: int|
                                        0 <= k < i ==> str_of(#[trigger] items@[k]) is Some,
                                    views_of(cats@) == string_views(
                                        items@.subrange(0, i as int),
                                    ),
                                decreases items@.len() - i,
                            {
                                match &items[i] {
                                    MetaValue::Str(s) => {
                                        let ghost prev = cats@;
                                        let c = s.clone();
                                        cats.push(c);
                                        proof {
                                            assert(items@[i as int] == MetaValue::Str(*s));
                                            assert(cats@ == prev.push(c));
                                            assert(prev.len() == i as int);
                                            assert forall|j: int|
                                                0 <= j < views_of(cats@).len() implies views_of(
                                                cats@,
                                            )[j] == string_views(items@.subrange(0, i + 1))[j] by {
                                                assert(cats@[j] == prev.push(c)[j]);
                                                if j < i {
                                                    assert(views_of(prev)[j] == string_views(
                                                        items@.subrange(0, i as int),
                                                    )[j]);
                                                    assert(items@.subrange(0, i as int)[j]
                                                        == items@[j]);
                                                } else {
                                                    assert(cats@[j] == c);
                                                }
                                                assert(items@.subrange(0, i + 1)[j] == items@[j]);
                                            }
                                            assert(views_of(cats@)
                                                =~= string_views(items@.subrange(0, i + 1)));
                                        }
                                    },
                                    _ => {
                                        proof {
                                            assert(str_of(items@[i as int]) is None);
                                            assert(!all_strings(items@));
                                            assert(map_lookup(pairs_vec@, "categories"@)
                                                == Some(MetaValue::List(*items)));
                                            assert(!categories_ok(pairs_vec@));
                                        }
                                        return Err(
                                            invalid_metadata(
                                                path,
                                                "The post `categories` must be a list of strings.",
                                            ),
                                        );
                                    },
                                }
                                i = i + 1;
                            }
                            proof {
                                assert(items@.subrange(0, items@.len() as int) =~= items@);
                                assert(views_of(cats@) == categories_of(pairs_vec@));
                            }
                            cats
                        },
                        _ => {
                            return Err(
                                invalid_metadata(
                                    path,
                                    "The post `categories` must be a list of strings.",
                                ),
                            );
                        },
                    }
                },
                None => {
                    proof {
                        // Unreachable: an absent field was handled above.
                        assert(false);
                    }
                    Vec::new()
                },
            }
        };
        let draft = if field_is_absent(&pairs_vec, "draft") {
            false
        } else {
            match get_bool_field(&pairs_vec, "draft") {
                Some(b) => b,
                None => {
                    return Err(
                        invalid_metadata(path, "The post `draft` flag must be a boolean."),
                    );
                },
            }
        };

        // Everything outside the fixed schema passes through, in order.
        let ghost orig = pairs_vec@;
        let mut rest = pairs_vec;
        let mut extras: Vec<(MetaValue, MetaValue)> = Vec::new();
        proof {
            assert(orig.subrange(0, 0).filter(extra_pred()) =~= Seq::<(
                MetaValue,
                MetaValue,
            )>::empty());
            assert(rest@ =~= orig.subrange(0, orig.len() as int));
        }
        while rest.len() > 0
            invariant
                rest@.len() <= orig.len(),
                rest@ == orig.subrange(
                    orig.len() - rest@.len(),
                    orig.len() as int,
                ),
                extras@ == orig.subrange(0, orig.len() - rest@.len()).filter(extra_pred()),
            decreases rest@.len(),
        {
            let ghost k = orig.len() - rest@.len();
            let pair = rest.remove(0);
            proof {
                assert(pair == orig[k]);
                assert(rest@ =~= orig.subrange(k + 1, orig.len() as int));
                lemma_filter_push(orig.subrange(0, k), extra_pred(), orig[k]);
                assert(orig.subrange(0, k).push(orig[k]) =~= orig.subrange(0, k + 1));
            }
            if !key_is_fixed(&pair.0) {
                proof {
                    assert(extra_pred()(pair));
                }
                extras.push(pair);
            } else {
                proof {
                    assert(!extra_pred()(pair));
                }
            }
        }
        proof {
            assert(orig.subrange(0, orig.len() as int) =~= orig);
        }

        Ok(
            EntryMetadata {
                id,
                title,
                updated,
                summary,
                published,
                author,
                rights,
                lang,
                categories,
                draft,
                extra_values: extras,
            },
        )
    }
}

} // verus!
