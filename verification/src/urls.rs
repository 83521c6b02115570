//! URL handling. A URL is carried through the pipeline as its serialization;
//! the url crate does the parsing, percent-encoding and re-serialization
//! behind named, deterministic operations.
use vstd::prelude::*;
use crate::text::views_of;

verus! {

/// The serialization of `s` parsed as an absolute URL, or `None` when `s`
/// does not parse as one. Parsing and re-serializing is a pure function of
/// the characters of `s`.
pub uninterp spec fn url_parsed(s: Seq<char>) -> Option<Seq<char>>;

/// The serialization of the URL `u` after appending `seg` as one more path
/// segment (percent-encoding it as needed), or `None` when `u` does not
/// parse or cannot carry path segments (a cannot-be-a-base URL).
pub uninterp spec fn url_with_segment(u: Seq<char>, seg: Seq<char>) -> Option<Seq<char>>;

/// The serialization of the URL `u` with its path replaced by `path`, or
/// `None` when `u` does not parse.
pub uninterp spec fn url_with_path(u: Seq<char>, path: Seq<char>) -> Option<Seq<char>>;

/// Relies on url's `Url::parse` and its serialization (`From<Url> for
/// String`): the parse depends on the characters alone, so its outcome
/// carries the name `url_parsed`.
#[verifier::external_body]
pub fn parse_url(s: &str) -> (r: Option<String>)
    ensures
        match r {
            Some(t) => url_parsed(s@) == Some(t@),
            None => url_parsed(s@) is None,
        },
{
    match url::Url::parse(s) {
        Ok(u) => Some(String::from(u)),
        Err(_) => None,
    }
}

/// Relies on url's `Url::parse`, `Url::path_segments_mut`,
/// `PathSegmentsMut::push` and the URL serialization: appending a path
/// segment depends on the arguments alone, so its outcome carries the name
/// `url_with_segment`.
#[verifier::external_body]
pub fn push_url_segment(u: &str, seg: &str) -> (r: Option<String>)
    ensures
        match r {
            Some(t) => url_with_segment(u@, seg@) == Some(t@),
            None => url_with_segment(u@, seg@) is None,
        },
{
    let mut url = match url::Url::parse(u) {
        Ok(x) => x,
        Err(_) => return None,
    };
    match url.path_segments_mut() {
        Ok(mut segments) => {
            segments.push(seg);
        },
        Err(()) => return None,
    }
    Some(String::from(url))
}

/// Relies on url's `Url::parse`, `Url::set_path` and the URL serialization:
/// replacing the path depends on the arguments alone, so its outcome carries
/// the name `url_with_path`.
#[verifier::external_body]
pub fn set_url_path(u: &str, path: &str) -> (r: Option<String>)
    ensures
        match r {
            Some(t) => url_with_path(u@, path@) == Some(t@),
            None => url_with_path(u@, path@) is None,
        },
{
    let mut url = match url::Url::parse(u) {
        Ok(x) => x,
        Err(_) => return None,
    };
    url.set_path(path);
    Some(String::from(url))
}

/// The serialization of `u` after appending every segment of `segs` in
/// order, or `None` as soon as one append is impossible.
pub open spec fn url_after_segments(u: Seq<char>, segs: Seq<Seq<char>>) -> Option<Seq<char>>
    decreases segs.len(),
{
    if segs.len() == 0 {
        Some(u)
    } else {
        match url_with_segment(u, segs[0]) {
            Some(t) => url_after_segments(t, segs.subrange(1, segs.len() as int)),
            None => None,
        }
    }
}

/// Append every segment of `segs` to the URL `base`, in order.
pub fn push_url_segments(base: &str, segs: &Vec<String>) -> (r: Option<String>)
    ensures
        match r {
            Some(t) => url_after_segments(base@, views_of(segs@)) == Some(t@),
            None => url_after_segments(base@, views_of(segs@)) is None,
        },
{
    let ghost model = views_of(segs@);
    let mut cur = String::from_str(base);
    let mut i: usize = 0;
    proof {
        assert(model.subrange(0, model.len() as int) =~= model);
    }
    while i < segs.len()
        invariant
            i <= segs.len(),
            model == views_of(segs@),
            url_after_segments(base@, model) == url_after_segments(
                cur@,
                model.subrange(i as int, model.len() as int),
            ),
        decreases segs.len() - i,
    {
        let ghost rest = model.subrange(i as int, model.len() as int);
        proof {
            assert(rest[0] == model[i as int]);
            assert(rest.subrange(1, rest.len() as int) =~= model.subrange(
                i + 1,
                model.len() as int,
            ));
        }
        match push_url_segment(cur.as_str(), segs[i].as_str()) {
            Some(next) => {
                cur = next;
            },
            None => {
                return None;
            },
        }
        i = i + 1;
    }
    proof {
        assert(model.subrange(i as int, model.len() as int).len() == 0);
    }
    Some(cur)
}

} // verus!
