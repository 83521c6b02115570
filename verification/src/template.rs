//! Template projections: the path-template data rendered into each entry's
//! location, and the template-ready views of entries and of the whole feed
//! that the render step consumes.
use vstd::prelude::*;
use crate::entry::{AuthorMetadata, Entry};
use crate::error::Error;
use crate::feed::{Feed, FeedAuthor};
use crate::text::{dec_digits, dec_int, pad_zeros, zero_padded_i32, zero_padded_u32};
use crate::time::Timestamp;

verus! {

/// The inputs of a post path computation: the slug and, when the entry has
/// one, its publish date.
#[derive(Debug)]
pub struct PostPathParams {
    pub slug: String,
    pub published: Option<Timestamp>,
}

/// The values substituted into the post path template.
#[derive(Debug)]
pub struct PostPathTemplateData {
    /// Zero-padded year of the publish date, or empty without one.
    pub year: String,
    /// Zero-padded month of the publish date, or empty without one.
    pub month: String,
    /// Zero-padded day of the publish date, or empty without one.
    pub day: String,
    pub slug: String,
}

impl PostPathTemplateData {
    /// The template values for `params`: the date fields are zero-padded
    /// decimal renderings of the publish date, or empty strings when no
    /// publish date exists.
    pub fn from_params(params: PostPathParams) -> (r: Self)
        ensures
            r.slug@ == params.slug@,
            match params.published {
                Some(ts) => r.year@ == pad_zeros(dec_int(ts.year as int), 4) && r.month@
                    == pad_zeros(dec_digits(ts.month as int), 2) && r.day@ == pad_zeros(
                    dec_digits(ts.day as int),
                    2,
                ),
                None => r.year@ == Seq::<char>::empty() && r.month@ == Seq::<char>::empty()
                    && r.day@ == Seq::<char>::empty(),
            },
    {
        match params.published {
            Some(ts) => PostPathTemplateData {
                year: zero_padded_i32(ts.year, 4),
                month: zero_padded_u32(ts.month, 2),
                day: zero_padded_u32(ts.day, 2),
                slug: params.slug,
            },
            None => PostPathTemplateData {
                year: String::new(),
                month: String::new(),
                day: String::new(),
                slug: params.slug,
            },
        }
    }

    /// Render the post path template with these values. A failure reports
    /// the template itself, so the user is pointed at the config value to
    /// fix.
    pub fn render(&self, template: &str) -> (r: Result<String, Error>)
        ensures
            r matches Err(e) ==> e matches Error::InvalidPostPath { template: t, reason: _ }
                && t@ == template@,
    {
        match render_path_template(
            template,
            self.year.as_str(),
            self.month.as_str(),
            self.day.as_str(),
            self.slug.as_str(),
        ) {
            Ok(path) => Ok(path),
            Err(reason) => Err(
                Error::InvalidPostPath { template: String::from_str(template), reason },
            ),
        }
    }
}

/// Relies on tera: registers `template` as the sole template of a fresh
/// engine and renders it with `year`, `month`, `day` and `slug` bound.
/// A tera template may consult the process environment (`get_env`), so
/// nothing is claimed of the outcome.
#[verifier::external_body]
fn render_path_template(template: &str, year: &str, month: &str, day: &str, slug: &str) -> (r:
    Result<String, String>)
{
    let mut tera = tera::Tera::default();
    if let Err(err) = tera.add_raw_template("path", template) {
        return Err(err.to_string());
    }
    let mut context = tera::Context::new();
    context.insert("year", year);
    context.insert("month", month);
    context.insert("day", day);
    context.insert("slug", slug);
    tera.render("path", &context).map_err(|err| err.to_string())
}

/// An entry's author, as handed to templates.
#[derive(Debug)]
pub struct EntryAuthorTemplateData {
    pub name: String,
    pub email: Option<String>,
    pub uri: Option<String>,
}

impl EntryAuthorTemplateData {
    /// The template view of an entry author.
    pub fn from_author(value: AuthorMetadata) -> (r: Self)
        ensures
            r.name == value.name,
            r.email == value.email,
            r.uri == value.uri,
    {
        EntryAuthorTemplateData { name: value.name, email: value.email, uri: value.uri }
    }
}

/// One entry, as handed to templates: timestamps already rendered in their
/// canonical RFC 3339 form.
#[derive(Debug)]
pub struct EntryTemplateData {
    pub id: String,
    pub url: String,
    pub title: String,
    pub body: String,
    pub updated: String,
    pub summary: Option<String>,
    pub published: Option<String>,
    pub author: Option<EntryAuthorTemplateData>,
    pub rights: Option<String>,
    pub lang: Option<String>,
    pub categories: Vec<String>,
}

/// Whether `d` is the template view of the entry `e`.
pub open spec fn entry_data_of(d: EntryTemplateData, e: Entry) -> bool {
    &&& d.id == e.metadata.id
    &&& d.url == e.url
    &&& d.title == e.metadata.title
    &&& d.body == e.body
    &&& d.updated == e.metadata.updated.rfc3339
    &&& d.summary == e.metadata.summary
    &&& match (d.published, e.metadata.published) {
        (None, None) => true,
        (Some(p), Some(ts)) => p == ts.rfc3339,
        _ => false,
    }
    &&& match (d.author, e.metadata.author) {
        (None, None) => true,
        (Some(a), Some(m)) => a.name == m.name && a.email == m.email && a.uri == m.uri,
        _ => false,
    }
    &&& d.rights == e.metadata.rights
    &&& d.lang == e.metadata.lang
    &&& d.categories == e.metadata.categories
}

impl EntryTemplateData {
    /// The template view of one entry.
    pub fn from_entry(e: Entry) -> (r: Self)
        ensures
            entry_data_of(r, e),
    {
        let Entry { metadata, body, url, path: _ } = e;
        EntryTemplateData {
            id: metadata.id,
            url,
            title: metadata.title,
            body,
            updated: metadata.updated.rfc3339,
            summary: metadata.summary,
            published: match metadata.published {
                Some(ts) => Some(ts.rfc3339),
                None => None,
            },
            author: match metadata.author {
                Some(a) => Some(EntryAuthorTemplateData::from_author(a)),
                None => None,
            },
            rights: metadata.rights,
            lang: metadata.lang,
            categories: metadata.categories,
        }
    }
}

/// The feed's author, as handed to templates.
#[derive(Debug)]
pub struct FeedAuthorTemplateData {
    pub name: String,
    pub email: Option<String>,
    pub uri: Option<String>,
}

impl FeedAuthorTemplateData {
    /// The template view of the feed author.
    pub fn from_author(value: FeedAuthor) -> (r: Self)
        ensures
            r.name == value.name,
            r.email == value.email,
            r.uri == value.uri,
    {
        FeedAuthorTemplateData { name: value.name, email: value.email, uri: value.uri }
    }
}

/// The whole feed, as handed to the index and feed templates.
#[derive(Debug)]
pub struct FeedTemplateData {
    pub capsule_url: String,
    pub feed_url: String,
    pub index_url: String,
    pub title: String,
    pub updated: String,
    pub subtitle: Option<String>,
    pub rights: Option<String>,
    pub author: Option<FeedAuthorTemplateData>,
    pub entries: Vec<EntryTemplateData>,
}

/// Whether `d` is the template view of the feed `f`.
pub open spec fn feed_data_of(d: FeedTemplateData, f: Feed) -> bool {
    &&& d.capsule_url == f.capsule_url
    &&& d.feed_url == f.feed_url
    &&& d.index_url == f.index_url
    &&& d.title == f.title
    &&& d.updated == f.updated.rfc3339
    &&& d.subtitle == f.subtitle
    &&& d.rights == f.rights
    &&& match (d.author, f.author) {
        (None, None) => true,
        (Some(a), Some(m)) => a.name == m.name && a.email == m.email && a.uri == m.uri,
        _ => false,
    }
    &&& d.entries@.len() == f.entries@.len()
    &&& forall|i: int|
        0 <= i < f.entries@.len() ==> entry_data_of(#[trigger] d.entries@[i], f.entries@[i])
}

impl FeedTemplateData {
    /// The template view of the whole feed.
    #[verifier::loop_isolation(false)]
    pub fn from_feed(f: Feed) -> (r: Self)
        ensures
            feed_data_of(r, f),
    {
        let Feed {
            capsule_url,
            feed_url,
            index_url,
            title,
            updated,
            subtitle,
            rights,
            author,
            entries,
        } = f;
        let ghost orig = entries@;
        let mut rest = entries;
        let mut entry_data: Vec<EntryTemplateData> = Vec::new();
        proof {
            assert(rest@ =~= orig.subrange(0, orig.len() as int));
        }
        while rest.len() > 0
            invariant
                rest@.len() <= orig.len(),
                rest@ == orig.subrange(orig.len() - rest@.len(), orig.len() as int),
                entry_data@.len() == orig.len() - rest@.len(),
                forall|i: int|
                    0 <= i < entry_data@.len() ==> entry_data_of(
                        #[trigger] entry_data@[i],
                        orig[i],
                    ),
            decreases rest@.len(),
        {
            let ghost k = orig.len() - rest@.len();
            let e = rest.remove(0);
            proof {
                assert(e == orig[k]);
                assert(rest@ =~= orig.subrange(k + 1, orig.len() as int));
            }
            entry_data.push(EntryTemplateData::from_entry(e));
        }
        FeedTemplateData {
            capsule_url,
            feed_url,
            index_url,
            title,
            updated: updated.rfc3339,
            subtitle,
            rights,
            author: match author {
                Some(a) => Some(FeedAuthorTemplateData::from_author(a)),
                None => None,
            },
            entries: entry_data,
        }
    }
}

} // verus!
