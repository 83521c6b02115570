//! Creating a new post: the file names derived from the slug, and the
//! fresh metadata file rendered from the bundled template.
use vstd::prelude::*;

verus! {

/// The body file name for a new post with this slug.
pub fn gemtext_file_name(slug: &str) -> (r: String)
    ensures
        r@ == slug@ + ".gmi"@,
{
    let mut out = String::from_str(slug);
    out.append(".gmi");
    out
}

/// The sidecar file name for a new post with this slug.
pub fn metadata_file_name(slug: &str) -> (r: String)
    ensures
        r@ == slug@ + ".yaml"@,
{
    let mut out = String::from_str(slug);
    out.append(".yaml");
    out
}

/// The URN form of a fresh identifier.
pub fn urn_of(uuid: &str) -> (r: String)
    ensures
        r@ == "urn:uuid:"@ + uuid@,
{
    let mut out = String::from_str("urn:uuid:");
    out.append(uuid);
    out
}

/// Relies on uuid's `Uuid::new_v4` and its hyphenated rendering; the value
/// is random, so nothing is claimed of it.
#[verifier::external_body]
pub fn new_uuid_string() -> String {
    uuid::Uuid::new_v4().to_string()
}

/// Relies on tera: registers `template` as the sole template of a fresh
/// engine and renders it with `id`, `title` and `timestamp` bound. A tera
/// template may consult the process environment (`get_env`), so nothing is
/// claimed of the outcome.
#[verifier::external_body]
fn render_metadata_template(template: &str, id: &str, title: &str, timestamp: &str) -> (r: Result<
    String,
    String,
>)
{
    let mut tera = tera::Tera::default();
    if let Err(err) = tera.add_raw_template("metadata", template) {
        return Err(err.to_string());
    }
    let mut context = tera::Context::new();
    context.insert("id", id);
    context.insert("title", title);
    context.insert("timestamp", timestamp);
    tera.render("metadata", &context).map_err(|err| err.to_string())
}

/// Render a fresh metadata file from the bundled template, with the given
/// identifier and creation time filled in. An absent title renders as the
/// empty string.
pub fn generate_metadata_file(template: &str, title: Option<&str>, id: &str, timestamp: &str) -> (r:
    Result<String, String>)
{
    let title_str = match title {
        Some(t) => t,
        None => "",
    };
    render_metadata_template(template, id, title_str, timestamp)
}

} // verus!
