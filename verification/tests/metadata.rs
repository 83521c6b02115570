//! Validation of the metadata sidecar document.
use gempost::entry::EntryMetadata;
use gempost::error::Error;
use gempost::value::MetaValue;

fn s(text: &str) -> MetaValue {
    MetaValue::Str(text.to_string())
}

fn pair(key: &str, value: MetaValue) -> (MetaValue, MetaValue) {
    (s(key), value)
}

fn minimal_doc() -> Vec<(MetaValue, MetaValue)> {
    vec![
        pair("id", s("urn:uuid:0cb21b73-a6ab-4a43-9e8d-e5ed757a458c")),
        pair("title", s("Hello")),
        pair("updated", s("2024-03-05T12:00:00Z")),
    ]
}

#[test]
fn minimal_document_loads_with_defaults() {
    let m = EntryMetadata::from_value(MetaValue::Mapping(minimal_doc()), "p.yaml").unwrap();
    assert_eq!(m.id, "urn:uuid:0cb21b73-a6ab-4a43-9e8d-e5ed757a458c");
    assert_eq!(m.title, "Hello");
    assert_eq!(m.updated.year, 2024);
    assert_eq!(m.updated.month, 3);
    assert_eq!(m.updated.day, 5);
    assert_eq!(m.updated.epoch_secs, 1709640000);
    assert_eq!(m.updated.subsec_nanos, 0);
    assert!(m.summary.is_none());
    assert!(m.published.is_none());
    assert!(m.author.is_none());
    assert!(m.rights.is_none());
    assert!(m.lang.is_none());
    assert!(m.categories.is_empty());
    assert!(!m.draft);
    assert!(m.extra_values.is_empty());
}

#[test]
fn full_document_loads_every_field() {
    let mut doc = minimal_doc();
    doc.push(pair("summary", s("a post")));
    doc.push(pair("published", s("2024-03-04T08:30:00+01:00")));
    doc.push(pair(
        "author",
        MetaValue::Mapping(vec![
            pair("name", s("A. Writer")),
            pair("email", s("a@example.com")),
            pair("uri", s("gemini://example.com/")),
        ]),
    ));
    doc.push(pair("rights", s("CC BY-SA")));
    doc.push(pair("lang", s("en")));
    doc.push(pair("categories", MetaValue::List(vec![s("tech"), s("gemini")])));
    doc.push(pair("draft", MetaValue::Bool(false)));
    let m = EntryMetadata::from_value(MetaValue::Mapping(doc), "p.yaml").unwrap();
    assert_eq!(m.summary.as_deref(), Some("a post"));
    let p = m.published.unwrap();
    // 08:30 at +01:00 is 07:30 UTC.
    assert_eq!(p.epoch_secs, 1709537400);
    assert_eq!(p.year, 2024);
    assert_eq!(p.month, 3);
    assert_eq!(p.day, 4);
    let a = m.author.unwrap();
    assert_eq!(a.name, "A. Writer");
    assert_eq!(a.email.as_deref(), Some("a@example.com"));
    assert_eq!(a.uri.as_deref(), Some("gemini://example.com/"));
    assert_eq!(m.rights.as_deref(), Some("CC BY-SA"));
    assert_eq!(m.lang.as_deref(), Some("en"));
    assert_eq!(m.categories, vec!["tech".to_string(), "gemini".to_string()]);
    assert!(!m.draft);
}

#[test]
fn canonical_rendering_is_rfc3339() {
    let m = EntryMetadata::from_value(MetaValue::Mapping(minimal_doc()), "p.yaml").unwrap();
    assert_eq!(m.updated.rfc3339, "2024-03-05T12:00:00+00:00");
}

#[test]
fn draft_flag_is_read() {
    let mut doc = minimal_doc();
    doc.push(pair("draft", MetaValue::Bool(true)));
    let m = EntryMetadata::from_value(MetaValue::Mapping(doc), "p.yaml").unwrap();
    assert!(m.draft);
}

#[test]
fn null_optional_field_counts_as_absent() {
    let mut doc = minimal_doc();
    doc.push(pair("summary", MetaValue::Null));
    let m = EntryMetadata::from_value(MetaValue::Mapping(doc), "p.yaml").unwrap();
    assert!(m.summary.is_none());
}

#[test]
fn extra_fields_pass_through_in_order() {
    let mut doc = minimal_doc();
    doc.push(pair("banner", s("b.png")));
    doc.push(pair("weight", MetaValue::Number("7".to_string())));
    let m = EntryMetadata::from_value(MetaValue::Mapping(doc), "p.yaml").unwrap();
    assert_eq!(m.extra_values.len(), 2);
    assert!(matches!(&m.extra_values[0].0, MetaValue::Str(k) if k == "banner"));
    assert!(matches!(&m.extra_values[1].0, MetaValue::Str(k) if k == "weight"));
}

#[test]
fn malformed_updated_names_path_and_format_example() {
    let doc = vec![
        pair("id", s("urn:x")),
        pair("title", s("T")),
        pair("updated", s("not-a-date")),
    ];
    let err = EntryMetadata::from_value(MetaValue::Mapping(doc), "posts/bad.yaml").unwrap_err();
    let msg = err.message();
    assert!(msg.contains("posts/bad.yaml"));
    assert!(msg.contains("2006-01-02T15:04:05Z07:00"));
    assert!(matches!(err, Error::InvalidMetadataFile { .. }));
}

#[test]
fn malformed_published_is_fatal_too() {
    let mut doc = minimal_doc();
    doc.push(pair("published", s("yesterday")));
    let err = EntryMetadata::from_value(MetaValue::Mapping(doc), "p.yaml").unwrap_err();
    let msg = err.message();
    assert!(msg.contains("`published`"));
    assert!(msg.contains("2006-01-02T15:04:05Z07:00"));
}

#[test]
fn missing_id_is_fatal() {
    let doc = vec![pair("title", s("T")), pair("updated", s("2024-03-05T12:00:00Z"))];
    let err = EntryMetadata::from_value(MetaValue::Mapping(doc), "p.yaml").unwrap_err();
    assert!(err.message().contains("`id`"));
}

#[test]
fn missing_title_is_fatal() {
    let doc = vec![pair("id", s("urn:x")), pair("updated", s("2024-03-05T12:00:00Z"))];
    let err = EntryMetadata::from_value(MetaValue::Mapping(doc), "p.yaml").unwrap_err();
    assert!(err.message().contains("`title`"));
}

#[test]
fn non_mapping_document_is_fatal() {
    let err = EntryMetadata::from_value(s("just text"), "p.yaml").unwrap_err();
    assert!(err.message().contains("key/value"));
}

#[test]
fn non_string_category_is_fatal() {
    let mut doc = minimal_doc();
    doc.push(pair("categories", MetaValue::List(vec![s("ok"), MetaValue::Bool(true)])));
    let err = EntryMetadata::from_value(MetaValue::Mapping(doc), "p.yaml").unwrap_err();
    assert!(err.message().contains("`categories`"));
}

#[test]
fn non_boolean_draft_is_fatal() {
    let mut doc = minimal_doc();
    doc.push(pair("draft", s("yes")));
    let err = EntryMetadata::from_value(MetaValue::Mapping(doc), "p.yaml").unwrap_err();
    assert!(err.message().contains("`draft`"));
}
