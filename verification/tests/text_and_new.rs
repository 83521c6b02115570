//! String helpers, and the pieces behind creating a new post.
use gempost::new::{gemtext_file_name, generate_metadata_file, metadata_file_name, urn_of};
use gempost::text::{dec_i32, dec_u32, join_path, split_segments, str_eq, zero_padded_i32};

#[test]
fn splitting_drops_empty_segments() {
    assert_eq!(split_segments("/posts//2024/hello/"), vec!["posts", "2024", "hello"]);
    assert_eq!(split_segments("plain"), vec!["plain"]);
    assert!(split_segments("").is_empty());
    assert!(split_segments("///").is_empty());
}

#[test]
fn joining_puts_one_slash_between_segments() {
    let segs: Vec<String> = vec!["a".to_string(), "b".to_string(), "c".to_string()];
    assert_eq!(join_path(&segs), "a/b/c");
    assert_eq!(join_path(&vec!["only".to_string()]), "only");
    assert_eq!(join_path(&Vec::new()), "");
}

#[test]
fn decimal_rendering_matches_std_formatting() {
    assert_eq!(dec_u32(0), "0");
    assert_eq!(dec_u32(2024), "2024");
    assert_eq!(dec_i32(-37), "-37");
    for n in [-12345i32, -5, 0, 7, 999, 2024] {
        assert_eq!(zero_padded_i32(n, 4), format!("{:0>4}", n));
    }
}

#[test]
fn string_equality_compares_characters() {
    assert!(str_eq("snowman \u{2603}", "snowman \u{2603}"));
    assert!(!str_eq("a", "ab"));
    assert!(!str_eq("ab", "ac"));
}

#[test]
fn new_post_file_names_share_the_slug() {
    assert_eq!(gemtext_file_name("my-post"), "my-post.gmi");
    assert_eq!(metadata_file_name("my-post"), "my-post.yaml");
    assert_eq!(urn_of("1234"), "urn:uuid:1234");
}

#[test]
fn fresh_metadata_file_fills_the_template() {
    let template = "id: {{ id }}\ntitle: \"{{ title }}\"\nupdated: {{ timestamp }}\n";
    let out = generate_metadata_file(
        template,
        Some("My Post"),
        "urn:uuid:abc",
        "2024-03-05T12:00:00+00:00",
    )
    .unwrap();
    assert_eq!(out, "id: urn:uuid:abc\ntitle: \"My Post\"\nupdated: 2024-03-05T12:00:00+00:00\n");

    let untitled = generate_metadata_file(template, None, "urn:uuid:abc", "t").unwrap();
    assert!(untitled.contains("title: \"\""));
}
