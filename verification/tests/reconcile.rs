//! Reconciliation: partitioning a directory's entries, pairing body files
//! with sidecars, and warning about orphans.
use gempost::entry_util::{
    change_file_ext, check_mismatched_files, classify_path, dedup_paths, file_stem_part,
    partition_dir_entries, path_extension, reconcile_dir_entries, SidecarExt,
};

fn strings(items: &[&str]) -> Vec<String> {
    items.iter().map(|s| s.to_string()).collect()
}

#[test]
fn partition_splits_by_extension() {
    let paths = strings(&["posts/a.gmi", "posts/a.yaml", "posts/b.gmi", "posts/notes.txt"]);
    let (gemtexts, metas, warnings) = partition_dir_entries(&paths);
    assert_eq!(gemtexts, strings(&["posts/a.gmi", "posts/b.gmi"]));
    assert_eq!(metas, strings(&["posts/a.yaml"]));
    assert_eq!(warnings, strings(&["This is not a .gmi or .yaml file: posts/notes.txt"]));
}

#[test]
fn partition_warns_on_missing_extension() {
    let paths = strings(&["posts/README", "posts/.hidden"]);
    let (gemtexts, metas, warnings) = partition_dir_entries(&paths);
    assert!(gemtexts.is_empty());
    assert!(metas.is_empty());
    assert_eq!(warnings.len(), 2);
}

#[test]
fn pairs_and_warnings_count_matches_orphans() {
    // Three valid pairs and two orphans: exactly three pairs, two warnings.
    let posts = strings(&["a.gmi", "b.gmi", "c.gmi", "lonely.gmi"]);
    let metas = strings(&["a.yaml", "b.yaml", "c.yaml", "stray.yaml"]);
    let (pairs, warnings) = check_mismatched_files(posts, &metas);
    assert_eq!(pairs.len(), 3);
    assert_eq!(warnings.len(), 2);
    assert_eq!(pairs[0].gemtext, "a.gmi");
    assert_eq!(pairs[0].metadata, "a.yaml");
    assert_eq!(pairs[2].gemtext, "c.gmi");
    assert!(warnings[0].contains("stray.yaml"));
    assert!(warnings[1].contains("lonely.gmi"));
}

#[test]
fn missing_counterpart_gives_zero_pairs_one_warning() {
    let posts = strings(&["posts/foo.gmi"]);
    let metas: Vec<String> = Vec::new();
    let (pairs, warnings) = check_mismatched_files(posts, &metas);
    assert_eq!(pairs.len(), 0);
    assert_eq!(warnings.len(), 1);
    assert!(warnings[0].contains("foo"));
}

#[test]
fn counterpart_paths_swap_the_extension() {
    assert_eq!(change_file_ext("posts/foo.gmi", "yaml").unwrap(), "posts/foo.yaml");
    assert_eq!(change_file_ext("foo.yaml", "gmi").unwrap(), "foo.gmi");
    assert_eq!(change_file_ext("a/b/c.tar.gz", "yaml").unwrap(), "a/b/c.tar.yaml");
    assert_eq!(change_file_ext("dir/", "yaml"), None);
}

#[test]
fn extension_handling_matches_path_semantics() {
    assert_eq!(path_extension("posts/a.gmi").unwrap(), "gmi");
    assert_eq!(path_extension("posts/.hidden"), None);
    assert_eq!(path_extension("posts/README"), None);
    assert_eq!(path_extension("posts/a.tar.gz").unwrap(), "gz");
    assert!(matches!(classify_path("x.gmi"), Some(SidecarExt::Gemtext)));
    assert!(matches!(classify_path("x.yaml"), Some(SidecarExt::Metadata)));
    assert!(matches!(classify_path("x.txt"), None));
}

#[test]
fn reconciliation_pairs_and_warns_in_one_pass() {
    let paths = strings(&[
        "posts/a.gmi",
        "posts/a.yaml",
        "posts/lonely.gmi",
        "posts/stray.yaml",
        "posts/notes.txt",
    ]);
    let (pairs, warnings) = reconcile_dir_entries(&paths);
    assert_eq!(pairs.len(), 1);
    assert_eq!(pairs[0].gemtext, "posts/a.gmi");
    assert_eq!(pairs[0].metadata, "posts/a.yaml");
    assert_eq!(warnings.len(), 3);
    assert!(warnings[0].contains("notes.txt"));
    assert!(warnings[1].contains("stray.yaml"));
    assert!(warnings[2].contains("lonely.gmi"));
}

#[test]
fn repeated_paths_yield_one_pair() {
    let paths = strings(&["posts/a.gmi", "posts/a.gmi", "posts/a.yaml", "posts/a.yaml"]);
    let (pairs, warnings) = reconcile_dir_entries(&paths);
    assert_eq!(pairs.len(), 1);
    assert!(warnings.is_empty());
}

#[test]
fn dedup_keeps_first_occurrences_in_order() {
    let paths = strings(&["b", "a", "b", "c", "a"]);
    assert_eq!(dedup_paths(&paths), strings(&["b", "a", "c"]));
}

#[test]
fn slug_is_the_file_stem() {
    assert_eq!(file_stem_part("posts/hello-world.gmi"), "hello-world");
    assert_eq!(file_stem_part("hello.gmi"), "hello");
}

#[test]
fn extension_roles_are_paired() {
    assert_eq!(SidecarExt::Gemtext.ext_str(), "gmi");
    assert_eq!(SidecarExt::Metadata.ext_str(), "yaml");
    assert_eq!(SidecarExt::Gemtext.counterpart(), SidecarExt::Metadata);
    assert_eq!(SidecarExt::Metadata.counterpart(), SidecarExt::Gemtext);
}
