use yap::persist::{binary_sibling_path, uri_to_file_path};

#[test]
fn simple_uri_maps_under_host_subtree() {
    let p = uri_to_file_path("http://example.com/a.txt");
    assert_eq!(p, ".yap/example.com/a.txt.yap");
}

#[test]
fn nested_path_keeps_segments() {
    let p = uri_to_file_path("http://example.com/dir/sub/file.html");
    assert_eq!(p, ".yap/example.com/dir/sub/file.html.yap");
}

#[test]
fn empty_path_maps_to_index() {
    let p = uri_to_file_path("http://example.com");
    assert_eq!(p, ".yap/example.com/index.yap");
}

#[test]
fn unsafe_segment_characters_become_underscores() {
    let p = uri_to_file_path("http://example.com/a:b*c");
    assert_eq!(p, ".yap/example.com/a_b_c.yap");
}

#[test]
fn query_is_appended_to_the_final_segment() {
    let p = uri_to_file_path("http://example.com/a.txt?x=1&y=2");
    assert_eq!(p, ".yap/example.com/a.txt_x_1_y_2.yap");
}

#[test]
fn query_changes_filename_but_not_prefix() {
    let without = uri_to_file_path("http://example.com/a.txt");
    let with = uri_to_file_path("http://example.com/a.txt?x=1");
    assert_ne!(without, with);
    assert!(without.starts_with(".yap/example.com/a.txt"));
    assert!(with.starts_with(".yap/example.com/a.txt"));
}

#[test]
fn mapping_is_deterministic() {
    let a = uri_to_file_path("http://example.com/a.txt?x=1");
    let b = uri_to_file_path("http://example.com/a.txt?x=1");
    assert_eq!(a, b);
}

#[test]
fn unparsable_uri_falls_back_to_unknown_bucket() {
    let p = uri_to_file_path("not a uri");
    assert_eq!(p, ".yap/unknown/not a uri.yap");
}

#[test]
fn unparsable_uri_sanitizes_separators() {
    let p = uri_to_file_path("a/b:c?d=e");
    assert_eq!(p, ".yap/unknown/a_b_c_d_e.yap");
}

#[test]
fn binary_sibling_swaps_the_extension() {
    let p = binary_sibling_path(".yap/example.com/pic.png.yap");
    assert_eq!(p, ".yap/example.com/pic.png.bin");
}
