use lsp_det::uri::{path_to_uri, uri_to_path};

#[test]
fn encodes_spaces_and_keeps_slashes() {
    let uri = path_to_uri("/w s/a.rs");
    assert_eq!(uri, "file:///w%20s/a.rs");
}

#[test]
fn round_trips_a_path() {
    let path = "/work/src/lib.rs".to_string();
    assert_eq!(uri_to_path(&path_to_uri(&path)), Some(path));
}

#[test]
fn rejects_other_schemes() {
    assert_eq!(uri_to_path("untitled:Untitled-1"), None);
}
