use httpdir::paths::target_path;

#[test]
fn plain_request_joins_under_root() {
    assert_eq!(target_path("/srv", "/a/b"), "/srv/a/b");
}

#[test]
fn root_request_resolves_to_root_itself() {
    assert_eq!(target_path("/srv", "/"), "/srv");
    assert_eq!(target_path("/srv", ""), "/srv");
}

#[test]
fn parent_segments_are_stripped() {
    assert_eq!(target_path("/srv", "/../etc/passwd"), "/srv/etc/passwd");
    assert_eq!(target_path("/srv", "/a/../../b"), "/srv/a/b");
    assert_eq!(target_path("/srv", "/.."), "/srv");
}

#[test]
fn current_directory_segments_are_stripped() {
    assert_eq!(target_path("/srv", "/./a/./b/."), "/srv/a/b");
}

#[test]
fn repeated_and_trailing_slashes_collapse() {
    assert_eq!(target_path("/srv", "//a///b//"), "/srv/a/b");
    assert_eq!(target_path("/srv", "/a/"), "/srv/a");
}

#[test]
fn dot_prefixed_names_survive_as_segments() {
    assert_eq!(target_path("/srv", "/.hidden/x"), "/srv/.hidden/x");
    assert_eq!(target_path("/srv", "/..."), "/srv/...");
}

#[test]
fn relative_root_is_kept_verbatim() {
    assert_eq!(target_path(".", "/sub"), "./sub");
}
