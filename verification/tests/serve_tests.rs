use fluent_routes::serve::resolve_request;

fn segs(parts: &[&str]) -> Vec<String> {
    parts.iter().map(|s| s.to_string()).collect()
}

#[test]
fn should_resolve_plain_request_under_base() {
    let base = segs(&["srv", "files"]);
    let request = segs(&["img", "logo.png"]);

    let (resolved, escaped) = resolve_request(&base, &request);

    assert_eq!(resolved, segs(&["srv", "files", "img", "logo.png"]));
    assert!(!escaped);
}

#[test]
fn should_skip_current_dir_segments() {
    let base = segs(&["srv", "files"]);
    let request = segs(&[".", "a", ".", "b"]);

    let (resolved, escaped) = resolve_request(&base, &request);

    assert_eq!(resolved, segs(&["srv", "files", "a", "b"]));
    assert!(!escaped);
}

#[test]
fn should_resolve_parent_dir_within_base() {
    let base = segs(&["srv", "files"]);
    let request = segs(&["a", "..", "b"]);

    let (resolved, escaped) = resolve_request(&base, &request);

    assert_eq!(resolved, segs(&["srv", "files", "b"]));
    assert!(!escaped);
}

#[test]
fn should_reject_traversal_above_base() {
    let base = segs(&["srv", "files"]);
    let request = segs(&["..", "..", "etc", "passwd"]);

    let (resolved, escaped) = resolve_request(&base, &request);

    assert_eq!(resolved, segs(&["etc", "passwd"]));
    assert!(escaped);
}

#[test]
fn should_accept_excursion_that_returns_into_base() {
    let base = segs(&["srv", "files"]);
    let request = segs(&["..", "files", "x"]);

    let (resolved, escaped) = resolve_request(&base, &request);

    assert_eq!(resolved, segs(&["srv", "files", "x"]));
    assert!(!escaped);
}

#[test]
fn should_reject_sibling_directory() {
    let base = segs(&["srv", "files"]);
    let request = segs(&["..", "secrets", "key"]);

    let (resolved, escaped) = resolve_request(&base, &request);

    assert_eq!(resolved, segs(&["srv", "secrets", "key"]));
    assert!(escaped);
}

#[test]
fn should_stay_put_at_filesystem_root() {
    let base: Vec<String> = segs(&[]);
    let request = segs(&["..", "x"]);

    let (resolved, escaped) = resolve_request(&base, &request);

    assert_eq!(resolved, segs(&["x"]));
    assert!(!escaped);
}
