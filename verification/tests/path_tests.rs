use fluent_routes::path::Path;

#[test]
fn should_handle_slashes_between_segments() {
    let path = Path::new()
        .append("/tst1/")
        .append("tst2")
        .append("/tst3/")
        .append("//tst4///")
        .append("/tst5/");

    assert_eq!(path.to_string(), "/tst1/tst2/tst3/tst4/tst5/");
}

#[test]
fn should_preserve_prefix_slash() {
    let path = Path::new().append("/tst1").append("tst2");

    assert_eq!(path.to_string(), "/tst1/tst2");
}

#[test]
fn should_preserve_trailing_slash() {
    let path = Path::new().append("tst1").append("tst2/");

    assert_eq!(path.to_string(), "tst1/tst2/");
}

#[test]
fn should_join_onto_empty_verbatim() {
    let path = Path::new().append("x");

    assert_eq!(path.to_string(), "x");
}

#[test]
fn should_join_with_exactly_one_separator() {
    let path = Path::new().append("x/").append("/y");

    assert_eq!(path.to_string(), "x/y");
}

#[test]
fn should_collapse_repeated_internal_slashes() {
    let path = Path::new().append("a///").append("///b/");

    assert_eq!(path.to_string(), "a/b/");
}

#[test]
fn should_not_drop_slashes_on_empty_segment_join() {
    let path = Path::new().append("/a/").append("");

    assert_eq!(path.to_string(), "/a/");
}

#[test]
fn should_start_from_prefix() {
    let path = Path::prefix("/").append("api");

    assert_eq!(path.to_string(), "/api");
}
