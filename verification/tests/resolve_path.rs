use simplehttpserver::ServeError;
use simplehttpserver::resolve;
use simplehttpserver::status_code;

#[test]
fn root_resolves_to_the_root_itself() {
    let d = resolve("/").expect("root must resolve");
    assert_eq!(d.name, "/");
    assert_eq!(d.path, "");
}

#[test]
fn sub_paths_resolve_verbatim() {
    let d = resolve("/a.txt").expect("plain file path must resolve");
    assert_eq!(d.name, "/a.txt");
    assert_eq!(d.path, "a.txt");

    let d = resolve("/sub/deep/x.txt").expect("nested path must resolve");
    assert_eq!(d.name, "/sub/deep/x.txt");
    assert_eq!(d.path, "sub/deep/x.txt");
}

#[test]
fn dotdot_segments_are_rejected() {
    for p in ["/..", "/../etc/passwd", "/a/../b", "/sub/..", "/a/b/../../.."] {
        match resolve(p) {
            Err(e) => {
                assert_eq!(e, ServeError::TraversalAttempt);
                assert_eq!(status_code(&e), 403);
            },
            Ok(_) => panic!("{} must be rejected", p),
        }
    }
}

#[test]
fn absolute_remainder_is_rejected() {
    match resolve("//etc/passwd") {
        Err(e) => assert_eq!(e, ServeError::TraversalAttempt),
        Ok(_) => panic!("an absolute remainder must be rejected"),
    }
}

#[test]
fn dots_inside_names_are_allowed() {
    for p in ["/a..b", "/..a", "/a..", "/a.b.txt", "/...", "/.hidden"] {
        assert!(resolve(p).is_ok(), "{} names a plain entry", p);
    }
}
