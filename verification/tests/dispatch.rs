use simplehttpserver::Directory;
use simplehttpserver::FsNode;
use simplehttpserver::Response;
use simplehttpserver::ServeError;
use simplehttpserver::generic_handler;
use simplehttpserver::status_code;

fn dir(name: &str, path: &str) -> Directory {
    Directory { name: String::from(name), path: String::from(path) }
}

fn names(v: &[&str]) -> Vec<String> {
    v.iter().map(|s| String::from(*s)).collect()
}

#[test]
fn root_listing_is_sorted() {
    let r = generic_handler(dir("/", ""), FsNode::Directory(names(&["b.txt", "a.txt", "sub"])));
    match r {
        Ok(Response::Listing(l)) => {
            assert_eq!(l.name, "/");
            assert_eq!(l.entries, names(&["a.txt", "b.txt", "sub"]));
        },
        _ => panic!("expected a listing"),
    }
}

#[test]
fn listing_keeps_every_entry_exactly_once() {
    let r = generic_handler(
        dir("/sub", "sub"),
        FsNode::Directory(names(&["z", ".hidden", "m", "a", "z2"])),
    );
    match r {
        Ok(Response::Listing(l)) => {
            assert_eq!(l.entries, names(&[".hidden", "a", "m", "z", "z2"]));
        },
        _ => panic!("expected a listing"),
    }
}

#[test]
fn listing_keeps_duplicate_names() {
    let r = generic_handler(dir("/", ""), FsNode::Directory(names(&["b", "a", "b"])));
    match r {
        Ok(Response::Listing(l)) => {
            assert_eq!(l.entries, names(&["a", "b", "b"]));
        },
        _ => panic!("expected a listing"),
    }
}

#[test]
fn empty_directory_lists_nothing() {
    let r = generic_handler(dir("/", ""), FsNode::Directory(Vec::new()));
    match r {
        Ok(Response::Listing(l)) => {
            assert_eq!(l.name, "/");
            assert!(l.entries.is_empty());
        },
        _ => panic!("expected a listing"),
    }
}

#[test]
fn file_body_is_served_byte_for_byte() {
    let body: Vec<u8> = b"hello".to_vec();
    let r = generic_handler(dir("/a.txt", "a.txt"), FsNode::File(body.clone()));
    match r {
        Ok(Response::File(served)) => assert_eq!(served, body),
        _ => panic!("expected a file body"),
    }
}

#[test]
fn missing_target_reports_not_found() {
    let r = generic_handler(dir("/missing.txt", "missing.txt"), FsNode::Missing);
    match r {
        Err(e) => {
            assert_eq!(e, ServeError::NotFound);
            assert_eq!(status_code(&e), 404);
        },
        Ok(_) => panic!("expected an error"),
    }
}

#[test]
fn refused_access_reports_forbidden() {
    let r = generic_handler(dir("/locked", "locked"), FsNode::Denied);
    match r {
        Err(e) => {
            assert_eq!(e, ServeError::PermissionDenied);
            assert_eq!(status_code(&e), 403);
        },
        Ok(_) => panic!("expected an error"),
    }
}

#[test]
fn repeating_a_request_gives_identical_output() {
    let listing = |()| generic_handler(dir("/", ""), FsNode::Directory(names(&["c", "a", "b"])));
    let first = match listing(()) {
        Ok(Response::Listing(l)) => l.entries,
        _ => panic!("expected a listing"),
    };
    let second = match listing(()) {
        Ok(Response::Listing(l)) => l.entries,
        _ => panic!("expected a listing"),
    };
    assert_eq!(first, second);

    let file = |()| generic_handler(dir("/f", "f"), FsNode::File(vec![1, 2, 3]));
    let b1 = match file(()) {
        Ok(Response::File(b)) => b,
        _ => panic!("expected a file body"),
    };
    let b2 = match file(()) {
        Ok(Response::File(b)) => b,
        _ => panic!("expected a file body"),
    };
    assert_eq!(b1, b2);
}

#[test]
fn root_and_explicit_path_classify_alike() {
    let as_root = generic_handler(dir("/", ""), FsNode::Directory(names(&["x"])));
    let as_path = generic_handler(dir("/sub", "sub"), FsNode::Directory(names(&["x"])));
    assert!(matches!(as_root, Ok(Response::Listing(_))));
    assert!(matches!(as_path, Ok(Response::Listing(_))));

    let file_root = generic_handler(dir("/", ""), FsNode::File(vec![7]));
    let file_path = generic_handler(dir("/f.bin", "f.bin"), FsNode::File(vec![7]));
    assert!(matches!(file_root, Ok(Response::File(_))));
    assert!(matches!(file_path, Ok(Response::File(_))));
}
