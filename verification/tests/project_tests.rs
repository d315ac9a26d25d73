use adml::errors::BuildError;
use adml::paths::DirOutcome;
use adml::project::{BuildAction, FsEvent, ProjectBuilder};

fn read(text: &str) -> FsEvent {
    FsEvent::FileRead { outcome: Ok(text.to_string()) }
}

fn read_fails(msg: &str) -> FsEvent {
    FsEvent::FileRead { outcome: Err(msg.to_string()) }
}

fn listed(paths: &[&str]) -> FsEvent {
    FsEvent::DirListed {
        listing: DirOutcome::Entries { paths: paths.iter().map(|s| s.to_string()).collect() },
    }
}

const MANIFEST: &str = r#"{"id":"pack","display_name":"My Pack"}"#;

#[test]
fn build_reads_manifest_first_then_items_in_sorted_order() {
    let (mut b, action) = ProjectBuilder::new("/wd".to_string(), "proj".to_string());
    assert!(matches!(action, BuildAction::ReadFile { path } if path == "/wd/proj/adml.json"));

    let action = b.advance(read(MANIFEST));
    assert!(matches!(action, BuildAction::ListDir { path } if path == "/wd/proj/item/"));

    // the filesystem enumerates out of order; the build must sort
    let action = b.advance(listed(&["/wd/proj/item/b.json", "/wd/proj/item/a.json"]));
    assert!(matches!(action, BuildAction::ReadFile { path } if path == "/wd/proj/item/a.json"));

    let action = b.advance(read(r#"{"id":"a","display_name":"A"}"#));
    assert!(matches!(action, BuildAction::ReadFile { path } if path == "/wd/proj/item/b.json"));

    let action = b.advance(read(r#"{"id":"b","display_name":"B","stack_size":16}"#));
    match action {
        BuildAction::Finish { result: Ok(p) } => {
            assert_eq!(p.config_json_obj.id, "pack");
            assert_eq!(p.config_json_obj.display_name, "My Pack");
            assert_eq!(p.items.len(), 2);
            assert_eq!(p.items[0].id, "a");
            assert_eq!(p.items[1].id, "b");
            assert_eq!(p.items[1].stack_size.0, 16);
        },
        _ => panic!("expected a finished project"),
    }
}

#[test]
fn missing_manifest_fails_before_any_item_is_opened() {
    let (mut b, action) = ProjectBuilder::new("/wd".to_string(), "proj".to_string());
    // the very first action is the manifest read: no item file is touched yet
    assert!(matches!(action, BuildAction::ReadFile { path } if path == "/wd/proj/adml.json"));

    let action = b.advance(read_fails("No such file or directory"));
    match action {
        BuildAction::Finish { result: Err(BuildError::IO(e)) } => {
            assert_eq!(e.path, "/wd/proj/adml.json");
            assert_eq!(e.msg, "No such file or directory");
        },
        _ => panic!("a missing manifest must end the build with an IO error"),
    }
}

#[test]
fn missing_item_directory_means_zero_items() {
    let (mut b, _) = ProjectBuilder::new("/wd".to_string(), "proj".to_string());
    let _ = b.advance(read(MANIFEST));
    let action = b.advance(FsEvent::DirListed { listing: DirOutcome::NotFound });
    match action {
        BuildAction::Finish { result: Ok(p) } => {
            assert_eq!(p.config_json_obj.id, "pack");
            assert!(p.items.is_empty());
        },
        _ => panic!("a missing item directory is not an error"),
    }
}

#[test]
fn unreadable_item_directory_is_an_io_error() {
    let (mut b, _) = ProjectBuilder::new("/wd".to_string(), "proj".to_string());
    let _ = b.advance(read(MANIFEST));
    let action = b.advance(FsEvent::DirListed {
        listing: DirOutcome::Failed { msg: "Permission denied".to_string() },
    });
    match action {
        BuildAction::Finish { result: Err(BuildError::IO(e)) } => {
            assert_eq!(e.path, "/wd/proj/item/");
            assert_eq!(e.msg, "Permission denied");
        },
        _ => panic!("expected an IO error carrying the item directory"),
    }
}

#[test]
fn malformed_item_file_fails_with_its_location_and_no_partial_project() {
    let bad = "{\"id\": \"a\", \"display_name\": \"A\"";  // unterminated object
    let expected = serde_json::from_str::<serde_json::Value>(bad).unwrap_err();

    let (mut b, _) = ProjectBuilder::new("/wd".to_string(), "proj".to_string());
    let _ = b.advance(read(MANIFEST));
    let _ = b.advance(listed(&["/wd/proj/item/bad.json"]));
    let action = b.advance(read(bad));
    match action {
        BuildAction::Finish { result } => match result {
            Err(BuildError::Configuration(c)) => {
                assert_eq!(c.path, "/wd/proj/item/bad.json");
                assert_eq!(c.location, Some((expected.line(), expected.column())));
            },
            _ => panic!("a malformed item must end the build with a configuration error"),
        },
        _ => panic!("the build must finish on the first bad file"),
    }
}

#[test]
fn first_failing_item_in_sorted_order_wins() {
    let (mut b, _) = ProjectBuilder::new("/wd".to_string(), "proj".to_string());
    let _ = b.advance(read(MANIFEST));
    // "a.json" sorts first even though it was enumerated last, and it is bad
    let action = b.advance(listed(&["/wd/proj/item/b.json", "/wd/proj/item/a.json"]));
    assert!(matches!(action, BuildAction::ReadFile { path } if path == "/wd/proj/item/a.json"));
    let action = b.advance(read(r#"{"wrong":"schema"}"#));
    match action {
        BuildAction::Finish { result: Err(BuildError::Configuration(c)) } => {
            assert_eq!(c.path, "/wd/proj/item/a.json");
            // the unknown key "wrong" opens at column 2
            assert_eq!(c.location, Some((1, 2)));
        },
        _ => panic!("the first sorted failing file must decide the error"),
    }
}
