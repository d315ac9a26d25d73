use adml::paths::{DirOutcome, PathManager, get_paths_from_dir, make_path, sort_strings, str_le_exec};
use adml::errors::{BuildError, Error};

fn strings(v: &[&str]) -> Vec<String> {
    v.iter().map(|s| s.to_string()).collect()
}

#[test]
fn make_path_separates_unless_present() {
    assert_eq!(make_path("/work", "proj"), "/work/proj");
    assert_eq!(make_path("/work/", "x"), "/work/x");
    assert_eq!(make_path("", "x"), "x");
    assert_eq!(make_path("/a", "/abs"), "/abs");
}

#[test]
fn path_in_project_pairs_both_forms() {
    let pm = PathManager::new("/wd".to_string(), "proj".to_string());
    let p = pm.path_in_project("adml.json");
    assert_eq!(p.rel_to_working_dir, "/wd/proj/adml.json");
    assert_eq!(p.rel_to_project_root, "adml.json");
}

#[test]
fn str_le_exec_is_lexicographic() {
    assert!(str_le_exec("", "a"));
    assert!(str_le_exec("a", "a"));
    assert!(str_le_exec("a", "b"));
    assert!(!str_le_exec("b", "a"));
    assert!(str_le_exec("ab", "b"));
    assert!(str_le_exec("a", "ab"));
    assert!(!str_le_exec("ab", "a"));
    assert!(str_le_exec("a/b", "a0b") == ('/' < '0'));
}

#[test]
fn sort_strings_orders_and_keeps_duplicates() {
    let sorted = sort_strings(strings(&["b", "a", "c", "a"]));
    assert_eq!(sorted, strings(&["a", "a", "b", "c"]));
}

#[test]
fn listing_is_order_stable_across_enumeration_orders() {
    let one = sort_strings(strings(&["z.json", "a.json", "m.json"]));
    let two = sort_strings(strings(&["m.json", "z.json", "a.json"]));
    assert_eq!(one, two);
    // and idempotent: sorting the sorted listing changes nothing
    assert_eq!(sort_strings(one.clone()), one);
}

#[test]
fn missing_directory_lists_as_empty() {
    let r = get_paths_from_dir("/proj/item/", DirOutcome::NotFound);
    assert!(matches!(r, Ok(v) if v.is_empty()));
}

#[test]
fn unreadable_directory_is_an_io_error_with_the_path() {
    let r = get_paths_from_dir(
        "/proj/item/",
        DirOutcome::Failed { msg: "permission denied".to_string() },
    );
    match r {
        Err(BuildError::IO(e)) => {
            assert_eq!(e.path, "/proj/item/");
            assert_eq!(e.msg, "permission denied");
            assert_eq!(e.name(), "FileError");
            assert_eq!(e.info(), "Failed to process /proj/item/: permission denied");
        },
        _ => panic!("expected an IO error"),
    }
}

#[test]
fn unreadable_entry_is_an_io_error_with_the_path() {
    let r = get_paths_from_dir(
        "/proj/item/",
        DirOutcome::EntryFailed { msg: "bad entry".to_string() },
    );
    assert!(matches!(r, Err(BuildError::IO(e)) if e.path == "/proj/item/" && e.msg == "bad entry"));
}

#[test]
fn listed_entries_come_back_sorted() {
    let r = get_paths_from_dir(
        "/proj/item/",
        DirOutcome::Entries { paths: strings(&["/proj/item/b.json", "/proj/item/a.json"]) },
    );
    assert!(matches!(r, Ok(v) if v == strings(&["/proj/item/a.json", "/proj/item/b.json"])));
}
