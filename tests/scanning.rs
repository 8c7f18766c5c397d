use mdfs::entry::FileEntry;
use mdfs::entry::FsError;
use mdfs::entry::IoPhase;
use mdfs::entry::PathKind;
use mdfs::entry::RawEntry;
use mdfs::facade::open_folder_dialog;
use mdfs::facade::read_directory;
use mdfs::order::sort_entries;
use mdfs::scan::scan_dir;

fn raw(dir: &str, name: &str, is_dir: bool) -> RawEntry {
    RawEntry { name: name.to_string(), path: Some(format!("{}/{}", dir, name)), is_dir }
}

fn tree(p: &str) -> Result<Vec<RawEntry>, FsError> {
    match p {
        "/w" => Ok(vec![
            raw("/w", "b.txt", false),
            raw("/w", "A", true),
            raw("/w", "a.md", false),
            raw("/w", ".hidden", false),
        ]),
        "/w/A" => Ok(vec![raw("/w/A", "inner.md", false), raw("/w/A", "Sub", true)]),
        "/w/A/Sub" => Ok(vec![raw("/w/A/Sub", "deep.txt", false)]),
        _ => Err(FsError::IoFailure(IoPhase::Read)),
    }
}

fn names(es: &[FileEntry]) -> Vec<String> {
    es.iter().map(|e| e.name.clone()).collect()
}

#[test]
fn scanner_orders_directories_first_and_skips_hidden() {
    let es = scan_dir(&tree, "/w", 0, 1).unwrap();
    assert_eq!(names(&es), vec!["A", "a.md", "b.txt"]);
    assert!(es[0].is_dir && !es[0].is_markdown);
    assert!(!es[1].is_dir && es[1].is_markdown);
    assert!(!es[2].is_dir && !es[2].is_markdown);
    assert_eq!(es[0].path, "/w/A");
    assert!(es[1].children.is_none());
    assert!(es[2].children.is_none());
}

#[test]
fn scanner_at_depth_limit_leaves_placeholder() {
    let es = scan_dir(&tree, "/w", 0, 0).unwrap();
    assert_eq!(names(&es), vec!["A", "a.md", "b.txt"]);
    assert_eq!(es[0].children.as_ref().unwrap().len(), 0);
}

#[test]
fn scanner_one_level_down_loads_children() {
    let es = scan_dir(&tree, "/w", 0, 1).unwrap();
    let kids = es[0].children.as_ref().unwrap();
    assert_eq!(names(kids), vec!["Sub", "inner.md"]);
    assert_eq!(kids[0].children.as_ref().unwrap().len(), 0);
    let es2 = scan_dir(&tree, "/w", 0, 2).unwrap();
    let sub = &es2[0].children.as_ref().unwrap()[0];
    assert_eq!(names(sub.children.as_ref().unwrap()), vec!["deep.txt"]);
}

#[test]
fn scanner_fails_on_unreadable_directory() {
    assert_eq!(scan_dir(&tree, "/nowhere", 0, 1).unwrap_err(), FsError::IoFailure(IoPhase::Read));
}

#[test]
fn scanner_fails_on_unreadable_subdirectory() {
    let read = |p: &str| -> Result<Vec<RawEntry>, FsError> {
        match p {
            "/r" => Ok(vec![raw("/r", "locked", true)]),
            _ => Err(FsError::IoFailure(IoPhase::Metadata)),
        }
    };
    assert_eq!(scan_dir(&read, "/r", 0, 1).unwrap_err(), FsError::IoFailure(IoPhase::Metadata));
    assert_eq!(scan_dir(&read, "/r", 0, 0).unwrap().len(), 1);
}

#[test]
fn scanner_rejects_non_utf8_paths_of_shown_entries() {
    let read = |p: &str| -> Result<Vec<RawEntry>, FsError> {
        match p {
            "/u" => Ok(vec![RawEntry { name: String::new(), path: None, is_dir: false }]),
            _ => Ok(vec![RawEntry { name: ".x".to_string(), path: None, is_dir: false }]),
        }
    };
    assert_eq!(scan_dir(&read, "/u", 0, 1).unwrap_err(), FsError::InvalidPath);
    assert_eq!(scan_dir(&read, "/v", 0, 1).unwrap().len(), 0);
}

#[test]
fn scanner_sorts_names_ignoring_case() {
    let read = |_: &str| -> Result<Vec<RawEntry>, FsError> {
        Ok(vec![raw("/c", "beta.md", false), raw("/c", "Alpha.md", false), raw("/c", "gamma", true), raw("/c", "Zed", true)])
    };
    let es = scan_dir(&read, "/c", 0, 0).unwrap();
    assert_eq!(names(&es), vec!["gamma", "Zed", "Alpha.md", "beta.md"]);
}

#[test]
fn sorting_keeps_ties_in_their_order() {
    let mk = |n: &str, p: &str| FileEntry { name: n.to_string(), path: p.to_string(), is_dir: false, is_markdown: false, children: None };
    let es = sort_entries(vec![mk("b", "1"), mk("A", "2"), mk("a", "3")]);
    let paths: Vec<String> = es.iter().map(|e| e.path.clone()).collect();
    assert_eq!(paths, vec!["2", "3", "1"]);
}

#[test]
fn read_directory_checks_the_kind() {
    assert_eq!(read_directory(&tree, "/w", PathKind::Missing).unwrap_err(), FsError::NotFound);
    assert_eq!(read_directory(&tree, "/w", PathKind::File).unwrap_err(), FsError::NotADirectory);
    let es = read_directory(&tree, "/w", PathKind::Directory).unwrap();
    assert_eq!(names(es[0].children.as_ref().unwrap()), vec!["Sub", "inner.md"]);
    assert_eq!(es[0].children.as_ref().unwrap()[0].children.as_ref().unwrap().len(), 0);
}

#[test]
fn open_folder_reads_two_levels() {
    let f = open_folder_dialog(&tree, "/w").unwrap();
    assert_eq!(f.path, "/w");
    assert_eq!(f.name, "w");
    let sub = &f.entries[0].children.as_ref().unwrap()[0];
    assert_eq!(names(sub.children.as_ref().unwrap()), vec!["deep.txt"]);
    assert!(open_folder_dialog(&tree, "/elsewhere").is_err());
}

#[test]
fn scanner_keeps_listing_order_for_names_equal_but_for_case() {
    let read = |_: &str| -> Result<Vec<RawEntry>, FsError> {
        Ok(vec![raw("/t", "b.md", false), raw("/t", "A.md", false), raw("/t", "a.md", false)])
    };
    let es = scan_dir(&read, "/t", 0, 1).unwrap();
    assert_eq!(names(&es), vec!["A.md", "a.md", "b.md"]);
    let read2 = |_: &str| -> Result<Vec<RawEntry>, FsError> {
        Ok(vec![raw("/t", "a.md", false), raw("/t", "b.md", false), raw("/t", "A.md", false)])
    };
    let es2 = scan_dir(&read2, "/t", 0, 1).unwrap();
    assert_eq!(names(&es2), vec!["a.md", "A.md", "b.md"]);
}

#[test]
fn scanner_is_repeatable_on_an_unchanged_tree() {
    let first = scan_dir(&tree, "/w", 0, 2).unwrap();
    let second = scan_dir(&tree, "/w", 0, 2).unwrap();
    assert_eq!(format!("{:?}", first), format!("{:?}", second));
}
