use mdfs::entry::FsError;
use mdfs::entry::IoPhase;
use mdfs::entry::PathKind;
use mdfs::facade::claim_destination;
use mdfs::facade::create_file;
use mdfs::facade::create_folder;
use mdfs::facade::delete_item;
use mdfs::facade::move_item;
use mdfs::facade::read_file;
use mdfs::facade::rename_item;
use mdfs::facade::save_markdown_file_as;
use mdfs::facade::Removal;

#[test]
fn read_file_names_the_document() {
    let d = read_file("/docs/notes.md".to_string(), true, Ok("# hi".to_string())).unwrap();
    assert_eq!(d.name, "notes.md");
    assert_eq!(d.content, "# hi");
    assert_eq!(d.path, "/docs/notes.md");
    assert_eq!(read_file("/".to_string(), true, Ok(String::new())).unwrap().name, "Untitled");
}

#[test]
fn read_file_reports_missing_and_failed_reads() {
    assert_eq!(read_file("/docs/gone.md".to_string(), false, Ok(String::new())), Err(FsError::NotFound));
    assert_eq!(
        read_file("/docs/locked.md".to_string(), true, Err(FsError::IoFailure(IoPhase::Read))),
        Err(FsError::IoFailure(IoPhase::Read))
    );
}

#[test]
fn create_file_defaults_and_conflicts() {
    let d = create_file("/docs/new.md".to_string(), false, None).unwrap();
    assert_eq!(d.content, "");
    assert_eq!(d.name, "new.md");
    let d = create_file("/docs/new.md".to_string(), false, Some("x".to_string())).unwrap();
    assert_eq!(d.content, "x");
    assert_eq!(create_file("/docs/new.md".to_string(), true, None), Err(FsError::AlreadyExists));
}

#[test]
fn create_folder_is_an_empty_expanded_directory() {
    let e = create_folder("/docs/sub".to_string(), false).unwrap();
    assert_eq!(e.name, "sub");
    assert!(e.is_dir && !e.is_markdown);
    assert_eq!(e.children.unwrap().len(), 0);
    assert!(matches!(create_folder("/docs/sub".to_string(), true), Err(FsError::AlreadyExists)));
    assert_eq!(create_folder("/".to_string(), false).unwrap().name, "New Folder");
}

#[test]
fn rename_validates_the_name() {
    assert_eq!(rename_item("/docs/a.md", true, "b.md"), Ok("/docs/b.md".to_string()));
    assert_eq!(rename_item("/docs/a.md", true, "x/b.md"), Err(FsError::InvalidPath));
    assert_eq!(rename_item("/docs/a.md", true, "x\\b.md"), Err(FsError::InvalidPath));
    assert_eq!(rename_item("/docs/a.md", true, ""), Err(FsError::InvalidPath));
    assert_eq!(rename_item("/docs/a.md", false, "b.md"), Err(FsError::NotFound));
    assert_eq!(rename_item("/", true, "b.md"), Err(FsError::InvalidPath));
}

#[test]
fn move_targets_a_directory() {
    assert_eq!(move_item("/docs/a.md", true, "/other", PathKind::Directory), Ok("/other/a.md".to_string()));
    assert_eq!(move_item("/docs/a.md", true, "/other", PathKind::File), Err(FsError::NotADirectory));
    assert_eq!(move_item("/docs/a.md", true, "/other", PathKind::Missing), Err(FsError::NotADirectory));
    assert_eq!(move_item("/docs/a.md", false, "/other", PathKind::Directory), Err(FsError::NotFound));
    assert_eq!(move_item("/docs/..", true, "/other", PathKind::Directory), Err(FsError::InvalidPath));
}

#[test]
fn occupied_destination_is_refused() {
    assert_eq!(claim_destination("/other/a.md".to_string(), true), Err(FsError::AlreadyExists));
    assert_eq!(claim_destination("/other/a.md".to_string(), false), Ok("/other/a.md".to_string()));
}

#[test]
fn delete_picks_the_removal() {
    assert_eq!(delete_item(PathKind::Missing), Err(FsError::NotFound));
    assert_eq!(delete_item(PathKind::Directory), Ok(Removal::Tree));
    assert_eq!(delete_item(PathKind::File), Ok(Removal::File));
}

#[test]
fn save_as_adds_markdown_extension() {
    let r = save_markdown_file_as("/docs/draft");
    assert_eq!(r.path, "/docs/draft.md");
    assert_eq!(r.name, "draft.md");
    let r = save_markdown_file_as("/docs/draft.txt");
    assert_eq!(r.path, "/docs/draft.txt");
    assert_eq!(r.name, "draft.txt");
}
