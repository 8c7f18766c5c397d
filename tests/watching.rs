use mdfs::entry::FsError;
use mdfs::watch::ChangeKind;
use mdfs::watch::Observation;
use mdfs::watch::WatchRegistry;
use mdfs::watch::WatchWorker;

#[test]
fn watcher_reports_each_transition_once() {
    let mut w = WatchWorker::new(Observation::Present(100));
    assert!(w.keep_polling(false));
    assert_eq!(w.observe(Observation::Present(100)), None);
    assert_eq!(w.observe(Observation::Present(250)), Some(ChangeKind::Modified));
    assert_eq!(w.observe(Observation::Present(250)), None);
    assert_eq!(w.observe(Observation::Missing), Some(ChangeKind::Removed));
    assert_eq!(w.observe(Observation::Missing), None);
    assert_eq!(w.observe(Observation::Present(300)), None);
    assert_eq!(w.observe(Observation::Present(400)), Some(ChangeKind::Modified));
    assert!(!w.keep_polling(true));
    assert_eq!(w.observe(Observation::Present(500)), None);
    assert_eq!(w.observe(Observation::Missing), None);
    assert!(!w.keep_polling(false));
}

#[test]
fn watcher_seeded_missing_ignores_appearance() {
    let mut w = WatchWorker::new(Observation::Missing);
    assert!(!w.last_existed);
    assert_eq!(w.observe(Observation::Present(7)), None);
    assert_eq!(w.last_modified, Some(7));
    assert_eq!(w.observe(Observation::Present(8)), Some(ChangeKind::Modified));
}

#[test]
fn change_kinds_have_their_words() {
    assert_eq!(ChangeKind::Modified.as_str(), "modified");
    assert_eq!(ChangeKind::Removed.as_str(), "removed");
}

#[test]
fn starting_twice_keeps_one_watch() {
    let mut reg: WatchRegistry<u32> = WatchRegistry::new();
    assert_eq!(reg.start("/d/f.md", true, 1), Ok(true));
    assert_eq!(reg.start("/d/f.md", true, 2), Ok(false));
    assert_eq!(reg.len(), 1);
    assert_eq!(reg.stop("/d/f.md"), Some(1));
    assert!(!reg.is_watching("/d/f.md"));
    assert_eq!(reg.stop("/d/f.md"), None);
    assert_eq!(reg.start("/d/f.md", true, 3), Ok(true));
    assert_eq!(reg.stop("/d/f.md"), Some(3));
}

#[test]
fn starting_a_missing_path_fails() {
    let mut reg: WatchRegistry<u32> = WatchRegistry::new();
    assert_eq!(reg.start("/nope", false, 1), Err(FsError::NotFound));
    assert_eq!(reg.len(), 0);
    assert_eq!(reg.start("/yes", true, 1), Ok(true));
    assert_eq!(reg.start("/yes", false, 2), Ok(false));
}

#[test]
fn stop_all_hands_back_every_flag() {
    let mut reg: WatchRegistry<u32> = WatchRegistry::new();
    assert_eq!(reg.start("/a", true, 1), Ok(true));
    assert_eq!(reg.start("/b", true, 2), Ok(true));
    assert_eq!(reg.start("/c", true, 3), Ok(true));
    assert_eq!(reg.stop("/b"), Some(2));
    assert!(reg.is_watching("/a") && reg.is_watching("/c"));
    assert_eq!(reg.stop_all(), vec![3, 1]);
    assert_eq!(reg.len(), 0);
    assert!(!reg.is_watching("/a"));
    assert_eq!(reg.stop_all(), Vec::<u32>::new());
}
