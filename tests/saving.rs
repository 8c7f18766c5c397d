use mdfs::entry::FsError;
use mdfs::entry::IoPhase;
use mdfs::persist::first_step;
use mdfs::persist::next_step;
use mdfs::persist::plan_persist;
use mdfs::persist::temp_name;
use mdfs::persist::PersistStep;

fn run(outcomes: &[bool]) -> Vec<PersistStep> {
    let mut s = first_step();
    let mut seen = vec![s];
    for ok in outcomes {
        if matches!(s, PersistStep::Done | PersistStep::Failed(_)) {
            break;
        }
        s = next_step(s, *ok);
        seen.push(s);
    }
    seen
}

fn touches(s: &PersistStep) -> bool {
    matches!(s, PersistStep::Replace | PersistStep::RemoveTarget | PersistStep::RetryReplace)
}

#[test]
fn temp_name_has_marker_name_and_time() {
    assert_eq!(temp_name("notes.md", 1700000000123456789), ".~notes.md.1700000000123456789");
    assert_eq!(temp_name("a", 0), ".~a.0");
}

#[test]
fn plan_puts_temp_file_beside_target() {
    let plan = plan_persist("/docs/notes.md", 42).unwrap();
    assert_eq!(plan.target, "/docs/notes.md");
    assert_eq!(plan.parent, "/docs");
    assert_eq!(plan.temp, "/docs/.~notes.md.42");
}

#[test]
fn plan_needs_a_parent() {
    assert!(matches!(plan_persist("/", 1), Err(FsError::InvalidPath)));
    assert!(matches!(plan_persist("", 1), Err(FsError::InvalidPath)));
}

#[test]
fn clean_save_renames_into_place() {
    let steps = run(&[true, true, true, true, true]);
    assert_eq!(
        steps,
        vec![
            PersistStep::EnsureParent,
            PersistStep::CreateTemp,
            PersistStep::WriteTemp,
            PersistStep::SyncTemp,
            PersistStep::Replace,
            PersistStep::Done
        ]
    );
}

#[test]
fn failed_write_never_touches_target() {
    let steps = run(&[true, true, false, true, true, true]);
    assert!(!steps.iter().any(touches));
    assert_eq!(*steps.last().unwrap(), PersistStep::Failed(FsError::IoFailure(IoPhase::Write)));
    assert!(steps.contains(&PersistStep::Discard(IoPhase::Write)));
}

#[test]
fn failed_sync_and_create_clean_up() {
    let steps = run(&[true, true, true, false, true]);
    assert!(!steps.iter().any(touches));
    assert_eq!(*steps.last().unwrap(), PersistStep::Failed(FsError::IoFailure(IoPhase::Sync)));
    let steps = run(&[true, false, true]);
    assert_eq!(*steps.last().unwrap(), PersistStep::Failed(FsError::IoFailure(IoPhase::Create)));
    let steps = run(&[false]);
    assert_eq!(*steps.last().unwrap(), PersistStep::Failed(FsError::IoFailure(IoPhase::Create)));
}

#[test]
fn blocked_rename_falls_back() {
    let steps = run(&[true, true, true, true, false, false, true]);
    assert_eq!(
        steps[4..].to_vec(),
        vec![PersistStep::Replace, PersistStep::RemoveTarget, PersistStep::RetryReplace, PersistStep::Done]
    );
    let steps = run(&[true, true, true, true, false, true, false]);
    assert_eq!(*steps.last().unwrap(), PersistStep::Failed(FsError::IoFailure(IoPhase::Rename)));
}
