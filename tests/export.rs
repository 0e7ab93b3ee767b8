use sendmer::collection::{Collection, CollectionEntry, ContentHash};
use sendmer::export::{ExportAction, ExportEvent, ExportPhase, ExportRun};
use sendmer::path::PathError;
use sendmer::session::TransferError;

fn collection(names: &[&str]) -> Collection {
    Collection {
        entries: names
            .iter()
            .enumerate()
            .map(|(i, n)| CollectionEntry { name: n.to_string(), hash: ContentHash { bytes: [i as u8; 32] } })
            .collect(),
    }
}

#[test]
fn exports_in_order_then_finishes() {
    let c = collection(&["a", "d/e"]);
    let mut run = ExportRun::new();
    assert!(matches!(run.step(&c, ExportEvent::Begin), ExportAction::CheckTarget(t) if t == vec!["a"]));
    match run.step(&c, ExportEvent::TargetChecked(false)) {
        ExportAction::Write(h, t) => {
            assert_eq!(h, ContentHash { bytes: [0; 32] });
            assert_eq!(t, vec!["a"]);
        }
        _ => panic!("expected a write"),
    }
    assert!(matches!(run.step(&c, ExportEvent::Written(Ok(()))), ExportAction::CheckTarget(t) if t == vec!["d", "e"]));
    assert!(matches!(run.step(&c, ExportEvent::TargetChecked(false)), ExportAction::Write(..)));
    assert!(matches!(run.step(&c, ExportEvent::Written(Ok(()))), ExportAction::Finished));
    assert_eq!(run.phase, ExportPhase::Halted);
    assert!(matches!(run.step(&c, ExportEvent::Begin), ExportAction::Halted));
}

#[test]
fn existing_target_is_a_conflict() {
    let c = collection(&["a", "b"]);
    let mut run = ExportRun::new();
    assert!(matches!(run.step(&c, ExportEvent::Begin), ExportAction::CheckTarget(_)));
    match run.step(&c, ExportEvent::TargetChecked(true)) {
        ExportAction::Fail(e) => assert_eq!(e, TransferError::ExportConflict("a".to_string())),
        _ => panic!("expected a conflict"),
    }
    // nothing is written afterwards, neither the conflicting entry nor later ones
    assert!(matches!(run.step(&c, ExportEvent::TargetChecked(false)), ExportAction::Halted));
    assert!(matches!(run.step(&c, ExportEvent::Written(Ok(()))), ExportAction::Halted));
}

#[test]
fn escaping_name_is_refused() {
    let c = collection(&["../etc/passwd"]);
    let mut run = ExportRun::new();
    match run.step(&c, ExportEvent::Begin) {
        ExportAction::Fail(e) => assert_eq!(e, TransferError::Path(PathError::InvalidComponent)),
        _ => panic!("expected a path error"),
    }
}

#[test]
fn failed_write_is_an_export_error() {
    let c = collection(&["a"]);
    let mut run = ExportRun::new();
    run.step(&c, ExportEvent::Begin);
    run.step(&c, ExportEvent::TargetChecked(false));
    match run.step(&c, ExportEvent::Written(Err("disk full".to_string()))) {
        ExportAction::Fail(e) => assert_eq!(e, TransferError::Export("a".to_string())),
        _ => panic!("expected an export error"),
    }
}

#[test]
fn empty_collection_finishes_at_once() {
    let c = collection(&[]);
    let mut run = ExportRun::new();
    assert!(matches!(run.step(&c, ExportEvent::Begin), ExportAction::Finished));
}

#[test]
fn run_state_follows_each_step() {
    let c = collection(&["x/y"]);
    let mut run = ExportRun::new();
    run.step(&c, ExportEvent::Begin);
    assert_eq!(run.phase, ExportPhase::Checking);
    assert_eq!(run.pending, vec!["x", "y"]);
    run.step(&c, ExportEvent::TargetChecked(false));
    assert_eq!(run.phase, ExportPhase::Writing);
    assert_eq!(run.next, 0);
    let mut other = ExportRun::new();
    assert!(matches!(other.step(&c, ExportEvent::Written(Ok(()))), ExportAction::Halted));
    assert_eq!(other.phase, ExportPhase::Halted);
}
