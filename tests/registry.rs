use kubelet::registry::{EntryStage, ObjectKey, Registry, RuntimeAction};

fn key(name: &str) -> ObjectKey {
    ObjectKey::new("ns".to_string(), name.to_string())
}

#[test]
fn bundle_init_failure_registers_nothing() {
    let mut reg = Registry::new();
    let a = reg.added(key("bob"), Err("no data".to_string()));
    assert_eq!(a, RuntimeAction::PublishFailed("no data".to_string()));
    assert!(!reg.contains(&key("bob")));
    assert_eq!(reg.len(), 0);
}

#[test]
fn one_entry_per_identity() {
    let mut reg = Registry::new();
    assert_eq!(reg.added(key("alice"), Ok(())), RuntimeAction::Spawn);
    assert_eq!(reg.added(key("alice"), Ok(())), RuntimeAction::UpdateManifest);
    assert_eq!(reg.len(), 1);
    assert_eq!(reg.added(ObjectKey::new("other".to_string(), "alice".to_string()), Ok(())), RuntimeAction::Spawn);
    assert_eq!(reg.len(), 2);
}

#[test]
fn modified_updates_manifest_only_when_live() {
    let mut reg = Registry::new();
    assert_eq!(reg.modified(&key("alice")), RuntimeAction::Ignore);
    reg.added(key("alice"), Ok(()));
    assert_eq!(reg.modified(&key("alice")), RuntimeAction::UpdateManifest);
}

#[test]
fn deletion_then_single_teardown() {
    let mut reg = Registry::new();
    reg.added(key("alice"), Ok(()));
    assert_eq!(reg.deleted(&key("alice")), RuntimeAction::UpdateAndSignalDeleted);
    assert_eq!(reg.stage_of(&key("alice")), Some(EntryStage::Deleting));
    assert_eq!(reg.deleted(&key("alice")), RuntimeAction::UpdateManifest);
    assert!(!reg.remove(&key("alice")));
    assert_eq!(reg.runner_exited(&key("alice")), RuntimeAction::AsyncDrop);
    assert_eq!(reg.runner_exited(&key("alice")), RuntimeAction::Ignore);
    assert_eq!(reg.deleted(&key("alice")), RuntimeAction::Ignore);
    assert!(reg.remove(&key("alice")));
    assert!(!reg.contains(&key("alice")));
    assert_eq!(reg.deleted(&key("alice")), RuntimeAction::Ignore);
    // The identity may be used again once the entry is gone.
    assert_eq!(reg.added(key("alice"), Ok(())), RuntimeAction::Spawn);
}

#[test]
fn restart_reconciliation_synthesizes_missing_only() {
    let mut reg = Registry::new();
    reg.added(key("x"), Ok(()));
    reg.added(key("y"), Ok(()));
    let gone = reg.restart(&vec![key("x")]);
    assert_eq!(gone.len(), 1);
    assert!(gone[0].same(&key("y")));
    assert_eq!(reg.stage_of(&key("x")), Some(EntryStage::Running));
}

#[test]
fn restart_with_same_listing_synthesizes_nothing() {
    let mut reg = Registry::new();
    reg.added(key("x"), Ok(()));
    reg.added(key("y"), Ok(()));
    assert!(reg.restart(&vec![key("y"), key("x")]).is_empty());
    assert_eq!(reg.restart(&vec![]).len(), 2);
}
