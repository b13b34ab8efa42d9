use lobsterpot::healing::{next_isolation, IsolationPhase, KillSignal, Component, Healable, HealingError, HealthMonitor, HealthState, HealthEvent, HealAction, next_state, heal_component};

const ABC_SHA256: &str = "ba7816bf8f01cfea414140de5dae2223b00361a396177a9cb410ff61f20015ad";

fn component() -> Component {
    let h = Component::calculate_hash(b"good build");
    Component::new("svc", "/opt/svc/bin", "/opt/svc/bin.bak", &h)
}

#[test]
fn hash_is_sha256_hex() {
    assert_eq!(Component::calculate_hash(b"abc"), ABC_SHA256);
    assert_eq!(Component::calculate_hash(b"").len(), 64);
}

#[test]
fn repair_from_good_backup_restores_integrity() {
    let mut c = component();
    let mut live = b"tampered".to_vec();
    assert!(!c.verify_integrity(&live));
    let backup = b"good build".to_vec();
    assert!(c.repair(&mut live, Some(&backup)).is_ok());
    assert_eq!(live, backup);
    assert!(c.verify_integrity(&live));
}

#[test]
fn repair_without_backup_fails_untouched() {
    let mut c = component();
    let mut live = b"tampered".to_vec();
    let r = c.repair(&mut live, None);
    assert_eq!(r, Err(HealingError::BackupNotFound("/opt/svc/bin.bak".to_string())));
    assert_eq!(live, b"tampered".to_vec());
}

#[test]
fn repair_from_bad_backup_fails_verification() {
    let mut c = component();
    let mut live = b"tampered".to_vec();
    let bad = b"also bad".to_vec();
    let r = c.replace(&mut live, Some(&bad));
    assert!(matches!(r, Err(HealingError::RestartFailure(_))));
    assert_eq!(live, bad);
}

#[test]
fn health_and_isolation() {
    let mut c = component();
    assert!(c.check_health(false, b"good build"));
    c.pid = Some(42);
    assert!(!c.check_health(false, b"good build"));
    assert!(c.check_health(true, b"good build"));
    assert!(!c.check_health(true, b"bad"));
    assert_eq!(c.isolate(), Some(42));
    assert_eq!(c.pid, None);
    assert_eq!(c.isolate(), None);
}

#[test]
fn heal_sequence() {
    let mut c = component();
    c.pid = Some(7);
    let mut live = b"x".to_vec();
    let backup = b"good build".to_vec();
    let (pid, r) = heal_component(&mut c, &mut live, Some(&backup));
    assert_eq!(pid, Some(7));
    assert!(r.is_ok());
    assert_eq!(c.pid, None);
    let (pid2, r2) = heal_component(&mut c, &mut live, None);
    assert_eq!(pid2, None);
    assert!(matches!(r2, Err(HealingError::BackupNotFound(_))));
}

#[test]
fn healing_cycle_transitions() {
    assert_eq!(next_state(HealthState::Healthy, HealthEvent::CheckPassed), (HealthState::Healthy, HealAction::Wait));
    assert_eq!(next_state(HealthState::Healthy, HealthEvent::CheckFailed), (HealthState::Degraded, HealAction::Isolate));
    assert_eq!(next_state(HealthState::Degraded, HealthEvent::StepFailed), (HealthState::Repairing, HealAction::Repair));
    assert_eq!(next_state(HealthState::Repairing, HealthEvent::StepSucceeded), (HealthState::Healthy, HealAction::Wait));
    assert_eq!(next_state(HealthState::Repairing, HealthEvent::StepFailed), (HealthState::Replacing, HealAction::Replace));
    assert_eq!(next_state(HealthState::Replacing, HealthEvent::StepFailed), (HealthState::Failed, HealAction::Alert));
    assert_eq!(next_state(HealthState::Failed, HealthEvent::CheckFailed), (HealthState::Failed, HealAction::Wait));
    assert_eq!(next_state(HealthState::Failed, HealthEvent::CheckPassed), (HealthState::Healthy, HealAction::Wait));
}

#[test]
fn monitor_registry() {
    let mut m = HealthMonitor::new(30);
    m.register_component(component());
    m.register_component(component());
    assert_eq!(m.components.len(), 1);
    let name = "svc".to_string();
    assert_eq!(m.handle_event(&name, HealthEvent::CheckFailed), Ok(HealAction::Isolate));
    assert_eq!(m.components[0].1, HealthState::Degraded);
    let missing = "nope".to_string();
    assert_eq!(m.handle_event(&missing, HealthEvent::CheckFailed), Err(HealingError::ComponentNotFound("nope".to_string())));
}

#[test]
fn isolation_steps() {
    assert_eq!(next_isolation(IsolationPhase::Start, true), (IsolationPhase::Grace, Some(KillSignal::Terminate)));
    assert_eq!(next_isolation(IsolationPhase::Grace, true), (IsolationPhase::Done, Some(KillSignal::Kill)));
    assert_eq!(next_isolation(IsolationPhase::Grace, false), (IsolationPhase::Done, None));
    assert_eq!(next_isolation(IsolationPhase::Done, true), (IsolationPhase::Done, None));
}

#[test]
fn isolate_keeps_identity() {
    let mut c = component();
    c.pid = Some(3);
    assert_eq!(c.isolate(), Some(3));
    assert_eq!(c.name, "svc");
    assert_eq!(c.path, "/opt/svc/bin");
    assert_eq!(c.backup_path, "/opt/svc/bin.bak");
    assert!(c.verify_integrity(b"good build"));
}
