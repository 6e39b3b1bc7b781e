use klamer_dev::orchestrator::{
    orchestrator_step, CertSlot, OrchestratorAction, OrchestratorEvent, OrchestratorState,
};
use klamer_dev::shutdown::{
    drain_plan, DrainPlan, ListenerAction, ShutdownCoordinator, SignalKind, GRACE_PERIOD_SECS,
};

#[test]
fn cached_certificate_activates_directly() {
    let record = vec![1u8, 2, 3];
    let (state, action) = orchestrator_step(
        OrchestratorState::Loading,
        OrchestratorEvent::CacheHit(record.clone()),
    );
    assert_eq!(state, OrchestratorState::Active);
    match action {
        OrchestratorAction::Publish(r) => assert_eq!(r, record),
        _ => panic!("expected a publish"),
    }
}

#[test]
fn cache_miss_and_cache_error_both_provision() {
    let (s1, a1) = orchestrator_step(OrchestratorState::Loading, OrchestratorEvent::CacheMiss);
    assert_eq!(s1, OrchestratorState::Provisioning);
    assert!(matches!(a1, OrchestratorAction::BeginProvisioning));

    let (s2, a2) = orchestrator_step(OrchestratorState::Loading, OrchestratorEvent::CacheError);
    assert_eq!(s2, OrchestratorState::Provisioning);
    assert!(matches!(a2, OrchestratorAction::BeginProvisioning));
}

#[test]
fn issued_order_is_published_and_stored() {
    let record = vec![7u8, 8];
    let (state, action) = orchestrator_step(
        OrchestratorState::Provisioning,
        OrchestratorEvent::OrderIssued(record.clone()),
    );
    assert_eq!(state, OrchestratorState::Active);
    match action {
        OrchestratorAction::PublishAndStore(r) => assert_eq!(r, record),
        _ => panic!("expected publish-and-store"),
    }
}

#[test]
fn provisioning_failure_is_transient() {
    let (state, action) = orchestrator_step(
        OrchestratorState::Provisioning,
        OrchestratorEvent::ProvisionFailed,
    );
    assert_eq!(state, OrchestratorState::Provisioning);
    assert!(matches!(action, OrchestratorAction::LogAndWait));
}

#[test]
fn active_state_logs_background_events() {
    let (s1, a1) = orchestrator_step(OrchestratorState::Active, OrchestratorEvent::Notice);
    assert_eq!(s1, OrchestratorState::Active);
    assert!(matches!(a1, OrchestratorAction::LogAndWait));

    let (s2, a2) = orchestrator_step(OrchestratorState::Active, OrchestratorEvent::ErrorNotice);
    assert_eq!(s2, OrchestratorState::Active);
    assert!(matches!(a2, OrchestratorAction::LogAndWait));
}

#[test]
fn publish_is_observed_whole() {
    let mut slot = CertSlot::new();
    assert!(slot.current().is_none());

    let old_record = vec![1u8; 64];
    slot.publish(old_record.clone());
    // A handshake before the publish event observes the old record
    // in full.
    assert_eq!(slot.current(), Some(&old_record));

    let new_record = vec![2u8; 64];
    slot.publish(new_record.clone());
    // A handshake after the publish event observes the new record
    // in full; no observation mixes the two.
    let observed = slot.current().unwrap().clone();
    assert!(observed == old_record || observed == new_record);
    assert_eq!(observed, new_record);
}

#[test]
fn interrupt_drains_https_and_closes_http() {
    let plan = drain_plan(SignalKind::Interrupt);
    assert_eq!(
        plan,
        DrainPlan {
            https: ListenerAction::GracefulDrain(GRACE_PERIOD_SECS),
            http: ListenerAction::CloseNow,
        }
    );
    assert_eq!(GRACE_PERIOD_SECS, 5);
}

#[test]
fn terminate_closes_both() {
    let plan = drain_plan(SignalKind::Terminate);
    assert_eq!(
        plan,
        DrainPlan { https: ListenerAction::CloseNow, http: ListenerAction::CloseNow }
    );
}

#[test]
fn only_the_first_signal_fires() {
    let mut coordinator = ShutdownCoordinator::new();
    let first = coordinator.fire(SignalKind::Interrupt);
    assert_eq!(first, Some(drain_plan(SignalKind::Interrupt)));
    let second = coordinator.fire(SignalKind::Terminate);
    assert_eq!(second, None);
    let third = coordinator.fire(SignalKind::Interrupt);
    assert_eq!(third, None);
}
