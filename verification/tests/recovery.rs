use ferro_core::lifecycle::{Action, LifecycleOperation, LifecyclePhase, ProcessFacts, WitnessAction};
use ferro_core::records::ContainerRecord;
use ferro_core::recovery::{
    mediation_outcome, parse_freezer_state, resolve_orphaned_entry, MediationClose, MediationOutcome, resolve_pending_mutation, settle_completed_operation,
    CompletedOperationStep, MutationReservation, OperationRecordFacts, OrphanResolution,
    PendingResolution, RecoveryObservation, ReservationClose,
};

fn record(status: &str, pid: u32) -> ContainerRecord {
    ContainerRecord {
        id: "pending".to_string(),
        name: None,
        status: status.to_string(),
        pid,
        ports: Vec::new(),
        network_name: None,
        network_ownership: None,
        ip_address: None,
        ipv6_address: None,
        netns: None,
        namespace_owned: false,
        namespace_identity: None,
        network_backend: None,
        managed_overlay: None,
        managed_host_veth: None,
    }
}

fn reservation(action: &str, generation: u64) -> MutationReservation {
    MutationReservation {
        operation_id: [7; 16],
        generation,
        expected_status: "created".to_string(),
        action: action.to_string(),
    }
}

fn operation(action: &str, phase: LifecyclePhase, effect: Option<bool>) -> LifecycleOperation {
    LifecycleOperation {
        container_id: "pending".to_string(),
        action: action.to_string(),
        generation: 1,
        phase,
        pid: 4242,
        process_start_time: Some(10),
        result_digest: None,
        pid_after: Some(4242),
        process_start_time_after: Some(10),
        state_after: None,
        freezer_state_after: None,
        execution_generation_after: Some(1),
        effect_succeeded: effect,
    }
}

fn observed(alive: bool, rootfs_present: bool, provenance: bool) -> RecoveryObservation {
    RecoveryObservation {
        process: ProcessFacts {
            record_pid_exists: alive,
            record_pid_start_time: if alive { Some(10) } else { None },
            operation_pid_start_time: None,
            provenance_verifiable: provenance,
        },
        rootfs_present,
        provenance_matches: provenance,
    }
}

#[test]
fn live_run_reservation_is_left_to_its_owner() {
    let r = resolve_pending_mutation(
        &record("running", 4242),
        &reservation("container.run", 1),
        WitnessAction::ContainerRun,
        1,
        Some(&operation("container.run", LifecyclePhase::Reserved, None)),
        observed(true, true, true),
    );
    assert_eq!(r, PendingResolution::InFlight);
}

#[test]
fn run_that_never_applied_is_deleted_and_acknowledged() {
    let r = resolve_pending_mutation(
        &record("created", 4242),
        &reservation("container.run", 1),
        WitnessAction::ContainerRun,
        1,
        Some(&operation("container.run", LifecyclePhase::Reserved, None)),
        observed(false, false, true),
    );
    assert_eq!(
        r,
        PendingResolution::Settle {
            recovered: false,
            delete_record: true,
            close: ReservationClose::Acknowledge
        }
    );
}

#[test]
fn proven_delete_is_recovered_and_removed() {
    let r = resolve_pending_mutation(
        &record("removed-pending", 0),
        &reservation("container.delete", 3),
        WitnessAction::ContainerDelete,
        3,
        None,
        observed(false, false, true),
    );
    assert_eq!(
        r,
        PendingResolution::Settle {
            recovered: true,
            delete_record: true,
            close: ReservationClose::Acknowledge
        }
    );
}

#[test]
fn mismatched_journal_action_quarantines_and_finishes() {
    let r = resolve_pending_mutation(
        &record("removed-pending", 0),
        &reservation("container.delete", 3),
        WitnessAction::ContainerStop,
        3,
        None,
        observed(false, false, true),
    );
    assert_eq!(
        r,
        PendingResolution::Settle {
            recovered: false,
            delete_record: false,
            close: ReservationClose::Finish
        }
    );
}

#[test]
fn stale_generation_is_not_recovered() {
    let r = resolve_pending_mutation(
        &record("removed-pending", 0),
        &reservation("container.delete", 3),
        WitnessAction::ContainerDelete,
        4,
        None,
        observed(false, false, true),
    );
    assert_eq!(
        r,
        PendingResolution::Settle {
            recovered: false,
            delete_record: false,
            close: ReservationClose::Finish
        }
    );
}

#[test]
fn orphaned_journal_entry_follows_its_tombstone() {
    let deleted = operation("container.delete", LifecyclePhase::StoreDeleted, Some(true));
    assert_eq!(
        resolve_orphaned_entry(Some(&deleted)),
        OrphanResolution { recovered_delete: true, acknowledge: true }
    );
    let stopped = operation("container.stop", LifecyclePhase::EffectApplied, Some(true));
    assert_eq!(
        resolve_orphaned_entry(Some(&stopped)),
        OrphanResolution { recovered_delete: false, acknowledge: true }
    );
    assert_eq!(
        resolve_orphaned_entry(None),
        OrphanResolution { recovered_delete: false, acknowledge: false }
    );
}

#[test]
fn completed_operations_are_cleared_once() {
    let facts = |running, quarantined, process_exists, provenance_matches| OperationRecordFacts {
        running,
        quarantined,
        process_exists,
        provenance_matches,
    };
    let failed_run = operation("container.run", LifecyclePhase::EffectApplied, Some(false));
    assert_eq!(
        settle_completed_operation(false, &failed_run, Some(facts(false, false, false, true))),
        CompletedOperationStep::Skip
    );
    let deleted = operation("container.delete", LifecyclePhase::StoreDeleted, Some(true));
    assert_eq!(settle_completed_operation(true, &deleted, None), CompletedOperationStep::Acknowledge);
    assert_eq!(
        settle_completed_operation(true, &failed_run, Some(facts(false, true, true, true))),
        CompletedOperationStep::Skip
    );
    assert_eq!(
        settle_completed_operation(true, &failed_run, Some(facts(false, false, false, true))),
        CompletedOperationStep::DeleteAndAcknowledge
    );
    assert_eq!(
        settle_completed_operation(true, &failed_run, Some(facts(true, false, true, true))),
        CompletedOperationStep::Finish
    );
    assert_eq!(settle_completed_operation(true, &failed_run, None), CompletedOperationStep::Skip);
}

#[test]
fn startup_reconcile_marks_stale_running_pid_exited() {
    let stale = record("running", 999_999);
    let exit = ferro_core::recovery::stale_record_exit(&stale.status, false, false, None);
    assert_eq!(exit, Some(-1));
}

#[test]
fn startup_reconcile_keeps_live_running_pid() {
    let live = record("running", 1);
    assert_eq!(ferro_core::recovery::stale_record_exit(&live.status, false, true, None), None);
}

#[test]
fn stale_reconcile_keeps_recorded_exit_codes_and_pending_records() {
    assert_eq!(ferro_core::recovery::stale_record_exit("paused", false, false, Some(3)), Some(3));
    assert_eq!(ferro_core::recovery::stale_record_exit("running", true, false, None), None);
    assert_eq!(ferro_core::recovery::stale_record_exit("stopped", false, false, None), None);
}

#[test]
fn mediation_closes_by_action_and_outcome() {
    assert_eq!(
        mediation_outcome(Action::ContainerDelete, true, false),
        MediationOutcome { effect_observed: true, reads_freezer: false, close: MediationClose::FinalizeDelete }
    );
    assert_eq!(
        mediation_outcome(Action::ContainerDelete, false, false),
        MediationOutcome {
            effect_observed: false,
            reads_freezer: false,
            close: MediationClose::Complete { success: false }
        }
    );
    assert_eq!(
        mediation_outcome(Action::ContainerPause, false, true),
        MediationOutcome { effect_observed: true, reads_freezer: true, close: MediationClose::CompleteUnknown }
    );
    assert_eq!(
        mediation_outcome(Action::ContainerResume, true, false),
        MediationOutcome {
            effect_observed: true,
            reads_freezer: true,
            close: MediationClose::Complete { success: true }
        }
    );
}

#[test]
fn freezer_state_reads_frozen_thawed_or_unknown() {
    assert_eq!(parse_freezer_state("1\n"), Some(true));
    assert_eq!(parse_freezer_state(" 0 "), Some(false));
    assert_eq!(parse_freezer_state("frozen"), None);
    assert_eq!(parse_freezer_state(""), None);
}

#[test]
fn health_checks_count_consecutive_failures() {
    let outcome = ferro_core::lifecycle::health_check_outcome;
    let unhealthy = ferro_core::lifecycle::HealthStatus::Unhealthy;
    let starting = ferro_core::lifecycle::HealthStatus::Starting;
    assert_eq!(outcome(0, 3, false), (starting, 1));
    assert_eq!(outcome(1, 3, false), (starting, 2));
    assert_eq!(outcome(2, 3, false), (unhealthy, 3));
    assert_eq!(outcome(5, 3, true), (ferro_core::lifecycle::HealthStatus::Healthy, 0));
    assert_eq!(outcome(0, 0, false), (unhealthy, 1));
    assert_eq!(outcome(u32::MAX, 3, false), (unhealthy, u32::MAX));
    assert_eq!(unhealthy.name(), "unhealthy");
}
