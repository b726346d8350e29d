//! Settling the mutations that a crash left pending: which reservations are
//! still owned by a live process, which are recovered or quarantined, which
//! records are deleted, and how the reservation is closed afterwards.

use crate::lifecycle::{
    action_name, recovery_truth, recovery_truth_matches, runtime_witness_action_name,
    witness_as_action, LifecycleOperation, LifecyclePhase, ProcessFacts, WitnessAction,
};
use crate::records::ContainerRecord;
use crate::text::{chars_eq, chars_of, str_eq, trim, trim_chars};
use crate::lifecycle::Action;
use vstd::prelude::*;

verus! {

/// The reservation that an interrupted mutation left on its container record.
#[derive(Debug, Clone, PartialEq, Eq)]
pub struct MutationReservation {
    pub operation_id: [u8; 16],
    pub generation: u64,
    pub expected_status: String,
    pub action: String,
}

/// What recovery observed of the host for a record with a pending mutation.
#[derive(Debug, Clone, Copy, PartialEq, Eq, Structural)]
pub struct RecoveryObservation {
    /// The record's and the operation's processes.
    pub process: ProcessFacts,
    /// Whether the container's root filesystem directory exists.
    pub rootfs_present: bool,
    /// Whether the authorization layer accepts the record's provenance.
    pub provenance_matches: bool,
}

/// How a settled reservation is closed once the journal has recorded the
/// outcome.
#[derive(Debug, Clone, Copy, PartialEq, Eq, Structural)]
pub enum ReservationClose {
    /// The record is gone: acknowledge the operation.
    Acknowledge,
    /// Leave the reservation in place as a visible quarantine boundary.
    Keep,
    /// Clear the reservation from the record.
    Finish,
}

/// What recovery does with one pending mutation.
#[derive(Debug, Clone, Copy, PartialEq, Eq, Structural)]
pub enum PendingResolution {
    /// A run whose owner is still publishing it; it is left alone.
    InFlight,
    /// The mutation is settled: `recovered` when the persisted state proves
    /// the effect (otherwise the record is stored as quarantined),
    /// `delete_record` when the record is removed rather than rewritten.
    Settle { recovered: bool, delete_record: bool, close: ReservationClose },
}

pub open spec fn is_run(action: Seq<char>) -> bool {
    action == "container.run"@
}

/// The record's process is alive and has a known start time.
pub open spec fn process_alive(o: RecoveryObservation) -> bool {
    o.process.record_pid_exists && o.process.record_pid_start_time is Some
}

/// A run reservation whose running process and root filesystem exist belongs
/// to the process that is still publishing it.
pub open spec fn run_in_flight(record: ContainerRecord, action: Seq<char>, o: RecoveryObservation) -> bool {
    is_run(action) && record.status@ == "running"@ && process_alive(o) && o.rootfs_present
}

/// The journal names the same action and generation as the reservation, and
/// the persisted state proves the effect (for a run, with its root
/// filesystem present).
pub open spec fn pending_truth(
    record: ContainerRecord,
    action: Seq<char>,
    generation: u64,
    journal_action: Seq<char>,
    journal_generation: u64,
    operation: Option<LifecycleOperation>,
    o: RecoveryObservation,
) -> bool {
    &&& journal_action == action
    &&& journal_generation == generation
    &&& recovery_truth(record, operation, action, o.process)
    &&& (!is_run(action) || o.rootfs_present)
}

/// A run whose effects are live: an accepted provenance, a running process
/// and its root filesystem.
pub open spec fn run_live_effects(record: ContainerRecord, action: Seq<char>, o: RecoveryObservation) -> bool {
    is_run(action) && o.provenance_matches && record.status@ == "running"@ && process_alive(o)
        && o.rootfs_present
}

/// A run that never took effect: nothing of it is live, and its journalled
/// operation is still reserved or records a failed effect.
pub open spec fn run_not_applied(
    record: ContainerRecord,
    action: Seq<char>,
    operation: Option<LifecycleOperation>,
    o: RecoveryObservation,
) -> bool {
    is_run(action) && !run_live_effects(record, action, o) && (operation matches Some(op) && (
    op.phase == LifecyclePhase::Reserved || op.effect_succeeded == Some(false)))
}

pub open spec fn pending_resolution(
    record: ContainerRecord,
    action: Seq<char>,
    generation: u64,
    journal_action: Seq<char>,
    journal_generation: u64,
    operation: Option<LifecycleOperation>,
    o: RecoveryObservation,
) -> PendingResolution {
    if run_in_flight(record, action, o) {
        PendingResolution::InFlight
    } else {
        let truth = pending_truth(
            record,
            action,
            generation,
            journal_action,
            journal_generation,
            operation,
            o,
        );
        let delete = (action == "container.delete"@ && truth) || run_not_applied(
            record,
            action,
            operation,
            o,
        );
        let close = if delete {
            ReservationClose::Acknowledge
        } else if run_live_effects(record, action, o) && !truth {
            ReservationClose::Keep
        } else {
            ReservationClose::Finish
        };
        PendingResolution::Settle { recovered: truth, delete_record: delete, close }
    }
}

/// Decides what recovery does with the mutation `reservation` that the
/// journal still lists as pending, as `journal_action` at
/// `journal_generation`; `operation` is the durable lifecycle operation of
/// the reservation, if any.
pub fn resolve_pending_mutation(
    record: &ContainerRecord,
    reservation: &MutationReservation,
    journal_action: WitnessAction,
    journal_generation: u64,
    operation: Option<&LifecycleOperation>,
    observation: RecoveryObservation,
) -> (r: PendingResolution)
    ensures
        r == pending_resolution(
            *record,
            reservation.action@,
            reservation.generation,
            action_name(witness_as_action(journal_action)),
            journal_generation,
            match operation {
                Some(op) => Some(*op),
                None => None,
            },
            observation,
        ),
{
    let ghost op_view = match operation {
        Some(op) => Some(*op),
        None => None,
    };
    let action = reservation.action.as_str();
    let run = str_eq(action, "container.run");
    let running = str_eq(record.status.as_str(), "running");
    let alive = observation.process.record_pid_exists
        && observation.process.record_pid_start_time.is_some();
    if run && running && alive && observation.rootfs_present {
        return PendingResolution::InFlight;
    }
    let action_matches = str_eq(runtime_witness_action_name(journal_action), action);
    let generation_matches = journal_generation == reservation.generation;
    let truth = action_matches && generation_matches && recovery_truth_matches(
        record,
        operation,
        action,
        observation.process,
    ) && (!run || observation.rootfs_present);
    let live = run && observation.provenance_matches && running && alive
        && observation.rootfs_present;
    let not_applied = run && !live && match operation {
        Some(op) => op.phase == LifecyclePhase::Reserved || op.effect_succeeded == Some(false),
        None => false,
    };
    let delete = (str_eq(action, "container.delete") && truth) || not_applied;
    let close = if delete {
        ReservationClose::Acknowledge
    } else if live && !truth {
        ReservationClose::Keep
    } else {
        ReservationClose::Finish
    };
    proof {
        assert(truth == pending_truth(
            *record,
            reservation.action@,
            reservation.generation,
            action_name(witness_as_action(journal_action)),
            journal_generation,
            op_view,
            observation,
        ));
    }
    PendingResolution::Settle { recovered: truth, delete_record: delete, close }
}

/// What recovery does with a journal entry whose container record is gone:
/// the entry is reconciled as a recovered delete when the operation's
/// tombstone shows a completed delete, and acknowledged when any tombstone
/// exists.
#[derive(Debug, Clone, Copy, PartialEq, Eq, Structural)]
pub struct OrphanResolution {
    pub recovered_delete: bool,
    pub acknowledge: bool,
}

pub open spec fn orphan_resolution(tombstone: Option<LifecycleOperation>) -> OrphanResolution {
    OrphanResolution {
        recovered_delete: tombstone matches Some(t) && t.action@ == "container.delete"@ && t.phase
            == LifecyclePhase::StoreDeleted,
        acknowledge: tombstone is Some,
    }
}

pub fn resolve_orphaned_entry(tombstone: Option<&LifecycleOperation>) -> (r: OrphanResolution)
    ensures
        r == orphan_resolution(
            match tombstone {
                Some(t) => Some(*t),
                None => None,
            },
        ),
{
    match tombstone {
        Some(t) => OrphanResolution {
            recovered_delete: str_eq(t.action.as_str(), "container.delete") && t.phase
                == LifecyclePhase::StoreDeleted,
            acknowledge: true,
        },
        None => OrphanResolution { recovered_delete: false, acknowledge: false },
    }
}

/// What recovery does with a lifecycle operation whose journal entry is
/// already complete but whose store clean-up may not have run.
#[derive(Debug, Clone, Copy, PartialEq, Eq, Structural)]
pub enum CompletedOperationStep {
    /// Nothing to do (or the operation is not finished in the journal).
    Skip,
    /// The record is already deleted: acknowledge the operation.
    Acknowledge,
    /// A failed run whose process is not live: delete the record, then
    /// acknowledge the operation.
    DeleteAndAcknowledge,
    /// Clear the reservation from the record.
    Finish,
}

/// The observed state of the record that an operation belongs to.
#[derive(Debug, Clone, Copy, PartialEq, Eq, Structural)]
pub struct OperationRecordFacts {
    pub running: bool,
    pub quarantined: bool,
    pub process_exists: bool,
    pub provenance_matches: bool,
}

pub open spec fn completed_operation_step(
    journal_complete: bool,
    operation: LifecycleOperation,
    record: Option<OperationRecordFacts>,
) -> CompletedOperationStep {
    if !journal_complete {
        CompletedOperationStep::Skip
    } else if operation.phase == LifecyclePhase::StoreDeleted {
        CompletedOperationStep::Acknowledge
    } else if is_run(operation.action@) && (record matches Some(f) && f.quarantined
        && f.process_exists) {
        CompletedOperationStep::Skip
    } else if is_run(operation.action@) && operation.effect_succeeded == Some(false) && (
    record matches Some(f) && (!f.running || !f.process_exists || !f.provenance_matches)) {
        CompletedOperationStep::DeleteAndAcknowledge
    } else if record is Some {
        CompletedOperationStep::Finish
    } else {
        CompletedOperationStep::Skip
    }
}

/// Decides the final clean-up of a lifecycle operation; `journal_complete`
/// says whether the journal reports the operation as already complete and
/// `record` describes its container record, if the store still holds one.
pub fn settle_completed_operation(
    journal_complete: bool,
    operation: &LifecycleOperation,
    record: Option<OperationRecordFacts>,
) -> (r: CompletedOperationStep)
    ensures
        r == completed_operation_step(journal_complete, *operation, record),
{
    if !journal_complete {
        return CompletedOperationStep::Skip;
    }
    if operation.phase == LifecyclePhase::StoreDeleted {
        return CompletedOperationStep::Acknowledge;
    }
    let run = str_eq(operation.action.as_str(), "container.run");
    match record {
        Some(f) => {
            if run && f.quarantined && f.process_exists {
                CompletedOperationStep::Skip
            } else if run && operation.effect_succeeded == Some(false) && (!f.running
                || !f.process_exists || !f.provenance_matches) {
                CompletedOperationStep::DeleteAndAcknowledge
            } else {
                CompletedOperationStep::Finish
            }
        },
        None => CompletedOperationStep::Skip,
    }
}

/// A running or paused record with no pending mutation whose process is
/// gone is stale; it is marked exited, keeping a recorded exit code or else
/// recording -1.
pub open spec fn stale_exit_code(
    status: Seq<char>,
    has_pending_mutation: bool,
    process_exists: bool,
    last_exit_code: Option<i32>,
) -> Option<i32> {
    if (status == "running"@ || status == "paused"@) && !has_pending_mutation && !process_exists {
        Some(
            match last_exit_code {
                Some(c) => c,
                None => -1i32,
            },
        )
    } else {
        None
    }
}

/// Startup reconciliation of one record: the exit code to record when the
/// record is marked exited, or `None` to leave it as it is.
pub fn stale_record_exit(
    status: &str,
    has_pending_mutation: bool,
    process_exists: bool,
    last_exit_code: Option<i32>,
) -> (r: Option<i32>)
    ensures
        r == stale_exit_code(status@, has_pending_mutation, process_exists, last_exit_code),
{
    if !(str_eq(status, "running") || str_eq(status, "paused")) || has_pending_mutation
        || process_exists {
        return None;
    }
    match last_exit_code {
        Some(c) => Some(c),
        None => Some(-1),
    }
}

/// How a mediated mutation of an existing container is closed once its
/// effect has run.
#[derive(Debug, Clone, Copy, PartialEq, Eq, Structural)]
pub enum MediationClose {
    /// Whether the effect persisted is unknown: the journal entry is
    /// completed as unknown and the reservation stays.
    CompleteUnknown,
    /// A successful delete: the record is deleted, the journal entry
    /// completed and the operation acknowledged.
    FinalizeDelete,
    /// The journal entry is completed with `success` and the reservation is
    /// cleared.
    Complete { success: bool },
}

/// What the mediator records after the effect: whether the effect counts as
/// observed, whether the cgroup freezer state is read for it, and how the
/// operation is closed.
#[derive(Debug, Clone, Copy, PartialEq, Eq, Structural)]
pub struct MediationOutcome {
    pub effect_observed: bool,
    pub reads_freezer: bool,
    pub close: MediationClose,
}

pub open spec fn mediation_outcome_of(action: Action, succeeded: bool, post_effect_unknown: bool) -> MediationOutcome {
    MediationOutcome {
        effect_observed: succeeded || post_effect_unknown,
        reads_freezer: action == Action::ContainerPause || action == Action::ContainerResume,
        close: if post_effect_unknown {
            MediationClose::CompleteUnknown
        } else if action == Action::ContainerDelete && succeeded {
            MediationClose::FinalizeDelete
        } else {
            MediationClose::Complete { success: succeeded }
        },
    }
}

/// Decides how a mediated `action` is closed: `succeeded` when the effect
/// returned success, `post_effect_unknown` when it failed only in persisting
/// what it did.
pub fn mediation_outcome(action: Action, succeeded: bool, post_effect_unknown: bool) -> (r:
    MediationOutcome)
    ensures
        r == mediation_outcome_of(action, succeeded, post_effect_unknown),
{
    let close = if post_effect_unknown {
        MediationClose::CompleteUnknown
    } else if action == Action::ContainerDelete && succeeded {
        MediationClose::FinalizeDelete
    } else {
        MediationClose::Complete { success: succeeded }
    };
    MediationOutcome {
        effect_observed: succeeded || post_effect_unknown,
        reads_freezer: action == Action::ContainerPause || action == Action::ContainerResume,
        close,
    }
}

pub open spec fn freezer_state_of(text: Seq<char>) -> Option<bool> {
    if trim(text) == "1"@ {
        Some(true)
    } else if trim(text) == "0"@ {
        Some(false)
    } else {
        None
    }
}

/// The state a `cgroup.freeze` file reports: frozen, thawed, or unknown.
pub fn parse_freezer_state(text: &str) -> (r: Option<bool>)
    ensures
        r == freezer_state_of(text@),
{
    let c = chars_of(text);
    let t = trim_chars(c.as_slice());
    let one = chars_of("1");
    let zero = chars_of("0");
    if chars_eq(t.as_slice(), one.as_slice()) {
        Some(true)
    } else if chars_eq(t.as_slice(), zero.as_slice()) {
        Some(false)
    } else {
        None
    }
}

} // verus!
