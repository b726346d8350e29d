//! Lifecycle decisions: restart policy, adaptive restart delays, the AI
//! memory step, action names, authorization/journal pairing, recovery truth
//! after a crash, and small textual settings read from the environment.

use crate::error::{ErrorView, RuntimeError};
use crate::records::{opt_str, ContainerRecord};
use crate::text::{
    chars_of, chars_skip, concat, decimal, eq_ignore_ascii_case, lower, parse_unsigned, seqs_of,
    split_char, split_chars, str_eq, trim, trim_chars, words, words_of,
};
use vstd::prelude::*;
use vstd::string::StringExecFns;

verus! {

/// When a container is restarted after its process ends.
#[derive(Debug, Clone, Copy, PartialEq, Eq, Structural)]
pub enum RestartPolicy {
    No,
    Always,
    UnlessStopped,
    OnFailure,
}

/// A process that was stopped or killed is never restarted; otherwise the
/// policy decides (`OnFailure` only for a non-zero exit code).
pub open spec fn restart_wanted(policy: RestartPolicy, status: Seq<char>, exit_code: i32) -> bool {
    if status == "stopped"@ || status == "killed"@ {
        false
    } else {
        match policy {
            RestartPolicy::No => false,
            RestartPolicy::Always => true,
            RestartPolicy::UnlessStopped => true,
            RestartPolicy::OnFailure => exit_code != 0,
        }
    }
}

pub fn should_restart(policy: &RestartPolicy, status: &str, exit_code: i32) -> (r: bool)
    ensures
        r == restart_wanted(*policy, status@, exit_code),
{
    if str_eq(status, "stopped") || str_eq(status, "killed") {
        return false;
    }
    match policy {
        RestartPolicy::No => false,
        RestartPolicy::Always => true,
        RestartPolicy::UnlessStopped => true,
        RestartPolicy::OnFailure => exit_code != 0,
    }
}

/// The advice of the adaptive restart model.
#[derive(Debug, Clone, Copy, PartialEq, Eq, Structural)]
pub enum RestartDecision {
    Restart,
    RestartAfterDelay { delay_secs: u64 },
    DoNotRestart,
}

/// Seconds to wait before restarting, or `None` to stop the restart loop;
/// without advice the delay is one second.
pub fn adaptive_restart_delay(decision: Option<RestartDecision>) -> (r: Option<u64>)
    ensures
        r == match decision {
            None => Some(1u64),
            Some(RestartDecision::Restart) => Some(1u64),
            Some(RestartDecision::RestartAfterDelay { delay_secs }) => Some(delay_secs),
            Some(RestartDecision::DoNotRestart) => None,
        },
{
    match decision {
        None | Some(RestartDecision::Restart) => Some(1),
        Some(RestartDecision::RestartAfterDelay { delay_secs }) => Some(delay_secs),
        Some(RestartDecision::DoNotRestart) => None,
    }
}

/// What the supervisor of a container's process does once the process
/// ended: stop, or wait this many seconds and start it again.
#[derive(Debug, Clone, Copy, PartialEq, Eq, Structural)]
pub enum SupervisorStep {
    Stop,
    RestartAfter { delay_secs: u64 },
}

/// The supervisor restarts only when the policy wants it and the adaptive
/// model (when there is one) does not advise against it, after the advised
/// delay but never sooner than a second.
pub open spec fn supervisor_step_of(
    policy: RestartPolicy,
    status: Seq<char>,
    exit_code: i32,
    decision: Option<RestartDecision>,
) -> SupervisorStep {
    if !restart_wanted(policy, status, exit_code) {
        SupervisorStep::Stop
    } else {
        match decision {
            Some(RestartDecision::DoNotRestart) => SupervisorStep::Stop,
            Some(RestartDecision::RestartAfterDelay { delay_secs }) => SupervisorStep::RestartAfter {
                delay_secs: if delay_secs > 1 {
                    delay_secs
                } else {
                    1
                },
            },
            _ => SupervisorStep::RestartAfter { delay_secs: 1 },
        }
    }
}

/// The supervisor's decision after the process ended with `exit_code` and
/// the record's status became `status`; `decision` is the adaptive model's
/// advice where the container has one.
pub fn supervisor_step(
    policy: &RestartPolicy,
    status: &str,
    exit_code: i32,
    decision: Option<RestartDecision>,
) -> (r: SupervisorStep)
    ensures
        r == supervisor_step_of(*policy, status@, exit_code, decision),
{
    if !should_restart(policy, status, exit_code) {
        return SupervisorStep::Stop;
    }
    match adaptive_restart_delay(decision) {
        None => SupervisorStep::Stop,
        Some(delay) => SupervisorStep::RestartAfter {
            delay_secs: if delay > 1 {
                delay
            } else {
                1
            },
        },
    }
}

/// The next memory limit of the AI action path: a quarter more (at least
/// one byte, saturating), capped by `ceiling`, and only if that raises it.
pub open spec fn next_memory_limit(current: u64, ceiling: u64) -> Option<u64> {
    if current == 0 {
        None
    } else {
        let step: int = if current / 4 > 1 {
            (current / 4) as int
        } else {
            1
        };
        let proposed: int = if current + step > u64::MAX {
            u64::MAX as int
        } else {
            current + step
        };
        let bounded: int = if proposed < ceiling {
            proposed
        } else {
            ceiling as int
        };
        if bounded > current {
            Some(bounded as u64)
        } else {
            None
        }
    }
}

pub fn ai_next_memory_limit(current: u64, ceiling: u64) -> (r: Option<u64>)
    ensures
        r == next_memory_limit(current, ceiling),
        r matches Some(v) ==> current < v && v <= ceiling,
{
    if current == 0 {
        return None;
    }
    let step = if current / 4 > 1 {
        current / 4
    } else {
        1
    };
    let proposed = current.saturating_add(step);
    let bounded = if proposed < ceiling {
        proposed
    } else {
        ceiling
    };
    if bounded > current {
        Some(bounded)
    } else {
        None
    }
}

/// The AI lifecycle runs only for a workload that has an AI configuration
/// and while AI is enabled.
pub fn ai_lifecycle_enabled(has_config: bool, ai_enabled: bool) -> (r: bool)
    ensures
        r == (has_config && ai_enabled),
{
    has_config && ai_enabled
}

/// The resource monitor runs only while AI is enabled and for a workload
/// with a memory limit.
pub fn should_start_ai_monitor(ai_enabled: bool, memory_limit: u64) -> (r: bool)
    ensures
        r == (ai_enabled && memory_limit > 0),
{
    ai_enabled && memory_limit > 0
}

/// A mutation that the runtime mediates.
#[derive(Debug, Clone, Copy, PartialEq, Eq, Structural)]
pub enum Action {
    ContainerRun,
    ContainerExec,
    ContainerPause,
    ContainerResume,
    ContainerStop,
    ContainerKill,
    ContainerRestart,
    ContainerStart,
    ContainerDelete,
    ContainerRename,
    ContainerArchiveWrite,
    /// A mutation of something other than a container.
    Other,
}

pub open spec fn action_name(a: Action) -> Seq<char> {
    match a {
        Action::ContainerRun => "container.run"@,
        Action::ContainerExec => "container.exec"@,
        Action::ContainerPause => "container.pause"@,
        Action::ContainerResume => "container.resume"@,
        Action::ContainerStop => "container.stop"@,
        Action::ContainerKill => "container.kill"@,
        Action::ContainerRestart => "container.restart"@,
        Action::ContainerStart => "container.start"@,
        Action::ContainerDelete => "container.delete"@,
        Action::ContainerRename => "container.rename"@,
        Action::ContainerArchiveWrite => "container.archive-write"@,
        Action::Other => "container.unsupported"@,
    }
}

pub fn runtime_action_name(action: Action) -> (r: &'static str)
    ensures
        r@ == action_name(action),
{
    match action {
        Action::ContainerRun => "container.run",
        Action::ContainerExec => "container.exec",
        Action::ContainerPause => "container.pause",
        Action::ContainerResume => "container.resume",
        Action::ContainerStop => "container.stop",
        Action::ContainerKill => "container.kill",
        Action::ContainerRestart => "container.restart",
        Action::ContainerStart => "container.start",
        Action::ContainerDelete => "container.delete",
        Action::ContainerRename => "container.rename",
        Action::ContainerArchiveWrite => "container.archive-write",
        Action::Other => "container.unsupported",
    }
}

/// A mutation as the witness journal records it.
#[derive(Debug, Clone, Copy, PartialEq, Eq, Structural)]
pub enum WitnessAction {
    ContainerRun,
    ContainerExec,
    ContainerPause,
    ContainerResume,
    ContainerStop,
    ContainerKill,
    ContainerRestart,
    ContainerStart,
    ContainerDelete,
    ContainerRename,
    ContainerArchiveWrite,
    /// A journalled mutation of something other than a container.
    Other,
}

pub open spec fn witness_as_action(a: WitnessAction) -> Action {
    match a {
        WitnessAction::ContainerRun => Action::ContainerRun,
        WitnessAction::ContainerExec => Action::ContainerExec,
        WitnessAction::ContainerPause => Action::ContainerPause,
        WitnessAction::ContainerResume => Action::ContainerResume,
        WitnessAction::ContainerStop => Action::ContainerStop,
        WitnessAction::ContainerKill => Action::ContainerKill,
        WitnessAction::ContainerRestart => Action::ContainerRestart,
        WitnessAction::ContainerStart => Action::ContainerStart,
        WitnessAction::ContainerDelete => Action::ContainerDelete,
        WitnessAction::ContainerRename => Action::ContainerRename,
        WitnessAction::ContainerArchiveWrite => Action::ContainerArchiveWrite,
        WitnessAction::Other => Action::Other,
    }
}

/// A journalled action has the same name as the mediated action.
pub fn runtime_witness_action_name(action: WitnessAction) -> (r: &'static str)
    ensures
        r@ == action_name(witness_as_action(action)),
{
    match action {
        WitnessAction::ContainerRun => "container.run",
        WitnessAction::ContainerExec => "container.exec",
        WitnessAction::ContainerPause => "container.pause",
        WitnessAction::ContainerResume => "container.resume",
        WitnessAction::ContainerStop => "container.stop",
        WitnessAction::ContainerKill => "container.kill",
        WitnessAction::ContainerRestart => "container.restart",
        WitnessAction::ContainerStart => "container.start",
        WitnessAction::ContainerDelete => "container.delete",
        WitnessAction::ContainerRename => "container.rename",
        WitnessAction::ContainerArchiveWrite => "container.archive-write",
        WitnessAction::Other => "container.unsupported",
    }
}

/// Points of a lifecycle operation at which an observer is told of progress.
#[derive(Debug, Clone, Copy, PartialEq, Eq, Structural)]
pub enum LifecyclePhasePoint {
    DecisionDurable,
    ReservationDurable,
    NetworkApplied,
    CgroupApplied,
    RestartOldStopped,
    BindKernelEffect,
    TmpfsKernelEffect,
    ReadonlyKernelEffect,
    NetworkKernelEffect,
    NetworkResourcesCreatedBeforeOwnership,
    CgroupKernelEffect,
    SpawnPrepared,
    LaunchIdentityDurable,
    KernelEffectApplied,
    EffectObserved,
    TerminalDurable,
    ReservationCleared,
}

/// An observer of lifecycle progress; an error aborts the operation.
pub trait LifecyclePhaseHook {
    fn reached(&self, action: &str, phase: LifecyclePhasePoint) -> Result<(), RuntimeError>;
}

/// The observer that accepts every phase.
pub struct NoopLifecyclePhaseHook;

impl LifecyclePhaseHook for NoopLifecyclePhaseHook {
    /// Accepts every phase.
    fn reached(&self, _action: &str, _phase: LifecyclePhasePoint) -> (r: Result<(), RuntimeError>)
        ensures
            r is Ok,
    {
        Ok(())
    }
}

/// How mutations are authorized.
#[derive(Debug, Clone, Copy, PartialEq, Eq, Structural)]
pub enum AuthorizationMode {
    Disabled,
    Shadow,
    Enforce,
}

/// How the witness journal is kept.
#[derive(Debug, Clone, Copy, PartialEq, Eq, Structural)]
pub enum JournalMode {
    Disabled,
    Required,
}

/// Disabled authorization runs without a journal. Shadow and enforced
/// authorization either run without a journal (policy mediation stays
/// enabled, nothing is persisted) or need the shared journal in required
/// mode.
pub fn require_authorization_journal(mode: AuthorizationMode, journal: Option<JournalMode>) -> (r:
    Result<(), RuntimeError>)
    ensures
        mode == AuthorizationMode::Disabled ==> (r is Ok <==> journal is None),
        mode != AuthorizationMode::Disabled ==> (r is Ok <==> (journal is None || journal == Some(
            JournalMode::Required,
        ))),
        r matches Err(e) ==> e@ == (if mode == AuthorizationMode::Disabled {
            ErrorView::Authorization(
                "disabled authorization cannot use the required witness journal"@,
            )
        } else {
            ErrorView::Authorization(
                "enabled authorization requires the shared required witness journal"@,
            )
        }),
{
    match mode {
        AuthorizationMode::Disabled => {
            if journal.is_none() {
                Ok(())
            } else {
                Err(
                    RuntimeError::Authorization(
                        String::from_str(
                            "disabled authorization cannot use the required witness journal",
                        ),
                    ),
                )
            }
        },
        _ => {
            if journal.is_none() || journal == Some(JournalMode::Required) {
                Ok(())
            } else {
                Err(
                    RuntimeError::Authorization(
                        String::from_str(
                            "enabled authorization requires the shared required witness journal",
                        ),
                    ),
                )
            }
        },
    }
}

/// Where a lifecycle operation stands.
#[derive(Debug, Clone, Copy, PartialEq, Eq, Structural)]
pub enum LifecyclePhase {
    Reserved,
    EffectApplied,
    StoreDeleted,
}

/// The parts of a journalled lifecycle operation that recovery reads.
#[derive(Debug, Clone, PartialEq, Eq)]
pub struct LifecycleOperation {
    pub container_id: String,
    /// The mediated action, such as `container.run`.
    pub action: String,
    pub generation: u64,
    pub phase: LifecyclePhase,
    pub pid: u32,
    pub process_start_time: Option<u64>,
    pub result_digest: Option<[u8; 32]>,
    pub pid_after: Option<u32>,
    pub process_start_time_after: Option<u64>,
    pub state_after: Option<String>,
    pub freezer_state_after: Option<bool>,
    pub execution_generation_after: Option<u64>,
    pub effect_succeeded: Option<bool>,
}

/// What recovery observed of the host's processes.
#[derive(Debug, Clone, Copy, PartialEq, Eq, Structural)]
pub struct ProcessFacts {
    /// Whether the record's process exists.
    pub record_pid_exists: bool,
    /// The start time of the record's process, if it is running.
    pub record_pid_start_time: Option<u64>,
    /// The start time of the process the operation acted on, if running.
    pub operation_pid_start_time: Option<u64>,
    /// Whether the record's creation provenance can be verified.
    pub provenance_verifiable: bool,
}

/// Whether the persisted record, the journalled operation and the observed
/// processes together prove that an interrupted `action` took effect.
pub open spec fn recovery_truth(record: ContainerRecord, operation: Option<LifecycleOperation>, action: Seq<char>, f: ProcessFacts) -> bool {
    if action == "container.exec"@ {
        operation matches Some(op) && op.phase == LifecyclePhase::EffectApplied && op.result_digest is Some
            && op.pid_after == Some(record.pid) && op.process_start_time_after == f.record_pid_start_time
    } else if action == "container.pause"@ {
        record.status@ == "paused"@ && (operation matches Some(op) && opt_str(op.state_after) == Some("paused"@)
            && op.freezer_state_after == Some(true))
    } else if action == "container.resume"@ {
        record.status@ == "running"@ && (operation matches Some(op) && opt_str(op.state_after) == Some("running"@)
            && op.freezer_state_after == Some(false)) && f.record_pid_exists
    } else if action == "container.stop"@ || action == "container.kill"@ {
        let expected = if action == "container.stop"@ { "stopped"@ } else { "killed"@ };
        operation matches Some(op) && record.status@ == expected && opt_str(op.state_after) == Some(expected)
            && f.operation_pid_start_time != op.process_start_time
    } else if action == "container.restart"@ {
        record.status@ == "running"@ && f.record_pid_exists && (operation matches Some(op)
            && op.execution_generation_after == Some(
                (if op.generation == u64::MAX { u64::MAX } else { (op.generation + 1) as u64 }),
            ) && op.pid_after == Some(record.pid) && op.process_start_time_after == f.record_pid_start_time)
    } else if action == "container.delete"@ {
        record.status@ == "removed-pending"@
    } else if action == "container.run"@ {
        operation matches Some(op) && op.phase == LifecyclePhase::EffectApplied && op.effect_succeeded == Some(true)
            && f.provenance_verifiable && record.status@ == "running"@ && f.record_pid_exists
            && op.pid_after == Some(record.pid) && op.process_start_time_after == f.record_pid_start_time
            && op.execution_generation_after == Some(op.generation)
    } else {
        false
    }
}

fn state_is(o: &Option<String>, s: &str) -> (r: bool)
    ensures
        r == (opt_str(*o) == Some(s@)),
{
    crate::records::opt_string_is(o, s)
}

pub fn recovery_truth_matches(
    record: &ContainerRecord,
    operation: Option<&LifecycleOperation>,
    action: &str,
    facts: ProcessFacts,
) -> (r: bool)
    ensures
        r == recovery_truth(
            *record,
            match operation {
                Some(op) => Some(*op),
                None => None,
            },
            action@,
            facts,
        ),
{
    let status = record.status.as_str();
    if str_eq(action, "container.exec") {
        match operation {
            Some(op) => op.phase == LifecyclePhase::EffectApplied && op.result_digest.is_some()
                && op.pid_after == Some(record.pid) && op.process_start_time_after
                == facts.record_pid_start_time,
            None => false,
        }
    } else if str_eq(action, "container.pause") {
        str_eq(status, "paused") && match operation {
            Some(op) => state_is(&op.state_after, "paused") && op.freezer_state_after == Some(true),
            None => false,
        }
    } else if str_eq(action, "container.resume") {
        str_eq(status, "running") && match operation {
            Some(op) => state_is(&op.state_after, "running") && op.freezer_state_after == Some(
                false,
            ),
            None => false,
        } && facts.record_pid_exists
    } else if str_eq(action, "container.stop") || str_eq(action, "container.kill") {
        let expected = if str_eq(action, "container.stop") {
            "stopped"
        } else {
            "killed"
        };
        match operation {
            Some(op) => str_eq(status, expected) && state_is(&op.state_after, expected)
                && facts.operation_pid_start_time != op.process_start_time,
            None => false,
        }
    } else if str_eq(action, "container.restart") {
        str_eq(status, "running") && facts.record_pid_exists && match operation {
            Some(op) => op.execution_generation_after == Some(op.generation.saturating_add(1))
                && op.pid_after == Some(record.pid) && op.process_start_time_after
                == facts.record_pid_start_time,
            None => false,
        }
    } else if str_eq(action, "container.delete") {
        str_eq(status, "removed-pending")
    } else if str_eq(action, "container.run") {
        match operation {
            Some(op) => op.phase == LifecyclePhase::EffectApplied && op.effect_succeeded == Some(
                true,
            ) && facts.provenance_verifiable && str_eq(status, "running")
                && facts.record_pid_exists && op.pid_after == Some(record.pid)
                && op.process_start_time_after == facts.record_pid_start_time
                && op.execution_generation_after == Some(op.generation),
            None => false,
        }
    } else {
        false
    }
}

/// A container's health as its periodic check reports it.
#[derive(Debug, Clone, Copy, PartialEq, Eq, Structural)]
pub enum HealthStatus {
    Starting,
    Healthy,
    Unhealthy,
}

impl HealthStatus {
    /// The status as a record stores it.
    pub fn name(&self) -> (r: &'static str)
        ensures
            r@ == health_status_name(*self),
    {
        match self {
            HealthStatus::Starting => "starting",
            HealthStatus::Healthy => "healthy",
            HealthStatus::Unhealthy => "unhealthy",
        }
    }
}

pub open spec fn health_status_name(s: HealthStatus) -> Seq<char> {
    match s {
        HealthStatus::Starting => "starting"@,
        HealthStatus::Healthy => "healthy"@,
        HealthStatus::Unhealthy => "unhealthy"@,
    }
}

/// After a check: a pass is healthy and clears the failure count; a failure
/// counts up (saturating) and is unhealthy once the count reaches the
/// configured retries (at least one), starting before that.
pub open spec fn health_after(failures: u32, retries: u32, passed: bool) -> (HealthStatus, u32) {
    if passed {
        (HealthStatus::Healthy, 0)
    } else {
        let f: u32 = if failures == u32::MAX { u32::MAX } else { (failures + 1) as u32 };
        let limit: u32 = if retries < 1 { 1 } else { retries };
        (if f >= limit { HealthStatus::Unhealthy } else { HealthStatus::Starting }, f)
    }
}

/// The health status and failure count that one check leaves, from the
/// consecutive failures before it.
pub fn health_check_outcome(failures: u32, retries: u32, passed: bool) -> (r: (HealthStatus, u32))
    ensures
        r == health_after(failures, retries, passed),
{
    if passed {
        return (HealthStatus::Healthy, 0);
    }
    let f = failures.saturating_add(1);
    let limit = if retries < 1 { 1 } else { retries };
    (if f >= limit { HealthStatus::Unhealthy } else { HealthStatus::Starting }, f)
}

} // verus!
