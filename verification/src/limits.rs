//! Resource limits as a run applies them and as its record persists them,
//! the check a run makes of a new container identity, and the checks a
//! restart makes before it replaces the process.

use crate::error::{ErrorView, RuntimeError};
use crate::text::{concat, str_eq};
use vstd::prelude::*;
use vstd::string::StringExecFns;

verus! {

/// A CPU bandwidth limit: `quota` microseconds in every `period`.
#[derive(Debug, Clone, Copy, PartialEq, Eq, Structural)]
pub struct CpuMax {
    pub quota: u64,
    pub period: u64,
}

/// The cgroup limits of a container.
#[derive(Debug, Clone, Copy, PartialEq, Eq, Structural)]
pub struct ResourceLimits {
    pub memory_max: Option<u64>,
    pub cpu_max: Option<CpuMax>,
    pub pids_max: Option<u64>,
}

/// The limits as a container record stores them, the CPU limit flattened.
#[derive(Debug, Clone, Copy, PartialEq, Eq, Structural)]
pub struct ResourceLimitRecord {
    pub memory_max: Option<u64>,
    pub cpu_quota: Option<u64>,
    pub cpu_period: Option<u64>,
    pub pids_max: Option<u64>,
}

pub open spec fn limit_record_of(l: ResourceLimits) -> ResourceLimitRecord {
    ResourceLimitRecord {
        memory_max: l.memory_max,
        cpu_quota: match l.cpu_max {
            Some(c) => Some(c.quota),
            None => None,
        },
        cpu_period: match l.cpu_max {
            Some(c) => Some(c.period),
            None => None,
        },
        pids_max: l.pids_max,
    }
}

/// The record a run stores for the limits it applied.
pub fn resource_limit_record(limits: &ResourceLimits) -> (r: ResourceLimitRecord)
    ensures
        r == limit_record_of(*limits),
{
    ResourceLimitRecord {
        memory_max: limits.memory_max,
        cpu_quota: match limits.cpu_max {
            Some(c) => Some(c.quota),
            None => None,
        },
        cpu_period: match limits.cpu_max {
            Some(c) => Some(c.period),
            None => None,
        },
        pids_max: limits.pids_max,
    }
}

pub open spec fn restored_limits(r: ResourceLimitRecord) -> Result<ResourceLimits, ErrorView> {
    match (r.cpu_quota, r.cpu_period) {
        (Some(quota), Some(period)) => Ok(
            ResourceLimits {
                memory_max: r.memory_max,
                cpu_max: Some(CpuMax { quota, period }),
                pids_max: r.pids_max,
            },
        ),
        (None, None) => Ok(
            ResourceLimits { memory_max: r.memory_max, cpu_max: None, pids_max: r.pids_max },
        ),
        _ => Err(
            ErrorView::InvalidState("persisted resource limits contain an incomplete cpu quota"@),
        ),
    }
}

/// The limits a restart re-applies from a stored record; a quota without a
/// period (or the reverse) is refused.
pub fn restore_resource_limits(stored: &ResourceLimitRecord) -> (r: Result<
    ResourceLimits,
    RuntimeError,
>)
    ensures
        match r {
            Ok(l) => restored_limits(*stored) == Ok::<ResourceLimits, ErrorView>(l),
            Err(e) => restored_limits(*stored) == Err::<ResourceLimits, ErrorView>(e@),
        },
{
    let cpu_max = match (stored.cpu_quota, stored.cpu_period) {
        (Some(quota), Some(period)) => Some(CpuMax { quota, period }),
        (None, None) => None,
        _ => {
            return Err(
                RuntimeError::InvalidState(
                    String::from_str("persisted resource limits contain an incomplete cpu quota"),
                ),
            );
        },
    };
    Ok(ResourceLimits { memory_max: stored.memory_max, cpu_max, pids_max: stored.pids_max })
}

pub open spec fn restart_check(command_len: nat, stop_existing: bool, status: Seq<char>) -> Result<
    (),
    ErrorView,
> {
    if command_len == 0 {
        Err(ErrorView::MissingCommand)
    } else if !stop_existing && status == "running"@ {
        Err(ErrorView::InvalidState("container is already running"@))
    } else {
        Ok(())
    }
}

/// A restart (or start) needs a stored command; a start that does not stop
/// the existing process refuses a running container.
pub fn check_restart_request(command: &[String], stop_existing: bool, status: &str) -> (r: Result<
    (),
    RuntimeError,
>)
    ensures
        match r {
            Ok(()) => restart_check(command@.len(), stop_existing, status@) is Ok,
            Err(e) => restart_check(command@.len(), stop_existing, status@) == Err::<(), ErrorView>(
                e@,
            ),
        },
{
    if command.len() == 0 {
        return Err(RuntimeError::MissingCommand);
    }
    if !stop_existing && str_eq(status, "running") {
        return Err(RuntimeError::InvalidState(String::from_str("container is already running")));
    }
    Ok(())
}

/// A run creates a container only under an identity no stored record
/// holds; `already_stored` says whether the store holds one.
pub fn check_new_container_identity(container_id: &str, already_stored: bool) -> (r: Result<
    (),
    RuntimeError,
>)
    ensures
        r is Ok <==> !already_stored,
        r matches Err(e) ==> e@ == ErrorView::InvalidState(
            "container identity already exists: "@ + container_id@,
        ),
{
    if already_stored {
        return Err(
            RuntimeError::InvalidState(concat("container identity already exists: ", container_id)),
        );
    }
    Ok(())
}

} // verus!
