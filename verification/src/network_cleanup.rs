//! What removing a container's networking comes to, decided from its record
//! before any host object is touched.

use crate::creation::{backend_named, parse_backend};
use crate::error::{ErrorView, RuntimeError};
use crate::network::{KernelIdentity, NetworkBackend};
use crate::records::{opt_str, opt_string_is, string_eq, ContainerRecord};
use crate::text::concat;
use vstd::prelude::*;
use vstd::string::StringExecFns;

verus! {

/// A namespace that a legacy record names and owns, with the kernel identity
/// it must still have before it is deleted.
#[derive(Debug, Clone, PartialEq, Eq)]
pub struct LegacyNamespace {
    pub name: String,
    pub identity: KernelIdentity,
}

/// The clean-up path a container record takes.
#[derive(Debug)]
pub enum NetworkCleanupStep {
    /// Detach the container from its managed overlay through the agent, then
    /// delete the recorded host veth and namespace by name.
    ManagedOverlay { overlay_id: String, host_veth: Option<String>, netns: Option<String> },
    /// Delete the proven legacy bridge rules, then refuse the record with
    /// `refusal`: its namespace and veth were never identified.
    LegacyRules { refusal: RuntimeError },
    /// Remove the owned network resources with `backend`; first, for a legacy
    /// record, verify and delete `legacy_namespace`.  `remove_shared_ebpf`
    /// says whether no other eBPF container shares the network.
    Resources {
        legacy_namespace: Option<LegacyNamespace>,
        backend: Option<NetworkBackend>,
        remove_shared_ebpf: bool,
    },
}

pub ghost enum CleanupStepView {
    ManagedOverlay { overlay_id: Seq<char>, host_veth: Option<Seq<char>>, netns: Option<Seq<char>> },
    LegacyRules { refusal: ErrorView },
    Resources {
        legacy_namespace: Option<(Seq<char>, KernelIdentity)>,
        backend: Option<NetworkBackend>,
        remove_shared_ebpf: bool,
    },
}

impl View for NetworkCleanupStep {
    type V = CleanupStepView;

    open spec fn view(&self) -> CleanupStepView {
        match self {
            NetworkCleanupStep::ManagedOverlay { overlay_id, host_veth, netns } => {
                CleanupStepView::ManagedOverlay {
                    overlay_id: overlay_id@,
                    host_veth: opt_str(*host_veth),
                    netns: opt_str(*netns),
                }
            },
            NetworkCleanupStep::LegacyRules { refusal } => CleanupStepView::LegacyRules {
                refusal: refusal@,
            },
            NetworkCleanupStep::Resources { legacy_namespace, backend, remove_shared_ebpf } => {
                CleanupStepView::Resources {
                    legacy_namespace: match legacy_namespace {
                        Some(n) => Some((n.name@, n.identity)),
                        None => None,
                    },
                    backend: *backend,
                    remove_shared_ebpf: *remove_shared_ebpf,
                }
            },
        }
    }
}

/// Another record than `record` runs on the eBPF backend in the network
/// `network_id`.
pub open spec fn shares_ebpf_network(
    record: ContainerRecord,
    all: Seq<ContainerRecord>,
    network_id: Seq<char>,
) -> bool {
    exists|j: int|
        0 <= j < all.len() && (#[trigger] all[j]).id@ != record.id@ && opt_str(
            all[j].network_backend,
        ) == Some("ebpf"@) && (all[j].network_ownership matches Some(o) && opt_str(o.network_id)
            == Some(network_id))
}

/// The shared eBPF objects of the record's network may go with it when the
/// record names no network, or when no other eBPF record shares it.
pub open spec fn shared_ebpf_removable(record: ContainerRecord, all: Seq<ContainerRecord>) -> bool {
    match record.network_ownership {
        Some(o) => match opt_str(o.network_id) {
            Some(id) => !shares_ebpf_network(record, all, id),
            None => true,
        },
        None => true,
    }
}

/// Before cleaning a legacy bridge record, its rules are proven against the
/// live ruleset only when it has a bridge network and published ports.
pub open spec fn legacy_proof_needed(record: ContainerRecord) -> bool {
    &&& record.managed_overlay is None
    &&& record.network_backend is None
    &&& record.network_ownership is None
    &&& opt_str(record.network_name) == Some("bridge"@)
    &&& record.ports@.len() > 0
}

pub open spec fn legacy_rules_refusal(id: Seq<char>) -> ErrorView {
    ErrorView::Network(
        "legacy rules for container "@ + id
            + " were removed, but namespace/veth identity was not recorded; remove those resources manually before retrying record removal"@,
    )
}

pub open spec fn legacy_bridge_refusal() -> ErrorView {
    ErrorView::Network(
        "legacy bridge record has no ownership metadata; networking was not removed. Recreate the original rules or remove them manually, then migrate the record"@,
    )
}

pub open spec fn missing_identity_error(id: Seq<char>) -> ErrorView {
    ErrorView::Network(
        "legacy container "@ + id
            + " has a namespace name but no kernel identity; retain the record and remove the namespace manually"@,
    )
}

pub open spec fn partial_ownership_error(id: Seq<char>) -> ErrorView {
    ErrorView::Network(
        "container "@ + id
            + " has malformed partial network ownership; restore or remove the record fields before cleanup"@,
    )
}

/// The clean-up path of `record` among `all`; `proven` is whether its legacy
/// bridge rules were proven present (or why that could not be checked), and
/// is read for a legacy record only.
pub open spec fn network_cleanup_of(
    record: ContainerRecord,
    all: Seq<ContainerRecord>,
    proven: Result<bool, ErrorView>,
) -> Result<CleanupStepView, ErrorView> {
    match opt_str(record.managed_overlay) {
        Some(overlay_id) => Ok(
            CleanupStepView::ManagedOverlay {
                overlay_id,
                host_veth: opt_str(record.managed_host_veth),
                netns: opt_str(record.netns),
            },
        ),
        None => if record.network_backend is None && record.network_ownership is None {
            match proven {
                Err(e) => Err(e),
                Ok(p) => if opt_str(record.network_name) == Some("bridge"@) {
                    if p {
                        Ok(CleanupStepView::LegacyRules { refusal: legacy_rules_refusal(record.id@) })
                    } else {
                        Err(legacy_bridge_refusal())
                    }
                } else if record.namespace_owned && record.netns is Some {
                    match record.namespace_identity {
                        None => Err(missing_identity_error(record.id@)),
                        Some(i) => Ok(
                            CleanupStepView::Resources {
                                legacy_namespace: Some(
                                    (
                                        opt_str(record.netns)->0,
                                        KernelIdentity { device: i.device, inode: i.inode },
                                    ),
                                ),
                                backend: None,
                                remove_shared_ebpf: true,
                            },
                        ),
                    }
                } else {
                    Ok(
                        CleanupStepView::Resources {
                            legacy_namespace: None,
                            backend: None,
                            remove_shared_ebpf: true,
                        },
                    )
                },
            }
        } else if record.network_backend is None || record.network_ownership is None {
            Err(partial_ownership_error(record.id@))
        } else {
            let name = opt_str(record.network_backend)->0;
            match backend_named(name) {
                None => Err(ErrorView::Network("malformed persisted backend: "@ + name)),
                Some(b) => Ok(
                    CleanupStepView::Resources {
                        legacy_namespace: None,
                        backend: Some(b),
                        remove_shared_ebpf: shared_ebpf_removable(record, all),
                    },
                ),
            }
        },
    }
}

/// Whether the legacy rules of `record` must be proven against the live
/// ruleset before its clean-up path can be decided.
pub fn legacy_rules_need_proof(record: &ContainerRecord) -> (r: bool)
    ensures
        r == legacy_proof_needed(*record),
{
    record.managed_overlay.is_none() && record.network_backend.is_none()
        && record.network_ownership.is_none() && opt_string_is(&record.network_name, "bridge")
        && record.ports.len() > 0
}

fn shared_ebpf_removable_exec(record: &ContainerRecord, all_records: &[ContainerRecord]) -> (r:
    bool)
    ensures
        r == shared_ebpf_removable(*record, all_records@),
{
    let network_id = match &record.network_ownership {
        Some(o) => match &o.network_id {
            Some(id) => id,
            None => {
                return true;
            },
        },
        None => {
            return true;
        },
    };
    let mut i: usize = 0;
    while i < all_records.len()
        invariant
            i <= all_records@.len(),
            record.network_ownership matches Some(o) && o.network_id == Some(*network_id),
            forall|j: int|
                0 <= j < i ==> !((#[trigger] all_records@[j]).id@ != record.id@ && opt_str(
                    all_records@[j].network_backend,
                ) == Some("ebpf"@) && (all_records@[j].network_ownership matches Some(o)
                    && opt_str(o.network_id) == Some(network_id@))),
        decreases all_records.len() - i,
    {
        let c = &all_records[i];
        let same_network = match &c.network_ownership {
            Some(o) => opt_string_is(&o.network_id, network_id.as_str()),
            None => false,
        };
        if !string_eq(&c.id, &record.id) && opt_string_is(&c.network_backend, "ebpf")
            && same_network {
            return false;
        }
        i += 1;
    }
    true
}

/// Decides the clean-up path of `record` among `all_records`; `proven` is the
/// outcome of proving its legacy bridge rules, needed only where
/// `legacy_rules_need_proof` says so (otherwise `Ok(false)`).
pub fn network_cleanup_step(
    record: &ContainerRecord,
    all_records: &[ContainerRecord],
    proven: &Result<bool, RuntimeError>,
) -> (r: Result<NetworkCleanupStep, RuntimeError>)
    ensures
        match r {
            Ok(step) => network_cleanup_of(
                *record,
                all_records@,
                match proven {
                    Ok(p) => Ok(*p),
                    Err(e) => Err(e@),
                },
            ) == Ok::<CleanupStepView, ErrorView>(step@),
            Err(e) => network_cleanup_of(
                *record,
                all_records@,
                match proven {
                    Ok(p) => Ok(*p),
                    Err(e) => Err(e@),
                },
            ) == Err::<CleanupStepView, ErrorView>(e@),
        },
{
    if let Some(overlay_id) = &record.managed_overlay {
        return Ok(
            NetworkCleanupStep::ManagedOverlay {
                overlay_id: overlay_id.clone(),
                host_veth: record.managed_host_veth.clone(),
                netns: record.netns.clone(),
            },
        );
    }
    if record.network_backend.is_none() && record.network_ownership.is_none() {
        let p = match proven {
            Err(e) => {
                return Err(e.duplicate());
            },
            Ok(p) => *p,
        };
        if opt_string_is(&record.network_name, "bridge") {
            if p {
                let head = concat("legacy rules for container ", record.id.as_str());
                let refusal = concat(
                    head.as_str(),
                    " were removed, but namespace/veth identity was not recorded; remove those resources manually before retrying record removal",
                );
                return Ok(
                    NetworkCleanupStep::LegacyRules { refusal: RuntimeError::Network(refusal) },
                );
            } else {
                return Err(
                    RuntimeError::Network(
                        String::from_str(
                            "legacy bridge record has no ownership metadata; networking was not removed. Recreate the original rules or remove them manually, then migrate the record",
                        ),
                    ),
                );
            }
        }
        if record.namespace_owned {
            if let Some(netns) = &record.netns {
                return match &record.namespace_identity {
                    None => {
                        let head = concat("legacy container ", record.id.as_str());
                        Err(
                            RuntimeError::Network(
                                concat(
                                    head.as_str(),
                                    " has a namespace name but no kernel identity; retain the record and remove the namespace manually",
                                ),
                            ),
                        )
                    },
                    Some(i) => Ok(
                        NetworkCleanupStep::Resources {
                            legacy_namespace: Some(
                                LegacyNamespace {
                                    name: netns.clone(),
                                    identity: KernelIdentity { device: i.device, inode: i.inode },
                                },
                            ),
                            backend: None,
                            remove_shared_ebpf: true,
                        },
                    ),
                };
            }
        }
        return Ok(
            NetworkCleanupStep::Resources {
                legacy_namespace: None,
                backend: None,
                remove_shared_ebpf: true,
            },
        );
    }
    let name = match (&record.network_backend, &record.network_ownership) {
        (Some(name), Some(_)) => name,
        _ => {
            let head = concat("container ", record.id.as_str());
            return Err(
                RuntimeError::Network(
                    concat(
                        head.as_str(),
                        " has malformed partial network ownership; restore or remove the record fields before cleanup",
                    ),
                ),
            );
        },
    };
    match parse_backend(name.as_str()) {
        None => Err(RuntimeError::Network(concat("malformed persisted backend: ", name.as_str()))),
        Some(b) => Ok(
            NetworkCleanupStep::Resources {
                legacy_namespace: None,
                backend: Some(b),
                remove_shared_ebpf: shared_ebpf_removable_exec(record, all_records),
            },
        ),
    }
}

} // verus!
