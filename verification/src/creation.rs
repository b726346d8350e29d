//! What a container creation has done so far, kept so that a failed
//! creation can be undone: the network objects it made, the host settings
//! it changed, the firewall rules it must remove, and who may clean up.

use crate::error::{ErrorView, RuntimeError};
use crate::network::{NetworkBackend, NetworkMutationJournal, NetworkMutationKind};
use crate::records::{KernelObjectIdentityRecord, NetworkOwnershipRecord, PortMappingRecord};
use crate::rollback::{
    rollback_authority_matches, CleanupAuthority, CreationProvenance, LegacyCleanupAuthority,
    ResourceLedger,
};
use crate::sysctl::{GlobalValueOwnership, InterfaceValueOwnership};
use crate::text::str_eq;
use vstd::prelude::*;
use vstd::string::StringExecFns;

verus! {

/// The network that setup established for a container.
#[derive(Debug, Clone)]
pub struct NetworkSetup {
    pub netns_name: Option<String>,
    pub namespace_owned: bool,
    pub namespace_identity: Option<KernelObjectIdentityRecord>,
    pub container_ip: Option<String>,
    pub container_ipv6: Option<String>,
    pub backend: Option<NetworkBackend>,
    pub ownership: Option<NetworkOwnershipRecord>,
    /// Whether setup created a shared eBPF network that is not yet persisted.
    pub shared_network: bool,
    pub managed_overlay: Option<String>,
    pub managed_host_veth: Option<String>,
}

impl NetworkSetup {
    /// A container in a namespace of its own, without a bridge backend: the
    /// namespace, when there is one, is owned.
    pub fn isolated(
        netns_name: Option<String>,
        container_ip: Option<String>,
        container_ipv6: Option<String>,
    ) -> (r: NetworkSetup)
        ensures
            r.netns_name == netns_name,
            r.namespace_owned == netns_name is Some,
            r.namespace_identity is None,
            r.container_ip == container_ip,
            r.container_ipv6 == container_ipv6,
            r.backend is None,
            r.ownership is None,
            !r.shared_network,
            r.managed_overlay is None,
            r.managed_host_veth is None,
    {
        let namespace_owned = netns_name.is_some();
        NetworkSetup {
            netns_name,
            namespace_owned,
            namespace_identity: None,
            container_ip,
            container_ipv6,
            backend: None,
            ownership: None,
            shared_network: false,
            managed_overlay: None,
            managed_host_veth: None,
        }
    }
}

/// The creation's record of what to undo.
pub struct CreationRollback {
    pub container_id: String,
    pub netns_name: Option<String>,
    pub namespace_owned: bool,
    pub namespace_identity: Option<KernelObjectIdentityRecord>,
    pub host_veth: Option<(String, Option<u32>)>,
    pub container_ip: Option<String>,
    pub port_mappings: Vec<PortMappingRecord>,
    pub network_backend: Option<NetworkBackend>,
    pub network_ownership: Option<NetworkOwnershipRecord>,
    pub network_persisted: bool,
    pub shared_network_created: bool,
    pub bridge_created: Option<(String, Option<u32>)>,
    pub ip_forward: Option<GlobalValueOwnership>,
    pub route_localnet: Option<InterfaceValueOwnership>,
    pub pending_firewall_cleanup: Vec<Vec<String>>,
    pub journal: NetworkMutationJournal,
    pub cgroup_name: Option<String>,
    pub committed: bool,
    pub operation_id: Option<[u8; 16]>,
    pub ledger: ResourceLedger,
    pub defer_container_removal: bool,
    pub cleanup_quarantined: bool,
    pub creation_provenance: CreationProvenance,
}

/// After adopting a backend: an eBPF backend whose network is not a
/// freshly created shared one is already persisted.
pub open spec fn persisted_after(
    before: bool,
    backend: Option<NetworkBackend>,
    shared: bool,
) -> bool {
    if backend == Some(NetworkBackend::Ebpf) && !shared {
        true
    } else {
        before
    }
}

impl CreationRollback {
    /// Nothing created yet; the operation id comes from the provenance.
    pub fn new(container_id: &str, creation_provenance: CreationProvenance) -> (r: CreationRollback)
        ensures
            r.container_id@ == container_id@,
            r.operation_id == creation_provenance.creator_operation_id,
            r.creation_provenance == creation_provenance,
            r.netns_name is None && !r.namespace_owned && r.namespace_identity is None,
            r.host_veth is None && r.container_ip is None && r.port_mappings@.len() == 0,
            r.network_backend is None && r.network_ownership is None,
            !r.network_persisted && !r.shared_network_created,
            r.bridge_created is None && r.ip_forward is None && r.route_localnet is None,
            r.pending_firewall_cleanup@.len() == 0,
            r.journal@ == Seq::<NetworkMutationKind>::empty(),
            r.cgroup_name is None && !r.committed,
            r.ledger.plans@.len() == 0 && r.ledger.applied@.len() == 0,
            r.ledger.well_formed(),
            !r.defer_container_removal && !r.cleanup_quarantined,
    {
        CreationRollback {
            container_id: String::from_str(container_id),
            netns_name: None,
            namespace_owned: false,
            namespace_identity: None,
            host_veth: None,
            container_ip: None,
            port_mappings: Vec::new(),
            network_backend: None,
            network_ownership: None,
            network_persisted: false,
            shared_network_created: false,
            bridge_created: None,
            ip_forward: None,
            route_localnet: None,
            pending_firewall_cleanup: Vec::new(),
            journal: NetworkMutationJournal::new(),
            cgroup_name: None,
            committed: false,
            operation_id: creation_provenance.creator_operation_id,
            ledger: ResourceLedger::new(),
            defer_container_removal: false,
            cleanup_quarantined: false,
            creation_provenance,
        }
    }

    /// Takes over the network that setup established. The backend and its
    /// ownership are adopted only if none was adopted before.
    pub fn track_network(&mut self, setup: NetworkSetup, ports: Vec<PortMappingRecord>)
        ensures
            final(self).netns_name == setup.netns_name,
            final(self).namespace_owned == setup.namespace_owned,
            final(self).container_ip == setup.container_ip,
            final(self).port_mappings@ == ports@,
            old(self).network_backend is None ==> {
                &&& final(self).network_backend == setup.backend
                &&& final(self).network_ownership == setup.ownership
                &&& final(self).shared_network_created == setup.shared_network
                &&& final(self).network_persisted == persisted_after(
                    old(self).network_persisted,
                    setup.backend,
                    setup.shared_network,
                )
            },
            old(self).network_backend is Some ==> {
                &&& final(self).network_backend == old(self).network_backend
                &&& final(self).network_ownership == old(self).network_ownership
                &&& final(self).shared_network_created == old(self).shared_network_created
                &&& final(self).network_persisted == old(self).network_persisted
            },
            final(self).journal@ == old(self).journal@,
            final(self).pending_firewall_cleanup@ == old(self).pending_firewall_cleanup@,
    {
        self.netns_name = setup.netns_name;
        self.namespace_owned = setup.namespace_owned;
        self.container_ip = setup.container_ip;
        self.port_mappings = ports;
        if self.network_backend.is_none() {
            self.network_backend = setup.backend;
            self.network_ownership = setup.ownership;
            self.shared_network_created = setup.shared_network;
            if self.network_backend == Some(NetworkBackend::Ebpf) && !self.shared_network_created {
                self.network_persisted = true;
            }
        }
    }

    /// Adopts a backend established for this container: its provisional
    /// firewall rollback is dropped and the adoption is journalled.
    pub fn adopt_backend(
        &mut self,
        backend: NetworkBackend,
        ownership: NetworkOwnershipRecord,
        shared_network: bool,
    )
        ensures
            final(self).network_backend == Some(backend),
            final(self).network_ownership == Some(ownership),
            final(self).shared_network_created == shared_network,
            final(self).pending_firewall_cleanup@.len() == 0,
            final(self).network_persisted == persisted_after(
                old(self).network_persisted,
                Some(backend),
                shared_network,
            ),
            final(self).journal@ == old(self).journal@.push(NetworkMutationKind::BackendRecords),
    {
        self.network_backend = Some(backend);
        self.network_ownership = Some(ownership);
        self.shared_network_created = shared_network;
        self.pending_firewall_cleanup = Vec::new();
        if backend == NetworkBackend::Ebpf && !shared_network {
            self.network_persisted = true;
        }
        self.journal.record(NetworkMutationKind::BackendRecords);
    }

    /// A bridge was created; its identity follows.
    pub fn track_bridge_created(&mut self, name: String)
        ensures
            final(self).bridge_created == Some((name, None::<u32>)),
            final(self).journal@ == old(self).journal@.push(NetworkMutationKind::Bridge),
    {
        self.bridge_created = Some((name, None));
        self.journal.record(NetworkMutationKind::Bridge);
    }

    /// Records the interface index of the created bridge.
    pub fn identify_bridge(&mut self, ifindex: u32)
        ensures
            final(self).bridge_created == (match old(self).bridge_created {
                Some((n, _)) => Some((n, Some(ifindex))),
                None => None,
            }),
            final(self).journal@ == old(self).journal@,
    {
        let current = self.bridge_created.take();
        self.bridge_created = match current {
            Some((name, _)) => Some((name, Some(ifindex))),
            None => None,
        };
    }

    /// A network namespace was created; its identity follows.
    pub fn track_namespace_created(&mut self, name: String)
        ensures
            final(self).netns_name == Some(name),
            final(self).journal@ == old(self).journal@.push(NetworkMutationKind::Namespace),
    {
        self.netns_name = Some(name);
        self.journal.record(NetworkMutationKind::Namespace);
    }

    /// Records the identity of the created namespace, in the ownership
    /// record too when there is one.
    pub fn identify_namespace(&mut self, identity: KernelObjectIdentityRecord)
        ensures
            final(self).namespace_identity == Some(identity),
            final(self).network_ownership == (match old(self).network_ownership {
                Some(o) => Some(NetworkOwnershipRecord { namespace_identity: Some(identity), ..o }),
                None => None,
            }),
    {
        self.namespace_identity = Some(identity);
        let current = self.network_ownership.take();
        self.network_ownership = match current {
            Some(mut o) => {
                o.namespace_identity = Some(identity);
                Some(o)
            },
            None => None,
        };
    }

    /// A host veth was created; its identity follows.
    pub fn track_veth_created(&mut self, host: String)
        ensures
            final(self).host_veth == Some((host, None::<u32>)),
            final(self).journal@ == old(self).journal@.push(NetworkMutationKind::Veth),
    {
        self.host_veth = Some((host, None));
        self.journal.record(NetworkMutationKind::Veth);
    }

    /// Records the interface index of the created host veth, and makes the
    /// ownership record, when there is one, name that interface.
    pub fn identify_veth(&mut self, ifindex: u32)
        ensures
            final(self).host_veth == (match old(self).host_veth {
                Some((h, _)) => Some((h, Some(ifindex))),
                None => None,
            }),
            final(self).network_ownership == (match (old(self).host_veth, old(self).network_ownership) {
                (Some((h, _)), Some(o)) => Some(
                    NetworkOwnershipRecord { host_interface: h, host_ifindex: Some(ifindex), ..o },
                ),
                _ => old(self).network_ownership,
            }),
    {
        let veth = self.host_veth.take();
        match veth {
            Some((host, _)) => {
                let current = self.network_ownership.take();
                self.network_ownership = match current {
                    Some(mut o) => {
                        o.host_interface = host.clone();
                        o.host_ifindex = Some(ifindex);
                        Some(o)
                    },
                    None => None,
                };
                self.host_veth = Some((host, Some(ifindex)));
            },
            None => {
                self.host_veth = None;
            },
        }
    }

    pub fn track_ip_forward(&mut self, ownership: GlobalValueOwnership)
        ensures
            final(self).ip_forward == Some(ownership),
    {
        self.ip_forward = Some(ownership);
    }

    pub fn track_route_localnet(&mut self, ownership: InterfaceValueOwnership)
        ensures
            final(self).route_localnet == Some(ownership),
    {
        self.route_localnet = Some(ownership);
    }

    /// Remembers a command that removes a provisional firewall change.
    pub fn acquire_firewall_rollback(&mut self, command: Vec<String>)
        ensures
            final(self).pending_firewall_cleanup@ == old(self).pending_firewall_cleanup@.push(
                command,
            ),
    {
        self.pending_firewall_cleanup.push(command);
    }

    /// The next provisional firewall change to remove: the newest one.
    pub fn next_firewall_cleanup(&mut self) -> (r: Option<Vec<String>>)
        ensures
            old(self).pending_firewall_cleanup@.len() == 0 ==> r is None
                && final(self).pending_firewall_cleanup@ == old(self).pending_firewall_cleanup@,
            old(self).pending_firewall_cleanup@.len() > 0 ==> r == Some(
                old(self).pending_firewall_cleanup@.last(),
            ) && final(self).pending_firewall_cleanup@
                == old(self).pending_firewall_cleanup@.drop_last(),
    {
        self.pending_firewall_cleanup.pop()
    }

    /// Commits the creation: nothing is rolled back any more.
    pub fn commit(&mut self)
        ensures
            final(self).committed,
    {
        self.committed = true;
    }

    /// A witnessed rollback proceeds only for the creating operation and
    /// generation; otherwise cleanup is quarantined and nothing is undone.
    pub fn rollback_with_authority(&mut self, authority: &CleanupAuthority) -> (proceed: bool)
        ensures
            proceed == (old(self).operation_id matches Some(o) && o@ == authority.operation_id@
                && old(self).creation_provenance.resource_generation == authority.generation),
            !proceed ==> final(self).cleanup_quarantined,
            proceed ==> final(self).cleanup_quarantined == old(self).cleanup_quarantined,
            final(self).network_ownership == old(self).network_ownership,
    {
        let proceed = rollback_authority_matches(
            &self.operation_id,
            &self.creation_provenance,
            authority,
        );
        if !proceed {
            self.cleanup_quarantined = true;
        }
        proceed
    }

    /// A legacy rollback acts only on exact typed identities: without any,
    /// cleanup is quarantined; with some, the name-only network and cgroup
    /// state is dropped first so that only typed resources are undone.
    pub fn rollback_with_legacy_authority(&mut self, authority: &LegacyCleanupAuthority) -> (proceed:
        bool)
        ensures
            proceed == (old(self).ledger.applied@.len() > 0),
            !proceed ==> final(self).cleanup_quarantined,
            proceed ==> final(self).network_ownership is None && final(self).netns_name is None
                && final(self).cgroup_name is None,
    {
        if self.ledger.applied.len() == 0 {
            self.cleanup_quarantined = true;
            return false;
        }
        self.network_ownership = None;
        self.netns_name = None;
        self.cgroup_name = None;
        true
    }
}

/// The backend that a pending journal names, as the runtime writes it.
pub open spec fn backend_named(name: Seq<char>) -> Option<NetworkBackend> {
    if name == "iptables"@ {
        Some(NetworkBackend::Iptables)
    } else if name == "nftables"@ {
        Some(NetworkBackend::Nftables)
    } else if name == "ebpf"@ {
        Some(NetworkBackend::Ebpf)
    } else {
        None
    }
}

pub fn parse_backend(name: &str) -> (r: Option<NetworkBackend>)
    ensures
        r == backend_named(name@),
{
    if str_eq(name, "iptables") {
        Some(NetworkBackend::Iptables)
    } else if str_eq(name, "nftables") {
        Some(NetworkBackend::Nftables)
    } else if str_eq(name, "ebpf") {
        Some(NetworkBackend::Ebpf)
    } else {
        None
    }
}

/// A pending cleanup journal can be resumed when it has schema 1 or 2, a
/// container id, and a backend (if any) that the runtime knows.
pub open spec fn pending_journal_usable(
    schema_version: u32,
    container_id: Seq<char>,
    backend: Option<Seq<char>>,
) -> Result<Option<NetworkBackend>, ErrorView> {
    if !(schema_version == 1 || schema_version == 2) || container_id.len() == 0 {
        Err(ErrorView::Network("malformed pending network cleanup journal"@))
    } else {
        match backend {
            None => Ok(None),
            Some(b) => match backend_named(b) {
                Some(k) => Ok(Some(k)),
                None => Err(ErrorView::Network("malformed pending backend: "@ + b)),
            },
        }
    }
}

pub fn validate_pending_journal(
    schema_version: u32,
    container_id: &str,
    backend: Option<&str>,
) -> (r: Result<Option<NetworkBackend>, RuntimeError>)
    ensures
        r matches Ok(b) ==> pending_journal_usable(
            schema_version,
            container_id@,
            crate::paths::opt_view(backend),
        ) == Ok::<Option<NetworkBackend>, ErrorView>(b),
        r matches Err(e) ==> pending_journal_usable(
            schema_version,
            container_id@,
            crate::paths::opt_view(backend),
        ) == Err::<Option<NetworkBackend>, ErrorView>(e@),
{
    if !(schema_version == 1 || schema_version == 2) || container_id.unicode_len() == 0 {
        return Err(
            RuntimeError::Network(String::from_str("malformed pending network cleanup journal")),
        );
    }
    match backend {
        None => Ok(None),
        Some(b) => match parse_backend(b) {
            Some(k) => Ok(Some(k)),
            None => Err(RuntimeError::Network(crate::text::concat("malformed pending backend: ", b))),
        },
    }
}

/// What recovery does with a pending cleanup journal found in a container
/// directory.
#[derive(Debug, Clone, PartialEq, Eq)]
pub enum PendingCleanupDisposition {
    /// No authority proves ownership: the journal stays, quarantined.
    Quarantine,
    /// Roll back under the witnessed authority.
    Witnessed(CleanupAuthority),
    /// Roll back under the legacy authority.
    Legacy,
}

/// A journal in another container's directory is refused; otherwise a
/// witnessed authority wins over a legacy one, and without either the
/// journal is quarantined.
pub fn pending_cleanup_disposition(
    directory_name: &str,
    journal_path: &str,
    container_id: &str,
    witnessed: Option<CleanupAuthority>,
    legacy: Option<LegacyCleanupAuthority>,
) -> (r: Result<PendingCleanupDisposition, RuntimeError>)
    ensures
        directory_name@ != container_id@ ==> (r matches Err(e) && e@ == ErrorView::Network(
            "pending cleanup journal "@ + journal_path@ + " has a foreign container identity"@,
        )),
        directory_name@ == container_id@ ==> r == Ok::<PendingCleanupDisposition, RuntimeError>(
            match witnessed {
                Some(a) => PendingCleanupDisposition::Witnessed(a),
                None => match legacy {
                    Some(_) => PendingCleanupDisposition::Legacy,
                    None => PendingCleanupDisposition::Quarantine,
                },
            },
        ),
{
    if !str_eq(directory_name, container_id) {
        let head = crate::text::concat("pending cleanup journal ", journal_path);
        return Err(
            RuntimeError::Network(crate::text::concat(head.as_str(), " has a foreign container identity")),
        );
    }
    match witnessed {
        Some(a) => Ok(PendingCleanupDisposition::Witnessed(a)),
        None => match legacy {
            Some(_) => Ok(PendingCleanupDisposition::Legacy),
            None => Ok(PendingCleanupDisposition::Quarantine),
        },
    }
}

} // verus!
