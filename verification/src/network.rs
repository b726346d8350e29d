//! Network setup decisions: shared eBPF reuse, the mutation journal and its
//! rollback order, recovery planning, kernel identity checks, legacy record
//! classification, backend admission, port conflicts and ownership metadata.

use crate::error::{ErrorView, RuntimeError};
use crate::paths::short_id_of;
use crate::records::{
    opt_str, opt_string_is, ContainerRecord, NetworkOwnershipRecord, PortMappingRecord,
};
use crate::text::{
    chars_of, concat, concat_chars, decimal, decimal_chars, eq_ignore_ascii_case, lower,
    path_join, path_join_str, str_eq, string_of,
};
use vstd::prelude::*;
use vstd::string::StringExecFns;
use vstd::string::StrSliceExecFns;

verus! {

/// Whether a container joins an already attached shared eBPF network.
#[derive(Debug, Clone, Copy, PartialEq, Eq, Structural)]
pub enum SharedEbpfAction {
    PrepareAndAttach,
    VerifyAndReuse,
}

/// One eBPF load per network: a network that is already recorded is
/// verified and reused, any other is prepared and attached.
pub fn shared_ebpf_action(network_id: &str, existing_network_ids: &[&str]) -> (r: SharedEbpfAction)
    ensures
        r == (if exists|i: int| 0 <= i < existing_network_ids@.len() && (#[trigger] existing_network_ids@[i])@ == network_id@ {
            SharedEbpfAction::VerifyAndReuse
        } else {
            SharedEbpfAction::PrepareAndAttach
        }),
{
    let mut i: usize = 0;
    while i < existing_network_ids.len()
        invariant
            i <= existing_network_ids@.len(),
            forall|j: int| 0 <= j < i ==> (#[trigger] existing_network_ids@[j])@ != network_id@,
        decreases existing_network_ids.len() - i,
    {
        if str_eq(existing_network_ids[i], network_id) {
            return SharedEbpfAction::VerifyAndReuse;
        }
        i += 1;
    }
    SharedEbpfAction::PrepareAndAttach
}

/// A network mutation that setup performed and rollback must undo.
#[derive(Debug, Clone, Copy, PartialEq, Eq, Structural)]
pub enum NetworkMutationKind {
    Bridge,
    Namespace,
    Veth,
    BackendRecords,
    Shaping,
}

/// The network mutations completed so far, in the order they happened.
#[derive(Debug)]
pub struct NetworkMutationJournal {
    completed: Vec<NetworkMutationKind>,
}

impl View for NetworkMutationJournal {
    type V = Seq<NetworkMutationKind>;

    closed spec fn view(&self) -> Seq<NetworkMutationKind> {
        self.completed@
    }
}

impl Default for NetworkMutationJournal {
    fn default() -> (r: Self)
        ensures
            r@ == Seq::<NetworkMutationKind>::empty(),
    {
        NetworkMutationJournal { completed: Vec::new() }
    }
}

impl NetworkMutationJournal {
    pub fn new() -> (r: Self)
        ensures
            r@ == Seq::<NetworkMutationKind>::empty(),
    {
        NetworkMutationJournal { completed: Vec::new() }
    }

    /// Records a completed mutation.
    pub fn record(&mut self, mutation: NetworkMutationKind)
        ensures
            final(self)@ == old(self)@.push(mutation),
    {
        self.completed.push(mutation);
    }

    /// The order in which rollback undoes the recorded mutations: the exact
    /// reverse of the order in which they were recorded.
    pub fn rollback_order(&self) -> (r: Vec<NetworkMutationKind>)
        ensures
            r@ == self@.reverse(),
    {
        let mut r: Vec<NetworkMutationKind> = Vec::new();
        let n = self.completed.len();
        let mut i: usize = n;
        while i > 0
            invariant
                n == self.completed@.len(),
                i <= n,
                r@ == self.completed@.subrange(i as int, n as int).reverse(),
            decreases i,
        {
            i -= 1;
            r.push(self.completed[i]);
            assert(r@ =~= self.completed@.subrange(i as int, n as int).reverse());
        }
        assert(self.completed@.subrange(0, n as int) =~= self.completed@);
        r
    }
}

/// What recovery observed of a shared network's owned kernel state.
#[derive(Debug, Clone, Copy, PartialEq, Eq, Structural)]
pub enum ObservedNetworkState {
    Complete,
    CompletelyMissing,
    PartialOrReplaced,
}

#[derive(Debug, Clone, Copy, PartialEq, Eq, Structural)]
pub enum NetworkRecoveryAction {
    VerifyAndReuse,
    ReloadShared,
}

/// Complete state is reused, completely missing state is reloaded, and
/// anything partial or replaced is refused for operator repair.
pub fn plan_network_recovery(observed: ObservedNetworkState) -> (r: Result<
    NetworkRecoveryAction,
    RuntimeError,
>)
    ensures
        observed == ObservedNetworkState::Complete ==> r == Ok::<
            NetworkRecoveryAction,
            RuntimeError,
        >(NetworkRecoveryAction::VerifyAndReuse),
        observed == ObservedNetworkState::CompletelyMissing ==> r == Ok::<
            NetworkRecoveryAction,
            RuntimeError,
        >(NetworkRecoveryAction::ReloadShared),
        observed == ObservedNetworkState::PartialOrReplaced ==> (r matches Err(e) && e@
            == ErrorView::Network(
            "partial or replaced owned network state requires operator repair"@,
        )),
{
    match observed {
        ObservedNetworkState::Complete => Ok(NetworkRecoveryAction::VerifyAndReuse),
        ObservedNetworkState::CompletelyMissing => Ok(NetworkRecoveryAction::ReloadShared),
        ObservedNetworkState::PartialOrReplaced => Err(
            RuntimeError::Network(
                String::from_str("partial or replaced owned network state requires operator repair"),
            ),
        ),
    }
}

/// A kernel object named by device and inode.
#[derive(Debug, Clone, Copy, PartialEq, Eq, Structural)]
pub struct KernelIdentity {
    pub device: u64,
    pub inode: u64,
}

#[derive(Debug, Clone, Copy, PartialEq, Eq, Structural)]
pub enum OwnedResourceState {
    Present,
    Missing,
}

pub open spec fn identity_changed_message(expected: KernelIdentity, observed: KernelIdentity) -> Seq<
    char,
> {
    "owned kernel resource identity changed: expected "@ + decimal(expected.device as nat) + ":"@
        + decimal(expected.inode as nat) + ", found "@ + decimal(observed.device as nat) + ":"@
        + decimal(observed.inode as nat)
}

/// A missing object is reported as missing, an identical one as present, and
/// a different object at the same place is refused.
pub fn verify_kernel_identity(expected: KernelIdentity, observed: Option<KernelIdentity>) -> (r:
    Result<OwnedResourceState, RuntimeError>)
    ensures
        observed is None ==> r == Ok::<OwnedResourceState, RuntimeError>(
            OwnedResourceState::Missing,
        ),
        observed == Some(expected) ==> r == Ok::<OwnedResourceState, RuntimeError>(
            OwnedResourceState::Present,
        ),
        observed is Some && observed.unwrap() != expected ==> (r matches Err(e) && e@
            == ErrorView::Network(identity_changed_message(expected, observed.unwrap()))),
{
    match observed {
        None => Ok(OwnedResourceState::Missing),
        Some(o) => {
            if o == expected {
                Ok(OwnedResourceState::Present)
            } else {
                let mut m: Vec<char> = chars_of("owned kernel resource identity changed: expected ");
                m.append(&mut decimal_chars(expected.device));
                m.append(&mut chars_of(":"));
                m.append(&mut decimal_chars(expected.inode));
                m.append(&mut chars_of(", found "));
                m.append(&mut decimal_chars(o.device));
                m.append(&mut chars_of(":"));
                m.append(&mut decimal_chars(o.inode));
                Err(RuntimeError::Network(string_of(m.as_slice())))
            }
        },
    }
}

#[derive(Debug, Clone, Copy, PartialEq, Eq, Structural)]
pub enum LegacyNetworkAction {
    NotManagedBridge,
    CleanupProvenRules,
}

/// A legacy record on the kernel bridge is cleaned only when its rules are
/// proven to be its own; without proof nothing is removed and the record is
/// refused.
pub fn classify_legacy_network_record(network_name: Option<&str>, ownership_proven: bool) -> (r:
    Result<LegacyNetworkAction, RuntimeError>)
    ensures
        !(network_name matches Some(n) && n@ == "bridge"@) ==> r == Ok::<
            LegacyNetworkAction,
            RuntimeError,
        >(LegacyNetworkAction::NotManagedBridge),
        (network_name matches Some(n) && n@ == "bridge"@) && ownership_proven ==> r == Ok::<
            LegacyNetworkAction,
            RuntimeError,
        >(LegacyNetworkAction::CleanupProvenRules),
        (network_name matches Some(n) && n@ == "bridge"@) && !ownership_proven ==> (r matches Err(
            e,
        ) && e@ == ErrorView::Network(
            "legacy bridge record has no ownership metadata; networking was not removed. Recreate the original rules or remove them manually, then migrate the record"@,
        )),
{
    let is_bridge = match network_name {
        Some(n) => str_eq(n, "bridge"),
        None => false,
    };
    if !is_bridge {
        return Ok(LegacyNetworkAction::NotManagedBridge);
    }
    if ownership_proven {
        Ok(LegacyNetworkAction::CleanupProvenRules)
    } else {
        Err(
            RuntimeError::Network(
                String::from_str(
                    "legacy bridge record has no ownership metadata; networking was not removed. Recreate the original rules or remove them manually, then migrate the record",
                ),
            ),
        )
    }
}

/// The packet-filtering backend of a bridge network.
#[derive(Debug, Clone, Copy, PartialEq, Eq, Structural)]
pub enum NetworkBackend {
    Iptables,
    Nftables,
    Ebpf,
}

pub open spec fn backend_name(b: NetworkBackend) -> Seq<char> {
    match b {
        NetworkBackend::Iptables => "iptables"@,
        NetworkBackend::Nftables => "nftables"@,
        NetworkBackend::Ebpf => "ebpf"@,
    }
}

impl NetworkBackend {
    /// The backend's name as users write it.
    pub fn name(&self) -> (r: &'static str)
        ensures
            r@ == backend_name(*self),
    {
        match self {
            NetworkBackend::Iptables => "iptables",
            NetworkBackend::Nftables => "nftables",
            NetworkBackend::Ebpf => "ebpf",
        }
    }
}

/// Without root a bridge backend cannot be established.
pub fn ensure_bridge_backend_root(is_root: bool, requested_backend: NetworkBackend) -> (r: Result<
    (),
    RuntimeError,
>)
    ensures
        is_root <==> r is Ok,
        r matches Err(e) ==> e@ == ErrorView::Network(
            "rootless bridge backend setup requires root; requested backend "@ + backend_name(
                requested_backend,
            ) + " cannot be established"@,
        ),
{
    if is_root {
        return Ok(());
    }
    let head = concat(
        "rootless bridge backend setup requires root; requested backend ",
        requested_backend.name(),
    );
    Err(RuntimeError::Network(head.concat(" cannot be established")))
}

pub open spec fn rootless_port_error(ports: Seq<PortMappingRecord>, i: int) -> Option<ErrorView> {
    if ports[i].host_port == 0 || ports[i].container_port == 0 {
        Some(ErrorView::Network("rootless host and container ports must be non-zero"@))
    } else if lower(ports[i].protocol@) != lower("tcp"@) && lower(ports[i].protocol@) != lower(
        "udp"@,
    ) {
        Some(
            ErrorView::Network(
                "rootless slirp4netns supports only TCP and UDP port mappings, got "@
                    + ports[i].protocol@,
            ),
        )
    } else {
        None
    }
}

/// The error of the first refused mapping among `ports`, if any.
pub open spec fn first_rootless_port_error(ports: Seq<PortMappingRecord>) -> Option<ErrorView>
    decreases ports.len(),
{
    if ports.len() == 0 {
        None
    } else {
        match rootless_port_error(ports, 0) {
            Some(e) => Some(e),
            None => first_rootless_port_error(ports.drop_first()),
        }
    }
}

/// What the rootless bridge check answers.
pub open spec fn rootless_bridge_check(
    enabled: bool,
    ports: Seq<PortMappingRecord>,
    backend: NetworkBackend,
) -> Result<(), ErrorView> {
    if !enabled {
        Err(
            ErrorView::Network(
                "rootless bridge networking is disabled; set FERROCRATE_ROOTLESS_NETNS=1 to use slirp4netns (requested backend "@
                    + backend_name(backend) + ")"@,
            ),
        )
    } else {
        match first_rootless_port_error(ports) {
            Some(e) => Err(e),
            None => Ok(()),
        }
    }
}

proof fn lemma_first_rootless_port_error(ports: Seq<PortMappingRecord>, i: int)
    requires
        0 <= i <= ports.len(),
        forall|j: int| 0 <= j < i ==> rootless_port_error(ports, j) is None,
    ensures
        first_rootless_port_error(ports) == first_rootless_port_error(ports.skip(i)),
    decreases i,
{
    if i > 0 {
        lemma_first_rootless_port_error(ports, i - 1);
        let t = ports.skip(i - 1);
        assert(t[0] == ports[i - 1]);
        assert(rootless_port_error(t, 0) == rootless_port_error(ports, i - 1));
        assert(t.drop_first() =~= ports.skip(i));
    } else {
        assert(ports.skip(0) =~= ports);
    }
}

/// Rootless bridge networking must be enabled, and every published port
/// must be non-zero and TCP or UDP; the first refused mapping is reported.
pub fn validate_rootless_bridge_network(
    enabled: bool,
    port_mappings: &[PortMappingRecord],
    requested_backend: NetworkBackend,
) -> (r: Result<(), RuntimeError>)
    ensures
        !enabled ==> (r matches Err(e) && e@ == ErrorView::Network(
            "rootless bridge networking is disabled; set FERROCRATE_ROOTLESS_NETNS=1 to use slirp4netns (requested backend "@
                + backend_name(requested_backend) + ")"@,
        )),
        enabled ==> (r is Ok <==> forall|i: int|
            0 <= i < port_mappings@.len() ==> rootless_port_error(port_mappings@, i) is None),
        r matches Err(e) ==> (enabled ==> exists|i: int|
            0 <= i < port_mappings@.len() && Some(e@) == rootless_port_error(port_mappings@, i)
                && forall|j: int| 0 <= j < i ==> rootless_port_error(port_mappings@, j) is None),
        match r {
            Ok(()) => rootless_bridge_check(enabled, port_mappings@, requested_backend) is Ok,
            Err(e) => rootless_bridge_check(enabled, port_mappings@, requested_backend) == Err::<
                (),
                ErrorView,
            >(e@),
        },
{
    if !enabled {
        let head = concat(
            "rootless bridge networking is disabled; set FERROCRATE_ROOTLESS_NETNS=1 to use slirp4netns (requested backend ",
            requested_backend.name(),
        );
        return Err(RuntimeError::Network(head.concat(")")));
    }
    let mut i: usize = 0;
    while i < port_mappings.len()
        invariant
            enabled,
            i <= port_mappings@.len(),
            forall|j: int| 0 <= j < i ==> rootless_port_error(port_mappings@, j) is None,
        decreases port_mappings.len() - i,
    {
        let m = &port_mappings[i];
        proof {
            lemma_first_rootless_port_error(port_mappings@, i as int);
            let t = port_mappings@.skip(i as int);
            assert(t[0] == port_mappings@[i as int]);
            assert(rootless_port_error(t, 0) == rootless_port_error(port_mappings@, i as int));
        }
        if m.host_port == 0 || m.container_port == 0 {
            assert(rootless_port_error(port_mappings@, i as int) == Some(
                ErrorView::Network("rootless host and container ports must be non-zero"@),
            ));
            return Err(
                RuntimeError::Network(
                    String::from_str("rootless host and container ports must be non-zero"),
                ),
            );
        }
        if !eq_ignore_ascii_case(m.protocol.as_str(), "tcp") && !eq_ignore_ascii_case(
            m.protocol.as_str(),
            "udp",
        ) {
            assert(rootless_port_error(port_mappings@, i as int) is Some);
            return Err(
                RuntimeError::Network(
                    concat(
                        "rootless slirp4netns supports only TCP and UDP port mappings, got ",
                        m.protocol.as_str(),
                    ),
                ),
            );
        }
        i += 1;
    }
    proof {
        lemma_first_rootless_port_error(port_mappings@, port_mappings@.len() as int);
        assert(port_mappings@.skip(port_mappings@.len() as int).len() == 0);
    }
    Ok(())
}

/// eBPF published-port forwarding stays disabled unless explicitly
/// overridden; other backends, and eBPF without published ports, pass.
pub fn validate_ebpf_published_port_boundary(
    backend: NetworkBackend,
    port_mappings: &[PortMappingRecord],
    override_enabled: bool,
) -> (r: Result<(), RuntimeError>)
    ensures
        r is Ok <==> (backend != NetworkBackend::Ebpf || port_mappings@.len() == 0
            || override_enabled),
        r matches Err(e) ==> e@ == ErrorView::Network(
            "eBPF published-port forwarding is disabled pending live checksum qualification; use --network-backend iptables or nftables, or set FERROCRATE_EBPF_ALLOW_PUBLISHED_PORTS=1 for an explicit experimental override"@,
        ),
{
    if backend != NetworkBackend::Ebpf || port_mappings.len() == 0 {
        return Ok(());
    }
    if override_enabled {
        return Ok(());
    }
    Err(
        RuntimeError::Network(
            String::from_str(
                "eBPF published-port forwarding is disabled pending live checksum qualification; use --network-backend iptables or nftables, or set FERROCRATE_EBPF_ALLOW_PUBLISHED_PORTS=1 for an explicit experimental override",
            ),
        ),
    )
}

/// Two mappings claim the same host port and protocol (protocols compared
/// without regard to ASCII case).
pub open spec fn ports_clash(a: PortMappingRecord, b: PortMappingRecord) -> bool {
    a.host_port == b.host_port && lower(a.protocol@) == lower(b.protocol@)
}

/// Some requested port clashes with a port of a running container.
pub open spec fn port_conflict(records: Seq<ContainerRecord>, requested: Seq<PortMappingRecord>) -> bool {
    exists|r: int, p: int, q: int|
        0 <= r < records.len() && records[r].status@ == "running"@ && 0 <= p
            < records[r].ports@.len() && 0 <= q < requested.len() && ports_clash(
            #[trigger] records[r].ports@[p],
            #[trigger] requested[q],
        )
}

pub open spec fn port_conflict_message(existing: ContainerRecord, right: PortMappingRecord) -> Seq<
    char,
> {
    "host port "@ + decimal(right.host_port as nat) + " / "@ + right.protocol@
        + " already mapped by container "@ + existing.id@
}

/// A published port may not reuse a host port and protocol already mapped
/// by a running container.
pub fn validate_port_mapping_conflicts(
    records: &[ContainerRecord],
    requested: &[PortMappingRecord],
) -> (r: Result<(), RuntimeError>)
    ensures
        r is Ok <==> !port_conflict(records@, requested@),
        r matches Err(e) ==> exists|i: int, q: int|
            0 <= i < records@.len() && 0 <= q < requested@.len() && e@ == ErrorView::Network(
                port_conflict_message(records@[i], requested@[q]),
            ),
{
    if requested.len() == 0 {
        return Ok(());
    }
    let mut i: usize = 0;
    while i < records.len()
        invariant
            i <= records@.len(),
            forall|r: int, p: int, q: int|
                0 <= r < i && records@[r].status@ == "running"@ && 0 <= p
                    < records@[r].ports@.len() && 0 <= q < requested@.len() ==> !ports_clash(
                    #[trigger] records@[r].ports@[p],
                    #[trigger] requested@[q],
                ),
        decreases records.len() - i,
    {
        let existing = &records[i];
        if str_eq(existing.status.as_str(), "running") {
            let mut p: usize = 0;
            while p < existing.ports.len()
                invariant
                    i < records@.len(),
                    *existing == records@[i as int],
                    existing.status@ == "running"@,
                    p <= existing.ports@.len(),
                    forall|pp: int, q: int|
                        0 <= pp < p && 0 <= q < requested@.len() ==> !ports_clash(
                            #[trigger] existing.ports@[pp],
                            #[trigger] requested@[q],
                        ),
                decreases existing.ports.len() - p,
            {
                let left = &existing.ports[p];
                let mut q: usize = 0;
                while q < requested.len()
                    invariant
                        i < records@.len(),
                        *existing == records@[i as int],
                        p < existing.ports@.len(),
                        existing.status@ == "running"@,
                        *left == existing.ports@[p as int],
                        q <= requested@.len(),
                        forall|qq: int| 0 <= qq < q ==> !ports_clash(*left, #[trigger] requested@[qq]),
                    decreases requested.len() - q,
                {
                    let right = &requested[q];
                    if left.host_port == right.host_port && eq_ignore_ascii_case(
                        left.protocol.as_str(),
                        right.protocol.as_str(),
                    ) {
                        proof {
                            assert(ports_clash(records@[i as int].ports@[p as int], requested@[q as int]));
                            assert(records@[i as int].status@ == "running"@);
                            assert(port_conflict(records@, requested@));
                        }
                        let mut m: Vec<char> = chars_of("host port ");
                        m.append(&mut decimal_chars(right.host_port as u64));
                        m.append(&mut chars_of(" / "));
                        m.append(&mut chars_of(right.protocol.as_str()));
                        m.append(&mut chars_of(" already mapped by container "));
                        m.append(&mut chars_of(existing.id.as_str()));
                        let msg = string_of(m.as_slice());
                        assert(msg@ == port_conflict_message(records@[i as int], requested@[q as int]));
                        return Err(RuntimeError::Network(msg));
                    }
                    q += 1;
                }
                p += 1;
            }
        }
        i += 1;
    }
    Ok(())
}

/// A firewall ownership record names its object, carries the canonical
/// marker `ferrocrate:<lowercased id>`, has schema 2 and an expected state,
/// and belongs to a firewall backend.
pub open spec fn firewall_fields_ok(backend: NetworkBackend, o: NetworkOwnershipRecord) -> bool {
    &&& opt_str(o.firewall_id) matches Some(id) && id.len() > 0
    &&& opt_str(o.firewall_marker) matches Some(marker) && marker.len() > 0
    &&& backend != NetworkBackend::Ebpf
    &&& o.schema_version == 2
    &&& opt_str(o.firewall_marker).unwrap() == "ferrocrate:"@ + lower(opt_str(o.firewall_id).unwrap())
    &&& opt_str(o.firewall_expected_state) matches Some(st) && st.len() > 0
}

pub fn verify_firewall_ownership_fields(backend: NetworkBackend, ownership: &NetworkOwnershipRecord) -> (r:
    Result<(), RuntimeError>)
    ensures
        r is Ok <==> firewall_fields_ok(backend, *ownership),
        r matches Err(e) ==> {
            ||| (!(opt_str(ownership.firewall_id) matches Some(id) && id.len() > 0) && e@
                == ErrorView::Network("firewall ownership id is missing"@))
            ||| ((opt_str(ownership.firewall_id) matches Some(id) && id.len() > 0) && !(opt_str(
                ownership.firewall_marker,
            ) matches Some(m) && m.len() > 0) && e@ == ErrorView::Network(
                "firewall ownership marker is missing"@,
            ))
            ||| ((opt_str(ownership.firewall_id) matches Some(id) && id.len() > 0) && (opt_str(
                ownership.firewall_marker,
            ) matches Some(m) && m.len() > 0) && e@ == ErrorView::Network(
                "malformed or foreign firewall ownership metadata"@,
            ))
        },
{
    let id = match &ownership.firewall_id {
        Some(id) if id.as_str().unicode_len() > 0 => id,
        _ => {
            return Err(RuntimeError::Network(String::from_str("firewall ownership id is missing")));
        },
    };
    let marker = match &ownership.firewall_marker {
        Some(m) if m.as_str().unicode_len() > 0 => m,
        _ => {
            return Err(
                RuntimeError::Network(String::from_str("firewall ownership marker is missing")),
            );
        },
    };
    let idc = chars_of(id.as_str());
    let lowered = crate::text::lower_chars(&idc);
    let expected_marker = concat_chars("ferrocrate:", lowered.as_slice());
    let expected_ok = match &ownership.firewall_expected_state {
        Some(s) => s.as_str().unicode_len() > 0,
        None => false,
    };
    if backend == NetworkBackend::Ebpf || ownership.schema_version != 2 || !str_eq(
        marker.as_str(),
        expected_marker.as_str(),
    ) || !expected_ok {
        return Err(
            RuntimeError::Network(
                String::from_str("malformed or foreign firewall ownership metadata"),
            ),
        );
    }
    Ok(())
}

} // verus!

verus! {

/// The host end of a container's veth pair: `veth` and the last eight ASCII
/// letters and digits of its id.
pub open spec fn expected_host_interface(container_id: Seq<char>) -> Seq<char> {
    "veth"@ + short_id_of(container_id, 8)
}

/// What makes a container's network ownership record unusable: a wrong
/// schema or a missing network id; another owner or host interface; for
/// eBPF, a firewall id or a pin path other than `<network root>/<network id>`;
/// for a firewall backend, any eBPF pin path, filter or pin.
pub open spec fn ownership_error(
    container_id: Seq<char>,
    backend: NetworkBackend,
    o: NetworkOwnershipRecord,
    network_root: Seq<char>,
) -> Option<ErrorView> {
    if o.schema_version != 2 || !(opt_str(o.network_id) matches Some(n) && n.len() > 0) {
        Some(ErrorView::Network("malformed network ownership schema or network identity"@))
    } else if o.owner_id@ != container_id || o.host_interface@ != expected_host_interface(
        container_id,
    ) {
        Some(ErrorView::Network("foreign network ownership metadata"@))
    } else if backend == NetworkBackend::Ebpf {
        if o.firewall_id is Some || opt_str(o.ebpf_pin_path) != Some(
            path_join(network_root, opt_str(o.network_id)->0),
        ) {
            Some(ErrorView::Network("foreign eBPF ownership metadata"@))
        } else {
            None
        }
    } else if o.ebpf_pin_path is Some || o.ebpf_filters@.len() > 0 || o.ebpf_pins@.len() > 0 {
        Some(ErrorView::Network("foreign firewall ownership metadata"@))
    } else {
        None
    }
}

pub fn validate_network_ownership(
    container_id: &str,
    backend: NetworkBackend,
    ownership: &NetworkOwnershipRecord,
    network_root: &str,
) -> (r: Result<(), RuntimeError>)
    ensures
        r is Ok <==> ownership_error(container_id@, backend, *ownership, network_root@) is None,
        r matches Err(e) ==> ownership_error(container_id@, backend, *ownership, network_root@)
            == Some(e@),
{
    let network_id = match &ownership.network_id {
        Some(n) if ownership.schema_version == 2 && n.as_str().unicode_len() > 0 => n,
        _ => {
            return Err(
                RuntimeError::Network(
                    String::from_str("malformed network ownership schema or network identity"),
                ),
            );
        },
    };
    let short = crate::paths::short_id(container_id, 8);
    let expected_host = concat("veth", short.as_str());
    if !str_eq(ownership.owner_id.as_str(), container_id) || !str_eq(
        ownership.host_interface.as_str(),
        expected_host.as_str(),
    ) {
        return Err(RuntimeError::Network(String::from_str("foreign network ownership metadata")));
    }
    if backend == NetworkBackend::Ebpf {
        let pin = path_join_str(network_root, network_id.as_str());
        let pin_ok = match &ownership.ebpf_pin_path {
            Some(p) => str_eq(p.as_str(), pin.as_str()),
            None => false,
        };
        if ownership.firewall_id.is_some() || !pin_ok {
            return Err(RuntimeError::Network(String::from_str("foreign eBPF ownership metadata")));
        }
        Ok(())
    } else if ownership.ebpf_pin_path.is_some() || ownership.ebpf_filters.len() > 0
        || ownership.ebpf_pins.len() > 0 {
        Err(RuntimeError::Network(String::from_str("foreign firewall ownership metadata")))
    } else {
        Ok(())
    }
}

/// `/etc/hosts`: the loopback lines, then `address names...` for each
/// address with at least one name, each line ended by a newline.
pub open spec fn hosts_lines(entries: Seq<(Seq<char>, Seq<Seq<char>>)>) -> Seq<Seq<char>>
    decreases entries.len(),
{
    if entries.len() == 0 {
        seq!["127.0.0.1 localhost"@, "::1 localhost ip6-localhost ip6-loopback"@]
    } else {
        let prev = hosts_lines(entries.drop_last());
        let (ip, names) = entries.last();
        if names.len() == 0 {
            prev
        } else {
            prev.push(ip + " "@ + crate::text::join(names, " "@))
        }
    }
}

pub open spec fn hosts_file(entries: Seq<(Seq<char>, Seq<Seq<char>>)>) -> Seq<char> {
    crate::text::join(hosts_lines(entries), "\n"@) + "\n"@
}

pub open spec fn entries_view(entries: Seq<(String, Vec<String>)>) -> Seq<(Seq<char>, Seq<Seq<char>>)> {
    entries.map_values(|e: (String, Vec<String>)| (e.0@, crate::text::strs_of(e.1@)))
}

/// Renders the hosts file of a set of addresses, each with its names. The
/// entries are expected in ascending order of address, each with its names
/// ascending and distinct, as a sorted map and set give them.
pub fn render_hosts(entries: &[(String, Vec<String>)]) -> (r: String)
    ensures
        r@ == hosts_file(entries_view(entries@)),
{
    let mut lines: Vec<Vec<char>> = Vec::new();
    lines.push(chars_of("127.0.0.1 localhost"));
    lines.push(chars_of("::1 localhost ip6-localhost ip6-loopback"));
    let space = chars_of(" ");
    let mut i: usize = 0;
    proof {
        assert(crate::text::seqs_of(lines@) =~= hosts_lines(entries_view(entries@).take(0)));
    }
    while i < entries.len()
        invariant
            i <= entries@.len(),
            space@ == " "@,
            crate::text::seqs_of(lines@) == hosts_lines(entries_view(entries@).take(i as int)),
        decreases entries.len() - i,
    {
        let ghost ev = entries_view(entries@);
        proof {
            assert(ev.take(i + 1).drop_last() =~= ev.take(i as int));
            assert(ev.take(i + 1).last() == ev[i as int]);
        }
        let (ip, names) = &entries[i];
        if names.len() > 0 {
            let name_chars = crate::text::strings_chars(names.as_slice());
            let joined = crate::text::join_chars(&name_chars, space.as_slice());
            let ipc = chars_of(ip.as_str());
            let mut line = ipc;
            let mut k: usize = 0;
            line.push(' ');
            let ghost base = line@;
            while k < joined.len()
                invariant
                    k <= joined@.len(),
                    line@ == base + joined@.take(k as int),
                decreases joined.len() - k,
            {
                line.push(joined[k]);
                k += 1;
                proof {
                    assert(line@ =~= base + joined@.take(k as int));
                }
            }
            proof {
                reveal_strlit(" ");
                assert(joined@.take(joined@.len() as int) =~= joined@);
                assert(line@ =~= ip@ + " "@ + crate::text::join(
                    crate::text::strs_of(names@),
                    " "@,
                ));
            }
            lines.push(line);
        }
        proof {
            assert(crate::text::seqs_of(lines@) =~= hosts_lines(ev.take(i + 1)));
        }
        i += 1;
    }
    proof {
        assert(entries_view(entries@).take(entries@.len() as int) =~= entries_view(entries@));
    }
    let nl = chars_of("\n");
    let body = crate::text::join_chars(&lines, nl.as_slice());
    let s = string_of(body.as_slice());
    concat(s.as_str(), "\n")
}

/// Why a firewall ownership record's own fields are refused.
pub open spec fn firewall_fields_error(o: NetworkOwnershipRecord) -> ErrorView {
    if !(opt_str(o.firewall_id) matches Some(id) && id.len() > 0) {
        ErrorView::Network("firewall ownership id is missing"@)
    } else if !(opt_str(o.firewall_marker) matches Some(m) && m.len() > 0) {
        ErrorView::Network("firewall ownership marker is missing"@)
    } else {
        ErrorView::Network("malformed or foreign firewall ownership metadata"@)
    }
}

/// Whether a container's firewall objects are still the ones it owns: a
/// known backend, sound ownership fields, an endpoint address, a source
/// network and a bridge; the plan rebuilt from the record (`plan_id` is the
/// ownership id of that plan, or why it could not be built) names the same
/// object; and the owned state captured now (`captured`) carries the marker
/// and equals the state recorded at setup.
pub open spec fn firewall_ownership_check(
    record: ContainerRecord,
    backend_name: Option<Seq<char>>,
    o: NetworkOwnershipRecord,
    plan_id: Result<Option<Seq<char>>, ErrorView>,
    captured: Result<Option<Seq<char>>, ErrorView>,
) -> Result<(), ErrorView> {
    match backend_name {
        None => Err(ErrorView::Network("firewall backend is missing"@)),
        Some(name) => match crate::creation::backend_named(name) {
            None => Err(ErrorView::Network("malformed persisted backend: "@ + name)),
            Some(b) => if !firewall_fields_ok(b, o) {
                Err(firewall_fields_error(o))
            } else if record.ip_address is None {
                Err(ErrorView::Network("firewall endpoint IPv4 is missing"@))
            } else if o.source_cidr is None {
                Err(ErrorView::Network("firewall source CIDR is missing"@))
            } else if o.bridge is None {
                Err(ErrorView::Network("firewall bridge is missing"@))
            } else {
                match plan_id {
                    Err(e) => Err(e),
                    Ok(id) => if id != opt_str(o.firewall_id) {
                        Err(
                            ErrorView::Network(
                                "persisted firewall plan does not match its owner inputs"@,
                            ),
                        )
                    } else {
                        match captured {
                            Err(e) => Err(e),
                            Ok(None) => Err(ErrorView::Network("owned firewall object is missing"@)),
                            Ok(Some(out)) => if !crate::text::has_infix(out, opt_str(o.firewall_marker)->0)
                                || opt_str(o.firewall_expected_state) != Some(out) {
                                Err(
                                    ErrorView::Network(
                                        "owned firewall object is missing or was replaced"@,
                                    ),
                                )
                            } else {
                                Ok(())
                            },
                        }
                    },
                }
            },
        },
    }
}

pub open spec fn opt_result_view(r: Result<Option<String>, RuntimeError>) -> Result<
    Option<Seq<char>>,
    ErrorView,
> {
    match r {
        Ok(o) => Ok(opt_str(o)),
        Err(e) => Err(e@),
    }
}

/// Checks that a container's firewall objects are still its own.
pub fn verify_firewall_ownership(
    record: &ContainerRecord,
    backend_name: Option<&str>,
    ownership: &NetworkOwnershipRecord,
    plan_id: &Result<Option<String>, RuntimeError>,
    captured: &Result<Option<String>, RuntimeError>,
) -> (r: Result<(), RuntimeError>)
    ensures
        match r {
            Ok(()) => firewall_ownership_check(
                *record,
                crate::paths::opt_view(backend_name),
                *ownership,
                opt_result_view(*plan_id),
                opt_result_view(*captured),
            ) is Ok,
            Err(e) => firewall_ownership_check(
                *record,
                crate::paths::opt_view(backend_name),
                *ownership,
                opt_result_view(*plan_id),
                opt_result_view(*captured),
            ) == Err::<(), ErrorView>(e@),
        },
{
    let name = match backend_name {
        None => {
            return Err(RuntimeError::Network(String::from_str("firewall backend is missing")));
        },
        Some(n) => n,
    };
    let backend = match crate::creation::parse_backend(name) {
        None => {
            return Err(RuntimeError::Network(concat("malformed persisted backend: ", name)));
        },
        Some(b) => b,
    };
    verify_firewall_ownership_fields(backend, ownership)?;
    if record.ip_address.is_none() {
        return Err(RuntimeError::Network(String::from_str("firewall endpoint IPv4 is missing")));
    }
    if ownership.source_cidr.is_none() {
        return Err(RuntimeError::Network(String::from_str("firewall source CIDR is missing")));
    }
    if ownership.bridge.is_none() {
        return Err(RuntimeError::Network(String::from_str("firewall bridge is missing")));
    }
    match plan_id {
        Err(e) => {
            return Err(e.duplicate());
        },
        Ok(id) => if !crate::records::opt_string_eq(id, &ownership.firewall_id) {
            return Err(
                RuntimeError::Network(
                    String::from_str("persisted firewall plan does not match its owner inputs"),
                ),
            );
        },
    }
    match captured {
        Err(e) => Err(e.duplicate()),
        Ok(None) => Err(RuntimeError::Network(String::from_str("owned firewall object is missing"))),
        Ok(Some(out)) => {
            let marker = match &ownership.firewall_marker {
                Some(m) => m,
                None => {
                    return Err(
                        RuntimeError::Network(String::from_str("owned firewall object is missing")),
                    );
                },
            };
            let oc = chars_of(out.as_str());
            let mc = chars_of(marker.as_str());
            if !crate::text::chars_has_infix(oc.as_slice(), mc.as_slice())
                || !crate::records::opt_string_is(&ownership.firewall_expected_state, out.as_str()) {
                Err(
                    RuntimeError::Network(
                        String::from_str("owned firewall object is missing or was replaced"),
                    ),
                )
            } else {
                Ok(())
            }
        },
    }
}

pub open spec fn link_view(seen: Option<Result<u32, RuntimeError>>) -> Option<Result<u32, ErrorView>> {
    match seen {
        None => None,
        Some(Ok(i)) => Some(Ok(i)),
        Some(Err(e)) => Some(Err(e@)),
    }
}

/// An owned interface, as the host shows it (`None` when absent, else its
/// index or why that could not be read), is still the one recorded.
pub open spec fn link_check(
    seen: Option<Result<u32, ErrorView>>,
    expected: u32,
    require_present: bool,
    replaced: Seq<char>,
    missing: Seq<char>,
) -> Result<(), ErrorView> {
    match seen {
        Some(Err(e)) => Err(e),
        Some(Ok(index)) => if index != expected {
            Err(ErrorView::Network(replaced))
        } else {
            Ok(())
        },
        None => if require_present {
            Err(ErrorView::Network(missing))
        } else {
            Ok(())
        },
    }
}

/// The owned bridge and managed interface checks, where both a name and an
/// index were recorded.
pub open spec fn attached_links_check(
    o: NetworkOwnershipRecord,
    require_present: bool,
    bridge: Option<Result<u32, ErrorView>>,
    managed: Option<Result<u32, ErrorView>>,
) -> Result<bool, ErrorView> {
    let b = if o.bridge is Some && o.bridge_ifindex is Some {
        link_check(
            bridge,
            o.bridge_ifindex->0,
            require_present,
            "owned bridge was replaced"@,
            "owned bridge is missing"@,
        )
    } else {
        Ok(())
    };
    match b {
        Err(e) => Err(e),
        Ok(()) => {
            let m = if o.managed_interface is Some && o.managed_ifindex is Some {
                link_check(
                    managed,
                    o.managed_ifindex->0,
                    require_present,
                    "managed network interface was replaced"@,
                    "managed network interface is missing"@,
                )
            } else {
                Ok(())
            };
            match m {
                Err(e) => Err(e),
                Ok(()) => Ok(true),
            }
        },
    }
}

/// Whether a container's kernel network objects are still its own, from
/// what the host shows of its host veth, namespace (by device and inode;
/// `Ok(None)` when absent), bridge and managed interface. With
/// `require_present` every one must be there; otherwise absent ones pass,
/// and a replaced namespace answers `false`: the record may be cleaned, but
/// no namespace or veth effect may be made.
pub open spec fn kernel_ownership_check(
    netns_name: Option<Seq<char>>,
    o: NetworkOwnershipRecord,
    require_present: bool,
    host: Option<Result<u32, ErrorView>>,
    netns: Result<Option<KernelIdentity>, ErrorView>,
    bridge: Option<Result<u32, ErrorView>>,
    managed: Option<Result<u32, ErrorView>>,
) -> Result<bool, ErrorView> {
    match o.host_ifindex {
        None => Err(ErrorView::Network("network ownership has no host-veth ifindex"@)),
        Some(h) => match link_check(
            host,
            h,
            require_present,
            "owned host veth was replaced"@,
            "owned host veth is missing"@,
        ) {
            Err(e) => Err(e),
            Ok(()) => match o.namespace_identity {
                None => Err(ErrorView::Network("network ownership has no namespace identity"@)),
                Some(ns) => match netns_name {
                    None => Err(ErrorView::Network("network ownership has no namespace name"@)),
                    Some(_) => match netns {
                        Err(e) => Err(e),
                        Ok(None) => if require_present {
                            Err(ErrorView::Network("owned network namespace is missing"@))
                        } else {
                            attached_links_check(o, require_present, bridge, managed)
                        },
                        Ok(Some(id)) => if id == (KernelIdentity { device: ns.device, inode: ns.inode }) {
                            attached_links_check(o, require_present, bridge, managed)
                        } else if !require_present {
                            Ok(false)
                        } else {
                            Err(
                                ErrorView::Network(
                                    identity_changed_message(
                                        KernelIdentity { device: ns.device, inode: ns.inode },
                                        id,
                                    ),
                                ),
                            )
                        },
                    },
                },
            },
        },
    }
}

fn check_link(
    seen: &Option<Result<u32, RuntimeError>>,
    expected: u32,
    require_present: bool,
    replaced: &str,
    missing: &str,
) -> (r: Result<(), RuntimeError>)
    ensures
        match r {
            Ok(()) => link_check(link_view(*seen), expected, require_present, replaced@, missing@) is Ok,
            Err(e) => link_check(link_view(*seen), expected, require_present, replaced@, missing@)
                == Err::<(), ErrorView>(e@),
        },
{
    match seen {
        Some(Err(e)) => Err(e.duplicate()),
        Some(Ok(index)) => if *index != expected {
            Err(RuntimeError::Network(String::from_str(replaced)))
        } else {
            Ok(())
        },
        None => if require_present {
            Err(RuntimeError::Network(String::from_str(missing)))
        } else {
            Ok(())
        },
    }
}

fn check_attached_links(
    ownership: &NetworkOwnershipRecord,
    require_present: bool,
    bridge: &Option<Result<u32, RuntimeError>>,
    managed: &Option<Result<u32, RuntimeError>>,
) -> (r: Result<bool, RuntimeError>)
    ensures
        match r {
            Ok(b) => attached_links_check(*ownership, require_present, link_view(*bridge), link_view(*managed))
                == Ok::<bool, ErrorView>(b),
            Err(e) => attached_links_check(*ownership, require_present, link_view(*bridge), link_view(*managed))
                == Err::<bool, ErrorView>(e@),
        },
{
    if ownership.bridge.is_some() {
        if let Some(expected) = ownership.bridge_ifindex {
            check_link(bridge, expected, require_present, "owned bridge was replaced", "owned bridge is missing")?;
        }
    }
    if ownership.managed_interface.is_some() {
        if let Some(expected) = ownership.managed_ifindex {
            check_link(
                managed,
                expected,
                require_present,
                "managed network interface was replaced",
                "managed network interface is missing",
            )?;
        }
    }
    Ok(true)
}

/// Checks that a container's kernel network objects are still its own; see
/// `kernel_ownership_check`.
pub fn verify_container_kernel_ownership(
    netns_name: Option<&str>,
    ownership: &NetworkOwnershipRecord,
    require_present: bool,
    host: &Option<Result<u32, RuntimeError>>,
    netns: &Result<Option<KernelIdentity>, RuntimeError>,
    bridge: &Option<Result<u32, RuntimeError>>,
    managed: &Option<Result<u32, RuntimeError>>,
) -> (r: Result<bool, RuntimeError>)
    ensures
        match r {
            Ok(b) => kernel_ownership_check(
                crate::paths::opt_view(netns_name),
                *ownership,
                require_present,
                link_view(*host),
                match netns {
                    Ok(n) => Ok(*n),
                    Err(e) => Err(e@),
                },
                link_view(*bridge),
                link_view(*managed),
            ) == Ok::<bool, ErrorView>(b),
            Err(e) => kernel_ownership_check(
                crate::paths::opt_view(netns_name),
                *ownership,
                require_present,
                link_view(*host),
                match netns {
                    Ok(n) => Ok(*n),
                    Err(e) => Err(e@),
                },
                link_view(*bridge),
                link_view(*managed),
            ) == Err::<bool, ErrorView>(e@),
        },
{
    let host_index = match ownership.host_ifindex {
        None => {
            return Err(
                RuntimeError::Network(String::from_str("network ownership has no host-veth ifindex")),
            );
        },
        Some(h) => h,
    };
    check_link(host, host_index, require_present, "owned host veth was replaced", "owned host veth is missing")?;
    let ns = match ownership.namespace_identity {
        None => {
            return Err(
                RuntimeError::Network(String::from_str("network ownership has no namespace identity")),
            );
        },
        Some(ns) => ns,
    };
    if netns_name.is_none() {
        return Err(RuntimeError::Network(String::from_str("network ownership has no namespace name")));
    }
    match netns {
        Err(e) => Err(e.duplicate()),
        Ok(None) => if require_present {
            Err(RuntimeError::Network(String::from_str("owned network namespace is missing")))
        } else {
            check_attached_links(ownership, require_present, bridge, managed)
        },
        Ok(Some(id)) => {
            let expected = KernelIdentity { device: ns.device, inode: ns.inode };
            match verify_kernel_identity(expected, Some(*id)) {
                Ok(_) => check_attached_links(ownership, require_present, bridge, managed),
                Err(e) => if !require_present {
                    Ok(false)
                } else {
                    Err(e)
                },
            }
        },
    }
}

} // verus!
