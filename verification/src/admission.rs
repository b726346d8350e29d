//! The security facts of a run request, as they are admitted and as they
//! are checked again just before the run: capabilities, mounts and their
//! kernel identities, network identifiers and the hardening switches.

use crate::error::{ErrorView, RuntimeError};
use crate::hashing::{be_u64_prefix, be_value, bytes_concat, mount_digest, mount_target_digest, sha256, sha256_digest};
use crate::network::NetworkBackend;
use crate::records::PortMappingRecord;
use crate::text::{concat, copy_strings, decimal, decimal_string, str_eq, strings_eq, strs_of};
use vstd::prelude::*;
use vstd::string::StringExecFns;
use vstd::string::StringSliceAdditionalSpecFns;
use vstd::utf8::encode_utf8;

verus! {

/// How a mount reaches the container.
#[derive(Debug, Clone, Copy, PartialEq, Eq, Structural)]
pub enum MountClass {
    ReadOnly,
    HostPath,
    Tmpfs,
}

/// The identity of one mount of a run: the kernel object behind it and the
/// digest of its target.
#[derive(Debug, Clone, Copy)]
pub struct RunMountFact {
    pub class: MountClass,
    pub mount_id: u64,
    pub device_id: u64,
    pub inode: u64,
    pub open_flags: u64,
    pub target_digest: [u8; 32],
}

pub ghost struct MountFactView {
    pub class: MountClass,
    pub mount_id: u64,
    pub device_id: u64,
    pub inode: u64,
    pub open_flags: u64,
    pub target_digest: Seq<u8>,
}

impl View for RunMountFact {
    type V = MountFactView;

    open spec fn view(&self) -> MountFactView {
        MountFactView {
            class: self.class,
            mount_id: self.mount_id,
            device_id: self.device_id,
            inode: self.inode,
            open_flags: self.open_flags,
            target_digest: self.target_digest@,
        }
    }
}

/// The fact of a bind mount whose source was opened as the kernel object
/// (`mount_id`, `device_id`, `inode`).
pub fn bind_mount_fact(read_only: bool, mount_id: u64, device_id: u64, inode: u64, target: &str) -> (r:
    RunMountFact)
    ensures
        r@ == (MountFactView {
            class: if read_only {
                MountClass::ReadOnly
            } else {
                MountClass::HostPath
            },
            mount_id,
            device_id,
            inode,
            open_flags: if read_only {
                1
            } else {
                0
            },
            target_digest: mount_digest(target@),
        }),
{
    RunMountFact {
        class: if read_only {
            MountClass::ReadOnly
        } else {
            MountClass::HostPath
        },
        mount_id,
        device_id,
        inode,
        open_flags: if read_only {
            1
        } else {
            0
        },
        target_digest: mount_target_digest(target),
    }
}

/// The digest that binds a tmpfs mount to its target and size.
pub open spec fn tmpfs_binding_digest(target: Seq<char>, size: Option<Seq<char>>) -> Seq<u8> {
    sha256_digest(
        encode_utf8("ferrocrate/tmpfs-binding/v1"@) + encode_utf8(target) + match size {
            Some(s) => encode_utf8(s),
            None => Seq::empty(),
        },
    )
}

pub open spec fn opt_chars(o: Option<&str>) -> Option<Seq<char>> {
    match o {
        Some(s) => Some(s@),
        None => None,
    }
}

/// The fact of the tmpfs mount at position `index`: it has no kernel object
/// yet, so it counts mount ids down from the largest, and takes the first 8
/// bytes of its binding digest for an inode.
pub fn tmpfs_mount_fact(index: usize, target: &str, size: Option<&str>) -> (r: RunMountFact)
    ensures
        r@ == (MountFactView {
            class: MountClass::Tmpfs,
            mount_id: (u64::MAX - index) as u64,
            device_id: 0,
            inode: be_value(tmpfs_binding_digest(target@, opt_chars(size)).take(8)) as u64,
            open_flags: 0,
            target_digest: mount_digest(target@),
        }),
{
    let head = bytes_concat("ferrocrate/tmpfs-binding/v1".as_bytes(), target.as_bytes());
    let data = match size {
        Some(s) => bytes_concat(head.as_slice(), s.as_bytes()),
        None => head,
    };
    proof {
        assert(data@ =~= encode_utf8("ferrocrate/tmpfs-binding/v1"@) + encode_utf8(target@) + match size {
            Some(s) => encode_utf8(s@),
            None => Seq::<u8>::empty(),
        });
    }
    let digest = sha256(data.as_slice());
    let inode = be_u64_prefix(&digest);
    RunMountFact {
        class: MountClass::Tmpfs,
        mount_id: u64::MAX - index as u64,
        device_id: 0,
        inode,
        open_flags: 0,
        target_digest: mount_target_digest(target),
    }
}

/// How the network backend is named among a run's network identifiers.
pub open spec fn backend_label(b: NetworkBackend) -> Seq<char> {
    match b {
        NetworkBackend::Iptables => "Iptables"@,
        NetworkBackend::Nftables => "Nftables"@,
        NetworkBackend::Ebpf => "Ebpf"@,
    }
}

/// The identifier of a published port: `port:<host>:<container>/<protocol>`.
pub open spec fn port_id(p: PortMappingRecord) -> Seq<char> {
    "port:"@ + decimal(p.host_port as nat) + ":"@ + decimal(p.container_port as nat) + "/"@
        + p.protocol@
}

/// The network identifiers of a run: its mode, its backend, and each
/// published port in order.
pub open spec fn network_ids_of(
    mode: Seq<char>,
    backend: NetworkBackend,
    ports: Seq<PortMappingRecord>,
) -> Seq<Seq<char>> {
    seq!["mode:"@ + mode, "backend:"@ + backend_label(backend)] + ports.map_values(
        |p: PortMappingRecord| port_id(p),
    )
}

fn port_identifier(p: &PortMappingRecord) -> (r: String)
    ensures
        r@ == port_id(*p),
{
    let host = decimal_string(p.host_port as u64);
    let container = decimal_string(p.container_port as u64);
    let a = concat("port:", host.as_str());
    let b = concat(a.as_str(), ":");
    let c = concat(b.as_str(), container.as_str());
    let d = concat(c.as_str(), "/");
    concat(d.as_str(), p.protocol.as_str())
}

pub fn run_network_ids(network_mode: &str, backend: NetworkBackend, ports: &[PortMappingRecord]) -> (r:
    Vec<String>)
    ensures
        strs_of(r@) == network_ids_of(network_mode@, backend, ports@),
{
    let label = match backend {
        NetworkBackend::Iptables => "Iptables",
        NetworkBackend::Nftables => "Nftables",
        NetworkBackend::Ebpf => "Ebpf",
    };
    let mut r: Vec<String> = Vec::new();
    r.push(concat("mode:", network_mode));
    r.push(concat("backend:", label));
    let ghost head = seq!["mode:"@ + network_mode@, "backend:"@ + backend_label(backend)];
    assert(strs_of(r@) =~= head);
    let mut i: usize = 0;
    while i < ports.len()
        invariant
            i <= ports@.len(),
            strs_of(r@) == head + ports@.take(i as int).map_values(
                |p: PortMappingRecord| port_id(p),
            ),
        decreases ports.len() - i,
    {
        let ghost r0 = strs_of(r@);
        let id = port_identifier(&ports[i]);
        r.push(id);
        assert(strs_of(r@) =~= r0.push(port_id(ports@[i as int])));
        assert(ports@.take(i + 1).map_values(|p: PortMappingRecord| port_id(p)) =~= ports@.take(
            i as int,
        ).map_values(|p: PortMappingRecord| port_id(p)).push(port_id(ports@[i as int])));
        i += 1;
    }
    assert(ports@.take(ports@.len() as int) =~= ports@);
    r
}

/// The facts of a run request that its admission covers.
#[derive(Debug, Clone)]
pub struct RunSecurityFacts {
    pub capabilities: Vec<String>,
    pub mounts: Vec<RunMountFact>,
    pub network_ids: Vec<String>,
    pub privileged: bool,
    pub readonly_rootfs: bool,
    pub no_new_privileges: bool,
    /// Whether the bind sources lie under approved roots, where that is
    /// checked at all.
    pub mount_sources_approved: Option<bool>,
}

pub open spec fn mounts_view(m: Seq<RunMountFact>) -> Seq<MountFactView> {
    m.map_values(|f: RunMountFact| f@)
}

/// A run is privileged when it asks for `CAP_SYS_ADMIN`.
pub open spec fn is_privileged(capabilities: Seq<Seq<char>>) -> bool {
    capabilities.contains("CAP_SYS_ADMIN"@)
}

/// The facts of a run request from its parts.
pub fn run_security_facts(
    capabilities: &[String],
    mounts: Vec<RunMountFact>,
    network_ids: Vec<String>,
    readonly_rootfs: bool,
    no_new_privileges: bool,
    mount_sources_approved: Option<bool>,
) -> (r: RunSecurityFacts)
    ensures
        strs_of(r.capabilities@) == strs_of(capabilities@),
        mounts_view(r.mounts@) == mounts_view(mounts@),
        strs_of(r.network_ids@) == strs_of(network_ids@),
        r.privileged == is_privileged(strs_of(capabilities@)),
        r.readonly_rootfs == readonly_rootfs,
        r.no_new_privileges == no_new_privileges,
        r.mount_sources_approved == mount_sources_approved,
{
    let mut privileged = false;
    let mut i: usize = 0;
    while i < capabilities.len()
        invariant
            i <= capabilities@.len(),
            privileged == strs_of(capabilities@).take(i as int).contains("CAP_SYS_ADMIN"@),
        decreases capabilities.len() - i,
    {
        let ghost t = strs_of(capabilities@).take(i + 1);
        assert(t =~= strs_of(capabilities@).take(i as int).push(capabilities@[i as int]@));
        if str_eq(capabilities[i].as_str(), "CAP_SYS_ADMIN") {
            assert(t[i as int] == "CAP_SYS_ADMIN"@);
            privileged = true;
        } else {
            assert(t.contains("CAP_SYS_ADMIN"@) == strs_of(capabilities@).take(i as int).contains(
                "CAP_SYS_ADMIN"@,
            )) by {
                if t.contains("CAP_SYS_ADMIN"@) {
                    let k = choose|k: int| 0 <= k < t.len() && t[k] == "CAP_SYS_ADMIN"@;
                    assert(k != i);
                    assert(strs_of(capabilities@).take(i as int)[k] == "CAP_SYS_ADMIN"@);
                }
            }
        }
        i += 1;
    }
    assert(strs_of(capabilities@).take(capabilities@.len() as int) =~= strs_of(capabilities@));
    RunSecurityFacts {
        capabilities: copy_strings(capabilities),
        mounts,
        network_ids,
        privileged,
        readonly_rootfs,
        no_new_privileges,
        mount_sources_approved,
    }
}

/// The kernel identity that an opened bind source shows at run time.
#[derive(Debug, Clone, Copy, PartialEq, Eq, Structural)]
pub struct HandleIdentity {
    pub device_id: u64,
    pub inode: u64,
    pub mount_id: u64,
}

/// The admitted facts no longer describe the request: capabilities, network
/// identifiers, a switch or the number of mounts differ.
pub open spec fn facts_stale(authorized: RunSecurityFacts, normalized: RunSecurityFacts) -> bool {
    ||| strs_of(authorized.capabilities@) != strs_of(normalized.capabilities@)
    ||| strs_of(authorized.network_ids@) != strs_of(normalized.network_ids@)
    ||| authorized.privileged != normalized.privileged
    ||| authorized.readonly_rootfs != normalized.readonly_rootfs
    ||| authorized.no_new_privileges != normalized.no_new_privileges
    ||| authorized.mounts@.len() != normalized.mounts@.len()
}

/// The first `n` mounts have the identities that were admitted.
pub open spec fn mounts_agree(a: Seq<RunMountFact>, b: Seq<RunMountFact>, n: int) -> bool {
    forall|i: int| 0 <= i < n ==> #[trigger] a[i]@ == b[i]@
}

/// The first `n` opened bind sources still show the admitted identities.
pub open spec fn handles_agree(
    handles: Seq<Result<HandleIdentity, RuntimeError>>,
    mounts: Seq<RunMountFact>,
    n: int,
) -> bool {
    forall|i: int|
        0 <= i < n ==> (#[trigger] handles[i] matches Ok(h) && h.device_id == mounts[i].device_id
            && h.inode == mounts[i].inode && h.mount_id == mounts[i].mount_id)
}

pub open spec fn stale_facts_error() -> ErrorView {
    ErrorView::Authorization("authorized run facts became stale"@)
}

pub open spec fn stale_mount_error() -> ErrorView {
    ErrorView::Authorization("authorized mount identity became stale"@)
}

pub open spec fn replaced_handle_error() -> ErrorView {
    ErrorView::Authorization("authorized mount handle was replaced"@)
}

/// Checks, just before a run, that the request is still the one admitted:
/// the same facts, the same mount identities in order, and bind sources that
/// still show the identities they were admitted with. `handles` holds what
/// each opened bind source shows now, or why that could not be read.
pub fn validate_normalized_run(
    authorized: &RunSecurityFacts,
    normalized: &RunSecurityFacts,
    handles: &[Result<HandleIdentity, RuntimeError>],
) -> (r: Result<(), RuntimeError>)
    requires
        handles@.len() <= normalized.mounts@.len(),
    ensures
        facts_stale(*authorized, *normalized) ==> (r matches Err(e) && e@ == stale_facts_error()),
        !facts_stale(*authorized, *normalized) ==> {
            let n = normalized.mounts@.len() as int;
            &&& !mounts_agree(authorized.mounts@, normalized.mounts@, n) ==> (r matches Err(e)
                && e@ == stale_mount_error())
            &&& mounts_agree(authorized.mounts@, normalized.mounts@, n) ==> (r is Ok
                <==> handles_agree(handles@, normalized.mounts@, handles@.len() as int))
            &&& mounts_agree(authorized.mounts@, normalized.mounts@, n) ==> (r matches Err(e) ==> (
            exists|i: int|
                #![trigger handles@[i]]
                0 <= i < handles@.len() && handles_agree(handles@, normalized.mounts@, i) && (
                match handles@[i] {
                    Err(h) => e@ == h@,
                    Ok(_) => e@ == replaced_handle_error(),
                })))
        },
{
    if !strings_eq(authorized.capabilities.as_slice(), normalized.capabilities.as_slice())
        || !strings_eq(authorized.network_ids.as_slice(), normalized.network_ids.as_slice())
        || authorized.privileged != normalized.privileged
        || authorized.readonly_rootfs != normalized.readonly_rootfs
        || authorized.no_new_privileges != normalized.no_new_privileges
        || authorized.mounts.len() != normalized.mounts.len()
    {
        return Err(RuntimeError::Authorization(String::from_str("authorized run facts became stale")));
    }
    let n = normalized.mounts.len();
    let mut i: usize = 0;
    while i < n
        invariant
            n == normalized.mounts@.len(),
            authorized.mounts@.len() == n,
            i <= n,
            !facts_stale(*authorized, *normalized),
            mounts_agree(authorized.mounts@, normalized.mounts@, i as int),
        decreases n - i,
    {
        let a = &authorized.mounts[i];
        let b = &normalized.mounts[i];
        let mut same = a.class == b.class && a.mount_id == b.mount_id && a.device_id == b.device_id
            && a.inode == b.inode && a.open_flags == b.open_flags;
        let mut k: usize = 0;
        while same && k < 32
            invariant
                k <= 32,
                a.target_digest@.len() == 32,
                b.target_digest@.len() == 32,
                same ==> forall|j: int| 0 <= j < k ==> a.target_digest@[j] == b.target_digest@[j],
                same ==> a.class == b.class && a.mount_id == b.mount_id && a.device_id
                    == b.device_id && a.inode == b.inode && a.open_flags == b.open_flags,
                !same ==> a@ != b@,
            decreases 32 - k,
        {
            if a.target_digest[k] != b.target_digest[k] {
                same = false;
            }
            k += 1;
        }
        if same {
            assert(a.target_digest@ =~= b.target_digest@);
            assert(a@ == b@);
        }
        if !same {
            proof {
                assert(!mounts_agree(authorized.mounts@, normalized.mounts@, n as int)) by {
                    assert(authorized.mounts@[i as int]@ != normalized.mounts@[i as int]@);
                }
            }
            return Err(
                RuntimeError::Authorization(String::from_str("authorized mount identity became stale")),
            );
        }
        i += 1;
    }
    let mut h: usize = 0;
    while h < handles.len()
        invariant
            h <= handles@.len(),
            handles@.len() <= normalized.mounts@.len(),
            !facts_stale(*authorized, *normalized),
            mounts_agree(authorized.mounts@, normalized.mounts@, normalized.mounts@.len() as int),
            handles_agree(handles@, normalized.mounts@, h as int),
        decreases handles.len() - h,
    {
        let observed = &normalized.mounts[h];
        match &handles[h] {
            Err(e) => {
                return Err(e.duplicate());
            },
            Ok(identity) => {
                if identity.device_id != observed.device_id || identity.inode != observed.inode
                    || identity.mount_id != observed.mount_id {
                    return Err(
                        RuntimeError::Authorization(String::from_str("authorized mount handle was replaced")),
                    );
                }
            },
        }
        h += 1;
    }
    Ok(())
}

} // verus!
