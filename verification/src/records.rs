//! Persisted ownership records that the network checks read, with their
//! views and field-by-field equality.

use crate::text::{chars_eq, chars_of};
use vstd::prelude::*;

verus! {

/// A kernel object named by device and inode.
#[derive(Debug, Clone, Copy, PartialEq, Eq, Structural)]
pub struct KernelObjectIdentityRecord {
    pub device: u64,
    pub inode: u64,
}

/// A published port.
#[derive(Debug, Clone, PartialEq, Eq)]
pub struct PortMappingRecord {
    pub host_port: u16,
    pub container_port: u16,
    pub protocol: String,
}

/// A traffic-control classifier that the runtime attached.
#[derive(Debug, Clone, PartialEq, Eq)]
pub struct EbpfFilterOwnershipRecord {
    pub interface: Option<String>,
    pub interface_ifindex: Option<u32>,
    pub direction: String,
    pub priority: u32,
    pub handle: String,
    pub program_id: Option<u32>,
    pub program_tag: Option<String>,
}

/// An entry of the runtime's pinned eBPF tree.
#[derive(Debug, Clone, PartialEq, Eq)]
pub struct EbpfPinOwnershipRecord {
    pub relative_path: String,
    pub device: u64,
    pub inode: u64,
    pub directory: bool,
    pub map_id: Option<u32>,
}

/// The network resources that a container's setup owns.
#[derive(Debug, Clone, PartialEq, Eq)]
pub struct NetworkOwnershipRecord {
    pub schema_version: u32,
    pub owner_id: String,
    pub network_id: Option<String>,
    pub host_interface: String,
    pub host_ifindex: Option<u32>,
    pub namespace_identity: Option<KernelObjectIdentityRecord>,
    pub managed_interface: Option<String>,
    pub managed_ifindex: Option<u32>,
    pub loopback_ifindex: Option<u32>,
    pub bridge_ifindex: Option<u32>,
    pub source_cidr: Option<String>,
    pub bridge: Option<String>,
    pub firewall_id: Option<String>,
    pub firewall_marker: Option<String>,
    pub firewall_expected_state: Option<String>,
    pub ebpf_pin_path: Option<String>,
    pub external_ipv4: Option<String>,
    pub next_hop_mac: Option<String>,
    pub snat_port_start: Option<u16>,
    pub snat_port_end: Option<u16>,
    pub object_sha256: Option<String>,
    pub object_abi: Option<String>,
    pub ebpf_filters: Vec<EbpfFilterOwnershipRecord>,
    pub ebpf_pins: Vec<EbpfPinOwnershipRecord>,
}

pub open spec fn opt_str(o: Option<String>) -> Option<Seq<char>> {
    match o {
        Some(s) => Some(s@),
        None => None,
    }
}

pub ghost struct FilterView {
    pub interface: Option<Seq<char>>,
    pub interface_ifindex: Option<u32>,
    pub direction: Seq<char>,
    pub priority: u32,
    pub handle: Seq<char>,
    pub program_id: Option<u32>,
    pub program_tag: Option<Seq<char>>,
}

impl View for EbpfFilterOwnershipRecord {
    type V = FilterView;

    open spec fn view(&self) -> FilterView {
        FilterView {
            interface: opt_str(self.interface),
            interface_ifindex: self.interface_ifindex,
            direction: self.direction@,
            priority: self.priority,
            handle: self.handle@,
            program_id: self.program_id,
            program_tag: opt_str(self.program_tag),
        }
    }
}

pub ghost struct PinView {
    pub relative_path: Seq<char>,
    pub device: u64,
    pub inode: u64,
    pub directory: bool,
    pub map_id: Option<u32>,
}

impl View for EbpfPinOwnershipRecord {
    type V = PinView;

    open spec fn view(&self) -> PinView {
        PinView {
            relative_path: self.relative_path@,
            device: self.device,
            inode: self.inode,
            directory: self.directory,
            map_id: self.map_id,
        }
    }
}

pub open spec fn filters_view(v: Seq<EbpfFilterOwnershipRecord>) -> Seq<FilterView> {
    v.map_values(|f: EbpfFilterOwnershipRecord| f@)
}

pub open spec fn pins_view(v: Seq<EbpfPinOwnershipRecord>) -> Seq<PinView> {
    v.map_values(|p: EbpfPinOwnershipRecord| p@)
}

pub fn string_eq(a: &String, b: &String) -> (r: bool)
    ensures
        r == (a@ == b@),
{
    let x = chars_of(a.as_str());
    let y = chars_of(b.as_str());
    chars_eq(x.as_slice(), y.as_slice())
}

pub fn opt_string_eq(a: &Option<String>, b: &Option<String>) -> (r: bool)
    ensures
        r == (opt_str(*a) == opt_str(*b)),
{
    match (a, b) {
        (Some(x), Some(y)) => string_eq(x, y),
        (None, None) => true,
        _ => false,
    }
}

/// Whether `o` holds a string equal to `s`.
pub fn opt_string_is(o: &Option<String>, s: &str) -> (r: bool)
    ensures
        r == (opt_str(*o) == Some(s@)),
{
    match o {
        Some(x) => {
            let a = chars_of(x.as_str());
            let b = chars_of(s);
            chars_eq(a.as_slice(), b.as_slice())
        },
        None => false,
    }
}

pub fn filter_eq(a: &EbpfFilterOwnershipRecord, b: &EbpfFilterOwnershipRecord) -> (r: bool)
    ensures
        r == (a@ == b@),
{
    opt_string_eq(&a.interface, &b.interface) && a.interface_ifindex == b.interface_ifindex
        && string_eq(&a.direction, &b.direction) && a.priority == b.priority && string_eq(
        &a.handle,
        &b.handle,
    ) && a.program_id == b.program_id && opt_string_eq(&a.program_tag, &b.program_tag)
}

pub fn pin_eq(a: &EbpfPinOwnershipRecord, b: &EbpfPinOwnershipRecord) -> (r: bool)
    ensures
        r == (a@ == b@),
{
    string_eq(&a.relative_path, &b.relative_path) && a.device == b.device && a.inode == b.inode
        && a.directory == b.directory && a.map_id == b.map_id
}

pub fn filters_eq(a: &Vec<EbpfFilterOwnershipRecord>, b: &Vec<EbpfFilterOwnershipRecord>) -> (r:
    bool)
    ensures
        r == (filters_view(a@) == filters_view(b@)),
{
    if a.len() != b.len() {
        assert(filters_view(a@).len() != filters_view(b@).len());
        return false;
    }
    let mut i: usize = 0;
    while i < a.len()
        invariant
            a@.len() == b@.len(),
            i <= a@.len(),
            forall|j: int| 0 <= j < i ==> a@[j]@ == b@[j]@,
        decreases a.len() - i,
    {
        if !filter_eq(&a[i], &b[i]) {
            assert(filters_view(a@)[i as int] != filters_view(b@)[i as int]);
            return false;
        }
        i += 1;
    }
    assert(filters_view(a@) =~= filters_view(b@));
    true
}

pub fn pins_eq(a: &Vec<EbpfPinOwnershipRecord>, b: &Vec<EbpfPinOwnershipRecord>) -> (r: bool)
    ensures
        r == (pins_view(a@) == pins_view(b@)),
{
    if a.len() != b.len() {
        assert(pins_view(a@).len() != pins_view(b@).len());
        return false;
    }
    let mut i: usize = 0;
    while i < a.len()
        invariant
            a@.len() == b@.len(),
            i <= a@.len(),
            forall|j: int| 0 <= j < i ==> a@[j]@ == b@[j]@,
        decreases a.len() - i,
    {
        if !pin_eq(&a[i], &b[i]) {
            assert(pins_view(a@)[i as int] != pins_view(b@)[i as int]);
            return false;
        }
        i += 1;
    }
    assert(pins_view(a@) =~= pins_view(b@));
    true
}

} // verus!

verus! {

/// The parts of a stored container record that the network and recovery
/// checks read.
#[derive(Debug, Clone, PartialEq, Eq)]
pub struct ContainerRecord {
    pub id: String,
    pub name: Option<String>,
    pub status: String,
    pub pid: u32,
    pub ports: Vec<PortMappingRecord>,
    pub network_name: Option<String>,
    pub network_ownership: Option<NetworkOwnershipRecord>,
    pub ip_address: Option<String>,
    pub ipv6_address: Option<String>,
    /// The named network namespace the container runs in.
    pub netns: Option<String>,
    /// Whether the runtime created that namespace (and may remove it).
    pub namespace_owned: bool,
    pub namespace_identity: Option<KernelObjectIdentityRecord>,
    /// The persisted name of the network backend, if any.
    pub network_backend: Option<String>,
    /// The managed overlay the container is attached to, if any.
    pub managed_overlay: Option<String>,
    pub managed_host_veth: Option<String>,
}

} // verus!
