//! Settings that the runtime reads from its environment and from the host,
//! parsed and checked: boolean switches, the veth MTU, the eBPF SNAT port
//! range, the kernel release, a process's start time, DNS lists, and the
//! paths of AI snapshots.

use crate::error::{ErrorView, RuntimeError};
use crate::text::{
    chars_of, chars_skip, chars_take, comma_items, comma_list, concat, decimal, eq_ignore_ascii_case,
    find_char, first_index, lower, parse_bounded, parse_unsigned, path_join, path_join_str,
    split_char, split_chars, str_eq, strs_of, trim, trim_chars, words, words_of, seqs_of,
};
use vstd::prelude::*;
use vstd::string::StringExecFns;

verus! {

/// A switch that is on when set to `1` or to `true` in any ASCII case.
pub open spec fn flag_on(value: Option<Seq<char>>) -> bool {
    value matches Some(v) && (v == "1"@ || lower(v) == lower("true"@))
}

/// A switch that is on unless set to `0` or to `false` in any ASCII case.
pub open spec fn flag_not_off(value: Option<Seq<char>>) -> bool {
    match value {
        None => true,
        Some(v) => !(v == "0"@ || lower(v) == lower("false"@)),
    }
}

pub fn env_flag_enabled(value: Option<&str>) -> (r: bool)
    ensures
        r == flag_on(crate::paths::opt_view(value)),
{
    match value {
        Some(v) => str_eq(v, "1") || eq_ignore_ascii_case(v, "true"),
        None => false,
    }
}

pub fn env_flag_not_disabled(value: Option<&str>) -> (r: bool)
    ensures
        r == flag_not_off(crate::paths::opt_view(value)),
{
    match value {
        Some(v) => !(str_eq(v, "0") || eq_ignore_ascii_case(v, "false")),
        None => true,
    }
}

/// Seccomp is strict unless permissive mode is switched on.
pub fn seccomp_strict_mode(permissive: bool) -> (r: bool)
    ensures
        r == !permissive,
{
    !permissive
}

/// A mandatory-access-control failure is tolerated only in permissive mode.
pub fn mac_enforcement_result(feature: &str, detail: &str, permissive: bool) -> (r: Result<
    (),
    RuntimeError,
>)
    ensures
        r is Ok <==> permissive,
        r matches Err(e) ==> e@ == ErrorView::InvalidCommand(feature@ + ": "@ + detail@),
{
    if permissive {
        return Ok(());
    }
    let head = concat(feature, ": ");
    Err(RuntimeError::InvalidCommand(head.concat(detail)))
}

/// The configured veth MTU: unset means none; otherwise an integer from 576
/// to 65535.
pub open spec fn veth_mtu(value: Option<Seq<char>>) -> Result<Option<u32>, ErrorView> {
    match value {
        None => Ok(None),
        Some(v) => match parse_unsigned(trim(v), 10, u32::MAX as int) {
            None => Err(ErrorView::Network("FERROCRATE_VETH_MTU must be an integer"@)),
            Some(m) => if 576 <= m <= 65535 {
                Ok(Some(m as u32))
            } else {
                Err(ErrorView::Network("FERROCRATE_VETH_MTU must be between 576 and 65535"@))
            },
        },
    }
}

pub fn configured_veth_mtu(value: Option<&str>) -> (r: Result<Option<u32>, RuntimeError>)
    ensures
        r matches Ok(m) ==> veth_mtu(crate::paths::opt_view(value)) == Ok::<
            Option<u32>,
            ErrorView,
        >(m),
        r matches Err(e) ==> veth_mtu(crate::paths::opt_view(value)) == Err::<Option<u32>, ErrorView>(
            e@,
        ),
{
    let v = match value {
        None => return Ok(None),
        Some(v) => v,
    };
    let c = chars_of(v);
    let t = trim_chars(c.as_slice());
    let mtu = match parse_bounded(t.as_slice(), 10, 0xffff_ffff) {
        Some(m) => m,
        None => {
            return Err(RuntimeError::Network(String::from_str("FERROCRATE_VETH_MTU must be an integer")));
        },
    };
    if !(576 <= mtu && mtu <= 65535) {
        return Err(
            RuntimeError::Network(
                String::from_str("FERROCRATE_VETH_MTU must be between 576 and 65535"),
            ),
        );
    }
    Ok(Some(mtu as u32))
}

/// The eBPF SNAT port range `START-END` (default `50000-50031`).
pub open spec fn snat_range(value: Option<Seq<char>>) -> Result<(u16, u16), ErrorView> {
    let v = match value {
        Some(v) => v,
        None => "50000-50031"@,
    };
    match first_index(v, '-') {
        None => Err(ErrorView::Network("FERROCRATE_EBPF_SNAT_PORT_RANGE must be START-END"@)),
        Some(d) => match parse_unsigned(v.take(d), 10, u16::MAX as int) {
            None => Err(ErrorView::Network("invalid eBPF SNAT range start"@)),
            Some(start) => match parse_unsigned(v.skip(d + 1), 10, u16::MAX as int) {
                None => Err(ErrorView::Network("invalid eBPF SNAT range end"@)),
                Some(end) => Ok((start as u16, end as u16)),
            },
        },
    }
}

pub fn ebpf_snat_range(value: Option<&str>) -> (r: Result<(u16, u16), RuntimeError>)
    ensures
        r matches Ok(p) ==> snat_range(crate::paths::opt_view(value)) == Ok::<(u16, u16), ErrorView>(p),
        r matches Err(e) ==> snat_range(crate::paths::opt_view(value)) == Err::<(u16, u16), ErrorView>(
            e@,
        ),
{
    let v = match value {
        Some(v) => chars_of(v),
        None => chars_of("50000-50031"),
    };
    let n: usize = v.len();
    let d = match find_char(v.as_slice(), '-') {
        Some(d) => d,
        None => {
            return Err(
                RuntimeError::Network(
                    String::from_str("FERROCRATE_EBPF_SNAT_PORT_RANGE must be START-END"),
                ),
            );
        },
    };
    assert(d < n);
    let head = chars_take(v.as_slice(), d);
    let tail = chars_skip(v.as_slice(), d + 1);
    let start = match parse_bounded(head.as_slice(), 10, 0xffff) {
        Some(s) => s as u16,
        None => {
            return Err(RuntimeError::Network(String::from_str("invalid eBPF SNAT range start")));
        },
    };
    let end = match parse_bounded(tail.as_slice(), 10, 0xffff) {
        Some(e) => e as u16,
        None => {
            return Err(RuntimeError::Network(String::from_str("invalid eBPF SNAT range end")));
        },
    };
    Ok((start, end))
}

/// `-` treated as `.`, so that a release splits on either.
pub open spec fn dashes_as_dots(s: Seq<char>) -> Seq<char> {
    s.map_values(|c: char| if c == '-' { '.' } else { c })
}

/// A numeric field of a kernel release, 0 when missing or not a number.
pub open spec fn release_field(parts: Seq<Seq<char>>, i: int) -> int {
    if i < parts.len() {
        match parse_unsigned(parts[i], 10, u32::MAX as int) {
            Some(v) => v,
            None => 0,
        }
    } else {
        0
    }
}

/// Kernels older than 5.10 are refused.
pub open spec fn kernel_release_ok(release: Seq<char>) -> bool {
    let parts = split_char(dashes_as_dots(release), '.');
    let major = release_field(parts, 0);
    let minor = release_field(parts, 1);
    !(major < 5 || (major == 5 && minor < 10))
}

fn field_value(parts: &Vec<Vec<char>>, i: usize) -> (r: u64)
    ensures
        r == release_field(seqs_of(parts@), i as int),
{
    if i < parts.len() {
        assert(parts@[i as int]@ == seqs_of(parts@)[i as int]);
        match parse_bounded(parts[i].as_slice(), 10, 0xffff_ffff) {
            Some(v) => v,
            None => 0,
        }
    } else {
        0
    }
}

pub fn check_kernel_release(release: &str) -> (r: Result<(), RuntimeError>)
    ensures
        r is Ok <==> kernel_release_ok(release@),
        r matches Err(e) ==> e@ == ErrorView::Kernel(
            "kernel "@ + release@ + " below required 5.10"@,
        ),
{
    let c = chars_of(release);
    let mut d: Vec<char> = Vec::new();
    let mut i: usize = 0;
    while i < c.len()
        invariant
            c@ == release@,
            i <= c@.len(),
            d@ == dashes_as_dots(c@.take(i as int)),
        decreases c.len() - i,
    {
        if c[i] == '-' {
            d.push('.');
        } else {
            d.push(c[i]);
        }
        i += 1;
        assert(d@ =~= dashes_as_dots(c@.take(i as int)));
    }
    assert(c@.take(c@.len() as int) =~= c@);
    let parts = split_chars(d.as_slice(), '.');
    let major = field_value(&parts, 0);
    let minor = field_value(&parts, 1);
    if major < 5 || (major == 5 && minor < 10) {
        let head = concat("kernel ", release);
        return Err(RuntimeError::Kernel(head.concat(" below required 5.10")));
    }
    Ok(())
}

/// The start time (field 22 of `/proc/<pid>/stat`): the 20th word after the
/// last `)`, which ends the command name.
pub open spec fn stat_start_time(stat: Seq<char>) -> Option<u64> {
    if stat.contains(')') {
        let k = choose|k: int| 0 <= k < stat.len() && stat[k] == ')' && forall|j: int| k < j < stat.len() ==> stat[j] != ')';
        let ws = words(stat.skip(k + 1));
        if ws.len() > 19 {
            match parse_unsigned(ws[19], 10, u64::MAX as int) {
                Some(v) => Some(v as u64),
                None => None,
            }
        } else {
            None
        }
    } else {
        None
    }
}

pub fn parse_process_start_time(stat: &str) -> (r: Option<u64>)
    ensures
        r == stat_start_time(stat@),
{
    let c = chars_of(stat);
    let n = c.len();
    let mut k: usize = n;
    while k > 0 && c[k - 1] != ')'
        invariant
            n == c@.len(),
            c@ == stat@,
            k <= n,
            forall|j: int| k <= j < n ==> c@[j] != ')',
        decreases k,
    {
        k -= 1;
    }
    if k == 0 {
        assert(!stat@.contains(')'));
        return None;
    }
    let p = k - 1;
    proof {
        let q = choose|q: int| 0 <= q < stat@.len() && stat@[q] == ')' && forall|j: int| q < j < stat@.len() ==> stat@[j] != ')';
        assert(0 <= p < stat@.len() && stat@[p as int] == ')');
        if q < p {
            assert(stat@[p as int] != ')');
        }
        if p < q {
            assert(stat@[q] != ')');
        }
    }
    let rest = chars_skip(c.as_slice(), k);
    let ws = words_of(rest.as_slice());
    if ws.len() > 19 {
        assert(ws@[19]@ == seqs_of(ws@)[19]);
        match parse_bounded(ws[19].as_slice(), 10, 0xffff_ffff_ffff_ffff) {
            Some(v) => Some(v),
            None => None,
        }
    } else {
        None
    }
}

/// The DNS servers: the configured comma list, or `1.1.1.1` and `8.8.8.8`
/// when it is unset or names nothing.
pub open spec fn dns_servers(value: Option<Seq<char>>) -> Seq<Seq<char>> {
    if value matches Some(v) && comma_items(v).len() > 0 {
        comma_items(value.unwrap())
    } else {
        seq!["1.1.1.1"@, "8.8.8.8"@]
    }
}

/// The DNS search domains: the configured comma list (possibly empty), or
/// `ferro.local` when unset.
pub open spec fn dns_search(value: Option<Seq<char>>) -> Seq<Seq<char>> {
    match value {
        Some(v) => comma_items(v),
        None => seq!["ferro.local"@],
    }
}

pub fn dns_servers_of(value: Option<&str>) -> (r: Vec<String>)
    ensures
        strs_of(r@) == dns_servers(crate::paths::opt_view(value)),
{
    if let Some(v) = value {
        let items = comma_list(v);
        if items.len() > 0 {
            return items;
        }
    }
    let mut d: Vec<String> = Vec::new();
    d.push(String::from_str("1.1.1.1"));
    d.push(String::from_str("8.8.8.8"));
    assert(strs_of(d@) =~= seq!["1.1.1.1"@, "8.8.8.8"@]);
    d
}

pub fn dns_search_of(value: Option<&str>) -> (r: Vec<String>)
    ensures
        strs_of(r@) == dns_search(crate::paths::opt_view(value)),
{
    match value {
        Some(v) => comma_list(v),
        None => {
            let mut d: Vec<String> = Vec::new();
            d.push(String::from_str("ferro.local"));
            assert(strs_of(d@) =~= seq!["ferro.local"@]);
            d
        },
    }
}

/// The kinds of per-container AI state.
#[derive(Debug, Clone, Copy, PartialEq, Eq, Structural)]
pub enum AiSnapshotKind {
    Restart,
    Resource,
    Anomaly,
}

pub open spec fn snapshot_kind_dir(k: AiSnapshotKind) -> Seq<char> {
    match k {
        AiSnapshotKind::Restart => "restart"@,
        AiSnapshotKind::Resource => "resource"@,
        AiSnapshotKind::Anomaly => "anomaly"@,
    }
}

/// `<runtime dir>/ai/<kind>/<container>.json`; the runtime directory
/// defaults to `/var/lib/ferrocrate`.
pub open spec fn snapshot_path(runtime_dir: Option<Seq<char>>, kind: AiSnapshotKind, container_id: Seq<char>) -> Seq<char> {
    let root = match runtime_dir {
        Some(d) => d,
        None => "/var/lib/ferrocrate"@,
    };
    path_join(path_join(path_join(root, "ai"@), snapshot_kind_dir(kind)), container_id + ".json"@)
}

pub fn ai_snapshot_path(runtime_dir: Option<&str>, kind: AiSnapshotKind, container_id: &str) -> (r:
    String)
    ensures
        r@ == snapshot_path(crate::paths::opt_view(runtime_dir), kind, container_id@),
{
    let root = match runtime_dir {
        Some(d) => d,
        None => "/var/lib/ferrocrate",
    };
    let dir = match kind {
        AiSnapshotKind::Restart => "restart",
        AiSnapshotKind::Resource => "resource",
        AiSnapshotKind::Anomaly => "anomaly",
    };
    let ai = path_join_str(root, "ai");
    let kind_dir = path_join_str(ai.as_str(), dir);
    let file = concat(container_id, ".json");
    path_join_str(kind_dir.as_str(), file.as_str())
}

/// Every per-container AI snapshot of a runtime directory.
pub fn ai_container_snapshot_paths(runtime_dir: &str, container_id: &str) -> (r: Vec<String>)
    ensures
        strs_of(r@) == seq![
            snapshot_path(Some(runtime_dir@), AiSnapshotKind::Restart, container_id@),
            snapshot_path(Some(runtime_dir@), AiSnapshotKind::Resource, container_id@),
            snapshot_path(Some(runtime_dir@), AiSnapshotKind::Anomaly, container_id@),
        ],
{
    let mut r: Vec<String> = Vec::new();
    r.push(ai_snapshot_path(Some(runtime_dir), AiSnapshotKind::Restart, container_id));
    r.push(ai_snapshot_path(Some(runtime_dir), AiSnapshotKind::Resource, container_id));
    r.push(ai_snapshot_path(Some(runtime_dir), AiSnapshotKind::Anomaly, container_id));
    assert(strs_of(r@) =~= seq![
        snapshot_path(Some(runtime_dir@), AiSnapshotKind::Restart, container_id@),
        snapshot_path(Some(runtime_dir@), AiSnapshotKind::Resource, container_id@),
        snapshot_path(Some(runtime_dir@), AiSnapshotKind::Anomaly, container_id@),
    ]);
    r
}

} // verus!

verus! {

pub fn ai_restart_snapshot_path(runtime_dir: Option<&str>, container_id: &str) -> (r: String)
    ensures
        r@ == snapshot_path(crate::paths::opt_view(runtime_dir), AiSnapshotKind::Restart, container_id@),
{
    ai_snapshot_path(runtime_dir, AiSnapshotKind::Restart, container_id)
}

pub fn ai_resource_snapshot_path(runtime_dir: Option<&str>, container_id: &str) -> (r: String)
    ensures
        r@ == snapshot_path(crate::paths::opt_view(runtime_dir), AiSnapshotKind::Resource, container_id@),
{
    ai_snapshot_path(runtime_dir, AiSnapshotKind::Resource, container_id)
}

pub fn ai_anomaly_snapshot_path(runtime_dir: Option<&str>, container_id: &str) -> (r: String)
    ensures
        r@ == snapshot_path(crate::paths::opt_view(runtime_dir), AiSnapshotKind::Anomaly, container_id@),
{
    ai_snapshot_path(runtime_dir, AiSnapshotKind::Anomaly, container_id)
}

/// The resolver settings written into containers.
#[derive(Debug, Clone, PartialEq, Eq)]
pub struct DnsSettings {
    pub servers: Vec<String>,
    pub search: Vec<String>,
}

pub fn runtime_dns_config(servers: Option<&str>, search: Option<&str>) -> (r: DnsSettings)
    ensures
        strs_of(r.servers@) == dns_servers(crate::paths::opt_view(servers)),
        strs_of(r.search@) == dns_search(crate::paths::opt_view(search)),
{
    DnsSettings { servers: dns_servers_of(servers), search: dns_search_of(search) }
}

/// `ADDRESS/PREFIX`: the text before the first `/`, and the text after it
/// (up to any further `/`) read as a `u8`; `message` names any failure.
pub open spec fn cidr_parts(cidr: Seq<char>, message: Seq<char>) -> Result<(Seq<char>, u8), ErrorView> {
    let parts = split_char(cidr, '/');
    if parts.len() < 2 {
        Err(ErrorView::Network(message))
    } else {
        match parse_unsigned(parts[1], 10, u8::MAX as int) {
            Some(p) => Ok((parts[0], p as u8)),
            None => Err(ErrorView::Network(message)),
        }
    }
}

pub fn split_cidr(cidr: &str, message: &str) -> (r: Result<(String, u8), RuntimeError>)
    ensures
        r matches Ok((a, p)) ==> cidr_parts(cidr@, message@) == Ok::<(Seq<char>, u8), ErrorView>(
            (a@, p),
        ),
        r matches Err(e) ==> cidr_parts(cidr@, message@) == Err::<(Seq<char>, u8), ErrorView>(e@),
{
    let v = chars_of(cidr);
    let parts = split_chars(v.as_slice(), '/');
    if parts.len() < 2 {
        return Err(RuntimeError::Network(String::from_str(message)));
    }
    proof {
        assert(seqs_of(parts@)[0] == parts@[0]@);
        assert(seqs_of(parts@)[1] == parts@[1]@);
    }
    match parse_bounded(parts[1].as_slice(), 10, 255) {
        Some(p) => Ok((crate::text::string_of(parts[0].as_slice()), p as u8)),
        None => Err(RuntimeError::Network(String::from_str(message))),
    }
}

/// The host bridge: its name, its IPv4 gateway and prefix, and an optional
/// IPv6 gateway (as text, for the caller to read as an address) and prefix.
#[derive(Debug, Clone, PartialEq, Eq)]
pub struct BridgeConfig {
    pub name: String,
    pub cidr: String,
    pub gateway: String,
    pub prefix: u8,
    pub ipv6_cidr: Option<String>,
    pub ipv6_gateway: Option<String>,
    pub ipv6_prefix: Option<u8>,
}

pub ghost struct BridgeView {
    pub name: Seq<char>,
    pub cidr: Seq<char>,
    pub gateway: Seq<char>,
    pub prefix: u8,
    pub ipv6_cidr: Option<Seq<char>>,
    pub ipv6_gateway: Option<Seq<char>>,
    pub ipv6_prefix: Option<u8>,
}

impl View for BridgeConfig {
    type V = BridgeView;

    open spec fn view(&self) -> BridgeView {
        BridgeView {
            name: self.name@,
            cidr: self.cidr@,
            gateway: self.gateway@,
            prefix: self.prefix,
            ipv6_cidr: crate::records::opt_str(self.ipv6_cidr),
            ipv6_gateway: crate::records::opt_str(self.ipv6_gateway),
            ipv6_prefix: self.ipv6_prefix,
        }
    }
}

/// The bridge settings: name `ferro0` and `10.0.0.1/24` unless configured.
pub open spec fn bridge_settings(
    name: Option<Seq<char>>,
    cidr: Option<Seq<char>>,
    ipv6_cidr: Option<Seq<char>>,
) -> Result<BridgeView, ErrorView> {
    let n = match name {
        Some(v) => v,
        None => "ferro0"@,
    };
    let c = match cidr {
        Some(v) => v,
        None => "10.0.0.1/24"@,
    };
    match cidr_parts(c, "invalid bridge cidr"@) {
        Err(e) => Err(e),
        Ok((gateway, prefix)) => match ipv6_cidr {
            None => Ok(
                BridgeView {
                    name: n,
                    cidr: c,
                    gateway,
                    prefix,
                    ipv6_cidr: None,
                    ipv6_gateway: None,
                    ipv6_prefix: None,
                },
            ),
            Some(v6) => match cidr_parts(v6, "invalid ipv6 cidr"@) {
                Err(e) => Err(e),
                Ok((g6, p6)) => Ok(
                    BridgeView {
                        name: n,
                        cidr: c,
                        gateway,
                        prefix,
                        ipv6_cidr: Some(v6),
                        ipv6_gateway: Some(g6),
                        ipv6_prefix: Some(p6),
                    },
                ),
            },
        },
    }
}

fn text_or(value: Option<&str>, default: &str) -> (r: String)
    ensures
        r@ == (match value {
            Some(v) => v@,
            None => default@,
        }),
{
    match value {
        Some(v) => String::from_str(v),
        None => String::from_str(default),
    }
}

pub fn bridge_config(name: Option<&str>, cidr: Option<&str>, ipv6_cidr: Option<&str>) -> (r:
    Result<BridgeConfig, RuntimeError>)
    ensures
        r matches Ok(b) ==> bridge_settings(
            crate::paths::opt_view(name),
            crate::paths::opt_view(cidr),
            crate::paths::opt_view(ipv6_cidr),
        ) == Ok::<BridgeView, ErrorView>(b@),
        r matches Err(e) ==> bridge_settings(
            crate::paths::opt_view(name),
            crate::paths::opt_view(cidr),
            crate::paths::opt_view(ipv6_cidr),
        ) == Err::<BridgeView, ErrorView>(e@),
{
    let n = text_or(name, "ferro0");
    let c = text_or(cidr, "10.0.0.1/24");
    let (gateway, prefix) = split_cidr(c.as_str(), "invalid bridge cidr")?;
    match ipv6_cidr {
        None => Ok(
            BridgeConfig {
                name: n,
                cidr: c,
                gateway,
                prefix,
                ipv6_cidr: None,
                ipv6_gateway: None,
                ipv6_prefix: None,
            },
        ),
        Some(v6) => {
            let (g6, p6) = split_cidr(v6, "invalid ipv6 cidr")?;
            Ok(
                BridgeConfig {
                    name: n,
                    cidr: c,
                    gateway,
                    prefix,
                    ipv6_cidr: Some(String::from_str(v6)),
                    ipv6_gateway: Some(g6),
                    ipv6_prefix: Some(p6),
                },
            )
        },
    }
}

/// The WireGuard interface settings; the IPv6 gateway is text for the
/// caller to read as an address.
#[derive(Debug, Clone, PartialEq, Eq)]
pub struct WireGuardConfig {
    pub iface: String,
    pub ipv4_gateway: String,
    pub ipv4_prefix: u8,
    pub ipv6_gateway: Option<String>,
    pub ipv6_prefix: Option<u8>,
}

pub ghost struct WireGuardView {
    pub iface: Seq<char>,
    pub ipv4_gateway: Seq<char>,
    pub ipv4_prefix: u8,
    pub ipv6_gateway: Option<Seq<char>>,
    pub ipv6_prefix: Option<u8>,
}

impl View for WireGuardConfig {
    type V = WireGuardView;

    open spec fn view(&self) -> WireGuardView {
        WireGuardView {
            iface: self.iface@,
            ipv4_gateway: self.ipv4_gateway@,
            ipv4_prefix: self.ipv4_prefix,
            ipv6_gateway: crate::records::opt_str(self.ipv6_gateway),
            ipv6_prefix: self.ipv6_prefix,
        }
    }
}

/// Interface `wg0` and `10.44.0.1/24` unless configured; a blank interface
/// name is refused.
pub open spec fn wireguard_settings(
    iface: Option<Seq<char>>,
    ipv4_cidr: Option<Seq<char>>,
    ipv6_cidr: Option<Seq<char>>,
) -> Result<WireGuardView, ErrorView> {
    let i = match iface {
        Some(v) => v,
        None => "wg0"@,
    };
    let c = match ipv4_cidr {
        Some(v) => v,
        None => "10.44.0.1/24"@,
    };
    if trim(i).len() == 0 {
        Err(ErrorView::Network("invalid wireguard interface"@))
    } else {
        match cidr_parts(c, "invalid wireguard ipv4 cidr"@) {
            Err(e) => Err(e),
            Ok((g, p)) => match ipv6_cidr {
                None => Ok(
                    WireGuardView {
                        iface: i,
                        ipv4_gateway: g,
                        ipv4_prefix: p,
                        ipv6_gateway: None,
                        ipv6_prefix: None,
                    },
                ),
                Some(v6) => match cidr_parts(v6, "invalid wireguard ipv6 cidr"@) {
                    Err(e) => Err(e),
                    Ok((g6, p6)) => Ok(
                        WireGuardView {
                            iface: i,
                            ipv4_gateway: g,
                            ipv4_prefix: p,
                            ipv6_gateway: Some(g6),
                            ipv6_prefix: Some(p6),
                        },
                    ),
                },
            },
        }
    }
}

pub fn wireguard_config(iface: Option<&str>, ipv4_cidr: Option<&str>, ipv6_cidr: Option<&str>) -> (r:
    Result<WireGuardConfig, RuntimeError>)
    ensures
        r matches Ok(w) ==> wireguard_settings(
            crate::paths::opt_view(iface),
            crate::paths::opt_view(ipv4_cidr),
            crate::paths::opt_view(ipv6_cidr),
        ) == Ok::<WireGuardView, ErrorView>(w@),
        r matches Err(e) ==> wireguard_settings(
            crate::paths::opt_view(iface),
            crate::paths::opt_view(ipv4_cidr),
            crate::paths::opt_view(ipv6_cidr),
        ) == Err::<WireGuardView, ErrorView>(e@),
{
    let i = text_or(iface, "wg0");
    let iv = chars_of(i.as_str());
    let t = trim_chars(iv.as_slice());
    if t.len() == 0 {
        return Err(RuntimeError::Network(String::from_str("invalid wireguard interface")));
    }
    let c = text_or(ipv4_cidr, "10.44.0.1/24");
    let (g, p) = split_cidr(c.as_str(), "invalid wireguard ipv4 cidr")?;
    match ipv6_cidr {
        None => Ok(
            WireGuardConfig {
                iface: i,
                ipv4_gateway: g,
                ipv4_prefix: p,
                ipv6_gateway: None,
                ipv6_prefix: None,
            },
        ),
        Some(v6) => {
            let (g6, p6) = split_cidr(v6, "invalid wireguard ipv6 cidr")?;
            Ok(
                WireGuardConfig {
                    iface: i,
                    ipv4_gateway: g,
                    ipv4_prefix: p,
                    ipv6_gateway: Some(g6),
                    ipv6_prefix: Some(p6),
                },
            )
        },
    }
}

/// A WireGuard peer.
#[derive(Debug, Clone, PartialEq, Eq)]
pub struct WireGuardPeerConfig {
    pub public_key: String,
    pub endpoint: String,
    pub allowed_ips: String,
}

/// No peer without a public key; with one, an endpoint is required, and
/// the allowed addresses default to `0.0.0.0/0`.
pub open spec fn peer_settings(
    public_key: Option<Seq<char>>,
    endpoint: Option<Seq<char>>,
    allowed_ips: Option<Seq<char>>,
) -> Result<Option<(Seq<char>, Seq<char>, Seq<char>)>, ErrorView> {
    match public_key {
        None => Ok(None),
        Some(k) => match endpoint {
            None => Err(
                ErrorView::Network(
                    "FERROCRATE_WG_PEER_ENDPOINT is required when peer public key is set"@,
                ),
            ),
            Some(e) => Ok(
                Some(
                    (
                        k,
                        e,
                        match allowed_ips {
                            Some(a) => a,
                            None => "0.0.0.0/0"@,
                        },
                    ),
                ),
            ),
        },
    }
}

pub fn wireguard_peer_config(
    public_key: Option<&str>,
    endpoint: Option<&str>,
    allowed_ips: Option<&str>,
) -> (r: Result<Option<WireGuardPeerConfig>, RuntimeError>)
    ensures
        r matches Ok(None) ==> peer_settings(
            crate::paths::opt_view(public_key),
            crate::paths::opt_view(endpoint),
            crate::paths::opt_view(allowed_ips),
        ) == Ok::<Option<(Seq<char>, Seq<char>, Seq<char>)>, ErrorView>(None),
        r matches Ok(Some(p)) ==> peer_settings(
            crate::paths::opt_view(public_key),
            crate::paths::opt_view(endpoint),
            crate::paths::opt_view(allowed_ips),
        ) == Ok::<Option<(Seq<char>, Seq<char>, Seq<char>)>, ErrorView>(
            Some((p.public_key@, p.endpoint@, p.allowed_ips@)),
        ),
        r matches Err(e) ==> peer_settings(
            crate::paths::opt_view(public_key),
            crate::paths::opt_view(endpoint),
            crate::paths::opt_view(allowed_ips),
        ) == Err::<Option<(Seq<char>, Seq<char>, Seq<char>)>, ErrorView>(e@),
{
    let key = match public_key {
        None => {
            return Ok(None);
        },
        Some(k) => k,
    };
    let endpoint = match endpoint {
        None => {
            return Err(
                RuntimeError::Network(
                    String::from_str(
                        "FERROCRATE_WG_PEER_ENDPOINT is required when peer public key is set",
                    ),
                ),
            );
        },
        Some(e) => e,
    };
    Ok(
        Some(
            WireGuardPeerConfig {
                public_key: String::from_str(key),
                endpoint: String::from_str(endpoint),
                allowed_ips: text_or(allowed_ips, "0.0.0.0/0"),
            },
        ),
    )
}

/// What the security monitor loads and where it pins its maps.
#[derive(Debug, Clone, PartialEq, Eq)]
pub struct SecurityMonitorConfig {
    pub object_path: String,
    pub pin_root: String,
    pub events: Vec<String>,
}

/// The object defaults to `/usr/lib/ferrocrate/ferro-security.o` and the
/// pin root to `/sys/fs/bpf/ferrocrate-security-<container>`.
pub fn security_monitor_config(
    container_id: &str,
    object_path: Option<&str>,
    pin_root: Option<&str>,
    events: Option<&str>,
) -> (r: SecurityMonitorConfig)
    ensures
        r.object_path@ == (match crate::paths::opt_view(object_path) {
            Some(v) => v,
            None => "/usr/lib/ferrocrate/ferro-security.o"@,
        }),
        r.pin_root@ == (match crate::paths::opt_view(pin_root) {
            Some(v) => v,
            None => "/sys/fs/bpf/ferrocrate-security-"@ + container_id@,
        }),
        strs_of(r.events@) == crate::ebpf::monitor_events(crate::paths::opt_view(events)),
{
    let object_path = text_or(object_path, "/usr/lib/ferrocrate/ferro-security.o");
    let pin_root = match pin_root {
        Some(p) => String::from_str(p),
        None => concat("/sys/fs/bpf/ferrocrate-security-", container_id),
    };
    SecurityMonitorConfig {
        object_path,
        pin_root,
        events: crate::ebpf::security_ebpf_events(events),
    }
}

/// What the host shows at a path: an error text, or the kind of entry.
#[derive(Debug, Clone, PartialEq, Eq)]
pub enum PathFacts {
    Unavailable(String),
    File,
    Directory,
    Other,
}

/// The monitor object must be a regular file.
pub open spec fn object_preflight(path: Seq<char>, facts: PathFacts) -> Option<ErrorView> {
    match facts {
        PathFacts::Unavailable(err) => Some(
            ErrorView::Network("security ebpf monitor object unavailable: "@ + path + ": "@ + err@),
        ),
        PathFacts::File => None,
        _ => Some(
            ErrorView::Network("security ebpf monitor object must be a regular file: "@ + path),
        ),
    }
}

pub fn validate_security_ebpf_object(object_path: &str, facts: &PathFacts) -> (r: Result<
    (),
    RuntimeError,
>)
    ensures
        r is Ok <==> object_preflight(object_path@, *facts) is None,
        r matches Err(e) ==> object_preflight(object_path@, *facts) == Some(e@),
{
    match facts {
        PathFacts::Unavailable(err) => {
            let a = concat("security ebpf monitor object unavailable: ", object_path);
            let b = concat(a.as_str(), ": ");
            Err(RuntimeError::Network(concat(b.as_str(), err.as_str())))
        },
        PathFacts::File => Ok(()),
        _ => Err(
            RuntimeError::Network(
                concat("security ebpf monitor object must be a regular file: ", object_path),
            ),
        ),
    }
}

/// The monitor pin root must be a directory.
pub open spec fn pin_root_preflight(path: Seq<char>, facts: PathFacts) -> Option<ErrorView> {
    match facts {
        PathFacts::Unavailable(err) => Some(
            ErrorView::Network("security ebpf monitor pin root unavailable: "@ + path + ": "@ + err@),
        ),
        PathFacts::Directory => None,
        _ => Some(
            ErrorView::Network("security ebpf monitor pin root must be a directory: "@ + path),
        ),
    }
}

pub fn validate_security_ebpf_pin_root(pin_root: &str, facts: &PathFacts) -> (r: Result<
    (),
    RuntimeError,
>)
    ensures
        r is Ok <==> pin_root_preflight(pin_root@, *facts) is None,
        r matches Err(e) ==> pin_root_preflight(pin_root@, *facts) == Some(e@),
{
    match facts {
        PathFacts::Unavailable(err) => {
            let a = concat("security ebpf monitor pin root unavailable: ", pin_root);
            let b = concat(a.as_str(), ": ");
            Err(RuntimeError::Network(concat(b.as_str(), err.as_str())))
        },
        PathFacts::Directory => Ok(()),
        _ => Err(
            RuntimeError::Network(
                concat("security ebpf monitor pin root must be a directory: ", pin_root),
            ),
        ),
    }
}

} // verus!
