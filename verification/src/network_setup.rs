//! What setting up a container's network comes to for each network mode,
//! decided before any namespace, link or rule is created.

use crate::error::{ErrorView, RuntimeError};
use crate::network::{
    rootless_bridge_check, validate_ebpf_published_port_boundary,
    validate_rootless_bridge_network, NetworkBackend,
};
use crate::paths::{short_id, short_id_of};
use crate::records::PortMappingRecord;
use crate::text::{chars_of, chars_skip, chars_starts_with, concat, starts_with, str_eq, string_of};
use vstd::prelude::*;
use vstd::string::StringExecFns;

verus! {

/// The network a new container gets.
#[derive(Debug, Clone, PartialEq, Eq)]
pub enum NetworkSetupPlan {
    /// Attach the container to the managed overlay `overlay_id` (root only).
    Managed { overlay_id: String },
    /// Join the existing namespace `netns`, which the caller keeps owning.
    SharedNamespace { netns: String },
    /// No namespace of the runtime's own: host networking, or a rootless
    /// container whose namespace its launcher creates.
    Isolated,
    /// A fresh namespace `netns` with its loopback up; for WireGuard the
    /// tunnel is then configured inside it.
    OwnedNamespace { netns: String, wireguard: bool },
    /// The kernel bridge: a fresh namespace `netns` joined to the bridge by
    /// the veth pair `host_veth` / `container_veth` (renamed `eth0` inside).
    Bridge { netns: String, host_veth: String, container_veth: String },
}

pub ghost enum SetupPlanView {
    Managed { overlay_id: Seq<char> },
    SharedNamespace { netns: Seq<char> },
    Isolated,
    OwnedNamespace { netns: Seq<char>, wireguard: bool },
    Bridge { netns: Seq<char>, host_veth: Seq<char>, container_veth: Seq<char> },
}

impl View for NetworkSetupPlan {
    type V = SetupPlanView;

    open spec fn view(&self) -> SetupPlanView {
        match self {
            NetworkSetupPlan::Managed { overlay_id } => SetupPlanView::Managed {
                overlay_id: overlay_id@,
            },
            NetworkSetupPlan::SharedNamespace { netns } => SetupPlanView::SharedNamespace {
                netns: netns@,
            },
            NetworkSetupPlan::Isolated => SetupPlanView::Isolated,
            NetworkSetupPlan::OwnedNamespace { netns, wireguard } => SetupPlanView::OwnedNamespace {
                netns: netns@,
                wireguard: *wireguard,
            },
            NetworkSetupPlan::Bridge { netns, host_veth, container_veth } => SetupPlanView::Bridge {
                netns: netns@,
                host_veth: host_veth@,
                container_veth: container_veth@,
            },
        }
    }
}

pub open spec fn port_mapping_needs_bridge() -> ErrorView {
    ErrorView::Network("port mapping requires network bridge"@)
}

/// The namespace the runtime creates for container `id`.
pub open spec fn owned_netns(id: Seq<char>) -> Seq<char> {
    "ferro-"@ + id
}

/// The network plan for container `id` in `mode`, with `ports` published,
/// `backend` requested, running as root or not, rootless bridge networking
/// enabled or not, and eBPF published ports explicitly allowed or not.
pub open spec fn network_setup_plan_of(
    id: Seq<char>,
    mode: Seq<char>,
    ports: Seq<PortMappingRecord>,
    backend: NetworkBackend,
    is_root: bool,
    rootless_enabled: bool,
    ports_override: bool,
) -> Result<SetupPlanView, ErrorView> {
    if starts_with(mode, "managed:"@) {
        if !is_root {
            Err(ErrorView::Network("managed overlay requires root"@))
        } else {
            Ok(SetupPlanView::Managed { overlay_id: mode.skip(8) })
        }
    } else if starts_with(mode, "container:"@) {
        if mode.len() == 10 {
            Err(ErrorView::Network("shared network namespace name is empty"@))
        } else {
            Ok(SetupPlanView::SharedNamespace { netns: mode.skip(10) })
        }
    } else if mode == "host"@ {
        if ports.len() > 0 {
            Err(port_mapping_needs_bridge())
        } else {
            Ok(SetupPlanView::Isolated)
        }
    } else if mode == "none"@ {
        if ports.len() > 0 {
            Err(port_mapping_needs_bridge())
        } else if !is_root {
            Ok(SetupPlanView::Isolated)
        } else {
            Ok(SetupPlanView::OwnedNamespace { netns: owned_netns(id), wireguard: false })
        }
    } else if mode == "bridge"@ {
        if !is_root {
            match rootless_bridge_check(rootless_enabled, ports, backend) {
                Err(e) => Err(e),
                Ok(_) => Ok(SetupPlanView::Isolated),
            }
        } else if backend == NetworkBackend::Ebpf && ports.len() > 0 && !ports_override {
            Err(
                ErrorView::Network(
                    "eBPF published-port forwarding is disabled pending live checksum qualification; use --network-backend iptables or nftables, or set FERROCRATE_EBPF_ALLOW_PUBLISHED_PORTS=1 for an explicit experimental override"@,
                ),
            )
        } else {
            Ok(
                SetupPlanView::Bridge {
                    netns: owned_netns(id),
                    host_veth: "veth"@ + short_id_of(id, 8),
                    container_veth: "vc"@ + short_id_of(id, 8),
                },
            )
        }
    } else if mode == "wireguard"@ {
        if !is_root {
            Err(ErrorView::Network("wireguard requires root"@))
        } else if ports.len() > 0 {
            Err(port_mapping_needs_bridge())
        } else {
            Ok(SetupPlanView::OwnedNamespace { netns: owned_netns(id), wireguard: true })
        }
    } else {
        Err(ErrorView::Network("network mode must be one of: bridge, host, none, wireguard"@))
    }
}

fn port_mapping_error() -> (e: RuntimeError)
    ensures
        e@ == port_mapping_needs_bridge(),
{
    RuntimeError::Network(String::from_str("port mapping requires network bridge"))
}

/// Decides the network of container `container_id` in `network_mode`
/// (`managed:<overlay>`, `container:<namespace>`, `host`, `none`, `bridge`
/// or `wireguard`).
pub fn plan_network_setup(
    container_id: &str,
    network_mode: &str,
    port_mappings: &[PortMappingRecord],
    backend: NetworkBackend,
    is_root: bool,
    rootless_netns_enabled: bool,
    published_ports_override: bool,
) -> (r: Result<NetworkSetupPlan, RuntimeError>)
    ensures
        match r {
            Ok(plan) => network_setup_plan_of(
                container_id@,
                network_mode@,
                port_mappings@,
                backend,
                is_root,
                rootless_netns_enabled,
                published_ports_override,
            ) == Ok::<SetupPlanView, ErrorView>(plan@),
            Err(e) => network_setup_plan_of(
                container_id@,
                network_mode@,
                port_mappings@,
                backend,
                is_root,
                rootless_netns_enabled,
                published_ports_override,
            ) == Err::<SetupPlanView, ErrorView>(e@),
        },
{
    let mode = chars_of(network_mode);
    let managed = chars_of("managed:");
    let shared = chars_of("container:");
    proof {
        reveal_strlit("managed:");
        reveal_strlit("container:");
    }
    if chars_starts_with(mode.as_slice(), managed.as_slice()) {
        if !is_root {
            return Err(RuntimeError::Network(String::from_str("managed overlay requires root")));
        }
        let rest = chars_skip(mode.as_slice(), 8);
        return Ok(NetworkSetupPlan::Managed { overlay_id: string_of(rest.as_slice()) });
    }
    if chars_starts_with(mode.as_slice(), shared.as_slice()) {
        if mode.len() == 10 {
            return Err(
                RuntimeError::Network(String::from_str("shared network namespace name is empty")),
            );
        }
        let rest = chars_skip(mode.as_slice(), 10);
        return Ok(NetworkSetupPlan::SharedNamespace { netns: string_of(rest.as_slice()) });
    }
    let has_ports = port_mappings.len() > 0;
    if str_eq(network_mode, "host") {
        if has_ports {
            return Err(port_mapping_error());
        }
        return Ok(NetworkSetupPlan::Isolated);
    }
    if str_eq(network_mode, "none") {
        if has_ports {
            return Err(port_mapping_error());
        }
        if !is_root {
            return Ok(NetworkSetupPlan::Isolated);
        }
        return Ok(
            NetworkSetupPlan::OwnedNamespace {
                netns: concat("ferro-", container_id),
                wireguard: false,
            },
        );
    }
    if str_eq(network_mode, "bridge") {
        if !is_root {
            validate_rootless_bridge_network(rootless_netns_enabled, port_mappings, backend)?;
            return Ok(NetworkSetupPlan::Isolated);
        }
        validate_ebpf_published_port_boundary(backend, port_mappings, published_ports_override)?;
        let short = short_id(container_id, 8);
        return Ok(
            NetworkSetupPlan::Bridge {
                netns: concat("ferro-", container_id),
                host_veth: concat("veth", short.as_str()),
                container_veth: concat("vc", short.as_str()),
            },
        );
    }
    if str_eq(network_mode, "wireguard") {
        if !is_root {
            return Err(RuntimeError::Network(String::from_str("wireguard requires root")));
        }
        if has_ports {
            return Err(port_mapping_error());
        }
        return Ok(
            NetworkSetupPlan::OwnedNamespace {
                netns: concat("ferro-", container_id),
                wireguard: true,
            },
        );
    }
    Err(
        RuntimeError::Network(
            String::from_str("network mode must be one of: bridge, host, none, wireguard"),
        ),
    )
}

} // verus!
