use ferro_core::ebpf::{security_ebpf_events, security_monitor_audit_message, validate_security_ebpf_config};
use ferro_core::network::{validate_ebpf_published_port_boundary, NetworkBackend};
use ferro_core::records::PortMappingRecord;
use ferro_core::rollback::{resource_cleanup_order, AppliedResource, ResourceIdentity};
use ferro_core::settings::{
    configured_veth_mtu, runtime_dns_config, seccomp_strict_mode, wireguard_config,
    wireguard_peer_config,
};

#[test]
fn security_ebpf_admission_bounds_events_and_paths() {
    validate_security_ebpf_config(
        "/usr/lib/ferrocrate/ferro-security.o",
        "/sys/fs/bpf/ferrocrate-security-c1",
        &["execve".into(), "connect".into()],
    )
    .expect("valid security monitor configuration");
    let too_many = (0..33).map(|index| format!("event{index}")).collect::<Vec<_>>();
    assert!(validate_security_ebpf_config(
        "/usr/lib/ferrocrate/ferro-security.o",
        "/sys/fs/bpf/ferrocrate-security-c1",
        &too_many,
    )
    .is_err());
    assert!(validate_security_ebpf_config(
        "relative.o",
        "/sys/fs/bpf/ferrocrate-security-c1",
        &["execve".into()],
    )
    .is_err());
    assert!(validate_security_ebpf_config(
        "/usr/lib/ferrocrate/ferro-security.o",
        "/sys/fs/bpf/ferrocrate-security-c1",
        &["execve/open".into()],
    )
    .is_err());
    let traversal = validate_security_ebpf_config(
        "/usr/lib/ferrocrate/ferro-security.o",
        "/sys/fs/bpf/ferrocrate-security/../foreign",
        &["execve".into()],
    )
    .expect_err("pin-root traversal must be rejected");
    assert!(traversal.message().contains("dot path components"));
    let curdir = validate_security_ebpf_config(
        "/usr/lib/ferrocrate/ferro-security.o",
        "/sys/fs/bpf/./ferrocrate-security-c1",
        &["execve".into()],
    )
    .expect_err("pin-root dot component must be rejected");
    assert!(curdir.message().contains("dot path components"));
    let duplicate = vec!["execve".to_string(), "EXECVE".to_string()];
    let error = validate_security_ebpf_config(
        "/usr/lib/ferrocrate/ferro-security.o",
        "/sys/fs/bpf/ferrocrate-security-c1",
        &duplicate,
    )
    .expect_err("case-insensitive duplicate events must be rejected");
    assert!(error.message().contains("must be unique"));
}

#[test]
fn security_ebpf_audit_message_is_bounded_and_deterministic() {
    let events = (0..40).map(|index| format!("event{index}")).collect::<Vec<_>>();
    let message = security_monitor_audit_message("attached", &events);
    assert_eq!(
        message,
        format!(
            "phase=attached events={}",
            (0..32).map(|index| format!("event{index}")).collect::<Vec<_>>().join(",")
        )
    );
    assert!(!message.contains("event32"));
}

#[test]
fn deterministic_resource_adapter_enforces_reverse_applied_order() {
    let resources = (0..4)
        .map(|plan_index| AppliedResource {
            plan_index,
            identity: ResourceIdentity::Network { identity: None },
        })
        .collect::<Vec<_>>();
    assert_eq!(
        resource_cleanup_order(&resources)
            .iter()
            .map(|resource| resource.plan_index)
            .collect::<Vec<_>>(),
        vec![3, 2, 1, 0]
    );
}

#[test]
fn ebpf_published_ports_fail_closed_without_explicit_override() {
    let mapping = [PortMappingRecord { host_port: 8080, container_port: 80, protocol: "tcp".into() }];
    let error = validate_ebpf_published_port_boundary(NetworkBackend::Ebpf, &mapping, false)
        .expect_err("live eBPF published ports must remain gated");
    assert!(error.message().contains("pending live checksum qualification"));
    validate_ebpf_published_port_boundary(NetworkBackend::Iptables, &mapping, false)
        .expect("iptables remains the explicit supported fallback");
    validate_ebpf_published_port_boundary(NetworkBackend::Ebpf, &mapping, true)
        .expect("experimental override should be explicit");
}

#[test]
fn security_ebpf_events_default_and_env_override() {
    assert_eq!(
        security_ebpf_events(None),
        vec!["execve", "connect", "open", "ptrace", "mount", "unshare"]
    );
    assert_eq!(security_ebpf_events(Some("execve,connect, open")), vec!["execve", "connect", "open"]);
}

#[test]
fn runtime_dns_config_defaults() {
    let cfg = runtime_dns_config(None, None);
    assert_eq!(cfg.servers, vec!["1.1.1.1", "8.8.8.8"]);
    assert_eq!(cfg.search, vec!["ferro.local"]);
}

#[test]
fn runtime_dns_config_respects_env() {
    let cfg = runtime_dns_config(Some("9.9.9.9,1.0.0.1"), Some("svc.local,cluster.local"));
    assert_eq!(cfg.servers, vec!["9.9.9.9", "1.0.0.1"]);
    assert_eq!(cfg.search, vec!["svc.local", "cluster.local"]);
}

#[test]
fn wireguard_config_defaults() {
    let cfg = wireguard_config(None, None, None).expect("wireguard config");
    assert_eq!(cfg.iface, "wg0");
    assert_eq!(cfg.ipv4_gateway, "10.44.0.1");
    assert_eq!(cfg.ipv4_prefix, 24);
    assert!(cfg.ipv6_gateway.is_none());
    assert!(cfg.ipv6_prefix.is_none());
}

#[test]
fn wireguard_config_respects_env() {
    let cfg = wireguard_config(Some("wg-app"), Some("10.55.0.1/16"), Some("fd00:55::1/64"))
        .expect("wireguard config");
    assert_eq!(cfg.iface, "wg-app");
    assert_eq!(cfg.ipv4_gateway, "10.55.0.1");
    assert_eq!(cfg.ipv4_prefix, 16);
    assert_eq!(cfg.ipv6_gateway, Some("fd00:55::1".to_string()));
    assert_eq!(cfg.ipv6_prefix, Some(64));
}

#[test]
fn wireguard_peer_config_requires_endpoint_when_key_present() {
    let err = wireguard_peer_config(Some("peer-key"), None, None).expect_err("missing endpoint");
    assert!(err.message().contains("PEER_ENDPOINT"));
}

#[test]
fn veth_mtu_validation_rejects_unsafe_values() {
    let error = configured_veth_mtu(Some("500")).expect_err("invalid MTU");
    assert!(error.message().contains("between 576 and 65535"));
}

#[test]
fn seccomp_strict_mode_defaults_to_true() {
    assert!(seccomp_strict_mode(false));
}

#[test]
fn seccomp_permissive_mode_relaxes_strict_default() {
    assert!(!seccomp_strict_mode(true));
}
