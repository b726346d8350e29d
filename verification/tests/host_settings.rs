use ferro_core::host::{
    configured_cgroup_root, delegated_cgroup_candidates, resolve_rootfs_command,
    rootfs_command_candidates, stdin_fifo_path, subtree_controls_delegate,
};
use ferro_core::network::{render_hosts, validate_network_ownership, NetworkBackend};
use ferro_core::records::{EbpfPinOwnershipRecord, NetworkOwnershipRecord};
use ferro_core::settings::{
    ai_anomaly_snapshot_path, ai_resource_snapshot_path, ai_restart_snapshot_path, bridge_config,
    security_monitor_config, split_cidr, validate_security_ebpf_object,
    validate_security_ebpf_pin_root, PathFacts,
};

fn ownership(backend: NetworkBackend) -> NetworkOwnershipRecord {
    let ebpf = backend == NetworkBackend::Ebpf;
    NetworkOwnershipRecord {
        schema_version: 2,
        owner_id: "container-abc-123456789".to_string(),
        network_id: Some("bridge-fixture".to_string()),
        host_interface: "veth23456789".to_string(),
        host_ifindex: Some(4),
        namespace_identity: None,
        managed_interface: None,
        managed_ifindex: None,
        loopback_ifindex: None,
        bridge_ifindex: None,
        source_cidr: None,
        bridge: None,
        firewall_id: if ebpf { None } else { Some("fc_owned".to_string()) },
        firewall_marker: None,
        firewall_expected_state: None,
        ebpf_pin_path: if ebpf { Some("/sys/fs/bpf/ferrocrate/bridge-fixture".to_string()) } else { None },
        external_ipv4: None,
        next_hop_mac: None,
        snat_port_start: None,
        snat_port_end: None,
        object_sha256: None,
        object_abi: None,
        ebpf_filters: Vec::new(),
        ebpf_pins: Vec::new(),
    }
}

#[test]
fn network_ownership_names_owner_interface_and_backend_state() {
    let root = "/sys/fs/bpf/ferrocrate";
    let id = "container-abc-123456789";
    validate_network_ownership(id, NetworkBackend::Ebpf, &ownership(NetworkBackend::Ebpf), root).unwrap();
    validate_network_ownership(id, NetworkBackend::Iptables, &ownership(NetworkBackend::Iptables), root)
        .unwrap();

    let mut schema = ownership(NetworkBackend::Ebpf);
    schema.schema_version = 1;
    let err = validate_network_ownership(id, NetworkBackend::Ebpf, &schema, root).unwrap_err();
    assert!(err.message().contains("malformed network ownership schema"));

    let err = validate_network_ownership("other", NetworkBackend::Ebpf, &ownership(NetworkBackend::Ebpf), root)
        .unwrap_err();
    assert_eq!(err.message(), "network error: foreign network ownership metadata");

    let mut moved = ownership(NetworkBackend::Ebpf);
    moved.ebpf_pin_path = Some("/sys/fs/bpf/elsewhere".to_string());
    let err = validate_network_ownership(id, NetworkBackend::Ebpf, &moved, root).unwrap_err();
    assert_eq!(err.message(), "network error: foreign eBPF ownership metadata");

    let mut pinned = ownership(NetworkBackend::Nftables);
    pinned.ebpf_pins.push(EbpfPinOwnershipRecord {
        relative_path: String::new(),
        device: 1,
        inode: 2,
        directory: true,
        map_id: None,
    });
    let err = validate_network_ownership(id, NetworkBackend::Nftables, &pinned, root).unwrap_err();
    assert_eq!(err.message(), "network error: foreign firewall ownership metadata");
}

#[test]
fn hosts_file_lists_loopback_then_named_addresses() {
    let entries = vec![
        ("10.0.0.2".to_string(), vec!["c1".to_string(), "web".to_string()]),
        ("10.0.0.3".to_string(), Vec::new()),
        ("fd00::2".to_string(), vec!["c1".to_string()]),
    ];
    assert_eq!(
        render_hosts(&entries),
        "127.0.0.1 localhost\n::1 localhost ip6-localhost ip6-loopback\n10.0.0.2 c1 web\nfd00::2 c1\n"
    );
    assert_eq!(
        render_hosts(&[]),
        "127.0.0.1 localhost\n::1 localhost ip6-localhost ip6-loopback\n"
    );
}

#[test]
fn stdin_fifo_lives_in_the_container_directory() {
    assert_eq!(stdin_fifo_path("/run/ferro/containers/c1/logs/stdout.log"), "/run/ferro/containers/c1/stdin");
    assert_eq!(stdin_fifo_path("stdout.log"), "stdin");
}

#[test]
fn bare_commands_resolve_through_the_rootfs_search_path() {
    let candidates = rootfs_command_candidates("/rootfs", "sh");
    assert_eq!(candidates[0], "/rootfs/usr/local/sbin/sh");
    assert_eq!(candidates[5], "/rootfs/bin/sh");
    assert_eq!(resolve_rootfs_command("sh", &[false, false, false, true, false, true]), "/usr/bin/sh");
    assert_eq!(resolve_rootfs_command("sh", &[false; 6]), "sh");
    assert_eq!(resolve_rootfs_command("./run.sh", &[true; 6]), "./run.sh");
}

#[test]
fn delegated_cgroup_root_falls_back_from_leaf_to_enabled_ancestor() {
    let candidates = delegated_cgroup_candidates(
        "/sys/fs/cgroup",
        "/user.slice/user-1000.slice/user@1000.service/app.slice/app-ghostty.scope",
    )
    .unwrap();
    assert_eq!(
        candidates,
        vec![
            "/sys/fs/cgroup/user.slice/user-1000.slice/user@1000.service/app.slice/app-ghostty.scope",
            "/sys/fs/cgroup/user.slice/user-1000.slice/user@1000.service/app.slice",
            "/sys/fs/cgroup/user.slice/user-1000.slice/user@1000.service",
            "/sys/fs/cgroup/user.slice/user-1000.slice",
            "/sys/fs/cgroup/user.slice",
            "/sys/fs/cgroup",
        ]
    );
    assert!(subtree_controls_delegate("+memory +pids\n"));
    assert!(subtree_controls_delegate("io ++cpu"));
    assert!(!subtree_controls_delegate("\n"));
    assert!(!subtree_controls_delegate("+io +cpuset"));
    assert_eq!(delegated_cgroup_candidates("/sys/fs/cgroup", "/"), None);
    assert_eq!(delegated_cgroup_candidates("/sys/fs/cgroup", "/a/../b"), None);
}

#[test]
fn configured_cgroup_root_honors_explicit_override() {
    assert_eq!(configured_cgroup_root(Some("/custom"), true, None, None), "/custom");
    assert_eq!(configured_cgroup_root(None, true, Some("/user.slice"), None), "/sys/fs/cgroup");
    assert_eq!(
        configured_cgroup_root(None, false, Some("/user.slice/x"), Some("/sys/fs/cgroup/user.slice")),
        "/sys/fs/cgroup/user.slice"
    );
    assert_eq!(configured_cgroup_root(None, false, Some("/user.slice/x"), None), "/sys/fs/cgroup/user.slice/x");
    assert_eq!(configured_cgroup_root(None, false, None, None), "/sys/fs/cgroup");
}

#[test]
fn bridge_and_cidr_settings_parse_prefixes() {
    let cfg = bridge_config(None, None, None).unwrap();
    assert_eq!(cfg.name, "ferro0");
    assert_eq!(cfg.gateway, "10.0.0.1");
    assert_eq!(cfg.prefix, 24);
    assert_eq!(cfg.ipv6_prefix, None);
    let cfg = bridge_config(Some("br1"), Some("10.9.0.1/16"), Some("fd00:9::1/64")).unwrap();
    assert_eq!(cfg.ipv6_gateway, Some("fd00:9::1".to_string()));
    assert_eq!(cfg.ipv6_prefix, Some(64));
    assert_eq!(bridge_config(None, Some("10.0.0.1"), None).unwrap_err().message(), "network error: invalid bridge cidr");
    assert_eq!(bridge_config(None, Some("10.0.0.1/300"), None).unwrap_err().message(), "network error: invalid bridge cidr");
    assert_eq!(bridge_config(None, None, Some("fd00::1")).unwrap_err().message(), "network error: invalid ipv6 cidr");
    assert_eq!(split_cidr("a/8/9", "bad").unwrap(), ("a".to_string(), 8));
}

#[test]
fn security_monitor_defaults_and_preflight() {
    let cfg = security_monitor_config("c1", None, None, None);
    assert_eq!(cfg.object_path, "/usr/lib/ferrocrate/ferro-security.o");
    assert_eq!(cfg.pin_root, "/sys/fs/bpf/ferrocrate-security-c1");
    assert_eq!(cfg.events.len(), 6);
    validate_security_ebpf_object("/o", &PathFacts::File).unwrap();
    assert_eq!(
        validate_security_ebpf_object("/o", &PathFacts::Directory).unwrap_err().message(),
        "network error: security ebpf monitor object must be a regular file: /o"
    );
    assert_eq!(
        validate_security_ebpf_object("/o", &PathFacts::Unavailable("missing".to_string())).unwrap_err().message(),
        "network error: security ebpf monitor object unavailable: /o: missing"
    );
    validate_security_ebpf_pin_root("/p", &PathFacts::Directory).unwrap();
    assert_eq!(
        validate_security_ebpf_pin_root("/p", &PathFacts::File).unwrap_err().message(),
        "network error: security ebpf monitor pin root must be a directory: /p"
    );
}

#[test]
fn ai_snapshot_cleanup_removes_all_per_container_state() {
    assert_eq!(ai_restart_snapshot_path(None, "c1"), "/var/lib/ferrocrate/ai/restart/c1.json");
    assert_eq!(ai_resource_snapshot_path(Some("/run/f"), "c1"), "/run/f/ai/resource/c1.json");
    assert_eq!(ai_anomaly_snapshot_path(Some("/run/f"), "c1"), "/run/f/ai/anomaly/c1.json");
}
