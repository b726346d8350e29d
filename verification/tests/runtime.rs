use ferro_core::ebpf::validate_orphaned_ebpf_state;
use ferro_core::firewall::normalize_owned_firewall_state;
use ferro_core::hashing::{bridge_network_id, wireguard_listen_port};
use ferro_core::host::validate_rootless_mount_capability;
use ferro_core::image::immutable_image_reference;
use ferro_core::lifecycle::{
    adaptive_restart_delay, ai_next_memory_limit, supervisor_step, RestartDecision, RestartPolicy,
    SupervisorStep,
};
use ferro_core::link::{qdisc_reports_rate, validate_bandwidth_limit};
use ferro_core::network::{
    classify_legacy_network_record, ensure_bridge_backend_root, plan_network_recovery,
    shared_ebpf_action, validate_port_mapping_conflicts, validate_rootless_bridge_network,
    verify_kernel_identity, KernelIdentity, LegacyNetworkAction, NetworkBackend,
    NetworkMutationJournal, NetworkMutationKind, NetworkRecoveryAction, ObservedNetworkState,
    OwnedResourceState, SharedEbpfAction,
};
use ferro_core::paths::{
    associated_network_name, current_cgroup_relative_path, validate_archive_target,
    validate_container_name, validate_selinux_type,
};
use ferro_core::records::{ContainerRecord, EbpfFilterOwnershipRecord, PortMappingRecord};
use ferro_core::sysctl::{
    acquire_ip_forwarding_with, acquire_route_localnet_with, restore_ip_forwarding_with,
    restore_route_localnet_with, MemoryValueStore,
};

fn store(value: &str) -> MemoryValueStore {
    MemoryValueStore { value: value.to_string(), writes: Vec::new() }
}

fn fixture_filter() -> EbpfFilterOwnershipRecord {
    EbpfFilterOwnershipRecord {
        interface: Some("lo".to_string()),
        interface_ifindex: Some(1),
        direction: "ingress".to_string(),
        priority: 49_152,
        handle: "0x1".to_string(),
        program_id: Some(71),
        program_tag: Some("aabbccdd".to_string()),
    }
}

#[test]
fn archive_targets_are_absolute_and_traversal_safe() {
    assert_eq!(validate_archive_target("/").expect("root target"), "");
    assert_eq!(validate_archive_target("/var/tmp").expect("normalized target"), "var/tmp");
    for invalid in ["relative", "/var/../etc", "/var//tmp", "/var/./tmp"] {
        assert!(validate_archive_target(invalid).is_err(), "accepted {invalid}");
    }
}

#[test]
fn immutable_image_reference_uses_repository_digest_form() {
    let pinned = immutable_image_reference(
        "registry-1.docker.io/library/alpine:latest",
        "sha256:aaaaaaaaaaaaaaaaaaaaaaaaaaaaaaaaaaaaaaaaaaaaaaaaaaaaaaaaaaaaaaaa",
    )
    .expect("stored image reference should parse");
    assert_eq!(
        pinned,
        "registry-1.docker.io/library/alpine@sha256:aaaaaaaaaaaaaaaaaaaaaaaaaaaaaaaaaaaaaaaaaaaaaaaaaaaaaaaaaaaaaaaa"
    );
    assert!(!pinned.contains(":latest@"));
}

#[test]
fn adaptive_restart_decision_can_stop_restart_loop() {
    assert_eq!(adaptive_restart_delay(None), Some(1));
    assert_eq!(adaptive_restart_delay(Some(RestartDecision::Restart)), Some(1));
    assert_eq!(
        adaptive_restart_delay(Some(RestartDecision::RestartAfterDelay { delay_secs: 7 })),
        Some(7)
    );
    assert_eq!(adaptive_restart_delay(Some(RestartDecision::DoNotRestart)), None);
}

#[test]
fn associated_network_name_persists_logical_name_without_changing_mode() {
    assert_eq!(associated_network_name(Some("app-net"), "bridge").as_deref(), Some("app-net"));
    assert_eq!(associated_network_name(None, "bridge").as_deref(), Some("bridge"));
    assert_eq!(associated_network_name(None, "host").as_deref(), Some("host"));
    assert_eq!(associated_network_name(None, "none").as_deref(), Some("none"));
    assert_eq!(associated_network_name(None, "wireguard").as_deref(), Some("wireguard"));
    assert_eq!(associated_network_name(Some("bridge"), "bridge").as_deref(), Some("bridge"));
    assert_eq!(associated_network_name(Some(""), "bridge").as_deref(), Some("bridge"));
    assert_eq!(associated_network_name(None, "managed:x"), None);
}

#[test]
fn container_names_are_deterministic_and_path_safe() {
    for valid in ["web", "web_1", "web-1.2", "A9"] {
        validate_container_name(valid).expect("valid container name");
    }
    for invalid in ["", ".", "..", "-web", "web/name", "web name", "web$name"] {
        assert!(validate_container_name(invalid).is_err(), "accepted {invalid:?}");
    }
}

#[test]
fn current_cgroup_relative_path_accepts_v2_and_rejects_traversal() {
    assert_eq!(
        current_cgroup_relative_path("0::/user.slice/user-1000.slice/user@1000.service/app.slice\n"),
        Some("/user.slice/user-1000.slice/user@1000.service/app.slice".to_string())
    );
    assert_eq!(current_cgroup_relative_path("0::/user.slice/../escape\n"), None);
    assert_eq!(current_cgroup_relative_path(""), None);
}

#[test]
fn network_backend_ip_forward_restores_only_its_owned_transition() {
    let mut store_a = store("0");
    let ownership = acquire_ip_forwarding_with(&mut store_a)
        .unwrap()
        .expect("0 to 1 transition is owned");
    assert_eq!(store_a.value, "1");
    restore_ip_forwarding_with(&ownership, &mut store_a).unwrap();
    assert_eq!(store_a.value, "0");
    assert_eq!(store_a.writes, vec!["1", "0"]);

    let mut already_enabled = store("1");
    assert!(acquire_ip_forwarding_with(&mut already_enabled).unwrap().is_none());
    assert!(already_enabled.writes.is_empty());
}

#[test]
fn network_backend_ip_forward_foreign_replacement_is_never_overwritten() {
    let mut store_a = store("0");
    let ownership = acquire_ip_forwarding_with(&mut store_a).unwrap().unwrap();
    store_a.value = "2".to_string();
    assert!(restore_ip_forwarding_with(&ownership, &mut store_a).is_err());
    assert_eq!(store_a.value, "2");
    assert_eq!(store_a.writes, vec!["1"]);
}

#[test]
fn network_backend_route_localnet_restores_only_its_owned_transition() {
    let mut store_a = store("0");
    let ownership = acquire_route_localnet_with("ferro0", &mut store_a)
        .unwrap()
        .expect("0 to 1 transition is owned");
    assert_eq!(ownership.interface, "ferro0");
    assert_eq!(store_a.value, "1");
    let mut restored = store(&store_a.value);
    restore_route_localnet_with(&ownership, &mut restored).unwrap();
    assert_eq!(restored.value, "0");
}

#[test]
fn network_backend_route_localnet_rejects_foreign_replacement() {
    let mut store_a = store("0");
    let ownership = acquire_route_localnet_with("ferro0", &mut store_a).unwrap().unwrap();
    store_a.value = "2".to_string();
    let current = store_a.value.clone();
    assert!(restore_route_localnet_with(&ownership, &mut store_a).is_err());
    assert_eq!(store_a.value, current);
}

#[test]
fn network_backend_filter_identity_includes_interface_and_program() {
    let owned = fixture_filter();
    let mut replacement = owned.clone();
    replacement.program_id = Some(72);
    assert_ne!(owned, replacement);
    replacement = owned.clone();
    replacement.interface_ifindex = Some(2);
    assert_ne!(owned, replacement);
}

#[test]
fn orphaned_ebpf_state_rejects_live_filters_without_a_pin_root() {
    let root = "/sys/fs/bpf/ferrocrate/orphan-fixture";
    let error = validate_orphaned_ebpf_state(root, &[fixture_filter()])
        .expect_err("live classifiers without pins must fail closed");
    assert!(error.message().contains("live classifiers"));
    validate_orphaned_ebpf_state(root, &[])
        .expect("an empty pin root with no live classifiers is safe");
}

#[test]
fn network_backend_firewall_snapshot_normalizes_only_volatile_state() {
    let first = r#":fc_owned - [1:2]
-A fc_owned -j ACCEPT
counter packets 4 bytes 88 comment \"ferrocrate:fc_owned\" # handle 7"#;
    let counters_changed = r#":fc_owned - [9:10]
-A fc_owned -j ACCEPT
counter packets 99 bytes 1234 comment \"ferrocrate:fc_owned\" # handle 55"#;
    let content_changed = r#":fc_owned - [9:10]
-A fc_owned -j DROP
counter packets 99 bytes 1234 comment \"ferrocrate:fc_owned\" # handle 55"#;
    assert_eq!(
        normalize_owned_firewall_state(first),
        normalize_owned_firewall_state(counters_changed)
    );
    assert_ne!(
        normalize_owned_firewall_state(first),
        normalize_owned_firewall_state(content_changed)
    );
}

#[test]
fn network_backend_shared_ebpf_identity_is_bridge_scoped() {
    let first = bridge_network_id("ferro0", "10.0.0.1/24");
    let second = bridge_network_id("ferro0", "10.0.0.1/24");
    let different = bridge_network_id("ferro1", "10.1.0.1/24");

    assert_eq!(first, second);
    assert_ne!(first, different);
    assert!(!first.contains("container-a"));
}

#[test]
fn network_backend_reuses_one_ebpf_load_per_network() {
    assert_eq!(shared_ebpf_action("bridge-a", &[]), SharedEbpfAction::PrepareAndAttach);
    assert_eq!(
        shared_ebpf_action("bridge-a", &["bridge-a", "bridge-a"]),
        SharedEbpfAction::VerifyAndReuse
    );
}

#[test]
fn network_backend_transaction_rolls_back_every_partial_boundary() {
    let mutations = [
        NetworkMutationKind::Bridge,
        NetworkMutationKind::Namespace,
        NetworkMutationKind::Veth,
        NetworkMutationKind::BackendRecords,
        NetworkMutationKind::Shaping,
    ];

    for completed in 1..=mutations.len() {
        let mut journal = NetworkMutationJournal::default();
        for mutation in mutations.iter().take(completed) {
            journal.record(*mutation);
        }
        let expected = mutations[..completed].iter().rev().copied().collect::<Vec<_>>();
        assert_eq!(journal.rollback_order(), expected);
    }
}

#[test]
fn network_backend_recovery_reloads_only_completely_missing_owned_state() {
    assert_eq!(
        plan_network_recovery(ObservedNetworkState::Complete).unwrap(),
        NetworkRecoveryAction::VerifyAndReuse
    );
    assert_eq!(
        plan_network_recovery(ObservedNetworkState::CompletelyMissing).unwrap(),
        NetworkRecoveryAction::ReloadShared
    );
    assert!(plan_network_recovery(ObservedNetworkState::PartialOrReplaced).is_err());
}

#[test]
fn network_backend_identity_cleanup_distinguishes_missing_and_foreign() {
    let expected = KernelIdentity { device: 7, inode: 11 };
    assert_eq!(verify_kernel_identity(expected, None).unwrap(), OwnedResourceState::Missing);
    assert!(verify_kernel_identity(expected, Some(KernelIdentity { device: 7, inode: 12 })).is_err());
}

#[test]
fn network_backend_legacy_bridge_records_never_silently_clean() {
    assert_eq!(
        classify_legacy_network_record(Some("host"), false).unwrap(),
        LegacyNetworkAction::NotManagedBridge
    );
    assert_eq!(
        classify_legacy_network_record(Some("bridge"), true).unwrap(),
        LegacyNetworkAction::CleanupProvenRules
    );
    assert!(classify_legacy_network_record(Some("bridge"), false).is_err());
}

#[test]
fn non_root_bridge_backend_fails_closed() {
    let err = ensure_bridge_backend_root(false, NetworkBackend::Ebpf)
        .expect_err("rootless bridge backend setup must fail");
    assert!(err.message().contains("rootless bridge backend setup requires root"));
}

#[test]
fn rootless_bridge_requires_explicit_slirp_enablement() {
    let err = validate_rootless_bridge_network(false, &[], NetworkBackend::Iptables)
        .expect_err("rootless networking must be opt-in");
    assert!(err.message().contains("FERROCRATE_ROOTLESS_NETNS=1"));
}

#[test]
fn rootless_bridge_accepts_supported_host_port_mapping() {
    validate_rootless_bridge_network(
        true,
        &[PortMappingRecord { host_port: 8080, container_port: 80, protocol: "tcp".into() }],
        NetworkBackend::Iptables,
    )
    .expect("supported slirp forwarding should be admitted");
}

#[test]
fn rootless_bridge_accepts_slirp_without_privileged_mutations() {
    validate_rootless_bridge_network(true, &[], NetworkBackend::Nftables)
        .expect("enabled slirp bridge should be admitted");
}

#[test]
fn rootless_mount_requests_fail_before_kernel_mutation() {
    let capable = validate_rootless_mount_capability(true, 1, 0, false, true, true);
    capable.expect("capable hosts should admit rootless bind mounts");
    let error = validate_rootless_mount_capability(true, 1, 0, false, false, true)
        .expect_err("rootless bind mount must fail closed before setup");
    assert!(error.message().contains("mount-capable user namespace"));
}

#[test]
fn port_mapping_conflicts_are_rejected() {
    let existing = ContainerRecord {
        id: "c-existing".to_string(),
        name: None,
        status: "running".to_string(),
        pid: 1234,
        ports: vec![PortMappingRecord {
            host_port: 8080,
            container_port: 80,
            protocol: "tcp".to_string(),
        }],
        network_name: Some("bridge".to_string()),
        network_ownership: None,
        ip_address: Some("10.0.0.2".to_string()),
        ipv6_address: None,
        netns: None,
        namespace_owned: true,
        namespace_identity: None,
        network_backend: None,
        managed_overlay: None,
        managed_host_veth: None,
    };
    let requested = vec![PortMappingRecord {
        host_port: 8080,
        container_port: 8080,
        protocol: "tcp".to_string(),
    }];
    let err = validate_port_mapping_conflicts(&[existing], &requested).expect_err("conflict");
    assert!(err.message().contains("already mapped"));
}

#[test]
fn bandwidth_limit_validation_accepts_supported_units() {
    assert_eq!(validate_bandwidth_limit("100mbit").expect("valid"), "100mbit");
    assert_eq!(validate_bandwidth_limit("42KBIT").expect("valid"), "42kbit");
}

#[test]
fn bandwidth_limit_validation_rejects_invalid_values() {
    let err = validate_bandwidth_limit("0mbit").expect_err("invalid");
    assert!(err.message().contains("positive integer"));
    let err = validate_bandwidth_limit("100").expect_err("missing unit");
    assert!(err.message().contains("must end with"));
}

#[test]
fn qdisc_readback_requires_the_requested_rate() {
    let output = "qdisc tbf 1: root refcnt 2 rate 100mbit burst 32Kb lat 400.0ms";
    assert!(qdisc_reports_rate(output, "100mbit"));
    assert!(!qdisc_reports_rate(output, "1gbit"));
    assert!(!qdisc_reports_rate("qdisc pfifo_fast 0: root", "100mbit"));
}

#[test]
fn ai_memory_adjustment_is_bounded_and_never_reduces_limit() {
    assert_eq!(ai_next_memory_limit(100, 200), Some(125));
    assert_eq!(ai_next_memory_limit(100, 110), Some(110));
    assert_eq!(ai_next_memory_limit(100, 99), None);
    assert_eq!(ai_next_memory_limit(0, u64::MAX), None);
    assert_eq!(ai_next_memory_limit(u64::MAX, u64::MAX), None);
}

#[test]
fn wireguard_listen_port_is_deterministic() {
    let first = wireguard_listen_port("container-a", None);
    let second = wireguard_listen_port("container-a", None);
    let third = wireguard_listen_port("container-b", None);
    assert_eq!(first, second);
    assert_ne!(first, third);
}

#[test]
fn selinux_type_validation_rejects_invalid_chars() {
    let err = validate_selinux_type("container_t;bad").expect_err("invalid type");
    assert!(err.message().contains("invalid characters"));
    validate_selinux_type("container_t").expect("valid type");
}

#[test]
fn supervisor_restarts_only_when_policy_and_model_agree() {
    assert_eq!(supervisor_step(&RestartPolicy::No, "exited", 1, None), SupervisorStep::Stop);
    assert_eq!(
        supervisor_step(&RestartPolicy::OnFailure, "exited", 1, None),
        SupervisorStep::RestartAfter { delay_secs: 1 }
    );
    assert_eq!(supervisor_step(&RestartPolicy::OnFailure, "exited", 0, None), SupervisorStep::Stop);
    assert_eq!(supervisor_step(&RestartPolicy::Always, "stopped", 1, None), SupervisorStep::Stop);
    assert_eq!(
        supervisor_step(&RestartPolicy::Always, "exited", 0, Some(RestartDecision::DoNotRestart)),
        SupervisorStep::Stop
    );
    assert_eq!(
        supervisor_step(
            &RestartPolicy::Always,
            "exited",
            0,
            Some(RestartDecision::RestartAfterDelay { delay_secs: 0 })
        ),
        SupervisorStep::RestartAfter { delay_secs: 1 }
    );
    assert_eq!(
        supervisor_step(
            &RestartPolicy::UnlessStopped,
            "exited",
            3,
            Some(RestartDecision::RestartAfterDelay { delay_secs: 9 })
        ),
        SupervisorStep::RestartAfter { delay_secs: 9 }
    );
}
