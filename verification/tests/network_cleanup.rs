use ferro_core::error::RuntimeError;
use ferro_core::network::{KernelIdentity, NetworkBackend};
use ferro_core::network_cleanup::{legacy_rules_need_proof, network_cleanup_step, NetworkCleanupStep};
use ferro_core::shared_ebpf::{
    ebpf_mutation_pin_root, shared_ebpf_members, shared_group_owner, verify_captured_pins,
    verify_shared_group,
};
use ferro_core::records::{
    ContainerRecord, EbpfPinOwnershipRecord, KernelObjectIdentityRecord, NetworkOwnershipRecord,
    PortMappingRecord,
};

fn fixture_container_record(id: &str, status: &str) -> ContainerRecord {
    ContainerRecord {
        id: id.to_string(),
        name: None,
        status: status.to_string(),
        pid: 999_999,
        ports: Vec::new(),
        network_name: Some("bridge".to_string()),
        network_ownership: None,
        ip_address: Some("10.44.1.2".to_string()),
        ipv6_address: None,
        netns: None,
        namespace_owned: true,
        namespace_identity: None,
        network_backend: None,
        managed_overlay: None,
        managed_host_veth: None,
    }
}

fn ownership(network_id: &str) -> NetworkOwnershipRecord {
    NetworkOwnershipRecord {
        schema_version: 2,
        owner_id: "owner".to_string(),
        network_id: Some(network_id.to_string()),
        host_interface: "vethowner".to_string(),
        host_ifindex: Some(41),
        namespace_identity: Some(KernelObjectIdentityRecord { device: 7, inode: 11 }),
        managed_interface: None,
        managed_ifindex: None,
        loopback_ifindex: None,
        bridge_ifindex: Some(9),
        source_cidr: Some("10.0.0.0/24".to_string()),
        bridge: Some("ferro0".to_string()),
        firewall_id: None,
        firewall_marker: None,
        firewall_expected_state: None,
        ebpf_pin_path: None,
        external_ipv4: None,
        next_hop_mac: None,
        snat_port_start: None,
        snat_port_end: None,
        object_sha256: None,
        object_abi: None,
        ebpf_filters: Vec::new(),
        ebpf_pins: Vec::new(),
    }
}

fn ebpf_record(id: &str, network_id: &str) -> ContainerRecord {
    let mut record = fixture_container_record(id, "stopped");
    record.network_backend = Some("ebpf".to_string());
    record.network_ownership = Some(ownership(network_id));
    record
}

#[test]
fn network_backend_legacy_nonbridge_namespace_is_retained_without_identity() {
    let mut record = fixture_container_record("legacy-none", "stopped");
    record.network_name = Some("none".to_string());
    record.netns = Some("must-not-delete-by-name".to_string());

    let error = network_cleanup_step(&record, std::slice::from_ref(&record), &Ok(false)).unwrap_err();
    assert!(error.message().contains("no kernel identity"));
    assert_eq!(record.netns.as_deref(), Some("must-not-delete-by-name"));
}

#[test]
fn legacy_namespace_with_identity_is_verified_before_deletion() {
    let mut record = fixture_container_record("legacy-none", "stopped");
    record.network_name = Some("none".to_string());
    record.netns = Some("ferro-legacy-none".to_string());
    record.namespace_identity = Some(KernelObjectIdentityRecord { device: 3, inode: 99 });
    match network_cleanup_step(&record, std::slice::from_ref(&record), &Ok(false)).unwrap() {
        NetworkCleanupStep::Resources { legacy_namespace, backend, remove_shared_ebpf } => {
            let namespace = legacy_namespace.expect("namespace to verify");
            assert_eq!(namespace.name, "ferro-legacy-none");
            assert_eq!(namespace.identity, KernelIdentity { device: 3, inode: 99 });
            assert_eq!(backend, None);
            assert!(remove_shared_ebpf);
        }
        other => panic!("unexpected step {other:?}"),
    }
}

#[test]
fn legacy_shared_namespace_is_not_verified_as_owned() {
    let mut record = fixture_container_record("shared", "stopped");
    record.network_name = Some("container:cri-sandbox-1".to_string());
    record.netns = Some("cri-sandbox-1".to_string());
    record.namespace_owned = false;
    match network_cleanup_step(&record, std::slice::from_ref(&record), &Ok(false)).unwrap() {
        NetworkCleanupStep::Resources { legacy_namespace, backend, .. } => {
            assert!(legacy_namespace.is_none());
            assert_eq!(backend, None);
        }
        other => panic!("unexpected step {other:?}"),
    }
}

#[test]
fn legacy_bridge_rules_are_removed_only_when_proven() {
    let mut record = fixture_container_record("legacy-bridge", "stopped");
    record.ports = vec![PortMappingRecord {
        host_port: 8080,
        container_port: 80,
        protocol: "tcp".to_string(),
    }];
    assert!(legacy_rules_need_proof(&record));
    match network_cleanup_step(&record, std::slice::from_ref(&record), &Ok(true)).unwrap() {
        NetworkCleanupStep::LegacyRules { refusal } => {
            assert_eq!(
                refusal.message(),
                "network error: legacy rules for container legacy-bridge were removed, but namespace/veth identity was not recorded; remove those resources manually before retrying record removal"
            );
        }
        other => panic!("unexpected step {other:?}"),
    }
    let error = network_cleanup_step(&record, std::slice::from_ref(&record), &Ok(false)).unwrap_err();
    assert!(error.message().contains("legacy bridge record has no ownership metadata"));
    let failed = Err(RuntimeError::Network("iptables-save failed".to_string()));
    let error = network_cleanup_step(&record, std::slice::from_ref(&record), &failed).unwrap_err();
    assert_eq!(error.message(), "network error: iptables-save failed");
}

#[test]
fn legacy_proof_is_needed_only_for_bridge_records_with_ports() {
    let mut record = fixture_container_record("legacy-bridge", "stopped");
    assert!(!legacy_rules_need_proof(&record));
    record.ports = vec![PortMappingRecord {
        host_port: 8080,
        container_port: 80,
        protocol: "tcp".to_string(),
    }];
    assert!(legacy_rules_need_proof(&record));
    record.network_name = Some("none".to_string());
    assert!(!legacy_rules_need_proof(&record));
}

#[test]
fn managed_overlay_records_detach_through_the_agent() {
    let mut record = fixture_container_record("overlay", "stopped");
    record.managed_overlay = Some("overlay-1".to_string());
    record.managed_host_veth = Some("vethov".to_string());
    record.netns = Some("ferro-overlay".to_string());
    match network_cleanup_step(&record, &[], &Ok(false)).unwrap() {
        NetworkCleanupStep::ManagedOverlay { overlay_id, host_veth, netns } => {
            assert_eq!(overlay_id, "overlay-1");
            assert_eq!(host_veth.as_deref(), Some("vethov"));
            assert_eq!(netns.as_deref(), Some("ferro-overlay"));
        }
        other => panic!("unexpected step {other:?}"),
    }
}

#[test]
fn partial_network_ownership_is_refused() {
    let mut record = fixture_container_record("partial", "stopped");
    record.network_backend = Some("iptables".to_string());
    let error = network_cleanup_step(&record, &[], &Ok(false)).unwrap_err();
    assert_eq!(
        error.message(),
        "network error: container partial has malformed partial network ownership; restore or remove the record fields before cleanup"
    );
}

#[test]
fn unknown_persisted_backend_is_refused() {
    let mut record = ebpf_record("odd", "net-a");
    record.network_backend = Some("bpfilter".to_string());
    let error = network_cleanup_step(&record, &[], &Ok(false)).unwrap_err();
    assert_eq!(error.message(), "network error: malformed persisted backend: bpfilter");
}

#[test]
fn shared_ebpf_objects_stay_while_another_container_uses_the_network() {
    let record = ebpf_record("first", "net-a");
    let sibling = ebpf_record("second", "net-a");
    let elsewhere = ebpf_record("third", "net-b");
    let all = vec![record.clone(), sibling, elsewhere.clone()];
    match network_cleanup_step(&record, &all, &Ok(false)).unwrap() {
        NetworkCleanupStep::Resources { backend, remove_shared_ebpf, .. } => {
            assert_eq!(backend, Some(NetworkBackend::Ebpf));
            assert!(!remove_shared_ebpf);
        }
        other => panic!("unexpected step {other:?}"),
    }
    let alone = vec![record.clone(), elsewhere];
    match network_cleanup_step(&record, &alone, &Ok(false)).unwrap() {
        NetworkCleanupStep::Resources { remove_shared_ebpf, .. } => assert!(remove_shared_ebpf),
        other => panic!("unexpected step {other:?}"),
    }
}

#[test]
fn shared_ebpf_members_are_the_ebpf_records_of_one_network() {
    let mut iptables = ebpf_record("fw", "net-a");
    iptables.network_backend = Some("iptables".to_string());
    let records = vec![
        ebpf_record("a1", "net-a"),
        ebpf_record("b1", "net-b"),
        iptables,
        fixture_container_record("legacy", "running"),
        ebpf_record("a2", "net-a"),
    ];
    assert_eq!(shared_ebpf_members("net-a", &records), vec![0, 4]);
    assert_eq!(shared_ebpf_members("net-c", &records), Vec::<usize>::new());
}

#[test]
fn shared_group_records_must_agree_with_the_first() {
    let records = vec![ebpf_record("a1", "net-a"), ebpf_record("a2", "net-a")];
    let owner = shared_group_owner(&records).unwrap();
    assert!(verify_shared_group(owner, &records, 1, "running records disagree about shared eBPF ownership").is_ok());

    let mut drifted = ebpf_record("a3", "net-a");
    drifted.network_ownership.as_mut().unwrap().snat_port_end = Some(60_000);
    let mut bare = ebpf_record("a4", "net-a");
    bare.network_ownership = None;
    let group = vec![ebpf_record("a1", "net-a"), drifted, bare];
    let owner = shared_group_owner(&group).unwrap();
    let error = verify_shared_group(owner, &group, 1, "running records disagree about shared eBPF ownership")
        .unwrap_err();
    assert_eq!(error.message(), "network error: running records disagree about shared eBPF ownership");
    let error = verify_shared_group(owner, &group, 2, "conflicting persisted ownership for one eBPF bridge network")
        .unwrap_err();
    assert_eq!(error.message(), "network error: shared eBPF ownership is missing");

    let empty: Vec<ContainerRecord> = Vec::new();
    let error = shared_group_owner(&empty).unwrap_err();
    assert_eq!(error.message(), "network error: cannot reconcile an empty eBPF network");
}

fn pin(path: &str, inode: u64) -> EbpfPinOwnershipRecord {
    EbpfPinOwnershipRecord { relative_path: path.to_string(), device: 40, inode, directory: false, map_id: Some(9) }
}

#[test]
fn ebpf_mutations_need_a_named_network_and_pin_root() {
    let mut o = ownership("net-a");
    o.ebpf_pin_path = Some("/sys/fs/bpf/ferrocrate/net-a".to_string());
    assert_eq!(ebpf_mutation_pin_root(&o).unwrap(), "/sys/fs/bpf/ferrocrate/net-a");
    o.ebpf_pin_path = None;
    assert_eq!(
        ebpf_mutation_pin_root(&o).unwrap_err().message(),
        "network error: eBPF ownership has no pin path"
    );
    o.network_id = None;
    assert_eq!(
        ebpf_mutation_pin_root(&o).unwrap_err().message(),
        "network error: eBPF ownership has no bridge network identity"
    );
}

#[test]
fn captured_pins_must_be_exactly_the_recorded_ones() {
    let mut o = ownership("net-a");
    o.ebpf_pins = vec![pin("maps/ports", 1), pin("maps/nat", 2)];
    assert!(verify_captured_pins(&o, &[pin("maps/nat", 2), pin("maps/ports", 1)]).is_ok());
    let error = verify_captured_pins(&o, &[pin("maps/nat", 2)]).unwrap_err();
    assert_eq!(error.message(), "network error: eBPF pin tree is incomplete, replaced, or foreign");
    assert!(verify_captured_pins(&o, &[pin("maps/nat", 2), pin("maps/ports", 3)]).is_err());
    assert!(verify_captured_pins(&o, &[pin("maps/nat", 2), pin("maps/nat", 2), pin("maps/ports", 1)]).is_err());
}
