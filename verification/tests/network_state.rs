use ferro_core::creation::{
    pending_cleanup_disposition, validate_pending_journal, CreationRollback, NetworkSetup,
    PendingCleanupDisposition,
};
use ferro_core::ebpf::{ebpf_config_from_ownership, owned_tc_filters, verify_shared_ebpf_metadata, TcFilterEntry, TcFilterOptions, TcProgram};
use ferro_core::error::RuntimeError;
use ferro_core::link::{external_route_of, neighbor_next_hop_mac, route_next_hop, NextHop};
use ferro_core::mounts::{
    bpffs_mounted, classify_unmarked_mount, has_live_mount_beneath, mount_id_for_path,
    mount_target_path, mountinfo_for_path, TargetObservation,
};
use ferro_core::network::{
    verify_container_kernel_ownership, verify_firewall_ownership, KernelIdentity, NetworkBackend,
    NetworkMutationKind,
};
use ferro_core::records::{KernelObjectIdentityRecord, NetworkOwnershipRecord};
use ferro_core::rollback::{
    CleanupAuthority, CreationProvenance, LegacyCleanupAuthority, ResourceIdentity,
};
use ferro_core::settings::bridge_config;

const EMBEDDED: [u8; 32] = [0xab; 32];

fn fixture_ebpf_ownership() -> NetworkOwnershipRecord {
    NetworkOwnershipRecord {
        schema_version: 2,
        owner_id: "fixture-container".to_string(),
        network_id: Some("bridge-fixture".to_string()),
        host_interface: "vethfixture".to_string(),
        host_ifindex: Some(41),
        namespace_identity: Some(KernelObjectIdentityRecord { device: 7, inode: 11 }),
        managed_interface: Some("eth-fixture".to_string()),
        managed_ifindex: Some(17),
        loopback_ifindex: Some(1),
        bridge_ifindex: Some(9),
        source_cidr: Some("10.0.0.0/24".to_string()),
        bridge: Some("ferro0".to_string()),
        firewall_id: None,
        firewall_marker: None,
        firewall_expected_state: None,
        ebpf_pin_path: Some("/sys/fs/bpf/ferrocrate/bridge-fixture".to_string()),
        external_ipv4: Some("203.0.113.8".to_string()),
        next_hop_mac: Some("02:aa:bb:cc:dd:ee".to_string()),
        snat_port_start: Some(50_000),
        snat_port_end: Some(50_031),
        object_sha256: Some("ab".repeat(32)),
        object_abi: Some("ferro-abi-1".to_string()),
        ebpf_filters: Vec::new(),
        ebpf_pins: Vec::new(),
    }
}

fn restart_config(o: &NetworkOwnershipRecord) -> Result<ferro_core::ebpf::EbpfRestartConfig, RuntimeError> {
    ebpf_config_from_ownership(o, &EMBEDDED, &Ok("ferro-abi-1".to_string()), &bridge_config(None, None, None))
}

#[test]
fn network_backend_restart_config_requires_complete_compatible_metadata() {
    let ownership = fixture_ebpf_ownership();
    let config = restart_config(&ownership).unwrap();
    assert_eq!(config.network_id, "bridge-fixture");
    assert_eq!(config.external_ifindex, 17);
    assert_eq!(config.snat_port_start..=config.snat_port_end, 50_000..=50_031);
    assert_eq!(config.external_ipv4, [203, 0, 113, 8]);
    assert_eq!(config.bridge_gateway, [10, 0, 0, 1]);
    assert_eq!(config.next_hop_mac, [0x02, 0xaa, 0xbb, 0xcc, 0xdd, 0xee]);

    let mut malformed = ownership.clone();
    malformed.next_hop_mac = None;
    assert!(restart_config(&malformed).is_err());

    let mut foreign = ownership;
    foreign.object_sha256 = Some("00".repeat(32));
    assert!(restart_config(&foreign).is_err());
}

#[test]
fn restart_config_reports_the_first_missing_field() {
    let message = |o: &NetworkOwnershipRecord| restart_config(o).unwrap_err().message();
    let mut o = fixture_ebpf_ownership();
    o.schema_version = 1;
    assert_eq!(message(&o), "network error: unsupported eBPF ownership schema");
    let mut o = fixture_ebpf_ownership();
    o.managed_interface = Some(String::new());
    assert_eq!(message(&o), "network error: eBPF managed interface is missing");
    let mut o = fixture_ebpf_ownership();
    o.external_ipv4 = Some("203.0.113".to_string());
    assert_eq!(message(&o), "network error: invalid persisted eBPF external IPv4");
    let mut o = fixture_ebpf_ownership();
    o.next_hop_mac = Some("zz".to_string());
    assert_eq!(message(&o), "network error: invalid MAC address `zz`");
    let mut o = fixture_ebpf_ownership();
    o.snat_port_start = Some(60_000);
    assert_eq!(message(&o), "network error: invalid persisted eBPF SNAT range");
    let mut o = fixture_ebpf_ownership();
    o.object_sha256 = Some("abc".to_string());
    assert_eq!(message(&o), "network error: invalid persisted eBPF object hash");
    let mut o = fixture_ebpf_ownership();
    o.object_sha256 = Some("ABAB".to_string());
    assert_eq!(message(&o), "network error: invalid persisted eBPF object hash length");
    let mut o = fixture_ebpf_ownership();
    o.object_abi = Some("ferro-abi-2".to_string());
    assert_eq!(
        message(&o),
        "network error: persisted eBPF object identity is incompatible with this runtime"
    );
    let o = fixture_ebpf_ownership();
    let abi_error = ebpf_config_from_ownership(&o, &EMBEDDED, &Err("no object".to_string()), &bridge_config(None, None, None));
    assert_eq!(abi_error.unwrap_err().message(), "network error: no object");
    let bad_bridge = ebpf_config_from_ownership(
        &o,
        &EMBEDDED,
        &Ok("ferro-abi-1".to_string()),
        &bridge_config(None, Some("10.0.0.300/24"), None),
    );
    assert_eq!(bad_bridge.unwrap_err().message(), "network error: invalid bridge gateway");
}

#[test]
fn mount_tables_locate_mounts_by_path() {
    let mountinfo = "22 1 0:21 / /proc rw,nosuid - proc proc rw\n\
36 35 98:0 /mnt1 /mnt/parent rw,noatime master:1 - ext3 /dev/root rw\n\
40 36 0:40 / /mnt/parent/data ro,relatime - tmpfs tmpfs rw\n";
    assert_eq!(mount_id_for_path(mountinfo, "/mnt/parent"), Some(36));
    assert_eq!(mount_id_for_path(mountinfo, "/mnt/parent/"), Some(36));
    assert_eq!(mount_id_for_path(mountinfo, "/mnt"), None);
    assert_eq!(mountinfo_for_path(mountinfo, "/mnt/parent/data"), Some((40, "tmpfs".to_string(), true)));
    assert_eq!(mountinfo_for_path(mountinfo, "/mnt/parent"), Some((36, "ext3".to_string(), false)));
    assert!(has_live_mount_beneath(mountinfo, "/mnt"));
    assert!(has_live_mount_beneath(mountinfo, "/mnt/parent/data"));
    assert!(!has_live_mount_beneath(mountinfo, "/mnt/par"));
    assert!(!has_live_mount_beneath(mountinfo, "/srv"));
    assert!(bpffs_mounted("bpf /sys/fs/bpf bpf rw 0 0\n"));
    assert!(!bpffs_mounted("none /sys/fs/bpf tmpfs rw 0 0\nbpf /sys/fs/bpf/x bpf rw 0 0\n"));
}

#[test]
fn external_route_reads_device_source_and_gateway() {
    let route = "1.1.1.1 via 192.0.2.1 dev eth0 src 192.0.2.10 uid 0\n    cache\n";
    let parsed = external_route_of(route, None, None).unwrap();
    assert_eq!(parsed.interface, "eth0");
    assert_eq!(parsed.address, [192, 0, 2, 10]);
    let forced = external_route_of(route, Some("eth9"), Some("198.51.100.7")).unwrap();
    assert_eq!(forced.interface, "eth9");
    assert_eq!(forced.address, [198, 51, 100, 7]);
    assert_eq!(
        external_route_of("1.1.1.1 src 192.0.2.10", None, None).unwrap_err().message(),
        "network error: eBPF route has no external interface"
    );
    assert_eq!(
        external_route_of(route, None, Some("bad")).unwrap_err().message(),
        "network error: invalid eBPF external IPv4"
    );
    assert_eq!(route_next_hop(route, None).unwrap(), NextHop::Gateway("192.0.2.1".to_string()));
    assert_eq!(
        route_next_hop(route, Some("02:00:00:00:00:01")).unwrap(),
        NextHop::Mac([2, 0, 0, 0, 0, 1])
    );
    assert!(route_next_hop("1.1.1.1 dev eth0", None).unwrap_err().message().contains("no next hop"));
    assert_eq!(
        neighbor_next_hop_mac("192.0.2.1 lladdr 02:42:ac:11:00:02 REACHABLE", "192.0.2.1").unwrap(),
        [0x02, 0x42, 0xac, 0x11, 0x00, 0x02]
    );
    assert!(neighbor_next_hop_mac("192.0.2.1 FAILED", "192.0.2.1").unwrap_err().message().contains("unresolved"));
    assert_eq!(
        neighbor_next_hop_mac("192.0.2.1 lladdr", "192.0.2.1").unwrap_err().message(),
        "network error: invalid MAC address ``"
    );
}

fn owned_entry(name: &str, id: Option<u64>, tag: Option<&str>) -> TcFilterEntry {
    TcFilterEntry {
        kind: Some("bpf".to_string()),
        pref: Some(49_152),
        options: Some(TcFilterOptions {
            name: Some(Some(name.to_string())),
            bpf_name: None,
            handle: Some("0x1".to_string()),
            prog: Some(TcProgram { id, tag: tag.map(str::to_string) }),
            program: TcProgram { id: None, tag: None },
        }),
    }
}

#[test]
fn tc_reports_yield_only_fully_identified_runtime_classifiers() {
    let foreign = TcFilterEntry { kind: Some("u32".to_string()), pref: Some(1), options: None };
    let entries = vec![foreign, owned_entry("ferro_ingress", Some(71), Some("aabbccdd")), owned_entry("other", None, None)];
    let owned = owned_tc_filters(&entries, "lo", "ingress", &Ok(1)).unwrap();
    assert_eq!(owned.len(), 1);
    assert_eq!(owned[0].interface.as_deref(), Some("lo"));
    assert_eq!(owned[0].interface_ifindex, Some(1));
    assert_eq!(owned[0].priority, 49_152);
    assert_eq!(owned[0].program_id, Some(71));
    assert_eq!(owned[0].program_tag.as_deref(), Some("aabbccdd"));

    let untagged = vec![owned_entry("ferro_egress", Some(71), Some(""))];
    assert!(owned_tc_filters(&untagged, "lo", "egress", &Ok(1)).unwrap_err().message().contains("no BPF program identity"));
    let huge = vec![owned_entry("ferro_egress", Some(1 << 40), Some("aa"))];
    assert!(owned_tc_filters(&huge, "lo", "egress", &Ok(1)).unwrap_err().message().contains("out of range"));
    let lookup_failed = Err(RuntimeError::Network("invalid ifindex for lo".to_string()));
    assert!(owned_tc_filters(&entries[..1], "lo", "ingress", &lookup_failed).unwrap().is_empty());
    assert_eq!(
        owned_tc_filters(&entries, "lo", "ingress", &lookup_failed).unwrap_err().message(),
        "network error: invalid ifindex for lo"
    );
}

#[test]
fn network_setup_isolated_marks_namespace_as_owned() {
    let setup = NetworkSetup::isolated(
        Some("ferro-test-netns".to_string()),
        Some("192.0.2.10".to_string()),
        None,
    );
    assert!(setup.namespace_owned);
    assert_eq!(setup.netns_name.as_deref(), Some("ferro-test-netns"));
}

#[test]
fn creation_rollback_tracks_network_mutations_in_order() {
    let provenance = CreationProvenance { creator_operation_id: Some([3; 16]), resource_generation: 1 };
    let mut rollback = CreationRollback::new("c1", provenance);
    rollback.track_bridge_created("ferro0".to_string());
    rollback.identify_bridge(9);
    rollback.track_namespace_created("ferro-c1".to_string());
    rollback.track_veth_created("vethc1".to_string());
    rollback.acquire_firewall_rollback(vec!["iptables".to_string(), "-D".to_string(), "A".to_string()]);
    rollback.acquire_firewall_rollback(vec!["iptables".to_string(), "-D".to_string(), "B".to_string()]);
    rollback.adopt_backend(NetworkBackend::Ebpf, fixture_ebpf_ownership(), false);
    rollback.identify_veth(12);
    assert_eq!(rollback.bridge_created, Some(("ferro0".to_string(), Some(9))));
    assert_eq!(rollback.host_veth, Some(("vethc1".to_string(), Some(12))));
    let ownership = rollback.network_ownership.clone().unwrap();
    assert_eq!(ownership.host_interface, "vethc1");
    assert_eq!(ownership.host_ifindex, Some(12));
    assert!(rollback.network_persisted);
    assert!(rollback.next_firewall_cleanup().is_none());
    assert_eq!(
        rollback.journal.rollback_order(),
        vec![
            NetworkMutationKind::BackendRecords,
            NetworkMutationKind::Veth,
            NetworkMutationKind::Namespace,
            NetworkMutationKind::Bridge,
        ]
    );
    assert!(rollback.rollback_with_authority(&CleanupAuthority { operation_id: [3; 16], generation: 1 }));
    assert!(!rollback.cleanup_quarantined);
    assert!(!rollback.rollback_with_authority(&CleanupAuthority { operation_id: [4; 16], generation: 1 }));
    assert!(rollback.cleanup_quarantined);
    assert!(!rollback.rollback_with_legacy_authority(&LegacyCleanupAuthority));
}

#[test]
fn provisional_firewall_rules_are_removed_newest_first() {
    let mut rollback = CreationRollback::new("c2", CreationProvenance { creator_operation_id: None, resource_generation: 0 });
    rollback.acquire_firewall_rollback(vec!["A".to_string()]);
    rollback.acquire_firewall_rollback(vec!["B".to_string()]);
    assert_eq!(rollback.next_firewall_cleanup(), Some(vec!["B".to_string()]));
    assert_eq!(rollback.next_firewall_cleanup(), Some(vec!["A".to_string()]));
    assert_eq!(rollback.next_firewall_cleanup(), None);
}

#[test]
fn pending_journals_are_recovered_only_with_authority() {
    assert_eq!(validate_pending_journal(2, "c1", Some("ebpf")).unwrap(), Some(NetworkBackend::Ebpf));
    assert_eq!(validate_pending_journal(1, "c1", None).unwrap(), None);
    assert_eq!(
        validate_pending_journal(3, "c1", None).unwrap_err().message(),
        "network error: malformed pending network cleanup journal"
    );
    assert_eq!(
        validate_pending_journal(2, "c1", Some("bpfilter")).unwrap_err().message(),
        "network error: malformed pending backend: bpfilter"
    );
    let authority = CleanupAuthority { operation_id: [1; 16], generation: 2 };
    assert_eq!(
        pending_cleanup_disposition("c1", "/j", "c1", Some(authority), Some(LegacyCleanupAuthority)).unwrap(),
        PendingCleanupDisposition::Witnessed(authority)
    );
    assert_eq!(
        pending_cleanup_disposition("c1", "/j", "c1", None, Some(LegacyCleanupAuthority)).unwrap(),
        PendingCleanupDisposition::Legacy
    );
    assert_eq!(
        pending_cleanup_disposition("c1", "/j", "c1", None, None).unwrap(),
        PendingCleanupDisposition::Quarantine
    );
    assert_eq!(
        pending_cleanup_disposition("c2", "/j", "c1", None, None).unwrap_err().message(),
        "network error: pending cleanup journal /j has a foreign container identity"
    );
}

#[test]
fn unmarked_mount_plan_classifies_unchanged_or_quarantines_replacement() {
    let baseline = (2049, 100, Some(40));
    let source = Some((2049, 555, None));
    let unchanged = classify_unmarked_mount(
        TargetObservation::Present { device: 2049, inode: 100 },
        Ok(Some((40, "ext4".to_string(), false))),
        baseline,
        source,
        None,
    );
    assert_eq!(unchanged, Ok(None));
    let replaced = classify_unmarked_mount(
        TargetObservation::Present { device: 2049, inode: 101 },
        Ok(Some((40, "ext4".to_string(), false))),
        baseline,
        source,
        None,
    );
    assert!(replaced.is_err());
}

#[test]
fn unmarked_mount_is_adopted_only_when_it_is_the_planned_mount() {
    let baseline = (2049, 100, Some(40));
    assert_eq!(
        classify_unmarked_mount(
            TargetObservation::Present { device: 2049, inode: 555 },
            Ok(Some((77, "ext4".to_string(), false))),
            baseline,
            Some((2049, 555, None)),
            None,
        ),
        Ok(Some(ResourceIdentity::Path { device: 2049, inode: 555, mount_id: Some(77) }))
    );
    assert_eq!(
        classify_unmarked_mount(
            TargetObservation::Present { device: 31, inode: 2 },
            Ok(Some((78, "tmpfs".to_string(), false))),
            baseline,
            None,
            Some("tmpfs"),
        ),
        Ok(Some(ResourceIdentity::Path { device: 31, inode: 2, mount_id: Some(78) }))
    );
    assert_eq!(
        classify_unmarked_mount(
            TargetObservation::Present { device: 2049, inode: 100 },
            Ok(Some((79, "ext4".to_string(), true))),
            baseline,
            None,
            Some("readonly"),
        ),
        Ok(Some(ResourceIdentity::Path { device: 2049, inode: 100, mount_id: Some(79) }))
    );
    assert!(classify_unmarked_mount(
        TargetObservation::Present { device: 31, inode: 2 },
        Ok(Some((78, "ext4".to_string(), false))),
        baseline,
        None,
        Some("tmpfs"),
    )
    .is_err());
    assert_eq!(
        classify_unmarked_mount(TargetObservation::Missing, Err(()), baseline, None, None),
        Ok(None)
    );
    assert!(classify_unmarked_mount(TargetObservation::NoRootfs, Err(()), baseline, None, None).is_err());
    assert!(classify_unmarked_mount(TargetObservation::Unreadable, Err(()), baseline, None, None).is_err());
    assert_eq!(mount_target_path("/c/rootfs", "."), "/c/rootfs");
    assert_eq!(mount_target_path("/c/rootfs", "data"), "/c/rootfs/data");
}

#[test]
fn shared_ebpf_metadata_matches_the_record_it_was_restored_from() {
    let ownership = fixture_ebpf_ownership();
    let config = restart_config(&ownership).unwrap();
    let abi = Ok("ferro-abi-1".to_string());
    assert_eq!(verify_shared_ebpf_metadata(&ownership, &config, &abi, &Ok(17)), Ok(()));

    assert_eq!(
        verify_shared_ebpf_metadata(&ownership, &config, &abi, &Ok(18)).unwrap_err().message(),
        "network error: managed interface identity changed: expected 17, found 18"
    );
    assert_eq!(
        verify_shared_ebpf_metadata(&ownership, &config, &Err("unreadable".to_string()), &Ok(17))
            .unwrap_err()
            .message(),
        "network error: embedded eBPF ABI validation failed: unreadable"
    );
    let mut foreign = ownership.clone();
    foreign.snat_port_end = Some(50_032);
    assert_eq!(
        verify_shared_ebpf_metadata(&foreign, &config, &abi, &Ok(17)).unwrap_err().message(),
        "network error: persisted shared eBPF metadata is malformed or foreign"
    );
    let mut other_abi = ownership.clone();
    other_abi.object_abi = Some("ferro-abi-2".to_string());
    assert!(verify_shared_ebpf_metadata(&other_abi, &config, &abi, &Ok(17)).is_err());
    assert_eq!(
        verify_shared_ebpf_metadata(&ownership, &config, &abi, &Err(RuntimeError::Io("gone".to_string()))),
        Err(RuntimeError::Io("gone".to_string()))
    );
}

#[test]
fn ebpf_ownership_record_round_trips_through_its_restart_config() {
    let fixture = fixture_ebpf_ownership();
    let config = restart_config(&fixture).unwrap();
    let built = ferro_core::ebpf::build_ebpf_ownership(
        &config,
        &Ok("ferro-abi-1".to_string()),
        "/sys/fs/bpf/ferrocrate",
        "fixture-container",
        "vethfixture",
        "10.0.0.0/24",
        "ferro0",
        9,
        41,
        KernelObjectIdentityRecord { device: 7, inode: 11 },
        Vec::new(),
        Vec::new(),
    )
    .unwrap();
    assert_eq!(built, fixture);
    assert_eq!(restart_config(&built).unwrap(), config);

    let refused = ferro_core::ebpf::build_ebpf_ownership(
        &config,
        &Err("object ABI unreadable".to_string()),
        "/sys/fs/bpf/ferrocrate",
        "fixture-container",
        "vethfixture",
        "10.0.0.0/24",
        "ferro0",
        9,
        41,
        KernelObjectIdentityRecord { device: 7, inode: 11 },
        Vec::new(),
        Vec::new(),
    );
    assert_eq!(refused, Err(RuntimeError::Network("object ABI unreadable".to_string())));
}

fn fixture_firewall_ownership() -> NetworkOwnershipRecord {
    let mut o = fixture_ebpf_ownership();
    o.firewall_id = Some("FERRO-X".to_string());
    o.firewall_marker = Some("ferrocrate:ferro-x".to_string());
    o.firewall_expected_state = Some("-A FERRO-X -m comment --comment ferrocrate:ferro-x".to_string());
    o.ebpf_pin_path = None;
    o
}

fn fixture_firewall_record() -> ferro_core::records::ContainerRecord {
    ferro_core::records::ContainerRecord {
        id: "fixture-container".to_string(),
        name: None,
        status: "running".to_string(),
        pid: 1,
        ports: Vec::new(),
        network_name: Some("bridge".to_string()),
        network_ownership: None,
        ip_address: Some("10.0.0.2".to_string()),
        ipv6_address: None,
        netns: None,
        namespace_owned: true,
        namespace_identity: None,
        network_backend: None,
        managed_overlay: None,
        managed_host_veth: None,
    }
}

#[test]
fn firewall_ownership_requires_the_recorded_owned_state() {
    let record = fixture_firewall_record();
    let o = fixture_firewall_ownership();
    let plan_id = Ok(Some("FERRO-X".to_string()));
    let live = Ok(Some("-A FERRO-X -m comment --comment ferrocrate:ferro-x".to_string()));
    assert_eq!(verify_firewall_ownership(&record, Some("iptables"), &o, &plan_id, &live), Ok(()));
    let message = |r: Result<(), RuntimeError>| r.unwrap_err().message();
    assert_eq!(
        message(verify_firewall_ownership(&record, None, &o, &plan_id, &live)),
        "network error: firewall backend is missing"
    );
    assert_eq!(
        message(verify_firewall_ownership(&record, Some("pf"), &o, &plan_id, &live)),
        "network error: malformed persisted backend: pf"
    );
    assert_eq!(
        message(verify_firewall_ownership(&record, Some("ebpf"), &o, &plan_id, &live)),
        "network error: malformed or foreign firewall ownership metadata"
    );
    let other_plan = Ok(Some("FERRO-Y".to_string()));
    assert_eq!(
        message(verify_firewall_ownership(&record, Some("iptables"), &o, &other_plan, &live)),
        "network error: persisted firewall plan does not match its owner inputs"
    );
    assert_eq!(
        message(verify_firewall_ownership(&record, Some("nftables"), &o, &plan_id, &Ok(None))),
        "network error: owned firewall object is missing"
    );
    let replaced = Ok(Some("-A FERRO-X -m comment --comment ferrocrate:ferro-x\n-A FERRO-X -j DROP".to_string()));
    assert_eq!(
        message(verify_firewall_ownership(&record, Some("iptables"), &o, &plan_id, &replaced)),
        "network error: owned firewall object is missing or was replaced"
    );
    let mut no_ip = record.clone();
    no_ip.ip_address = None;
    assert_eq!(
        message(verify_firewall_ownership(&no_ip, Some("iptables"), &o, &plan_id, &live)),
        "network error: firewall endpoint IPv4 is missing"
    );
}

#[test]
fn kernel_ownership_refuses_replaced_objects_and_tolerates_stale_namespaces() {
    let o = fixture_ebpf_ownership();
    let ns = Ok(Some(KernelIdentity { device: 7, inode: 11 }));
    let host = Some(Ok(41));
    let bridge = Some(Ok(9));
    let managed = Some(Ok(17));
    assert_eq!(verify_container_kernel_ownership(Some("ns"), &o, true, &host, &ns, &bridge, &managed), Ok(true));
    let message = |r: Result<bool, RuntimeError>| r.unwrap_err().message();
    assert_eq!(
        message(verify_container_kernel_ownership(Some("ns"), &o, true, &Some(Ok(42)), &ns, &bridge, &managed)),
        "network error: owned host veth was replaced"
    );
    assert_eq!(
        message(verify_container_kernel_ownership(Some("ns"), &o, true, &None, &ns, &bridge, &managed)),
        "network error: owned host veth is missing"
    );
    assert_eq!(
        verify_container_kernel_ownership(Some("ns"), &o, false, &None, &Ok(None), &None, &None),
        Ok(true)
    );
    let replaced_ns = Ok(Some(KernelIdentity { device: 7, inode: 12 }));
    assert_eq!(
        verify_container_kernel_ownership(Some("ns"), &o, false, &host, &replaced_ns, &bridge, &managed),
        Ok(false)
    );
    assert_eq!(
        message(verify_container_kernel_ownership(Some("ns"), &o, true, &host, &replaced_ns, &bridge, &managed)),
        "network error: owned kernel resource identity changed: expected 7:11, found 7:12"
    );
    assert_eq!(
        message(verify_container_kernel_ownership(None, &o, true, &host, &ns, &bridge, &managed)),
        "network error: network ownership has no namespace name"
    );
    assert_eq!(
        message(verify_container_kernel_ownership(Some("ns"), &o, true, &host, &ns, &Some(Ok(10)), &managed)),
        "network error: owned bridge was replaced"
    );
    assert_eq!(
        message(verify_container_kernel_ownership(Some("ns"), &o, true, &host, &ns, &bridge, &None)),
        "network error: managed network interface is missing"
    );
    assert_eq!(
        message(verify_container_kernel_ownership(Some("ns"), &o, true, &host, &Ok(None), &bridge, &managed)),
        "network error: owned network namespace is missing"
    );
}

#[test]
fn recovery_requires_the_recorded_host_route_and_snat_range() {
    let config = restart_config(&fixture_ebpf_ownership()).unwrap();
    let route = Ok(("eth-fixture".to_string(), 17, [203, 0, 113, 8], [0x02, 0xaa, 0xbb, 0xcc, 0xdd, 0xee]));
    let snat = Ok((50_000, 50_031));
    assert_eq!(ferro_core::ebpf::verify_recovery_host_contract(&config, &route, &snat), Ok(()));
    let moved = Ok(("eth-fixture".to_string(), 17, [203, 0, 113, 9], [0x02, 0xaa, 0xbb, 0xcc, 0xdd, 0xee]));
    assert_eq!(
        ferro_core::ebpf::verify_recovery_host_contract(&config, &moved, &snat),
        Err(RuntimeError::Network(
            "persisted eBPF host route or SNAT reservation no longer matches the host".to_string()
        ))
    );
    assert!(ferro_core::ebpf::verify_recovery_host_contract(&config, &route, &Ok((50_000, 50_032))).is_err());
    let no_route = Err(RuntimeError::Network("no default route".to_string()));
    assert_eq!(
        ferro_core::ebpf::verify_recovery_host_contract(&config, &no_route, &snat),
        Err(RuntimeError::Network("no default route".to_string()))
    );
}
