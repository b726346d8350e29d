use ferro_core::ebpf_state::{
    classify_owned_ebpf_state, ebpf_cleanup_precheck, owned_ebpf_interfaces, owned_filter_deletions,
    owned_filter_interfaces, InterfaceObservation,
};
use ferro_core::error::RuntimeError;
use ferro_core::network::ObservedNetworkState;
use ferro_core::pin_cleanup::PinObservation;
use ferro_core::records::{
    EbpfFilterOwnershipRecord, EbpfPinOwnershipRecord, KernelObjectIdentityRecord,
    NetworkOwnershipRecord,
};

fn filter(interface: &str, ifindex: u32, direction: &str, program: u32) -> EbpfFilterOwnershipRecord {
    EbpfFilterOwnershipRecord {
        interface: Some(interface.to_string()),
        interface_ifindex: Some(ifindex),
        direction: direction.to_string(),
        priority: 49152,
        handle: "0x1".to_string(),
        program_id: Some(program),
        program_tag: Some("aabbccdd".to_string()),
    }
}

fn pin(path: &str, directory: bool, inode: u64) -> EbpfPinOwnershipRecord {
    EbpfPinOwnershipRecord { relative_path: path.to_string(), device: 7, inode, directory, map_id: None }
}

fn ownership() -> NetworkOwnershipRecord {
    NetworkOwnershipRecord {
        schema_version: 2,
        owner_id: "c".to_string(),
        network_id: Some("bridge-a".to_string()),
        host_interface: "veth".to_string(),
        host_ifindex: Some(41),
        namespace_identity: Some(KernelObjectIdentityRecord { device: 7, inode: 11 }),
        managed_interface: Some("eth0".to_string()),
        managed_ifindex: Some(17),
        loopback_ifindex: Some(1),
        bridge_ifindex: Some(9),
        source_cidr: Some("10.0.0.0/24".to_string()),
        bridge: Some("ferro0".to_string()),
        firewall_id: None,
        firewall_marker: None,
        firewall_expected_state: None,
        ebpf_pin_path: Some("/sys/fs/bpf/ferrocrate/bridge-a".to_string()),
        external_ipv4: None,
        next_hop_mac: None,
        snat_port_start: None,
        snat_port_end: None,
        object_sha256: None,
        object_abi: None,
        ebpf_filters: vec![
            filter("eth0", 17, "ingress", 71),
            filter("eth0", 17, "egress", 72),
            filter("lo", 1, "ingress", 73),
        ],
        ebpf_pins: vec![pin("", true, 1), pin("maps", true, 2)],
    }
}

fn present_pins() -> Vec<PinObservation> {
    vec![
        PinObservation::Present { symlink: false, directory: true, device: 7, inode: 1 },
        PinObservation::Present { symlink: false, directory: true, device: 7, inode: 2 },
    ]
}

fn live_interfaces() -> Vec<InterfaceObservation> {
    vec![
        InterfaceObservation::Present {
            ifindex: 17,
            filters: vec![filter("eth0", 17, "ingress", 71), filter("eth0", 17, "egress", 72)],
        },
        InterfaceObservation::Present { ifindex: 1, filters: vec![filter("lo", 1, "ingress", 73)] },
    ]
}

#[test]
fn owned_ebpf_interfaces_are_listed_once_in_order() {
    let o = ownership();
    assert_eq!(
        owned_ebpf_interfaces(&o.ebpf_filters),
        Some(vec![("eth0".to_string(), 17), ("lo".to_string(), 1)])
    );
    let mut inconsistent = o.ebpf_filters.clone();
    inconsistent[1].interface_ifindex = Some(18);
    assert_eq!(owned_ebpf_interfaces(&inconsistent), None);
    let mut unnamed = o.ebpf_filters.clone();
    unnamed[2].interface = Some(String::new());
    assert_eq!(owned_ebpf_interfaces(&unnamed), None);
}

#[test]
fn network_backend_owned_ebpf_state_is_complete_missing_or_partial() {
    let o = ownership();
    assert_eq!(
        classify_owned_ebpf_state(&o, &present_pins(), &live_interfaces()),
        Ok(ObservedNetworkState::Complete)
    );
    let gone = vec![PinObservation::Missing, PinObservation::Missing];
    let absent = vec![InterfaceObservation::Absent, InterfaceObservation::Present { ifindex: 1, filters: Vec::new() }];
    assert_eq!(classify_owned_ebpf_state(&o, &gone, &absent), Ok(ObservedNetworkState::CompletelyMissing));
    let half = vec![PinObservation::Missing, present_pins()[1]];
    assert_eq!(
        classify_owned_ebpf_state(&o, &half, &live_interfaces()),
        Ok(ObservedNetworkState::PartialOrReplaced)
    );
    let replaced = vec![
        PinObservation::Present { symlink: false, directory: true, device: 7, inode: 9 },
        present_pins()[1],
    ];
    assert_eq!(
        classify_owned_ebpf_state(&o, &replaced, &live_interfaces()),
        Ok(ObservedNetworkState::PartialOrReplaced)
    );
    let renumbered = vec![
        InterfaceObservation::Present { ifindex: 18, filters: Vec::new() },
        InterfaceObservation::Absent,
    ];
    assert_eq!(
        classify_owned_ebpf_state(&o, &gone, &renumbered),
        Ok(ObservedNetworkState::PartialOrReplaced)
    );
    let foreign_program = vec![
        InterfaceObservation::Present { ifindex: 17, filters: vec![filter("eth0", 17, "ingress", 99)] },
        InterfaceObservation::Absent,
    ];
    assert_eq!(
        classify_owned_ebpf_state(&o, &gone, &foreign_program),
        Ok(ObservedNetworkState::PartialOrReplaced)
    );
    let mut no_root = o.clone();
    no_root.ebpf_pin_path = None;
    assert_eq!(
        classify_owned_ebpf_state(&no_root, &present_pins(), &live_interfaces()),
        Err(RuntimeError::Network("shared eBPF pin root is missing".to_string()))
    );
    let mut no_pins = o.clone();
    no_pins.ebpf_pins.clear();
    assert_eq!(
        classify_owned_ebpf_state(&no_pins, &[], &live_interfaces()),
        Ok(ObservedNetworkState::PartialOrReplaced)
    );
}

#[test]
fn owned_ebpf_cleanup_deletes_only_attached_owned_classifiers() {
    let mut o = ownership();
    o.ebpf_filters.push(filter("lo", 1, "egress", 74));
    assert_eq!(ebpf_cleanup_precheck(&o), Ok(()));
    let ifs = owned_filter_interfaces(&o.ebpf_filters).unwrap();
    let seen = vec![
        InterfaceObservation::Present {
            ifindex: 17,
            filters: vec![filter("eth0", 17, "ingress", 71), filter("eth0", 17, "egress", 72)],
        },
        InterfaceObservation::Absent,
    ];
    let deletions = owned_filter_deletions(&o, &ifs, &seen).unwrap();
    let command = |direction: &str| {
        ["tc", "filter", "delete", "dev", "eth0", direction, "pref", "49152", "handle", "0x1", "bpf"]
            .iter()
            .map(|s| s.to_string())
            .collect::<Vec<_>>()
    };
    assert_eq!(deletions, vec![Ok(command("ingress")), Ok(command("egress"))]);

    let renumbered = vec![InterfaceObservation::Present { ifindex: 18, filters: Vec::new() }, InterfaceObservation::Absent];
    assert_eq!(
        owned_filter_deletions(&o, &ifs, &renumbered),
        Err(RuntimeError::Network("owned eBPF filter interface was replaced".to_string()))
    );
    let taken = vec![
        InterfaceObservation::Present { ifindex: 17, filters: vec![filter("eth0", 17, "ingress", 99)] },
        InterfaceObservation::Absent,
    ];
    assert_eq!(
        owned_filter_deletions(&o, &ifs, &taken),
        Err(RuntimeError::Network("owned eBPF filter was replaced".to_string()))
    );
    let mut bad_handle = o.clone();
    bad_handle.ebpf_filters[0].handle = "0x1:z".to_string();
    let seen_bad = vec![
        InterfaceObservation::Present { ifindex: 17, filters: vec![bad_handle.ebpf_filters[0].clone()] },
        InterfaceObservation::Absent,
    ];
    assert_eq!(
        owned_filter_deletions(&bad_handle, &ifs, &seen_bad),
        Ok(vec![Err(RuntimeError::Network("malformed eBPF filter ownership".to_string()))])
    );

    let mut three = o.clone();
    three.ebpf_filters.pop();
    assert_eq!(
        ebpf_cleanup_precheck(&three),
        Err(RuntimeError::Network("malformed eBPF ownership metadata".to_string()))
    );
    let mut conflicting = o.ebpf_filters.clone();
    conflicting[1].interface_ifindex = Some(18);
    assert_eq!(
        owned_filter_interfaces(&conflicting),
        Err(RuntimeError::Network("conflicting eBPF filter interface identities".to_string()))
    );
    let mut unnamed = o.ebpf_filters.clone();
    unnamed[0].interface = None;
    assert_eq!(
        owned_filter_interfaces(&unnamed),
        Err(RuntimeError::Network("malformed eBPF filter interface identity".to_string()))
    );
}
