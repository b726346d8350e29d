use ferro_core::admission::{
    bind_mount_fact, run_network_ids, run_security_facts, tmpfs_mount_fact, validate_normalized_run,
    HandleIdentity, MountClass, RunMountFact, RunSecurityFacts,
};
use ferro_core::error::RuntimeError;
use ferro_core::network::NetworkBackend;
use ferro_core::records::PortMappingRecord;

const DATA_TARGET_DIGEST: [u8; 32] = [
    58, 149, 37, 33, 96, 82, 189, 178, 236, 76, 165, 74, 120, 62, 113, 58, 117, 233, 172, 37, 252,
    124, 246, 133, 69, 198, 83, 47, 244, 15, 174, 90,
];

fn strings(items: &[&str]) -> Vec<String> {
    items.iter().map(|s| s.to_string()).collect()
}

fn fixture_facts() -> RunSecurityFacts {
    let mounts = vec![
        bind_mount_fact(true, 31, 2049, 77, "/data"),
        tmpfs_mount_fact(0, "/run", None),
    ];
    let ids = run_network_ids(
        "bridge",
        NetworkBackend::Iptables,
        &[PortMappingRecord { host_port: 8080, container_port: 80, protocol: "tcp".to_string() }],
    );
    run_security_facts(&strings(&["CAP_NET_BIND_SERVICE"]), mounts, ids, true, true, None)
}

#[test]
fn bind_mount_fact_records_class_flags_and_target_digest() {
    let ro = bind_mount_fact(true, 31, 2049, 77, "/data");
    assert_eq!(ro.class, MountClass::ReadOnly);
    assert_eq!(ro.open_flags, 1);
    assert_eq!((ro.mount_id, ro.device_id, ro.inode), (31, 2049, 77));
    assert_eq!(ro.target_digest, DATA_TARGET_DIGEST);
    let rw = bind_mount_fact(false, 31, 2049, 77, "/data");
    assert_eq!(rw.class, MountClass::HostPath);
    assert_eq!(rw.open_flags, 0);
}

#[test]
fn tmpfs_mount_fact_counts_ids_down_and_binds_target_and_size() {
    let sized = tmpfs_mount_fact(0, "/tmp", Some("64m"));
    assert_eq!(sized.class, MountClass::Tmpfs);
    assert_eq!(sized.mount_id, u64::MAX);
    assert_eq!(sized.device_id, 0);
    assert_eq!(sized.open_flags, 0);
    assert_eq!(sized.inode, 4590620115285912179);
    let unsized_fact = tmpfs_mount_fact(3, "/run", None);
    assert_eq!(unsized_fact.mount_id, u64::MAX - 3);
    assert_eq!(unsized_fact.inode, 11087286381862387798);
}

#[test]
fn run_network_ids_name_mode_backend_and_ports() {
    let ids = run_network_ids(
        "bridge",
        NetworkBackend::Ebpf,
        &[
            PortMappingRecord { host_port: 8080, container_port: 80, protocol: "tcp".to_string() },
            PortMappingRecord { host_port: 53, container_port: 5353, protocol: "udp".to_string() },
        ],
    );
    assert_eq!(
        ids,
        strings(&["mode:bridge", "backend:Ebpf", "port:8080:80/tcp", "port:53:5353/udp"])
    );
}

#[test]
fn run_security_facts_marks_sys_admin_as_privileged() {
    let facts = run_security_facts(
        &strings(&["CAP_CHOWN", "CAP_SYS_ADMIN"]),
        Vec::new(),
        Vec::new(),
        false,
        true,
        Some(true),
    );
    assert!(facts.privileged);
    assert_eq!(facts.capabilities, strings(&["CAP_CHOWN", "CAP_SYS_ADMIN"]));
    assert_eq!(facts.mount_sources_approved, Some(true));
    assert!(!fixture_facts().privileged);
}

#[test]
fn validate_normalized_run_accepts_unchanged_facts_and_handles() {
    let facts = fixture_facts();
    let handles = vec![Ok(HandleIdentity { device_id: 2049, inode: 77, mount_id: 31 })];
    assert_eq!(validate_normalized_run(&facts, &facts.clone(), &handles), Ok(()));
}

#[test]
fn validate_normalized_run_reports_each_kind_of_staleness() {
    let authorized = fixture_facts();
    let handles = vec![Ok(HandleIdentity { device_id: 2049, inode: 77, mount_id: 31 })];

    let mut changed = authorized.clone();
    changed.readonly_rootfs = false;
    assert_eq!(
        validate_normalized_run(&authorized, &changed, &handles),
        Err(RuntimeError::Authorization("authorized run facts became stale".to_string()))
    );

    let mut moved: RunSecurityFacts = authorized.clone();
    let replaced: RunMountFact = bind_mount_fact(true, 32, 2049, 77, "/data");
    moved.mounts[0] = replaced;
    assert_eq!(
        validate_normalized_run(&authorized, &moved, &handles),
        Err(RuntimeError::Authorization("authorized mount identity became stale".to_string()))
    );

    let swapped = vec![Ok(HandleIdentity { device_id: 2049, inode: 78, mount_id: 31 })];
    assert_eq!(
        validate_normalized_run(&authorized, &authorized.clone(), &swapped),
        Err(RuntimeError::Authorization("authorized mount handle was replaced".to_string()))
    );

    let unreadable = vec![Err(RuntimeError::Io("gone".to_string()))];
    assert_eq!(
        validate_normalized_run(&authorized, &authorized.clone(), &unreadable),
        Err(RuntimeError::Io("gone".to_string()))
    );
}
