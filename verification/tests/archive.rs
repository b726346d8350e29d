use ferro_core::archive::{check_archive_size, check_archive_target_mounts, check_rename};
use ferro_core::records::ContainerRecord;

fn named(id: &str, name: Option<&str>) -> ContainerRecord {
    ContainerRecord {
        id: id.to_string(),
        name: name.map(str::to_string),
        status: "running".to_string(),
        pid: 1,
        ports: Vec::new(),
        network_name: None,
        network_ownership: None,
        ip_address: None,
        ipv6_address: None,
        netns: None,
        namespace_owned: false,
        namespace_identity: None,
        network_backend: None,
        managed_overlay: None,
        managed_host_veth: None,
    }
}

#[test]
fn archive_size_is_bounded() {
    assert_eq!(
        check_archive_size(&[]).unwrap_err().message(),
        "invalid command: container archive must not be empty"
    );
    assert!(check_archive_size(&[1, 2, 3]).is_ok());
    let big = vec![0u8; 64 * 1024 * 1024 + 1];
    assert_eq!(
        check_archive_size(&big).unwrap_err().message(),
        "invalid command: container archive exceeds the 64 MiB limit"
    );
    assert!(check_archive_size(&big[..64 * 1024 * 1024]).is_ok());
}

#[test]
fn archive_targets_avoid_persisted_mounts() {
    let mounts = vec!["/data".to_string(), "/var/cache".to_string()];
    assert!(check_archive_target_mounts("srv", &mounts).is_ok());
    assert!(check_archive_target_mounts("database", &mounts).is_ok());
    assert!(check_archive_target_mounts("var", &mounts).is_ok());
    let error = check_archive_target_mounts("data", &mounts).unwrap_err();
    assert_eq!(error.message(), "invalid command: archive target is a persisted mount target");
    assert!(check_archive_target_mounts("var/cache/apt", &mounts).is_err());
    assert!(check_archive_target_mounts("data", &["//data/".to_string()]).is_err());
}

#[test]
fn rename_refuses_a_name_another_container_holds() {
    let records = vec![named("a", Some("web")), named("b", Some("db")), named("c", None)];
    assert!(check_rename(&records, "a", "web").is_ok());
    assert!(check_rename(&records, "c", "cache").is_ok());
    let error = check_rename(&records, "c", "db").unwrap_err();
    assert_eq!(error.message(), "invalid container state: container name is already in use: db");
}
