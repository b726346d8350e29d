use ferro_core::hosts::{
    container_etc_path, container_hosts_body, container_hosts_entries, hosts_file_targets,
    text_less,
};
use ferro_core::records::ContainerRecord;

fn record(id: &str, name: Option<&str>, status: &str, ip: Option<&str>, ipv6: Option<&str>) -> ContainerRecord {
    ContainerRecord {
        id: id.to_string(),
        name: name.map(str::to_string),
        status: status.to_string(),
        pid: 0,
        ports: Vec::new(),
        network_name: None,
        network_ownership: None,
        ip_address: ip.map(str::to_string),
        ipv6_address: ipv6.map(str::to_string),
        netns: None,
        namespace_owned: true,
        namespace_identity: None,
        network_backend: None,
        managed_overlay: None,
        managed_host_veth: None,
    }
}

fn fixture_records() -> Vec<ContainerRecord> {
    vec![
        record("a-id", Some("web"), "running", Some("10.0.0.3"), None),
        record("b-id", None, "paused", Some("10.0.0.2"), Some("fd00::2")),
        record("c-id", Some("old"), "stopped", Some("10.0.0.4"), None),
        record("d-id", Some("api"), "running", Some("10.0.0.3"), None),
        record("e-id", Some("quiet"), "running", None, None),
    ]
}

const FIXTURE_HOSTS: &str = "127.0.0.1 localhost\n::1 localhost ip6-localhost ip6-loopback\n10.0.0.2 b-id\n10.0.0.3 a-id api d-id web\nfd00::2 b-id\n";

#[test]
fn hosts_entries_group_names_by_address_in_ascending_order() {
    let entries = container_hosts_entries(&fixture_records());
    let names = |items: &[&str]| items.iter().map(|s| s.to_string()).collect::<Vec<_>>();
    assert_eq!(
        entries,
        vec![
            ("10.0.0.2".to_string(), names(&["b-id"])),
            ("10.0.0.3".to_string(), names(&["a-id", "api", "d-id", "web"])),
            ("fd00::2".to_string(), names(&["b-id"])),
        ]
    );
}

#[test]
fn hosts_file_lists_running_and_paused_containers() {
    assert_eq!(container_hosts_body(&fixture_records()).as_deref(), Some(FIXTURE_HOSTS));
    assert_eq!(
        hosts_file_targets(&fixture_records()),
        vec!["a-id".to_string(), "b-id".to_string(), "d-id".to_string()]
    );
    let none = vec![record("c-id", Some("old"), "stopped", Some("10.0.0.4"), None)];
    assert_eq!(container_hosts_body(&none), None);
    assert!(hosts_file_targets(&none).is_empty());
}

#[test]
fn hosts_file_does_not_depend_on_container_order() {
    let mut reversed = fixture_records();
    reversed.reverse();
    assert_eq!(container_hosts_body(&reversed), container_hosts_body(&fixture_records()));
}

#[test]
fn text_order_is_the_order_of_strings() {
    let words = ["", "a", "a-id", "api", "b", "ab", "é", "z", "10.0.0.10", "10.0.0.9"];
    for a in words {
        for b in words {
            assert_eq!(text_less(a, b), a < b, "{a:?} < {b:?}");
        }
    }
    assert_eq!(
        container_etc_path("/run/ferro", "a-id", "hosts"),
        "/run/ferro/containers/a-id/rootfs/etc/hosts"
    );
}
