use ferro_core::hashing::{
    allocate_container_ip, allocate_container_ipv6, bridge_network_id, lifecycle_lock_path,
    mount_target_digest, wireguard_listen_port,
};
use ferro_core::host::decode_fixed_hex;
use ferro_core::image::{image_location_of, immutable_image_reference};
use ferro_core::error::RuntimeError;
use ferro_core::link::{
    bandwidth_limit_plan, format_mac, parse_mac, protocol_number, validate_bandwidth_limit,
    verify_bandwidth_applied,
};
use ferro_core::rollback::internal_cleanup_observation;

fn hex(bytes: &[u8]) -> String {
    bytes.iter().map(|b| format!("{b:02x}")).collect()
}

#[test]
fn lifecycle_lock_path_names_the_sha256_of_the_container_id() {
    assert_eq!(
        lifecycle_lock_path("/run/ferro", "abc"),
        "/run/ferro/lifecycle-locks/ba7816bf8f01cfea414140de5dae2223b00361a396177a9cb410ff61f20015ad.lock"
    );
    assert_eq!(lifecycle_lock_path("/run/ferro", "abc"), lifecycle_lock_path("/run/ferro/", "abc"));
    assert_ne!(lifecycle_lock_path("/run/ferro", "abc"), lifecycle_lock_path("/run/ferro", "abd"));
}

#[test]
fn mount_target_digest_is_domain_separated_sha256() {
    assert_eq!(
        hex(&mount_target_digest("data")),
        "432d6c07a7bc8afe2c057a009450ddff4d99b871b2287e663143f95aa531b119"
    );
}

#[test]
fn internal_cleanup_observation_digests_id_and_absence() {
    assert_eq!(
        hex(&internal_cleanup_observation("c1", true)),
        "773cfd878bc76bf817308587c62397d0e87ae0bd929c22227600d9c1f9eb37a6"
    );
    assert_ne!(internal_cleanup_observation("c1", true), internal_cleanup_observation("c1", false));
}

#[test]
fn bridge_network_id_is_a_shake256_prefix() {
    assert_eq!(bridge_network_id("ferro0", "10.0.0.1/24"), "bridge-8298560e07f3590484a8fd6a");
}

#[test]
fn container_ip_replaces_the_gateway_host_octet() {
    assert_eq!(allocate_container_ip("container-a", "10.0.0.1").unwrap(), "10.0.0.11");
    assert_eq!(allocate_container_ip("container-a", "192.168.7.254").unwrap(), "192.168.7.11");
    for invalid in ["10.0.0", "10.0.0.256", "10.0.0.01", "+10.0.0.1", "10.0..1", "ten.0.0.1", ""] {
        let err = allocate_container_ip("container-a", invalid).expect_err("invalid gateway");
        assert_eq!(err.message(), "network error: invalid bridge gateway");
    }
}

#[test]
fn wireguard_port_offsets_the_base_by_the_digest() {
    assert_eq!(wireguard_listen_port("container-a", None), 52345);
    assert_eq!(wireguard_listen_port("container-a", Some("not-a-port")), 52345);
    assert_eq!(wireguard_listen_port("container-a", Some("51000")), 51525);
    assert_eq!(wireguard_listen_port("container-a", Some("65000")), 65525);
    assert_eq!(wireguard_listen_port("container-a", Some("65535")), 65535);
}

#[test]
fn allocated_ipv6_stays_within_prefix() {
    let gateway: u128 = 0xfd00_0010_0000_0000_0000_0000_0000_0001;
    let assigned = allocate_container_ipv6("container-a", gateway, 64);
    assert_eq!(assigned, 0xfd00_0010_0000_0000_01ed_8db8_7cd1_7a65);
    let host_mask = (1u128 << 64) - 1;
    assert_eq!(gateway & !host_mask, assigned & !host_mask);
    assert_ne!(assigned, gateway);
}

#[test]
fn allocated_ipv6_is_deterministic_for_container_id() {
    let gateway: u128 = 0xfd00_0020_0000_0000_0000_0000_0000_0001;
    let first = allocate_container_ipv6("cid-1", gateway, 64);
    let second = allocate_container_ipv6("cid-1", gateway, 64);
    let third = allocate_container_ipv6("cid-2", gateway, 64);
    assert_eq!(first, second);
    assert_ne!(first, third);
}

#[test]
fn allocated_ipv6_edge_prefixes() {
    let gateway: u128 = 0xfd00_0010_0000_0000_0000_0000_0000_0001;
    assert_eq!(allocate_container_ipv6("container-a", gateway, 128), gateway);
    assert_eq!(allocate_container_ipv6("container-a", gateway, 200), gateway);
    assert_eq!(allocate_container_ipv6("container-a", gateway, 127), gateway);
    assert_eq!(
        allocate_container_ipv6("container-a", gateway, 126),
        0xfd00_0010_0000_0000_0000_0000_0000_0002
    );
    assert_eq!(
        allocate_container_ipv6("container-a", gateway, 0),
        0x09dd_9170_912f_bc4c_e454_d966_c942_457e
    );
}

#[test]
fn fixed_hex_decodes_exact_lengths_only() {
    assert_eq!(decode_fixed_hex("00ff7A", 3).unwrap(), vec![0x00, 0xff, 0x7a]);
    assert_eq!(decode_fixed_hex("", 0).unwrap(), Vec::<u8>::new());
    for (value, n) in [("00ff", 3), ("00ff7a", 2), ("0g", 1), ("+1", 1), ("é1", 1)] {
        let err = decode_fixed_hex(value, n).expect_err("invalid trust value");
        assert_eq!(err.message(), "runtime mutation mediation failed: invalid hexadecimal trust value");
    }
}

#[test]
fn mac_addresses_round_trip() {
    let mac = parse_mac("02:42:AC:11:00:0f").unwrap();
    assert_eq!(mac, [0x02, 0x42, 0xac, 0x11, 0x00, 0x0f]);
    assert_eq!(format_mac(mac), "02:42:ac:11:00:0f");
    assert_eq!(parse_mac(&format_mac(mac)).unwrap(), mac);
    for invalid in ["02:42:ac:11:00", "02:42:ac:11:00:0f:01", "02:42:ac:11:00:zz", "", "0242ac11000f"] {
        let err = parse_mac(invalid).expect_err("invalid mac");
        assert_eq!(err.message(), format!("network error: invalid MAC address `{invalid}`"));
    }
}

#[test]
fn port_protocols_map_to_ip_protocol_numbers() {
    assert_eq!(protocol_number("tcp").unwrap(), 6);
    assert_eq!(protocol_number("UDP").unwrap(), 17);
    let err = protocol_number("sctp").expect_err("unsupported");
    assert_eq!(err.message(), "network error: unsupported eBPF port protocol `sctp`");
}

#[test]
fn bandwidth_limits_are_normalised_and_stable() {
    assert_eq!(validate_bandwidth_limit("  5GBit \n").unwrap(), "5gbit");
    assert_eq!(validate_bandwidth_limit("7kbitkbit").unwrap(), "7kbitkbit");
    assert_eq!(validate_bandwidth_limit("+7mbit").unwrap(), "+7mbit");
    let normal = validate_bandwidth_limit(" 12MBIT").unwrap();
    assert_eq!(validate_bandwidth_limit(&normal).unwrap(), normal);
    assert!(validate_bandwidth_limit("mbit").is_err());
    assert!(validate_bandwidth_limit("18446744073709551616mbit").is_err());
}

#[test]
fn image_references_resolve_registry_and_repository() {
    assert_eq!(
        image_location_of("alpine:3.19").unwrap(),
        ("registry-1.docker.io".to_string(), "library/alpine".to_string())
    );
    assert_eq!(
        image_location_of("ghcr.io/org/app:1@sha256:ff").unwrap(),
        ("ghcr.io".to_string(), "org/app".to_string())
    );
    assert_eq!(
        image_location_of("localhost:5443/example:latest").unwrap(),
        ("localhost:5443".to_string(), "example".to_string())
    );
    assert_eq!(
        image_location_of("org/app").unwrap(),
        ("registry-1.docker.io".to_string(), "org/app".to_string())
    );
    assert_eq!(
        immutable_image_reference("localhost:5443/example:latest", "sha256:ab").unwrap(),
        "localhost:5443/example@sha256:ab"
    );
    let err = image_location_of(":latest").expect_err("no repository");
    assert_eq!(err.message(), "invalid image reference: image reference has no repository");
    assert!(immutable_image_reference("", "sha256:ab").is_err());
}

#[test]
fn container_ids_are_sixteen_random_bytes_in_lowercase_hex() {
    assert_eq!(
        ferro_core::hashing::container_id_from_bytes(&[0xab; 16]),
        "ab".repeat(16)
    );
    assert_eq!(
        ferro_core::hashing::container_id_from_bytes(&[
            0, 1, 2, 3, 4, 5, 6, 7, 8, 9, 10, 11, 12, 13, 14, 255
        ]),
        "000102030405060708090a0b0c0d0eff"
    );
    let first = ferro_core::hashing::generate_container_id();
    let second = ferro_core::hashing::generate_container_id();
    assert_eq!(first.len(), 32);
    assert!(first.chars().all(|c| c.is_ascii_digit() || ('a'..='f').contains(&c)));
    assert_ne!(first, second);
}

#[test]
fn capability_entries_gain_the_prefix_and_unknown_names_are_dropped() {
    let entries: Vec<String> = ["CHOWN", " CAP_NET_ADMIN ", "bogus", "SYS_ADMIN", "chown"]
        .iter()
        .map(|s| s.to_string())
        .collect();
    assert_eq!(
        ferro_core::capabilities::parse_capabilities(&entries),
        vec!["CAP_CHOWN".to_string(), "CAP_NET_ADMIN".to_string(), "CAP_SYS_ADMIN".to_string()]
    );
    assert_eq!(ferro_core::capabilities::capability_entry("  net_raw "), "CAP_net_raw");
}

#[test]
fn bandwidth_limit_plan_shapes_with_a_token_bucket() {
    assert_eq!(bandwidth_limit_plan("veth0", "  ", Ok(()), false), Ok(None));
    assert_eq!(
        bandwidth_limit_plan("veth0", "10mbit", Ok(()), false),
        Err(RuntimeError::Network("bandwidth limit requires tc command".to_string()))
    );
    assert_eq!(
        bandwidth_limit_plan("veth0", "10mbit", Err(RuntimeError::Network("read-only host".to_string())), true),
        Err(RuntimeError::Network("read-only host".to_string()))
    );
    assert!(bandwidth_limit_plan("veth0", "10", Ok(()), true).is_err());
    let plan = bandwidth_limit_plan("veth0", " 10MBit ", Ok(()), true).unwrap().unwrap();
    assert_eq!(plan.rate, "10mbit");
    assert_eq!(
        plan.apply,
        ["tc", "qdisc", "replace", "dev", "veth0", "root", "tbf", "rate", "10mbit", "burst", "32kbit", "latency", "400ms"]
            .iter()
            .map(|s| s.to_string())
            .collect::<Vec<_>>()
    );
    assert_eq!(plan.show, ["tc", "qdisc", "show", "dev", "veth0"].iter().map(|s| s.to_string()).collect::<Vec<_>>());
    assert_eq!(
        verify_bandwidth_applied("veth0", "10mbit", "qdisc tbf 8001: root refcnt 2 rate 10mbit burst 32Kb lat 400ms"),
        Ok(())
    );
    assert_eq!(
        verify_bandwidth_applied("veth0", "10mbit", "qdisc noqueue 0: root refcnt 2"),
        Err(RuntimeError::Network(
            "bandwidth limit verification failed for veth0: expected tbf rate 10mbit".to_string()
        ))
    );
}
