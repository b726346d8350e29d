use ferro_core::error::RuntimeError;
use ferro_core::launch::{resolve_run_process, ImageProcessDefaults};
use ferro_core::limits::{
    check_restart_request, resource_limit_record, restore_resource_limits, CpuMax,
    ResourceLimitRecord, ResourceLimits,
};
use ferro_core::network::NetworkBackend;
use ferro_core::network_setup::{plan_network_setup, NetworkSetupPlan};
use ferro_core::records::PortMappingRecord;

fn strings(items: &[&str]) -> Vec<String> {
    items.iter().map(|item| item.to_string()).collect()
}

fn port(host: u16, container: u16, protocol: &str) -> PortMappingRecord {
    PortMappingRecord { host_port: host, container_port: container, protocol: protocol.to_string() }
}

fn plan(
    mode: &str,
    ports: &[PortMappingRecord],
    backend: NetworkBackend,
    is_root: bool,
    rootless: bool,
) -> Result<NetworkSetupPlan, RuntimeError> {
    plan_network_setup("abc123def456", mode, ports, backend, is_root, rootless, false)
}

#[test]
fn bridge_setup_names_namespace_and_veth_pair_from_the_container_id() {
    assert_eq!(
        plan("bridge", &[], NetworkBackend::Iptables, true, false).unwrap(),
        NetworkSetupPlan::Bridge {
            netns: "ferro-abc123def456".to_string(),
            host_veth: "veth23def456".to_string(),
            container_veth: "vc23def456".to_string(),
        }
    );
}

#[test]
fn host_none_and_wireguard_refuse_published_ports() {
    let ports = vec![port(8080, 80, "tcp")];
    for mode in ["host", "none", "wireguard"] {
        let error = plan(mode, &ports, NetworkBackend::Iptables, true, false).unwrap_err();
        assert_eq!(error.message(), "network error: port mapping requires network bridge");
    }
}

#[test]
fn isolated_modes_without_root() {
    assert_eq!(
        plan("host", &[], NetworkBackend::Iptables, false, false).unwrap(),
        NetworkSetupPlan::Isolated
    );
    assert_eq!(
        plan("none", &[], NetworkBackend::Iptables, false, false).unwrap(),
        NetworkSetupPlan::Isolated
    );
    assert_eq!(
        plan("none", &[], NetworkBackend::Iptables, true, false).unwrap(),
        NetworkSetupPlan::OwnedNamespace { netns: "ferro-abc123def456".to_string(), wireguard: false }
    );
    let error = plan("wireguard", &[], NetworkBackend::Iptables, false, false).unwrap_err();
    assert_eq!(error.message(), "network error: wireguard requires root");
    assert_eq!(
        plan("wireguard", &[], NetworkBackend::Iptables, true, false).unwrap(),
        NetworkSetupPlan::OwnedNamespace { netns: "ferro-abc123def456".to_string(), wireguard: true }
    );
}

#[test]
fn rootless_bridge_is_checked_and_left_to_the_launcher() {
    let error = plan("bridge", &[], NetworkBackend::Iptables, false, false).unwrap_err();
    assert!(error.message().contains("rootless bridge networking is disabled"));
    assert_eq!(
        plan("bridge", &[port(8080, 80, "tcp")], NetworkBackend::Iptables, false, true).unwrap(),
        NetworkSetupPlan::Isolated
    );
    let error = plan("bridge", &[port(8080, 80, "sctp")], NetworkBackend::Iptables, false, true)
        .unwrap_err();
    assert!(error.message().contains("supports only TCP and UDP"));
}

#[test]
fn ebpf_bridge_with_ports_needs_the_explicit_override() {
    let ports = vec![port(8080, 80, "tcp")];
    let error = plan("bridge", &ports, NetworkBackend::Ebpf, true, false).unwrap_err();
    assert!(error.message().contains("eBPF published-port forwarding is disabled"));
    let allowed =
        plan_network_setup("abc123def456", "bridge", &ports, NetworkBackend::Ebpf, true, false, true);
    assert!(matches!(allowed, Ok(NetworkSetupPlan::Bridge { .. })));
}

#[test]
fn managed_and_shared_modes_name_their_targets() {
    assert_eq!(
        plan("managed:overlay-7", &[], NetworkBackend::Iptables, true, false).unwrap(),
        NetworkSetupPlan::Managed { overlay_id: "overlay-7".to_string() }
    );
    assert_eq!(
        plan("container:cri-sandbox-1", &[], NetworkBackend::Iptables, true, false).unwrap(),
        NetworkSetupPlan::SharedNamespace { netns: "cri-sandbox-1".to_string() }
    );
    let error = plan("managed:overlay-7", &[], NetworkBackend::Iptables, false, false).unwrap_err();
    assert_eq!(error.message(), "network error: managed overlay requires root");
    let error = plan("container:", &[], NetworkBackend::Iptables, true, false).unwrap_err();
    assert_eq!(error.message(), "network error: shared network namespace name is empty");
    let error = plan("overlay", &[], NetworkBackend::Iptables, true, false).unwrap_err();
    assert_eq!(
        error.message(),
        "network error: network mode must be one of: bridge, host, none, wireguard"
    );
}

#[test]
fn run_uses_image_defaults_for_what_the_request_leaves_out() {
    let image = ImageProcessDefaults {
        command: Some(strings(&["/bin/server", "--port", "80"])),
        env: strings(&["PATH=/usr/bin", "MODE=image"]),
        workdir: Some("/srv".to_string()),
        user: Some("web".to_string()),
    };
    let process = resolve_run_process(&[], &strings(&["MODE=request"]), &strings(&["AI=1"]), None, Some("root"), &image)
        .unwrap();
    assert_eq!(process.command, strings(&["/bin/server", "--port", "80"]));
    assert_eq!(process.env, strings(&["PATH=/usr/bin", "MODE=request", "AI=1"]));
    assert_eq!(process.workdir.as_deref(), Some("/srv"));
    assert_eq!(process.user.as_deref(), Some("root"));

    let explicit = resolve_run_process(&strings(&["/bin/sh"]), &[], &[], Some("/tmp"), None, &image).unwrap();
    assert_eq!(explicit.command, strings(&["/bin/sh"]));
    assert_eq!(explicit.workdir.as_deref(), Some("/tmp"));
    assert_eq!(explicit.user.as_deref(), Some("web"));
}

#[test]
fn run_without_any_command_is_refused() {
    let image = ImageProcessDefaults { command: None, env: Vec::new(), workdir: None, user: None };
    let error = resolve_run_process(&[], &[], &[], None, None, &image).unwrap_err();
    assert_eq!(error.message(), "command is required to run container");
    let empty = ImageProcessDefaults { command: Some(Vec::new()), ..image };
    assert!(resolve_run_process(&[], &[], &[], None, None, &empty).is_err());
}

#[test]
fn restart_restores_the_limits_that_run_persisted() {
    let limits = ResourceLimits {
        memory_max: Some(512 * 1024 * 1024),
        cpu_max: Some(CpuMax { quota: 50_000, period: 100_000 }),
        pids_max: Some(256),
    };
    let stored = resource_limit_record(&limits);
    assert_eq!(stored.cpu_quota, Some(50_000));
    assert_eq!(stored.cpu_period, Some(100_000));
    assert_eq!(restore_resource_limits(&stored).unwrap(), limits);
    let partial = ResourceLimitRecord { cpu_period: None, ..stored };
    let error = restore_resource_limits(&partial).unwrap_err();
    assert_eq!(
        error.message(),
        "invalid container state: persisted resource limits contain an incomplete cpu quota"
    );
}

#[test]
fn restart_request_checks_command_and_running_state() {
    assert!(check_restart_request(&strings(&["/bin/sh"]), true, "running").is_ok());
    assert!(check_restart_request(&strings(&["/bin/sh"]), false, "stopped").is_ok());
    let error = check_restart_request(&strings(&["/bin/sh"]), false, "running").unwrap_err();
    assert_eq!(error.message(), "invalid container state: container is already running");
    let error = check_restart_request(&[], true, "stopped").unwrap_err();
    assert_eq!(error.message(), "command is required to run container");
}

#[test]
fn run_refuses_an_identity_the_store_already_holds() {
    assert!(ferro_core::limits::check_new_container_identity("c1", false).is_ok());
    let error = ferro_core::limits::check_new_container_identity("c1", true).unwrap_err();
    assert_eq!(error.message(), "invalid container state: container identity already exists: c1");
}

#[test]
fn enabled_authorization_runs_without_a_journal_or_with_the_required_one() {
    let check = ferro_core::lifecycle::require_authorization_journal;
    let enforce = ferro_core::lifecycle::AuthorizationMode::Enforce;
    let shadow = ferro_core::lifecycle::AuthorizationMode::Shadow;
    let disabled = ferro_core::lifecycle::AuthorizationMode::Disabled;
    let required = Some(ferro_core::lifecycle::JournalMode::Required);
    let off = Some(ferro_core::lifecycle::JournalMode::Disabled);
    assert!(check(enforce, None).is_ok());
    assert!(check(shadow, required).is_ok());
    assert_eq!(
        check(enforce, off).unwrap_err().message(),
        "runtime mutation mediation failed: enabled authorization requires the shared required witness journal"
    );
    assert!(check(disabled, None).is_ok());
    assert!(check(disabled, required).is_err());
}

#[test]
fn kernel_settings_are_written_only_for_the_owned_transition() {
    let store = |v: &str| ferro_core::sysctl::MemoryValueStore { value: v.to_string(), writes: Vec::new() };
    let mut malformed = store("2");
    let error = ferro_core::sysctl::acquire_route_localnet_with("ferro0", &mut malformed).unwrap_err();
    assert_eq!(
        error.message(),
        "network error: refusing to change malformed route_localnet value for ferro0: \"2\""
    );
    assert!(malformed.writes.is_empty());

    let mut owned = store("0");
    let ownership = ferro_core::sysctl::acquire_route_localnet_with("ferro0", &mut owned).unwrap().unwrap();
    ferro_core::sysctl::restore_route_localnet_with(&ownership, &mut owned).unwrap();
    assert_eq!(owned.writes, vec!["1", "0"]);
    ferro_core::sysctl::restore_route_localnet_with(&ownership, &mut owned).unwrap();
    assert_eq!(owned.writes, vec!["1", "0"]);

    owned.value = "7".to_string();
    let error = ferro_core::sysctl::restore_route_localnet_with(&ownership, &mut owned).unwrap_err();
    assert_eq!(
        error.message(),
        "network error: route_localnet for ferro0 changed to foreign value \"7\"; refusing restoration"
    );
    assert_eq!(owned.writes, vec!["1", "0"]);
}
