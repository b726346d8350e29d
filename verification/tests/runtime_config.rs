use ferro_core::runtime_config::{
    Linux, LinuxCpu, LinuxMemory, LinuxNamespace, LinuxPids, LinuxResources, Mount, Process, Root,
    RuntimeConfig, RuntimeConfigParseError, User,
};
use std::collections::HashMap;

fn process(args: &[&str], cwd: Option<&str>) -> Process {
    Process {
        terminal: Some(false),
        user: Some(User { uid: 0, gid: 0, additional_gids: Vec::new() }),
        args: args.iter().map(|a| a.to_string()).collect(),
        env: vec!["PATH=/usr/local/sbin:/usr/local/bin:/usr/sbin:/usr/bin:/sbin:/bin".to_string()],
        cwd: cwd.map(str::to_string),
        capabilities: None,
        no_new_privileges: None,
    }
}

fn proc_mount() -> Mount {
    Mount {
        destination: "/proc".to_string(),
        mount_type: Some("proc".to_string()),
        source: Some("proc".to_string()),
        options: Vec::new(),
    }
}

fn namespace(kind: &str) -> LinuxNamespace {
    LinuxNamespace { namespace_type: kind.to_string(), path: None }
}

fn minimal() -> RuntimeConfig {
    let mut annotations = HashMap::new();
    annotations.insert("org.opencontainers.image.ref.name".to_string(), "test".to_string());
    RuntimeConfig {
        oci_version: "1.2.0".to_string(),
        process: Some(process(&["/bin/sh"], Some("/"))),
        root: Some(Root { path: "rootfs".to_string(), readonly: Some(true) }),
        hostname: None,
        mounts: vec![proc_mount()],
        linux: Some(Linux {
            namespaces: vec![namespace("pid"), namespace("network"), namespace("mount")],
            resources: Some(LinuxResources {
                memory: Some(LinuxMemory { limit: Some(536870912), reservation: None, swap: None }),
                cpu: Some(LinuxCpu { shares: Some(1024), quota: None, period: None, cpus: None, mems: None }),
                pids: Some(LinuxPids { limit: 256 }),
            }),
            uid_mappings: Vec::new(),
            gid_mappings: Vec::new(),
            cgroups_path: None,
        }),
        annotations,
    }
}

#[test]
fn parses_minimal_oci_runtime_config() {
    let parsed = minimal();
    parsed.validate().expect("config should validate");
    assert_eq!(parsed.oci_version, "1.2.0");
    assert_eq!(parsed.mounts.len(), 1);
    assert_eq!(parsed.linux.expect("linux section").namespaces.len(), 3);
}

#[test]
fn rejects_missing_required_sections() {
    let config = RuntimeConfig {
        oci_version: "1.2.0".to_string(),
        process: None,
        root: None,
        hostname: None,
        mounts: Vec::new(),
        linux: None,
        annotations: HashMap::new(),
    };
    let err = config.validate().expect_err("missing process/root");
    assert!(err.message().contains("missing required section"));
}

#[test]
fn rejects_relative_cwd_and_duplicate_mounts() {
    let config = RuntimeConfig {
        oci_version: "1.2.0".to_string(),
        process: Some(process(&["/bin/sh"], Some("tmp"))),
        root: Some(Root { path: "rootfs".to_string(), readonly: None }),
        hostname: None,
        mounts: vec![proc_mount(), proc_mount()],
        linux: None,
        annotations: HashMap::new(),
    };
    let err = config.validate().expect_err("invalid fields");
    assert!(err.message().contains("process.cwd"));
}

#[test]
fn rejects_invalid_namespace_and_resource_limits() {
    let config = RuntimeConfig {
        oci_version: "1.2.0".to_string(),
        process: Some(process(&["/bin/sh"], Some("/"))),
        root: Some(Root { path: "rootfs".to_string(), readonly: None }),
        hostname: None,
        mounts: Vec::new(),
        linux: Some(Linux {
            namespaces: vec![namespace("unknown")],
            resources: Some(LinuxResources { memory: None, cpu: None, pids: Some(LinuxPids { limit: 0 }) }),
            uid_mappings: Vec::new(),
            gid_mappings: Vec::new(),
            cgroups_path: None,
        }),
        annotations: HashMap::new(),
    };
    let err = config.validate().expect_err("invalid linux fields");
    assert!(
        err.message().contains("unsupported linux namespace type")
            || err.message().contains("pids.limit")
    );
}

#[test]
fn each_validation_rule_reports_its_own_error() {
    let mut c = minimal();
    c.oci_version = "2.0".to_string();
    assert_eq!(c.validate(), Err(RuntimeConfigParseError::InvalidOciVersion("2.0".to_string())));

    let mut c = minimal();
    c.process = Some(process(&[], Some("/")));
    assert_eq!(c.validate().unwrap_err().message(), "invalid field: process.args must not be empty");

    let mut c = minimal();
    c.root = Some(Root { path: "  ".to_string(), readonly: None });
    assert_eq!(c.validate().unwrap_err().message(), "invalid field: root.path must not be empty");

    let mut c = minimal();
    c.mounts.push(Mount { destination: "dev".to_string(), mount_type: None, source: None, options: Vec::new() });
    assert_eq!(c.validate().unwrap_err().message(), "invalid field: mount destination must be absolute: dev");

    let mut c = minimal();
    c.mounts.push(proc_mount());
    assert_eq!(c.validate().unwrap_err().message(), "invalid field: duplicate mount destination: /proc");

    let mut c = minimal();
    c.linux.as_mut().unwrap().namespaces.push(namespace("pid"));
    assert_eq!(c.validate().unwrap_err().message(), "invalid field: duplicate linux namespace type: pid");

    let mut c = minimal();
    c.linux.as_mut().unwrap().resources.as_mut().unwrap().cpu =
        Some(LinuxCpu { shares: None, quota: Some(-1), period: None, cpus: None, mems: None });
    assert_eq!(c.validate().unwrap_err().message(), "invalid field: linux.resources.cpu.quota must be >= 0");

    let mut c = minimal();
    c.root = None;
    assert_eq!(c.validate().unwrap_err().message(), "missing required section: root");
}
