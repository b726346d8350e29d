use ferro_core::launch::{
    build_bwrap_command, build_command, BindMountSpec, LaunchHost, LauncherPath, TmpfsMountSpec,
};

fn host(root: bool) -> LaunchHost {
    LaunchHost {
        running_as_root: root,
        launcher: LauncherPath::Known("/usr/bin/ferrocrate".to_string()),
        ip: Some("/usr/sbin/ip".to_string()),
        chroot: Some("/usr/sbin/chroot".to_string()),
        unshare: Some("/usr/bin/unshare".to_string()),
        sh: Some("/bin/sh".to_string()),
        setpriv: Some("/usr/bin/setpriv".to_string()),
        bwrap: Some("/usr/bin/bwrap".to_string()),
        rootfs_command_present: vec![false; 6],
    }
}

fn args(argv: &[String]) -> Vec<String> {
    argv[1..].to_vec()
}

#[test]
fn rootless_bwrap_command_contains_mount_and_readonly_boundary() {
    let argv = build_bwrap_command(
        &host(false),
        "/",
        &["/bin/true".into()],
        &[BindMountSpec { source: "/tmp".to_string(), target: "data".to_string(), read_only: true }],
        &[],
        true,
    )
    .expect("bubblewrap command");
    let args = args(&argv);
    assert!(args.windows(3).any(|window| window == ["--ro-bind", "/tmp", "/data"]));
    assert!(args.windows(2).any(|window| window == ["--remount-ro", "/"]));
    assert_eq!(args.last().map(String::as_str), Some("/bin/true"));
}

#[test]
fn rootless_command_creates_user_and_network_namespaces_together() {
    let plan = build_command(&host(false), &["/bin/true".into()], &[], None, false, None, None, None, true, &[], &[], false)
        .expect("rootless command");
    let args = args(&plan.argv);
    assert!(args.len() >= 9);
    assert!(args[args.len() - 9].ends_with("/unshare"));
    assert_eq!(&args[args.len() - 8..args.len() - 5], ["--user", "--net", "--"]);
    assert!(args[args.len() - 5].ends_with("/sh"));
    assert_eq!(args[args.len() - 4], "-c");
    assert_eq!(args[args.len() - 3], "kill -STOP $$; exec \"$@\"");
    assert_eq!(args[args.len() - 1], "/bin/true");
    assert!(args.iter().any(|arg| arg == "ferrocrate-rootless"));
}

#[test]
fn rootless_command_applies_no_new_privileges_inside_namespace() {
    let plan = build_command(&host(false), &["/bin/true".into()], &[], None, true, None, None, None, true, &[], &[], false)
        .expect("rootless command");
    let args = args(&plan.argv);
    assert!(args.len() >= 9);
    assert!(args[args.len() - 9].ends_with("/unshare"));
    assert_eq!(&args[args.len() - 8..args.len() - 5], ["--user", "--net", "--"]);
    assert!(args[args.len() - 5].ends_with("/sh"));
    assert_eq!(args[args.len() - 4], "-c");
    assert!(args[args.len() - 3].starts_with("kill -STOP $$; exec "));
    assert!(args[args.len() - 3].ends_with(" --no-new-privs -- \"$@\""));
    assert_eq!(args[args.len() - 1], "/bin/true");
    assert!(args.iter().any(|arg| arg == "ferrocrate-rootless"));
    assert!(!plan.set_no_new_privs);
}

#[test]
fn launch_plans_cover_every_execution_path() {
    let cmd = vec!["sh".to_string(), "-c".to_string(), "echo hi".to_string()];
    let barrier = ["/bin/sh", "-c", "kill -STOP $$; exec \"$@\"", "ferrocrate-launch"];

    let launcher = build_command(&host(true), &cmd, &[], Some("/r"), true, Some("/w"), Some("7:8"), None, false, &[], &[], false).unwrap();
    assert_eq!(&launcher.argv[..4], barrier);
    assert_eq!(
        &launcher.argv[4..],
        ["/usr/bin/ferrocrate", "__ferrocrate_rootfs_launch", "/r", "/w", "7:8", "1", "--", "sh", "-c", "echo hi"]
    );
    assert_eq!(launcher.current_dir, None);
    assert_eq!(launcher.identity, None);
    assert!(!launcher.manage_capabilities);

    let direct = build_command(&host(true), &cmd, &["A = 1".to_string(), "B".to_string()], None, false, Some("/w"), Some("7"), Some("ns1"), false, &[], &[], false).unwrap();
    assert_eq!(&direct.argv[4..], ["sh", "-c", "echo hi"]);
    assert_eq!(direct.env, vec![("A".to_string(), "1".to_string()), ("B".to_string(), String::new())]);
    assert_eq!(direct.setup_netns.as_deref(), Some("ns1"));
    assert_eq!(direct.setup_user.as_deref(), Some("7"));
    assert_eq!(direct.current_dir, None);
    assert!(direct.manage_capabilities);

    let netns = build_command(&host(false), &cmd, &[], None, false, Some("/w"), None, Some("ns1"), false, &[], &[], false).unwrap();
    assert_eq!(&netns.argv[4..], ["/usr/sbin/ip", "netns", "exec", "ns1", "sh", "-c", "echo hi"]);
    assert_eq!(netns.current_dir.as_deref(), Some("/w"));

    let host_cmd = build_command(&host(true), &cmd, &[], None, true, None, Some("7:8"), None, false, &[], &[], false).unwrap();
    assert_eq!(&host_cmd.argv[4..], ["sh", "-c", "echo hi"]);
    assert_eq!(host_cmd.identity, Some((7, 8)));
    assert!(host_cmd.set_no_new_privs);

    let mut found = host(false);
    found.rootfs_command_present = vec![false, false, false, true, false, false];
    let sandbox = build_command(&found, &cmd, &[], Some("/r"), false, None, None, None, false,
        &[], &[TmpfsMountSpec { target: "tmp".to_string(), size: None }], false).unwrap();
    assert_eq!(sandbox.argv[4], "/usr/bin/bwrap");
    assert!(sandbox.argv.windows(2).any(|w| w == ["--tmpfs", "/tmp"]));
    assert_eq!(&sandbox.argv[sandbox.argv.len() - 3..], ["/usr/bin/sh", "-c", "echo hi"]);
}

#[test]
fn launch_plans_refuse_what_the_host_cannot_do() {
    let cmd = vec!["true".to_string()];
    let mut no_bwrap = host(false);
    no_bwrap.bwrap = None;
    assert_eq!(
        build_command(&no_bwrap, &cmd, &[], Some("/r"), false, None, None, None, false, &[], &[], false).unwrap_err().message(),
        "invalid command: rootfs execution requires root (chroot) or bubblewrap (bwrap)"
    );
    assert_eq!(
        build_command(&no_bwrap, &cmd, &[], Some("/r"), false, None, None, None, true, &[], &[], false).unwrap_err().message(),
        "invalid command: rootfs execution requires bubblewrap (bwrap) for rootless mounts"
    );
    let mut no_setpriv = host(false);
    no_setpriv.setpriv = None;
    assert!(build_command(&no_setpriv, &cmd, &[], None, true, None, None, None, true, &[], &[], false)
        .unwrap_err().message().contains("setpriv"));
    let sized = [TmpfsMountSpec { target: "tmp".to_string(), size: Some(1024) }];
    assert!(build_command(&host(false), &cmd, &[], Some("/r"), false, None, None, None, false, &[], &sized, false)
        .unwrap_err().message().contains("tmpfs size limits"));
    let mut unknown = host(true);
    unknown.launcher = LauncherPath::Unknown("no such file".to_string());
    assert_eq!(
        build_command(&unknown, &cmd, &[], Some("/r"), false, None, None, None, false, &[], &[], false).unwrap_err().message(),
        "io error: no such file"
    );
    assert_eq!(
        build_command(&host(false), &cmd, &["=x".to_string()], None, false, None, None, None, false, &[], &[], false).unwrap_err().message(),
        "invalid container state: env var missing key"
    );
}
