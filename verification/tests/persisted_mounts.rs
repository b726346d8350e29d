use ferro_core::persisted_mounts::{
    check_persisted_mount, persisted_mount_detach_order, readonly_rootfs_detachable,
    target_has_own_mount, PersistedMountTarget,
};
use ferro_core::error::RuntimeError;
use std::path::PathBuf;

/// The order as std's path ordering, a stable sort and `dedup_by` give it.
fn std_order(binds: &[(String, String)], tmpfs: &[String]) -> Vec<PersistedMountTarget> {
    let mut targets = binds
        .iter()
        .map(|(t, s)| (PathBuf::from(t), t.clone(), Some(s.clone()), false))
        .chain(tmpfs.iter().map(|t| (PathBuf::from(t), t.clone(), None, true)))
        .collect::<Vec<_>>();
    targets.sort_by(|left, right| {
        right
            .0
            .components()
            .count()
            .cmp(&left.0.components().count())
            .then_with(|| right.0.cmp(&left.0))
    });
    targets.dedup_by(|left, right| left.0 == right.0);
    targets
        .into_iter()
        .map(|(_, target, source, tmpfs)| PersistedMountTarget { target, source, tmpfs })
        .collect()
}

fn binds(items: &[(&str, &str)]) -> Vec<(String, String)> {
    items.iter().map(|(t, s)| (t.to_string(), s.to_string())).collect()
}

fn strings(items: &[&str]) -> Vec<String> {
    items.iter().map(|s| s.to_string()).collect()
}

#[test]
fn persisted_mounts_detach_nested_targets_first_and_each_once() {
    let b = binds(&[("data", "/src/a"), ("data/cache", "/src/b"), ("logs", "/src/c")]);
    let t = strings(&["tmp", "data/cache", "run/x/y"]);
    let order = persisted_mount_detach_order(&b, &t);
    let targets: Vec<&str> = order.iter().map(|m| m.target.as_str()).collect();
    assert_eq!(targets, vec!["run/x/y", "data/cache", "tmp", "logs", "data"]);
    assert_eq!(order[1].source.as_deref(), Some("/src/b"));
    assert!(!order[1].tmpfs);
    assert_eq!(order, std_order(&b, &t));
}

#[test]
fn persisted_mount_order_follows_path_ordering() {
    let b = binds(&[
        ("./data", "/s1"),
        ("data//cache/", "/s2"),
        ("/abs/x", "/s3"),
        ("a/../b", "/s4"),
        ("data/cache", "/s5"),
        ("..", "/s6"),
        ("é/x", "/s7"),
        ("z/x", "/s8"),
    ]);
    let t = strings(&["data/./cache", ".", "a/b", "", "x/y/z/w"]);
    assert_eq!(persisted_mount_detach_order(&b, &t), std_order(&b, &t));
}

#[test]
fn persisted_mount_checks_guard_each_detach() {
    let tmpfs = PersistedMountTarget { target: "tmp".to_string(), source: None, tmpfs: true };
    let bind = PersistedMountTarget {
        target: "data".to_string(),
        source: Some("/src".to_string()),
        tmpfs: false,
    };
    assert_eq!(check_persisted_mount(&tmpfs, Some("tmpfs"), (1, 2), None), Ok(()));
    assert_eq!(
        check_persisted_mount(&tmpfs, Some("ext4"), (1, 2), None),
        Err(RuntimeError::InvalidState("refusing to detach non-tmpfs mount at tmp".to_string()))
    );
    assert_eq!(
        check_persisted_mount(&tmpfs, None, (1, 2), None),
        Err(RuntimeError::InvalidState("persisted tmpfs mount disappeared".to_string()))
    );
    assert_eq!(check_persisted_mount(&bind, None, (1, 2), Some((1, 2))), Ok(()));
    assert_eq!(
        check_persisted_mount(&bind, None, (1, 2), Some((1, 3))),
        Err(RuntimeError::InvalidState("persisted bind mount identity changed at data".to_string()))
    );
    assert!(target_has_own_mount(Some(5), Some(4)));
    assert!(target_has_own_mount(Some(5), None));
    assert!(!target_has_own_mount(Some(4), Some(4)));
    assert!(!target_has_own_mount(None, Some(4)));
    assert!(readonly_rootfs_detachable(Some(4), Some(3)));
    assert!(!readonly_rootfs_detachable(Some(4), Some(4)));
    assert!(!readonly_rootfs_detachable(None, Some(4)));
}
