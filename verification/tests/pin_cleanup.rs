use ferro_core::error::RuntimeError;
use ferro_core::pin_cleanup::{
    check_orphaned_pin_tree, check_pin_removal, pin_path_malformed, pin_removal_order,
    PinObservation,
};
use ferro_core::records::EbpfPinOwnershipRecord;
use std::path::Path;

fn pin(path: &str, directory: bool, inode: u64) -> EbpfPinOwnershipRecord {
    EbpfPinOwnershipRecord {
        relative_path: path.to_string(),
        device: 7,
        inode,
        directory,
        map_id: None,
    }
}

fn captured_tree() -> Vec<EbpfPinOwnershipRecord> {
    vec![
        pin("", true, 1),
        pin("maps", true, 2),
        pin("maps/FERRO_COUNTERS", false, 3),
        pin("maps/FERRO_ENDPOINTS", false, 4),
        pin("maps/FERRO_META", false, 5),
        pin("maps/FERRO_POLICY", false, 6),
        pin("maps/FERRO_PORTS", false, 7),
        pin("maps/FERRO_CONNTRACK", false, 8),
        pin("programs", true, 9),
        pin("programs/ferro_egress", false, 10),
        pin("programs/ferro_ingress", false, 11),
    ]
}

fn std_order(pins: &[EbpfPinOwnershipRecord]) -> Vec<EbpfPinOwnershipRecord> {
    let mut pins = pins.to_vec();
    pins.sort_by(|left, right| {
        Path::new(&right.relative_path)
            .components()
            .count()
            .cmp(&Path::new(&left.relative_path).components().count())
            .then_with(|| left.directory.cmp(&right.directory))
    });
    pins
}

#[test]
fn pin_tree_is_removed_entries_first_then_directories() {
    let tree = captured_tree();
    let order = pin_removal_order(&tree);
    let paths: Vec<&str> = order.iter().map(|p| p.relative_path.as_str()).collect();
    assert_eq!(
        paths,
        vec![
            "maps/FERRO_COUNTERS",
            "maps/FERRO_ENDPOINTS",
            "maps/FERRO_META",
            "maps/FERRO_POLICY",
            "maps/FERRO_PORTS",
            "maps/FERRO_CONNTRACK",
            "programs/ferro_egress",
            "programs/ferro_ingress",
            "maps",
            "programs",
            "",
        ]
    );
    assert_eq!(order, std_order(&tree));
    let mixed = vec![
        pin("a", true, 1),
        pin("a/b/c", false, 2),
        pin("b", false, 3),
        pin("a/b", true, 4),
        pin("/abs", false, 5),
        pin("a/./b", false, 6),
    ];
    assert_eq!(pin_removal_order(&mixed), std_order(&mixed));
}

#[test]
fn pin_removal_checks_paths_and_identity() {
    assert!(!pin_path_malformed(""));
    assert!(!pin_path_malformed("maps/FERRO_META"));
    assert!(pin_path_malformed("/maps"));
    assert!(pin_path_malformed("../maps"));
    assert!(pin_path_malformed("./maps"));
    let p = pin("maps/FERRO_META", false, 5);
    let same = PinObservation::Present { symlink: false, directory: false, device: 7, inode: 5 };
    assert_eq!(check_pin_removal(&p, "/sys/fs/bpf/x/maps/FERRO_META", same), Ok(true));
    assert_eq!(check_pin_removal(&p, "/x", PinObservation::Missing), Ok(false));
    let replaced = PinObservation::Present { symlink: false, directory: false, device: 7, inode: 6 };
    assert_eq!(
        check_pin_removal(&p, "/x", replaced),
        Err(RuntimeError::Network("owned eBPF pin was replaced: /x".to_string()))
    );
    let link = PinObservation::Present { symlink: true, directory: false, device: 7, inode: 5 };
    assert!(check_pin_removal(&p, "/x", link).is_err());
    assert_eq!(
        check_pin_removal(&pin("../escape", false, 5), "/x", same),
        Err(RuntimeError::Network("malformed eBPF pin ownership path".to_string()))
    );
}

#[test]
fn orphaned_pin_tree_must_be_complete_and_expected() {
    let tree = captured_tree();
    assert_eq!(check_orphaned_pin_tree(&tree, "/sys/fs/bpf/ferrocrate/n"), Ok(()));
    let mut incomplete = tree.clone();
    incomplete.pop();
    assert_eq!(
        check_orphaned_pin_tree(&incomplete, "/sys/fs/bpf/ferrocrate/n"),
        Err(RuntimeError::Network(
            "eBPF pin path contains foreign or incomplete entries: /sys/fs/bpf/ferrocrate/n".to_string()
        ))
    );
    let mut foreign = tree.clone();
    foreign[3].relative_path = "maps/OTHER".to_string();
    assert!(check_orphaned_pin_tree(&foreign, "r").is_err());
}
