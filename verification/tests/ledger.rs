use ferro_core::records::KernelObjectIdentityRecord;
use ferro_core::rollback::{
    applied_resources_valid, cleanup_decisions, legacy_rollback_allowed, owned_bridge_action,
    owned_veth_action, resource_plan_authority, rollback_authority_matches, rollback_netns_target,
    unapplied_plan_indices, validate_cleanup_authority, validate_legacy_cleanup_authority,
    AppliedResource, CleanupAuthority, CleanupDecision, CreationProvenance, InterfaceAction,
    NetnsObservation, PendingCleanupAuthority, ResourceIdentity, ResourceLedger, ResourcePlan,
    StoreEvidence,
};

const OP: [u8; 16] = [9; 16];

fn bind(target: &str) -> ResourcePlan {
    ResourcePlan::BindMount {
        target: target.to_string(),
        generation: 1,
        source_device: 1,
        source_inode: 2,
        baseline_device: 3,
        baseline_inode: 4,
        baseline_mount_id: Some(5),
        operation_id: Some(OP),
    }
}

fn path_identity(inode: u64) -> ResourceIdentity {
    ResourceIdentity::Path { device: 3, inode, mount_id: Some(6) }
}

fn plans() -> Vec<ResourcePlan> {
    vec![
        ResourcePlan::Rootfs { path: "/run/c/rootfs".to_string(), generation: 1, operation_id: Some(OP) },
        bind("data"),
        ResourcePlan::RootfsReadonly {
            target: ".".to_string(),
            generation: 1,
            baseline_device: 3,
            baseline_inode: 4,
            baseline_mount_id: None,
            operation_id: Some(OP),
        },
        ResourcePlan::Cgroup {
            name: "ferrocrate/c".to_string(),
            generation: 1,
            operation_id: Some(OP),
            expected_controllers: vec!["memory".to_string()],
        },
        ResourcePlan::Process { generation: 1, operation_id: Some(OP) },
        ResourcePlan::NetworkAllocation { canonical: "bridge".to_string(), generation: 1, operation_id: Some(OP) },
    ]
}

fn pending(applied: Vec<AppliedResource>) -> PendingCleanupAuthority {
    PendingCleanupAuthority {
        schema_version: 2,
        container_id: "c".to_string(),
        operation_id: Some(OP),
        cgroup_generation: Some(1),
        creation_provenance: CreationProvenance { creator_operation_id: Some(OP), resource_generation: 1 },
        resource_plans: plans(),
        typed_applied_resources: applied,
    }
}

#[test]
fn ledger_marks_each_plan_once() {
    let mut ledger = ResourceLedger::new();
    assert_eq!(ledger.plan_typed_resource(bind("a")), 0);
    assert_eq!(ledger.plan_typed_resource(bind("b")), 1);
    ledger.mark_typed_resource(1, path_identity(10)).unwrap();
    let err = ledger.mark_typed_resource(1, path_identity(11)).expect_err("duplicate");
    assert_eq!(
        err.message(),
        "invalid container state: invalid or duplicate applied resource identity"
    );
    assert!(ledger.mark_typed_resource(2, path_identity(12)).is_err());
    ledger.mark_typed_resource(0, path_identity(13)).unwrap();
    assert_eq!(ledger.applied.len(), 2);
    assert_eq!(ledger.applied[0].plan_index, 1);
    assert_eq!(ledger.applied[1].plan_index, 0);
}

#[test]
fn unapplied_plans_are_the_unmarked_ones_in_order() {
    let applied = vec![
        AppliedResource { plan_index: 3, identity: path_identity(1) },
        AppliedResource { plan_index: 0, identity: path_identity(2) },
    ];
    assert_eq!(unapplied_plan_indices(5, &applied), vec![1, 2, 4]);
    assert_eq!(unapplied_plan_indices(0, &applied), Vec::<usize>::new());
}

#[test]
fn applied_resources_must_name_distinct_existing_plans() {
    let a = AppliedResource { plan_index: 1, identity: path_identity(1) };
    let b = AppliedResource { plan_index: 2, identity: path_identity(2) };
    assert!(applied_resources_valid(3, &[a, b]));
    assert!(!applied_resources_valid(2, &[a, b]));
    assert!(!applied_resources_valid(3, &[a, b, a]));
}

#[test]
fn typed_cleanup_decides_newest_first() {
    let plans = plans();
    let observed = vec![
        AppliedResource { plan_index: 0, identity: path_identity(1) },
        AppliedResource { plan_index: 1, identity: path_identity(2) },
        AppliedResource { plan_index: 2, identity: path_identity(4) },
        AppliedResource { plan_index: 3, identity: ResourceIdentity::Cgroup { device: 7, inode: 8 } },
        AppliedResource { plan_index: 4, identity: ResourceIdentity::Process { pid: 42, start_time: 99 } },
        AppliedResource { plan_index: 5, identity: ResourceIdentity::Network { identity: None } },
        AppliedResource { plan_index: 4, identity: path_identity(3) },
        AppliedResource { plan_index: 9, identity: path_identity(3) },
    ];
    let decisions = cleanup_decisions(&plans, &observed, true);
    assert_eq!(
        decisions,
        vec![
            CleanupDecision::Quarantine,
            CleanupDecision::Quarantine,
            CleanupDecision::Keep,
            CleanupDecision::KillProcess { pid: 42, start_time: 99 },
            CleanupDecision::RemoveCgroup { name: "ferrocrate/c".to_string(), device: 7, inode: 8 },
            CleanupDecision::Detach { target: ".".to_string(), identity: path_identity(4) },
            CleanupDecision::Detach { target: "data".to_string(), identity: path_identity(2) },
            CleanupDecision::Keep,
        ]
    );
    let without_rootfs = cleanup_decisions(&plans, &observed[1..2], false);
    assert_eq!(without_rootfs, vec![CleanupDecision::Quarantine]);
}

#[test]
fn witnessed_cleanup_authority_requires_a_consistent_owned_journal() {
    let applied = vec![AppliedResource { plan_index: 1, identity: path_identity(2) }];
    let record = StoreEvidence::Record {
        provenance_matches: true,
        reservation: None,
        creation_provenance: CreationProvenance { creator_operation_id: Some(OP), resource_generation: 1 },
    };
    assert_eq!(
        validate_cleanup_authority(&pending(applied.clone()), &record),
        Some(CleanupAuthority { operation_id: OP, generation: 1 })
    );
    let reserved = StoreEvidence::Record {
        provenance_matches: true,
        reservation: Some((OP, 1)),
        creation_provenance: CreationProvenance { creator_operation_id: None, resource_generation: 0 },
    };
    assert!(validate_cleanup_authority(&pending(applied.clone()), &reserved).is_some());
    let foreign = StoreEvidence::Record {
        provenance_matches: false,
        reservation: Some((OP, 1)),
        creation_provenance: CreationProvenance { creator_operation_id: Some(OP), resource_generation: 1 },
    };
    assert!(validate_cleanup_authority(&pending(applied.clone()), &foreign).is_none());
    let operation = StoreEvidence::Operation {
        operation: Some(("c".to_string(), 1)),
        provenance_value_matches: true,
    };
    assert!(validate_cleanup_authority(&pending(applied.clone()), &operation).is_some());
    let other_container = StoreEvidence::Operation {
        operation: Some(("d".to_string(), 1)),
        provenance_value_matches: true,
    };
    assert!(validate_cleanup_authority(&pending(applied.clone()), &other_container).is_none());

    let mut stale = pending(applied.clone());
    stale.cgroup_generation = Some(2);
    assert!(validate_cleanup_authority(&stale, &record).is_none());
    let mut duplicate = pending(applied.clone());
    duplicate.typed_applied_resources.push(applied[0]);
    assert!(validate_cleanup_authority(&duplicate, &record).is_none());
    let mut unwitnessed = pending(applied);
    unwitnessed.operation_id = None;
    assert!(validate_cleanup_authority(&unwitnessed, &record).is_none());
}

#[test]
fn legacy_cleanup_authority_needs_disabled_authorization() {
    let mut legacy = pending(vec![AppliedResource { plan_index: 1, identity: path_identity(2) }]);
    legacy.schema_version = 1;
    assert!(validate_legacy_cleanup_authority(&legacy, true, true, true).is_some());
    assert!(validate_legacy_cleanup_authority(&legacy, false, true, true).is_none());
    assert!(validate_legacy_cleanup_authority(&legacy, true, false, true).is_none());
    assert!(validate_legacy_cleanup_authority(&legacy, true, true, false).is_none());
    legacy.typed_applied_resources.push(AppliedResource { plan_index: 6, identity: path_identity(2) });
    assert!(validate_legacy_cleanup_authority(&legacy, true, true, true).is_none());
    assert!(!legacy_rollback_allowed(&[]));
    assert!(legacy_rollback_allowed(&legacy.typed_applied_resources));
}

#[test]
fn rollback_runs_only_for_the_creating_operation() {
    let authority = CleanupAuthority { operation_id: OP, generation: 1 };
    let provenance = CreationProvenance { creator_operation_id: Some(OP), resource_generation: 1 };
    assert!(rollback_authority_matches(&Some(OP), &provenance, &authority));
    assert!(!rollback_authority_matches(&Some([1; 16]), &provenance, &authority));
    assert!(!rollback_authority_matches(&None, &provenance, &authority));
    let newer = CreationProvenance { creator_operation_id: Some(OP), resource_generation: 2 };
    assert!(!rollback_authority_matches(&Some(OP), &newer, &authority));
    assert_eq!(resource_plan_authority(&plans()[4]), (1, Some(OP)));
}

#[test]
fn rollback_deletes_only_proven_namespaces() {
    let name = Some("ferro-c".to_string());
    let identity = Some(KernelObjectIdentityRecord { device: 5, inode: 6 });
    let present = NetnsObservation::Present { device: 5, inode: 6 };
    assert_eq!(rollback_netns_target(&name, true, identity, false, present), (name.clone(), false));
    assert_eq!(
        rollback_netns_target(&name, true, identity, false, NetnsObservation::Present { device: 5, inode: 7 }),
        (None, true)
    );
    assert_eq!(rollback_netns_target(&name, true, identity, false, NetnsObservation::Missing), (None, false));
    assert_eq!(rollback_netns_target(&name, true, identity, false, NetnsObservation::Unreadable), (None, true));
    assert_eq!(rollback_netns_target(&name, false, identity, true, present), (None, false));
    assert_eq!(rollback_netns_target(&name, true, None, true, present), (name.clone(), false));
    assert_eq!(rollback_netns_target(&name, true, None, false, present), (None, true));
    assert_eq!(rollback_netns_target(&name, true, None, false, NetnsObservation::Missing), (None, false));
    assert_eq!(rollback_netns_target(&None, true, identity, false, present), (None, false));
}

#[test]
fn rollback_deletes_only_interfaces_it_created() {
    assert_eq!(owned_veth_action(false, None, Some(3)), InterfaceAction::Leave);
    assert_eq!(owned_veth_action(true, Some(3), Some(3)), InterfaceAction::Delete);
    assert_eq!(owned_veth_action(true, Some(4), Some(3)), InterfaceAction::Refuse);
    assert_eq!(owned_veth_action(true, None, Some(3)), InterfaceAction::Refuse);
    assert_eq!(owned_veth_action(true, Some(3), None), InterfaceAction::Refuse);
    assert_eq!(owned_bridge_action(None, Some(3)), InterfaceAction::Leave);
    assert_eq!(owned_bridge_action(Some(3), Some(3)), InterfaceAction::Delete);
    assert_eq!(owned_bridge_action(Some(3), None), InterfaceAction::Refuse);
}
