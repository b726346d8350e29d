//! The typed resource ledger of a container creation: what was planned,
//! which plans were applied and with what identity, who may clean them up,
//! and what cleanup does to each applied resource, newest first.

use crate::error::{ErrorView, RuntimeError};
use crate::hashing::{bytes_concat, sha256, sha256_digest};
use crate::records::KernelObjectIdentityRecord;
use crate::text::str_eq;
use vstd::prelude::*;
use vstd::string::StringExecFns;
use vstd::string::StringSliceAdditionalSpecFns;
use vstd::utf8::encode_utf8;

verus! {

/// A resource that creation intends to apply, recorded before it is applied.
#[derive(Debug, Clone, PartialEq, Eq)]
pub enum ResourcePlan {
    Rootfs { path: String, generation: u64, operation_id: Option<[u8; 16]> },
    BindMount {
        target: String,
        generation: u64,
        source_device: u64,
        source_inode: u64,
        baseline_device: u64,
        baseline_inode: u64,
        baseline_mount_id: Option<u64>,
        operation_id: Option<[u8; 16]>,
    },
    TmpfsMount {
        target: String,
        generation: u64,
        baseline_device: u64,
        baseline_inode: u64,
        baseline_mount_id: Option<u64>,
        operation_id: Option<[u8; 16]>,
    },
    RootfsReadonly {
        target: String,
        generation: u64,
        baseline_device: u64,
        baseline_inode: u64,
        baseline_mount_id: Option<u64>,
        operation_id: Option<[u8; 16]>,
    },
    NetworkAllocation { canonical: String, generation: u64, operation_id: Option<[u8; 16]> },
    Cgroup {
        name: String,
        generation: u64,
        operation_id: Option<[u8; 16]>,
        expected_controllers: Vec<String>,
    },
    Process { generation: u64, operation_id: Option<[u8; 16]> },
}

/// The identity under which an applied resource was observed.
#[derive(Debug, Clone, Copy, PartialEq, Eq, Structural)]
pub enum ResourceIdentity {
    Path { device: u64, inode: u64, mount_id: Option<u64> },
    Network { identity: Option<KernelObjectIdentityRecord> },
    Cgroup { device: u64, inode: u64 },
    Process { pid: u32, start_time: u64 },
}

/// A plan, by its index, that was applied with an identity.
#[derive(Debug, Clone, Copy, PartialEq, Eq, Structural)]
pub struct AppliedResource {
    pub plan_index: usize,
    pub identity: ResourceIdentity,
}

/// The generation and operation that a plan belongs to.
pub open spec fn plan_authority(plan: ResourcePlan) -> (u64, Option<[u8; 16]>) {
    match plan {
        ResourcePlan::Rootfs { generation, operation_id, .. } => (generation, operation_id),
        ResourcePlan::BindMount { generation, operation_id, .. } => (generation, operation_id),
        ResourcePlan::TmpfsMount { generation, operation_id, .. } => (generation, operation_id),
        ResourcePlan::RootfsReadonly { generation, operation_id, .. } => (generation, operation_id),
        ResourcePlan::NetworkAllocation { generation, operation_id, .. } => (
            generation,
            operation_id,
        ),
        ResourcePlan::Cgroup { generation, operation_id, .. } => (generation, operation_id),
        ResourcePlan::Process { generation, operation_id } => (generation, operation_id),
    }
}

pub fn resource_plan_authority(plan: &ResourcePlan) -> (r: (u64, Option<[u8; 16]>))
    ensures
        r == plan_authority(*plan),
{
    match plan {
        ResourcePlan::Rootfs { generation, operation_id, .. } => (*generation, *operation_id),
        ResourcePlan::BindMount { generation, operation_id, .. } => (*generation, *operation_id),
        ResourcePlan::TmpfsMount { generation, operation_id, .. } => (*generation, *operation_id),
        ResourcePlan::RootfsReadonly { generation, operation_id, .. } => (
            *generation,
            *operation_id,
        ),
        ResourcePlan::NetworkAllocation { generation, operation_id, .. } => (
            *generation,
            *operation_id,
        ),
        ResourcePlan::Cgroup { generation, operation_id, .. } => (*generation, *operation_id),
        ResourcePlan::Process { generation, operation_id } => (*generation, *operation_id),
    }
}

/// Equality of two operation ids, byte by byte.
pub fn operation_ids_equal(a: &[u8; 16], b: &[u8; 16]) -> (r: bool)
    ensures
        r == (a@ == b@),
{
    let mut i: usize = 0;
    while i < 16
        invariant
            a@.len() == 16,
            b@.len() == 16,
            i <= 16,
            forall|j: int| 0 <= j < i ==> a@[j] == b@[j],
        decreases 16 - i,
    {
        if a[i] != b[i] {
            return false;
        }
        i += 1;
    }
    proof {
        assert(a@ =~= b@);
    }
    true
}

/// Equality of an optional operation id with a given one.
pub fn operation_id_is(a: &Option<[u8; 16]>, b: &[u8; 16]) -> (r: bool)
    ensures
        r == (a matches Some(x) && x@ == b@),
{
    match a {
        Some(x) => operation_ids_equal(x, b),
        None => false,
    }
}

/// Every applied resource names an existing plan, and no plan twice.
pub open spec fn applied_well_formed(plan_count: int, applied: Seq<AppliedResource>) -> bool {
    &&& forall|i: int| 0 <= i < applied.len() ==> (#[trigger] applied[i]).plan_index < plan_count
    &&& forall|i: int, j: int|
        0 <= i < j < applied.len() ==> (#[trigger] applied[i]).plan_index
            != (#[trigger] applied[j]).plan_index
}

/// Whether some applied resource names plan `k`.
pub open spec fn is_applied(applied: Seq<AppliedResource>, k: int) -> bool {
    exists|i: int| 0 <= i < applied.len() && (#[trigger] applied[i]).plan_index == k
}

fn find_applied(applied: &[AppliedResource], k: usize) -> (r: bool)
    ensures
        r == is_applied(applied@, k as int),
{
    let r = find_applied_before(applied, k, applied.len());
    proof {
        assert(applied@.take(applied@.len() as int) =~= applied@);
    }
    r
}

fn find_applied_before(applied: &[AppliedResource], k: usize, end: usize) -> (r: bool)
    requires
        end <= applied@.len(),
    ensures
        r == is_applied(applied@.take(end as int), k as int),
{
    let mut i: usize = 0;
    while i < end
        invariant
            end <= applied@.len(),
            i <= end,
            forall|j: int| 0 <= j < i ==> (#[trigger] applied@[j]).plan_index != k,
        decreases end - i,
    {
        if applied[i].plan_index == k {
            proof {
                assert(applied@.take(end as int)[i as int] == applied@[i as int]);
            }
            return true;
        }
        i += 1;
    }
    proof {
        assert forall|j: int| 0 <= j < end implies (#[trigger] applied@.take(end as int)[j]).plan_index
            != k by {
            assert(applied@.take(end as int)[j] == applied@[j]);
        }
    }
    false
}

/// Whether every applied resource names an existing plan, and no plan twice.
pub fn applied_resources_valid(plan_count: usize, applied: &[AppliedResource]) -> (r: bool)
    ensures
        r == applied_well_formed(plan_count as int, applied@),
{
    let mut i: usize = 0;
    while i < applied.len()
        invariant
            i <= applied@.len(),
            applied_well_formed(plan_count as int, applied@.take(i as int)),
        decreases applied.len() - i,
    {
        let a = applied[i];
        if a.plan_index >= plan_count {
            proof {
                assert(applied@[i as int] == a);
            }
            return false;
        }
        let seen = find_applied_before(applied, a.plan_index, i);
        if seen {
            proof {
                let j = choose|j: int|
                    0 <= j < i && (#[trigger] applied@.take(i as int)[j]).plan_index
                        == a.plan_index;
                assert(applied@[j] == applied@.take(i as int)[j]);
                assert(applied@[i as int] == a);
            }
            return false;
        }
        proof {
            let t = applied@.take(i + 1);
            assert forall|x: int, y: int| 0 <= x < y < t.len() implies (#[trigger] t[x]).plan_index
                != (#[trigger] t[y]).plan_index by {
                if y == i {
                    assert(t[x] == applied@.take(i as int)[x]);
                } else {
                    assert(t[x] == applied@.take(i as int)[x]);
                    assert(t[y] == applied@.take(i as int)[y]);
                }
            }
            assert forall|x: int| 0 <= x < t.len() implies (#[trigger] t[x]).plan_index
                < plan_count by {
                if x < i {
                    assert(t[x] == applied@.take(i as int)[x]);
                }
            }
        }
        i += 1;
    }
    proof {
        assert(applied@.take(applied@.len() as int) =~= applied@);
    }
    true
}

/// The typed resources of one creation: the plans in the order they were
/// made, and the applied resources in the order they were applied.
pub struct ResourceLedger {
    pub plans: Vec<ResourcePlan>,
    pub applied: Vec<AppliedResource>,
}

impl ResourceLedger {
    pub open spec fn well_formed(&self) -> bool {
        applied_well_formed(self.plans@.len() as int, self.applied@)
    }

    pub fn new() -> (r: ResourceLedger)
        ensures
            r.plans@.len() == 0,
            r.applied@.len() == 0,
            r.well_formed(),
    {
        ResourceLedger { plans: Vec::new(), applied: Vec::new() }
    }

    /// Records a plan and returns its index.
    pub fn plan_typed_resource(&mut self, plan: ResourcePlan) -> (r: usize)
        requires
            old(self).well_formed(),
            old(self).plans@.len() < usize::MAX,
        ensures
            final(self).well_formed(),
            final(self).plans@ == old(self).plans@.push(plan),
            final(self).applied@ == old(self).applied@,
            r == old(self).plans@.len(),
    {
        self.plans.push(plan);
        let r = self.plans.len() - 1;
        proof {
            let a = self.applied@;
            assert forall|i: int| 0 <= i < a.len() implies (#[trigger] a[i]).plan_index
                < self.plans@.len() by {}
        }
        r
    }

    /// Records that plan `plan_index` was applied with `identity`; a plan
    /// that does not exist or was already applied is refused.
    pub fn mark_typed_resource(&mut self, plan_index: usize, identity: ResourceIdentity) -> (r:
        Result<(), RuntimeError>)
        requires
            old(self).well_formed(),
        ensures
            final(self).well_formed(),
            final(self).plans@ == old(self).plans@,
            r is Ok <==> (plan_index < old(self).plans@.len() && !is_applied(
                old(self).applied@,
                plan_index as int,
            )),
            r is Ok ==> final(self).applied@ == old(self).applied@.push(
                AppliedResource { plan_index, identity },
            ),
            r matches Err(e) ==> final(self).applied@ == old(self).applied@ && e@
                == ErrorView::InvalidState("invalid or duplicate applied resource identity"@),
    {
        if plan_index >= self.plans.len() || find_applied(self.applied.as_slice(), plan_index) {
            return Err(
                RuntimeError::InvalidState(
                    String::from_str("invalid or duplicate applied resource identity"),
                ),
            );
        }
        let ghost before = self.applied@;
        self.applied.push(AppliedResource { plan_index, identity });
        proof {
            let a = self.applied@;
            assert forall|x: int, y: int| 0 <= x < y < a.len() implies (#[trigger] a[x]).plan_index
                != (#[trigger] a[y]).plan_index by {
                if y == before.len() {
                    assert(a[x] == before[x]);
                    if before[x].plan_index == plan_index {
                        assert(is_applied(before, plan_index as int));
                    }
                } else {
                    assert(a[x] == before[x]);
                    assert(a[y] == before[y]);
                }
            }
            assert forall|x: int| 0 <= x < a.len() implies (#[trigger] a[x]).plan_index
                < self.plans@.len() by {
                if x < before.len() {
                    assert(a[x] == before[x]);
                }
            }
        }
        Ok(())
    }
}

/// Cleanup visits applied resources newest first.
pub fn resource_cleanup_order(resources: &[AppliedResource]) -> (r: Vec<AppliedResource>)
    ensures
        r@ == resources@.reverse(),
{
    let mut r: Vec<AppliedResource> = Vec::new();
    let mut i: usize = resources.len();
    while i > 0
        invariant
            i <= resources@.len(),
            r@ == resources@.skip(i as int).reverse(),
        decreases i,
    {
        i -= 1;
        r.push(resources[i]);
        proof {
            assert(r@ =~= resources@.skip(i as int).reverse());
        }
    }
    proof {
        assert(resources@.skip(0) =~= resources@);
    }
    r
}

/// The plan indices below `plan_count` that no applied resource names, in
/// increasing order.
pub open spec fn unapplied(plan_count: nat, applied: Seq<AppliedResource>) -> Seq<usize>
    decreases plan_count,
{
    if plan_count == 0 {
        Seq::<usize>::empty()
    } else {
        let rest = unapplied((plan_count - 1) as nat, applied);
        if is_applied(applied, plan_count - 1) {
            rest
        } else {
            rest.push((plan_count - 1) as usize)
        }
    }
}

/// The plans that cleanup must first observe, since nothing recorded that
/// they were applied.
pub fn unapplied_plan_indices(plan_count: usize, applied: &[AppliedResource]) -> (r: Vec<usize>)
    ensures
        r@ == unapplied(plan_count as nat, applied@),
{
    let mut r: Vec<usize> = Vec::new();
    let mut k: usize = 0;
    while k < plan_count
        invariant
            k <= plan_count,
            r@ == unapplied(k as nat, applied@),
        decreases plan_count - k,
    {
        if !find_applied(applied, k) {
            r.push(k);
        }
        k += 1;
    }
    r
}

/// What cleanup does to one applied resource.
#[derive(Debug, Clone, PartialEq, Eq)]
pub enum CleanupDecision {
    /// Detach the mount at `target` below the root filesystem (`.` for the
    /// root itself) if it still has `identity`.
    Detach { target: String, identity: ResourceIdentity },
    /// Remove the cgroup `name` if it is still the directory with this identity.
    RemoveCgroup { name: String, device: u64, inode: u64 },
    /// Kill the process if it is still the one that started at `start_time`.
    KillProcess { pid: u32, start_time: u64 },
    /// Nothing to undo.
    Keep,
    /// The resource cannot be proven owned: cleanup is quarantined.
    Quarantine,
}

pub ghost enum DecisionView {
    Detach(Seq<char>, ResourceIdentity),
    RemoveCgroup(Seq<char>, u64, u64),
    KillProcess(u32, u64),
    Keep,
    Quarantine,
}

impl View for CleanupDecision {
    type V = DecisionView;

    open spec fn view(&self) -> DecisionView {
        match self {
            CleanupDecision::Detach { target, identity } => DecisionView::Detach(target@, *identity),
            CleanupDecision::RemoveCgroup { name, device, inode } => DecisionView::RemoveCgroup(
                name@,
                *device,
                *inode,
            ),
            CleanupDecision::KillProcess { pid, start_time } => DecisionView::KillProcess(
                *pid,
                *start_time,
            ),
            CleanupDecision::Keep => DecisionView::Keep,
            CleanupDecision::Quarantine => DecisionView::Quarantine,
        }
    }
}

/// The decision for one applied resource: mounts are detached by their
/// recorded path identity (the read-only root at `.`), which needs a known
/// root filesystem; cgroups are removed and processes killed by identity;
/// network allocations and the root filesystem itself need nothing; any
/// other pairing, or a plan that does not exist, quarantines.
pub open spec fn decision_for(
    plans: Seq<ResourcePlan>,
    a: AppliedResource,
    has_rootfs: bool,
) -> DecisionView {
    if a.plan_index >= plans.len() {
        DecisionView::Quarantine
    } else {
        match (plans[a.plan_index as int], a.identity) {
            (ResourcePlan::BindMount { target, .. }, ResourceIdentity::Path { .. }) => if has_rootfs {
                DecisionView::Detach(target@, a.identity)
            } else {
                DecisionView::Quarantine
            },
            (ResourcePlan::TmpfsMount { target, .. }, ResourceIdentity::Path { .. }) => if has_rootfs {
                DecisionView::Detach(target@, a.identity)
            } else {
                DecisionView::Quarantine
            },
            (ResourcePlan::RootfsReadonly { .. }, ResourceIdentity::Path { .. }) => if has_rootfs {
                DecisionView::Detach("."@, a.identity)
            } else {
                DecisionView::Quarantine
            },
            (ResourcePlan::Cgroup { name, .. }, ResourceIdentity::Cgroup { device, inode }) => {
                DecisionView::RemoveCgroup(name@, device, inode)
            },
            (ResourcePlan::Process { .. }, ResourceIdentity::Process { pid, start_time }) => {
                DecisionView::KillProcess(pid, start_time)
            },
            (ResourcePlan::NetworkAllocation { .. }, ResourceIdentity::Network { .. }) => {
                DecisionView::Keep
            },
            (ResourcePlan::Rootfs { .. }, ResourceIdentity::Path { .. }) => DecisionView::Keep,
            _ => DecisionView::Quarantine,
        }
    }
}

fn decide_one(plans: &[ResourcePlan], a: AppliedResource, has_rootfs: bool) -> (r:
    CleanupDecision)
    ensures
        r@ == decision_for(plans@, a, has_rootfs),
{
    if a.plan_index >= plans.len() {
        return CleanupDecision::Quarantine;
    }
    let plan = &plans[a.plan_index];
    match (plan, a.identity) {
        (ResourcePlan::BindMount { target, .. }, ResourceIdentity::Path { .. })
        | (ResourcePlan::TmpfsMount { target, .. }, ResourceIdentity::Path { .. }) => {
            if has_rootfs {
                CleanupDecision::Detach { target: target.clone(), identity: a.identity }
            } else {
                CleanupDecision::Quarantine
            }
        },
        (ResourcePlan::RootfsReadonly { .. }, ResourceIdentity::Path { .. }) => {
            if has_rootfs {
                CleanupDecision::Detach { target: String::from_str("."), identity: a.identity }
            } else {
                CleanupDecision::Quarantine
            }
        },
        (ResourcePlan::Cgroup { name, .. }, ResourceIdentity::Cgroup { device, inode }) => {
            CleanupDecision::RemoveCgroup { name: name.clone(), device, inode }
        },
        (ResourcePlan::Process { .. }, ResourceIdentity::Process { pid, start_time }) => {
            CleanupDecision::KillProcess { pid, start_time }
        },
        (ResourcePlan::NetworkAllocation { .. }, ResourceIdentity::Network { .. }) => {
            CleanupDecision::Keep
        },
        (ResourcePlan::Rootfs { .. }, ResourceIdentity::Path { .. }) => CleanupDecision::Keep,
        _ => CleanupDecision::Quarantine,
    }
}

/// The decisions of typed cleanup over the observed resources, in cleanup
/// order (newest first).
pub open spec fn cleanup_decisions_of(
    plans: Seq<ResourcePlan>,
    observed: Seq<AppliedResource>,
    has_rootfs: bool,
) -> Seq<DecisionView> {
    observed.reverse().map_values(|a: AppliedResource| decision_for(plans, a, has_rootfs))
}

pub fn cleanup_decisions(plans: &[ResourcePlan], observed: &[AppliedResource], has_rootfs: bool) -> (r:
    Vec<CleanupDecision>)
    ensures
        r@.len() == observed@.len(),
        forall|i: int|
            0 <= i < r@.len() ==> (#[trigger] r@[i])@ == cleanup_decisions_of(
                plans@,
                observed@,
                has_rootfs,
            )[i],
{
    let order = resource_cleanup_order(observed);
    let mut r: Vec<CleanupDecision> = Vec::new();
    let mut i: usize = 0;
    while i < order.len()
        invariant
            order@ == observed@.reverse(),
            i <= order@.len(),
            r@.len() == i,
            forall|j: int|
                0 <= j < i ==> (#[trigger] r@[j])@ == decision_for(plans@, order@[j], has_rootfs),
        decreases order.len() - i,
    {
        let d = decide_one(plans, order[i], has_rootfs);
        r.push(d);
        i += 1;
    }
    r
}

/// The generation and operation on whose behalf a pending cleanup runs.
#[derive(Debug, Clone, Copy, PartialEq, Eq)]
pub struct CleanupAuthority {
    pub operation_id: [u8; 16],
    pub generation: u64,
}

/// Cleanup authority for journals written before operations were witnessed.
#[derive(Debug, Clone, Copy, PartialEq, Eq)]
pub struct LegacyCleanupAuthority;

/// Who created a container's resources.
#[derive(Debug, Clone, Copy, PartialEq, Eq)]
pub struct CreationProvenance {
    pub creator_operation_id: Option<[u8; 16]>,
    pub resource_generation: u64,
}

/// What a pending cleanup journal records of its own authority.
#[derive(Debug, Clone, PartialEq, Eq)]
pub struct PendingCleanupAuthority {
    pub schema_version: u32,
    pub container_id: String,
    pub operation_id: Option<[u8; 16]>,
    pub cgroup_generation: Option<u64>,
    pub creation_provenance: CreationProvenance,
    pub resource_plans: Vec<ResourcePlan>,
    pub typed_applied_resources: Vec<AppliedResource>,
}

/// What the container store holds of a pending cleanup's container.
#[derive(Debug, Clone, PartialEq, Eq)]
pub enum StoreEvidence {
    /// The container's record exists.
    Record {
        provenance_matches: bool,
        reservation: Option<([u8; 16], u64)>,
        creation_provenance: CreationProvenance,
    },
    /// No record; the lifecycle operation, if the store knows it.
    Operation { operation: Option<(String, u64)>, provenance_value_matches: bool },
}

/// The generation that a journal's plans must carry.
pub open spec fn pending_generation(p: PendingCleanupAuthority) -> u64 {
    match p.cgroup_generation {
        Some(g) => g,
        None => p.creation_provenance.resource_generation,
    }
}

/// The journal itself is consistent: an operation id, a non-zero
/// generation, at least one plan, every plan of that generation and
/// operation, and well-formed applied resources.
pub open spec fn journal_consistent(p: PendingCleanupAuthority) -> bool {
    &&& p.operation_id is Some
    &&& pending_generation(p) != 0
    &&& p.resource_plans@.len() > 0
    &&& forall|i: int|
        0 <= i < p.resource_plans@.len() ==> plan_authority(#[trigger] p.resource_plans@[i]) == (
            pending_generation(p),
            p.operation_id,
        )
    &&& applied_well_formed(p.resource_plans@.len() as int, p.typed_applied_resources@)
}

/// The store proves the journal's operation owns the container.
pub open spec fn store_proves_owner(
    p: PendingCleanupAuthority,
    op: [u8; 16],
    generation: u64,
    evidence: StoreEvidence,
) -> bool {
    match evidence {
        StoreEvidence::Record { provenance_matches, reservation, creation_provenance } => {
            provenance_matches && ((reservation matches Some((o, g)) && o@ == op@ && g
                == generation) || (creation_provenance.creator_operation_id matches Some(c) && c@
                == op@ && creation_provenance.resource_generation == generation))
        },
        StoreEvidence::Operation { operation, provenance_value_matches } => {
            &&& operation matches Some((container, g)) && container@ == p.container_id@ && g
                == generation
            &&& provenance_value_matches
            &&& p.creation_provenance.creator_operation_id matches Some(c) && c@ == op@
            &&& p.creation_provenance.resource_generation == generation
        },
    }
}

fn plans_match(plans: &[ResourcePlan], generation: u64, op: &[u8; 16]) -> (r: bool)
    ensures
        r == forall|i: int|
            0 <= i < plans@.len() ==> #[trigger] plan_authority(plans@[i]) == (
                generation,
                Some(*op),
            ),
{
    let mut i: usize = 0;
    while i < plans.len()
        invariant
            i <= plans@.len(),
            forall|j: int|
                0 <= j < i ==> #[trigger] plan_authority(plans@[j]) == (generation, Some(*op)),
        decreases plans.len() - i,
    {
        let (g, o) = resource_plan_authority(&plans[i]);
        if g != generation || !operation_id_is(&o, op) {
            proof {
                if g == generation && o is Some {
                    assert(o->0@ != op@);
                    assert(o->0 != *op);
                }
            }
            return false;
        }
        proof {
            assert(o->0@ == op@);
            assert(o->0 =~= *op);
        }
        i += 1;
    }
    true
}

/// The witnessed authority of a pending cleanup: the journal is consistent
/// and the store proves its operation owns the container.
pub fn validate_cleanup_authority(pending: &PendingCleanupAuthority, evidence: &StoreEvidence) -> (r:
    Option<CleanupAuthority>)
    ensures
        r is Some <==> journal_consistent(*pending) && store_proves_owner(
            *pending,
            pending.operation_id->0,
            pending_generation(*pending),
            *evidence,
        ),
        r matches Some(a) ==> Some(a.operation_id) == pending.operation_id && a.generation
            == pending_generation(*pending),
{
    let op = match pending.operation_id {
        Some(op) => op,
        None => {
            return None;
        },
    };
    let generation = match pending.cgroup_generation {
        Some(g) => g,
        None => pending.creation_provenance.resource_generation,
    };
    if generation == 0 || pending.resource_plans.len() == 0 || !plans_match(
        pending.resource_plans.as_slice(),
        generation,
        &op,
    ) {
        return None;
    }
    if !applied_resources_valid(
        pending.resource_plans.len(),
        pending.typed_applied_resources.as_slice(),
    ) {
        return None;
    }
    let owned = match evidence {
        StoreEvidence::Record { provenance_matches, reservation, creation_provenance } => {
            *provenance_matches && ((match reservation {
                Some((o, g)) => operation_ids_equal(o, &op) && *g == generation,
                None => false,
            }) || (operation_id_is(&creation_provenance.creator_operation_id, &op)
                && creation_provenance.resource_generation == generation))
        },
        StoreEvidence::Operation { operation, provenance_value_matches } => {
            (match operation {
                Some((container, g)) => str_eq(container.as_str(), pending.container_id.as_str())
                    && *g == generation,
                None => false,
            }) && *provenance_value_matches && operation_id_is(
                &pending.creation_provenance.creator_operation_id,
                &op,
            ) && pending.creation_provenance.resource_generation == generation
        },
    };
    if owned {
        Some(CleanupAuthority { operation_id: op, generation })
    } else {
        None
    }
}

/// A journal of the first schema may be cleaned up without a witness only
/// when authorization and its journal are both disabled, its provenance is
/// the legacy one, it has plans, and every applied resource names one.
pub open spec fn legacy_authority_holds(
    p: PendingCleanupAuthority,
    authorization_disabled: bool,
    journal_disabled: bool,
    legacy_provenance_matches: bool,
) -> bool {
    &&& p.schema_version == 1
    &&& authorization_disabled
    &&& journal_disabled
    &&& legacy_provenance_matches
    &&& p.resource_plans@.len() > 0
    &&& forall|i: int|
        0 <= i < p.typed_applied_resources@.len()
            ==> (#[trigger] p.typed_applied_resources@[i]).plan_index < p.resource_plans@.len()
}

pub fn validate_legacy_cleanup_authority(
    pending: &PendingCleanupAuthority,
    authorization_disabled: bool,
    journal_disabled: bool,
    legacy_provenance_matches: bool,
) -> (r: Option<LegacyCleanupAuthority>)
    ensures
        r is Some <==> legacy_authority_holds(
            *pending,
            authorization_disabled,
            journal_disabled,
            legacy_provenance_matches,
        ),
{
    if !(pending.schema_version == 1 && authorization_disabled && journal_disabled
        && legacy_provenance_matches && pending.resource_plans.len() > 0) {
        return None;
    }
    let n = pending.resource_plans.len();
    let mut i: usize = 0;
    while i < pending.typed_applied_resources.len()
        invariant
            n == pending.resource_plans@.len(),
            i <= pending.typed_applied_resources@.len(),
            forall|j: int|
                0 <= j < i ==> (#[trigger] pending.typed_applied_resources@[j]).plan_index < n,
        decreases pending.typed_applied_resources.len() - i,
    {
        if pending.typed_applied_resources[i].plan_index >= n {
            return None;
        }
        i += 1;
    }
    Some(LegacyCleanupAuthority)
}

/// A witnessed rollback runs only for the operation and generation that
/// created the resources; otherwise cleanup is quarantined.
pub fn rollback_authority_matches(
    operation_id: &Option<[u8; 16]>,
    provenance: &CreationProvenance,
    authority: &CleanupAuthority,
) -> (r: bool)
    ensures
        r == (operation_id matches Some(o) && o@ == authority.operation_id@
            && provenance.resource_generation == authority.generation),
{
    operation_id_is(operation_id, &authority.operation_id) && provenance.resource_generation
        == authority.generation
}

/// A legacy rollback acts only on exact typed identities: with none
/// recorded, cleanup is quarantined.
pub fn legacy_rollback_allowed(applied: &[AppliedResource]) -> (r: bool)
    ensures
        r == (applied@.len() > 0),
{
    applied.len() > 0
}

/// The digest that the authorization journal records of an internal
/// cleanup of a container, and whether its resources were found absent.
pub open spec fn cleanup_observation(container_id: Seq<char>, absent: bool) -> Seq<u8> {
    sha256_digest(
        encode_utf8("ferrocrate/internal-cleanup-observation/v1"@) + encode_utf8(container_id)
            + seq![if absent { 1u8 } else { 0u8 }],
    )
}

pub fn internal_cleanup_observation(container_id: &str, absent: bool) -> (r: [u8; 32])
    ensures
        r@ == cleanup_observation(container_id@, absent),
{
    let head = bytes_concat(
        "ferrocrate/internal-cleanup-observation/v1".as_bytes(),
        container_id.as_bytes(),
    );
    let flag: [u8; 1] = [if absent { 1u8 } else { 0u8 }];
    let data = bytes_concat(head.as_slice(), &flag);
    proof {
        assert(flag@ =~= seq![if absent { 1u8 } else { 0u8 }]);
    }
    sha256(data.as_slice())
}

} // verus!

verus! {

/// What the host shows at a network namespace's path.
#[derive(Debug, Clone, Copy, PartialEq, Eq, Structural)]
pub enum NetnsObservation {
    Missing,
    Present { device: u64, inode: u64 },
    Unreadable,
}

/// The namespace that rollback may delete, and whether an identity
/// mismatch must quarantine cleanup. A namespace that creation did not own
/// is never deleted. Without network ownership, a recorded identity must
/// still match the path (a missing path needs nothing), and a namespace
/// without a recorded identity is refused by name alone when it exists.
pub open spec fn netns_cleanup(
    name: Option<Seq<char>>,
    owned: bool,
    identity: Option<KernelObjectIdentityRecord>,
    has_ownership: bool,
    observed: NetnsObservation,
) -> (Option<Seq<char>>, bool) {
    match name {
        None => (None, false),
        Some(n) => if !owned {
            (None, false)
        } else if has_ownership {
            (Some(n), false)
        } else {
            match identity {
                Some(expected) => match observed {
                    NetnsObservation::Present { device, inode } => if device == expected.device
                        && inode == expected.inode {
                        (Some(n), false)
                    } else {
                        (None, true)
                    },
                    NetnsObservation::Missing => (None, false),
                    NetnsObservation::Unreadable => (None, true),
                },
                None => (None, observed is Present),
            }
        },
    }
}

pub fn rollback_netns_target(
    name: &Option<String>,
    owned: bool,
    identity: Option<KernelObjectIdentityRecord>,
    has_ownership: bool,
    observed: NetnsObservation,
) -> (r: (Option<String>, bool))
    ensures
        (match r.0 {
            Some(s) => Some(s@),
            None => None,
        }, r.1) == netns_cleanup(
            match name {
                Some(s) => Some(s@),
                None => None,
            },
            owned,
            identity,
            has_ownership,
            observed,
        ),
{
    match name {
        None => (None, false),
        Some(n) => {
            if !owned {
                (None, false)
            } else if has_ownership {
                (Some(n.clone()), false)
            } else {
                match identity {
                    Some(expected) => match observed {
                        NetnsObservation::Present { device, inode } => {
                            if device == expected.device && inode == expected.inode {
                                (Some(n.clone()), false)
                            } else {
                                (None, true)
                            }
                        },
                        NetnsObservation::Missing => (None, false),
                        NetnsObservation::Unreadable => (None, true),
                    },
                    None => (None, matches!(observed, NetnsObservation::Present { .. })),
                }
            }
        },
    }
}

/// What rollback does with an interface that creation made.
#[derive(Debug, Clone, Copy, PartialEq, Eq, Structural)]
pub enum InterfaceAction {
    /// Nothing is there any more.
    Leave,
    /// It is still the one created: delete it.
    Delete,
    /// Something else has its name: refuse, and quarantine.
    Refuse,
}

/// A host veth is deleted only while it still has the interface index
/// recorded at creation; a missing one needs nothing.
pub open spec fn veth_action(exists: bool, actual: Option<u32>, expected: Option<u32>) -> InterfaceAction {
    if !exists {
        InterfaceAction::Leave
    } else if actual is Some && expected == actual {
        InterfaceAction::Delete
    } else {
        InterfaceAction::Refuse
    }
}

pub fn owned_veth_action(exists: bool, actual: Option<u32>, expected: Option<u32>) -> (r:
    InterfaceAction)
    ensures
        r == veth_action(exists, actual, expected),
{
    if !exists {
        InterfaceAction::Leave
    } else {
        match actual {
            Some(a) => match expected {
                Some(e) => if a == e {
                    InterfaceAction::Delete
                } else {
                    InterfaceAction::Refuse
                },
                None => InterfaceAction::Refuse,
            },
            None => InterfaceAction::Refuse,
        }
    }
}

/// A bridge is deleted only while it has the recorded interface index; one
/// whose index cannot be read is left alone.
pub open spec fn bridge_action(actual: Option<u32>, expected: Option<u32>) -> InterfaceAction {
    match actual {
        None => InterfaceAction::Leave,
        Some(a) => if expected == Some(a) {
            InterfaceAction::Delete
        } else {
            InterfaceAction::Refuse
        },
    }
}

pub fn owned_bridge_action(actual: Option<u32>, expected: Option<u32>) -> (r: InterfaceAction)
    ensures
        r == bridge_action(actual, expected),
{
    match actual {
        None => InterfaceAction::Leave,
        Some(a) => match expected {
            Some(e) => if a == e {
                InterfaceAction::Delete
            } else {
                InterfaceAction::Refuse
            },
            None => InterfaceAction::Refuse,
        },
    }
}

} // verus!
