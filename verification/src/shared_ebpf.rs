//! The containers that share one eBPF network, the check that their records
//! agree about the shared objects before those are reused or reloaded, and
//! the check of the pinned objects before a container's entries in them are
//! changed.

use crate::ebpf::{same_shared_ebpf, same_shared_ebpf_ownership};
use crate::error::{ErrorView, RuntimeError};
use crate::records::{
    opt_str, opt_string_is, pin_eq, pins_view, ContainerRecord, EbpfPinOwnershipRecord,
    NetworkOwnershipRecord, PinView,
};
use vstd::prelude::*;
use vstd::string::StringExecFns;

verus! {

/// A record runs on the eBPF backend in the network `network_id`.
pub open spec fn is_shared_member(r: ContainerRecord, network_id: Seq<char>) -> bool {
    opt_str(r.network_backend) == Some("ebpf"@) && (r.network_ownership matches Some(o) && opt_str(
        o.network_id,
    ) == Some(network_id))
}

/// The positions, in order, of the first `n` records that are members of
/// the network `network_id`.
pub open spec fn member_indices(records: Seq<ContainerRecord>, network_id: Seq<char>, n: int) -> Seq<usize>
    decreases n,
{
    if n <= 0 {
        Seq::<usize>::empty()
    } else {
        let prev = member_indices(records, network_id, n - 1);
        if is_shared_member(records[n - 1], network_id) {
            prev.push((n - 1) as usize)
        } else {
            prev
        }
    }
}

/// The positions of the records that share the eBPF network `network_id`.
pub fn shared_ebpf_members(network_id: &str, records: &[ContainerRecord]) -> (r: Vec<usize>)
    ensures
        r@ == member_indices(records@, network_id@, records@.len() as int),
{
    let mut out: Vec<usize> = Vec::new();
    let mut i: usize = 0;
    while i < records.len()
        invariant
            i <= records@.len(),
            out@ == member_indices(records@, network_id@, i as int),
        decreases records.len() - i,
    {
        let r = &records[i];
        let member = opt_string_is(&r.network_backend, "ebpf") && match &r.network_ownership {
            Some(o) => opt_string_is(&o.network_id, network_id),
            None => false,
        };
        if member {
            out.push(i);
        }
        i += 1;
    }
    out
}

pub open spec fn missing_shared_ownership() -> ErrorView {
    ErrorView::Network("shared eBPF ownership is missing"@)
}

/// The first refusal among `rest`: a record without ownership, or one whose
/// ownership disagrees with `first` (reported as `disagreement`).
pub open spec fn group_disagreement(
    first: NetworkOwnershipRecord,
    rest: Seq<ContainerRecord>,
    disagreement: Seq<char>,
) -> Option<ErrorView>
    decreases rest.len(),
{
    if rest.len() == 0 {
        None
    } else {
        match rest[0].network_ownership {
            None => Some(missing_shared_ownership()),
            Some(o) => if !same_shared_ebpf(first, o) {
                Some(ErrorView::Network(disagreement))
            } else {
                group_disagreement(first, rest.drop_first(), disagreement)
            },
        }
    }
}

proof fn lemma_group_disagreement_step(
    first: NetworkOwnershipRecord,
    records: Seq<ContainerRecord>,
    i: int,
    disagreement: Seq<char>,
)
    requires
        0 <= i < records.len(),
    ensures
        group_disagreement(first, records.skip(i), disagreement) == match records[i].network_ownership {
            None => Some(missing_shared_ownership()),
            Some(o) => if !same_shared_ebpf(first, o) {
                Some(ErrorView::Network(disagreement))
            } else {
                group_disagreement(first, records.skip(i + 1), disagreement)
            },
        },
{
    let t = records.skip(i);
    assert(t[0] == records[i]);
    assert(t.drop_first() =~= records.skip(i + 1));
}

/// The ownership that a group of records is checked against: that of its
/// first record.
pub fn shared_group_owner(records: &[ContainerRecord]) -> (r: Result<
    &NetworkOwnershipRecord,
    RuntimeError,
>)
    ensures
        records@.len() == 0 ==> (r matches Err(e) && e@ == ErrorView::Network(
            "cannot reconcile an empty eBPF network"@,
        )),
        records@.len() > 0 ==> match records@[0].network_ownership {
            Some(o) => r matches Ok(f) && *f == o,
            None => r matches Err(e) && e@ == missing_shared_ownership(),
        },
{
    if records.len() == 0 {
        return Err(
            RuntimeError::Network(String::from_str("cannot reconcile an empty eBPF network")),
        );
    }
    match &records[0].network_ownership {
        Some(o) => Ok(o),
        None => Err(RuntimeError::Network(String::from_str("shared eBPF ownership is missing"))),
    }
}

/// Checks that every record from position `from` on carries an ownership
/// that agrees with `first`; the first refusal is reported.
pub fn verify_shared_group(
    first: &NetworkOwnershipRecord,
    records: &[ContainerRecord],
    from: usize,
    disagreement: &str,
) -> (r: Result<(), RuntimeError>)
    requires
        from <= records@.len(),
    ensures
        match group_disagreement(*first, records@.skip(from as int), disagreement@) {
            None => r is Ok,
            Some(e) => r matches Err(x) && x@ == e,
        },
{
    let mut i: usize = from;
    while i < records.len()
        invariant
            from <= i <= records@.len(),
            group_disagreement(*first, records@.skip(from as int), disagreement@)
                == group_disagreement(*first, records@.skip(i as int), disagreement@),
        decreases records.len() - i,
    {
        proof {
            lemma_group_disagreement_step(*first, records@, i as int, disagreement@);
        }
        match &records[i].network_ownership {
            None => {
                return Err(
                    RuntimeError::Network(String::from_str("shared eBPF ownership is missing")),
                );
            },
            Some(o) => {
                if !same_shared_ebpf_ownership(first, o) {
                    return Err(RuntimeError::Network(String::from_str(disagreement)));
                }
            },
        }
        i += 1;
    }
    proof {
        assert(records@.skip(i as int).len() == 0);
    }
    Ok(())
}

/// The pin tree of the network whose entries a container mutation changes:
/// the ownership must name its network and its pin directory.
pub fn ebpf_mutation_pin_root(ownership: &NetworkOwnershipRecord) -> (r: Result<
    &String,
    RuntimeError,
>)
    ensures
        ownership.network_id is None ==> (r matches Err(e) && e@ == ErrorView::Network(
            "eBPF ownership has no bridge network identity"@,
        )),
        ownership.network_id is Some ==> match ownership.ebpf_pin_path {
            Some(p) => r matches Ok(root) && *root == p,
            None => r matches Err(e) && e@ == ErrorView::Network("eBPF ownership has no pin path"@),
        },
{
    if ownership.network_id.is_none() {
        return Err(
            RuntimeError::Network(String::from_str("eBPF ownership has no bridge network identity")),
        );
    }
    match &ownership.ebpf_pin_path {
        Some(p) => Ok(p),
        None => Err(RuntimeError::Network(String::from_str("eBPF ownership has no pin path"))),
    }
}

/// The pins captured now are exactly as many as the recorded ones, and each
/// of them is recorded.
pub open spec fn captured_pins_match(recorded: Seq<PinView>, current: Seq<PinView>) -> bool {
    current.len() == recorded.len() && forall|i: int| 0 <= i < current.len() ==> recorded.contains(
        #[trigger] current[i],
    )
}

/// Checks the pins captured from the network's pin tree against the ones
/// its ownership recorded.
pub fn verify_captured_pins(ownership: &NetworkOwnershipRecord, current: &[EbpfPinOwnershipRecord]) -> (r:
    Result<(), RuntimeError>)
    ensures
        r is Ok <==> captured_pins_match(pins_view(ownership.ebpf_pins@), pins_view(current@)),
        r matches Err(e) ==> e@ == ErrorView::Network(
            "eBPF pin tree is incomplete, replaced, or foreign"@,
        ),
{
    let ghost rec = pins_view(ownership.ebpf_pins@);
    let ghost cur = pins_view(current@);
    let refused = RuntimeError::Network(
        String::from_str("eBPF pin tree is incomplete, replaced, or foreign"),
    );
    if current.len() != ownership.ebpf_pins.len() {
        return Err(refused);
    }
    let mut i: usize = 0;
    while i < current.len()
        invariant
            i <= current@.len(),
            rec == pins_view(ownership.ebpf_pins@),
            cur == pins_view(current@),
            cur.len() == rec.len(),
            refused@ == ErrorView::Network("eBPF pin tree is incomplete, replaced, or foreign"@),
            forall|k: int| 0 <= k < i ==> rec.contains(#[trigger] cur[k]),
        decreases current.len() - i,
    {
        let mut found = false;
        let mut j: usize = 0;
        while j < ownership.ebpf_pins.len()
            invariant
                i < current@.len(),
                j <= ownership.ebpf_pins@.len(),
                rec == pins_view(ownership.ebpf_pins@),
                cur == pins_view(current@),
                found == exists|k: int| 0 <= k < j && rec[k] == cur[i as int],
            decreases ownership.ebpf_pins.len() - j,
        {
            assert(rec[j as int] == ownership.ebpf_pins@[j as int]@);
            assert(cur[i as int] == current@[i as int]@);
            if pin_eq(&ownership.ebpf_pins[j], &current[i]) {
                found = true;
            }
            j += 1;
        }
        if !found {
            proof {
                assert(!rec.contains(cur[i as int]));
            }
            return Err(refused);
        }
        i += 1;
    }
    Ok(())
}

} // verus!
