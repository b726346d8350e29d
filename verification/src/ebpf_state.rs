//! How much of a container's owned shared-eBPF state is still on the host:
//! all of it, none of it, or a part (or something replaced), from what the
//! host shows of each owned pin, interface and classifier.

use crate::ebpf::{same_filter_slot, same_slot};
use crate::error::{ErrorView, RuntimeError};
use crate::network::ObservedNetworkState;
use crate::pin_cleanup::PinObservation;
use crate::records::{
    filter_eq, filters_view, pins_view, string_eq, EbpfFilterOwnershipRecord, FilterView,
    NetworkOwnershipRecord, PinView,
};
use vstd::prelude::*;
use vstd::string::StringExecFns;

verus! {

/// The interface and its index that a classifier was attached to, when it
/// names both (and the name is not empty).
pub open spec fn filter_interface(f: FilterView) -> Option<(Seq<char>, u32)> {
    match f.interface {
        Some(name) => if name.len() > 0 {
            match f.interface_ifindex {
                Some(i) => Some((name, i)),
                None => None,
            }
        } else {
            None
        },
        None => None,
    }
}

/// The index recorded for an interface name, the first entry with that name.
pub open spec fn lookup_interface(acc: Seq<(Seq<char>, u32)>, name: Seq<char>) -> Option<u32>
    decreases acc.len(),
{
    if acc.len() == 0 {
        None
    } else if acc[0].0 == name {
        Some(acc[0].1)
    } else {
        lookup_interface(acc.drop_first(), name)
    }
}

/// The distinct interfaces of the classifiers in the order they first
/// appear, or `None` when a classifier lacks its interface or index, or two
/// classifiers give one interface different indexes.
pub open spec fn interfaces_of(filters: Seq<FilterView>) -> Option<Seq<(Seq<char>, u32)>>
    decreases filters.len(),
{
    if filters.len() == 0 {
        Some(Seq::empty())
    } else {
        match interfaces_of(filters.drop_last()) {
            None => None,
            Some(acc) => match filter_interface(filters.last()) {
                None => None,
                Some((name, index)) => match lookup_interface(acc, name) {
                    Some(current) => if current == index {
                        Some(acc)
                    } else {
                        None
                    },
                    None => Some(acc.push((name, index))),
                },
            },
        }
    }
}

fn lookup_interface_exec(acc: &Vec<(String, u32)>, name: &str) -> (r: Option<u32>)
    ensures
        r == lookup_interface(interfaces_view(acc@), name@),
{
    let ghost v = interfaces_view(acc@);
    let mut i: usize = 0;
    assert(v.skip(0) =~= v);
    while i < acc.len()
        invariant
            v == interfaces_view(acc@),
            i <= acc@.len(),
            lookup_interface(v, name@) == lookup_interface(v.skip(i as int), name@),
        decreases acc.len() - i,
    {
        assert(v.skip(i as int)[0] == v[i as int]);
        assert(v.skip(i + 1) =~= v.skip(i as int).drop_first());
        if crate::text::str_eq(acc[i].0.as_str(), name) {
            return Some(acc[i].1);
        }
        i += 1;
    }
    None
}

pub open spec fn interfaces_view(v: Seq<(String, u32)>) -> Seq<(Seq<char>, u32)> {
    v.map_values(|e: (String, u32)| (e.0@, e.1))
}

/// The interfaces that a container's classifiers were attached to.
pub fn owned_ebpf_interfaces(filters: &[EbpfFilterOwnershipRecord]) -> (r: Option<Vec<(String, u32)>>)
    ensures
        match r {
            Some(v) => interfaces_of(filters_view(filters@)) == Some(interfaces_view(v@)),
            None => interfaces_of(filters_view(filters@)) is None,
        },
{
    let ghost fv = filters_view(filters@);
    let mut acc: Vec<(String, u32)> = Vec::new();
    let mut i: usize = 0;
    assert(interfaces_view(acc@) =~= Seq::<(Seq<char>, u32)>::empty());
    while i < filters.len()
        invariant
            i <= filters@.len(),
            fv == filters_view(filters@),
            interfaces_of(fv.take(i as int)) == Some(interfaces_view(acc@)),
        decreases filters.len() - i,
    {
        let ghost t = fv.take(i + 1);
        assert(t.drop_last() =~= fv.take(i as int));
        assert(t.last() == filters@[i as int]@);
        let f = &filters[i];
        let name = match &f.interface {
            Some(n) if n.as_str().unicode_len() > 0 => n,
            _ => {
                proof {
                    assert(interfaces_of(t) is None);
                    lemma_interfaces_none_extends(fv, i as int + 1);
                    assert(fv.take(fv.len() as int) =~= fv);
                }
                return None;
            },
        };
        let index = match f.interface_ifindex {
            Some(x) => x,
            None => {
                proof {
                    assert(interfaces_of(t) is None);
                    lemma_interfaces_none_extends(fv, i as int + 1);
                    assert(fv.take(fv.len() as int) =~= fv);
                }
                return None;
            },
        };
        match lookup_interface_exec(&acc, name.as_str()) {
            Some(current) => {
                if current != index {
                    proof {
                        assert(interfaces_of(t) is None);
                        lemma_interfaces_none_extends(fv, i as int + 1);
                        assert(fv.take(fv.len() as int) =~= fv);
                    }
                    return None;
                }
            },
            None => {
                let ghost a0 = interfaces_view(acc@);
                acc.push((String::from_str(name.as_str()), index));
                assert(interfaces_view(acc@) =~= a0.push((name@, index)));
            },
        }
        i += 1;
    }
    assert(fv.take(fv.len() as int) =~= fv);
    Some(acc)
}

/// Once the interfaces of a prefix of the classifiers are unusable, they are
/// unusable for every longer prefix.
proof fn lemma_interfaces_none_extends(fv: Seq<FilterView>, k: int)
    requires
        0 <= k <= fv.len(),
        interfaces_of(fv.take(k)) is None,
    ensures
        interfaces_of(fv.take(fv.len() as int)) is None,
    decreases fv.len() - k,
{
    if k < fv.len() {
        assert(fv.take(k + 1).drop_last() =~= fv.take(k));
        lemma_interfaces_none_extends(fv, k + 1);
    }
}

/// What the host shows of an interface that owned classifiers sit on.
#[derive(Debug)]
pub enum InterfaceObservation {
    /// The interface is gone.
    Absent,
    /// The interface exists with this index, and these classifiers are
    /// attached to it (ingress and egress).
    Present { ifindex: u32, filters: Vec<EbpfFilterOwnershipRecord> },
}

pub ghost enum InterfaceView {
    Absent,
    Present { ifindex: u32, filters: Seq<FilterView> },
}

impl View for InterfaceObservation {
    type V = InterfaceView;

    open spec fn view(&self) -> InterfaceView {
        match self {
            InterfaceObservation::Absent => InterfaceView::Absent,
            InterfaceObservation::Present { ifindex, filters } => InterfaceView::Present {
                ifindex: *ifindex,
                filters: filters_view(filters@),
            },
        }
    }
}

pub open spec fn observations_view(v: Seq<InterfaceObservation>) -> Seq<InterfaceView> {
    v.map_values(|o: InterfaceObservation| o@)
}

/// An owned pin is still there as captured.
pub open spec fn pin_matches(p: PinView, seen: PinObservation) -> bool {
    match seen {
        PinObservation::Present { symlink, directory, device, inode } => !symlink && device
            == p.device && inode == p.inode && directory == p.directory,
        PinObservation::Missing => false,
    }
}

/// Something other than the captured entry sits where an owned pin was.
pub open spec fn pin_replaced(pins: Seq<PinView>, seen: Seq<PinObservation>) -> bool {
    exists|i: int| 0 <= i < pins.len() && (#[trigger] seen[i]) is Present && !pin_matches(pins[i], seen[i])
}

/// How many owned pins are there as captured.
pub open spec fn pins_present(pins: Seq<PinView>, seen: Seq<PinObservation>) -> nat
    decreases pins.len(),
{
    if pins.len() == 0 {
        0
    } else {
        pins_present(pins.drop_last(), seen) + if pin_matches(pins.last(), seen[pins.len() - 1]) {
            1nat
        } else {
            0nat
        }
    }
}

/// How many owned pins are gone.
pub open spec fn pins_missing(pins: Seq<PinView>, seen: Seq<PinObservation>) -> nat
    decreases pins.len(),
{
    if pins.len() == 0 {
        0
    } else {
        pins_missing(pins.drop_last(), seen) + if seen[pins.len() - 1] is Missing {
            1nat
        } else {
            0nat
        }
    }
}

/// An interface now has another index than its classifiers recorded.
pub open spec fn interface_renumbered(ifs: Seq<(Seq<char>, u32)>, obs: Seq<InterfaceView>) -> bool {
    exists|j: int|
        0 <= j < ifs.len() && (#[trigger] obs[j] matches InterfaceView::Present { ifindex, .. }
            && ifindex != ifs[j].1)
}

/// A classifier equal to `f` is attached to the interface.
pub open spec fn interface_holds(o: InterfaceView, f: FilterView) -> bool {
    o matches InterfaceView::Present { filters, .. } && filters.contains(f)
}

/// A classifier in `f`'s slot is attached to the interface.
pub open spec fn interface_slot_taken(o: InterfaceView, f: FilterView) -> bool {
    o matches InterfaceView::Present { filters, .. } && exists|k: int|
        0 <= k < filters.len() && same_slot(f, #[trigger] filters[k])
}

/// A classifier equal to `f` is attached to one of the observed interfaces.
pub open spec fn observed_contains(obs: Seq<InterfaceView>, f: FilterView) -> bool {
    exists|j: int| 0 <= j < obs.len() && #[trigger] interface_holds(obs[j], f)
}

/// A classifier in `f`'s slot is attached to one of the observed interfaces.
pub open spec fn observed_slot_taken(obs: Seq<InterfaceView>, f: FilterView) -> bool {
    exists|j: int| 0 <= j < obs.len() && #[trigger] interface_slot_taken(obs[j], f)
}

/// Some owned classifier is gone while another sits in its slot.
pub open spec fn filter_replaced(filters: Seq<FilterView>, obs: Seq<InterfaceView>) -> bool {
    exists|i: int|
        0 <= i < filters.len() && !observed_contains(obs, #[trigger] filters[i]) && observed_slot_taken(
            obs,
            filters[i],
        )
}

/// How many owned classifiers are attached as recorded.
pub open spec fn filters_present(filters: Seq<FilterView>, obs: Seq<InterfaceView>) -> nat
    decreases filters.len(),
{
    if filters.len() == 0 {
        0
    } else {
        filters_present(filters.drop_last(), obs) + if observed_contains(obs, filters.last()) {
            1nat
        } else {
            0nat
        }
    }
}

/// The state of a container's owned shared-eBPF objects. A record without
/// pins or classifiers, a pin or classifier slot taken by something else, a
/// classifier without its interface, or a renumbered interface is a partial
/// (or replaced) state; otherwise it is complete when every pin and
/// classifier is there, completely missing when none is, and partial
/// between.
pub open spec fn owned_ebpf_state(
    o: NetworkOwnershipRecord,
    seen: Seq<PinObservation>,
    obs: Seq<InterfaceView>,
) -> Result<ObservedNetworkState, ErrorView> {
    let pins = pins_view(o.ebpf_pins@);
    let filters = filters_view(o.ebpf_filters@);
    if pins.len() == 0 || filters.len() == 0 {
        Ok(ObservedNetworkState::PartialOrReplaced)
    } else if o.ebpf_pin_path is None {
        Err(ErrorView::Network("shared eBPF pin root is missing"@))
    } else if pin_replaced(pins, seen) {
        Ok(ObservedNetworkState::PartialOrReplaced)
    } else {
        match interfaces_of(filters) {
            None => Ok(ObservedNetworkState::PartialOrReplaced),
            Some(ifs) => if interface_renumbered(ifs, obs) || filter_replaced(filters, obs) {
                Ok(ObservedNetworkState::PartialOrReplaced)
            } else if pins_present(pins, seen) == pins.len() && filters_present(filters, obs)
                == filters.len() {
                Ok(ObservedNetworkState::Complete)
            } else if pins_missing(pins, seen) == pins.len() && filters_present(filters, obs) == 0 {
                Ok(ObservedNetworkState::CompletelyMissing)
            } else {
                Ok(ObservedNetworkState::PartialOrReplaced)
            },
        }
    }
}

fn observation_contains(obs: &[InterfaceObservation], f: &EbpfFilterOwnershipRecord) -> (r: (
    bool,
    bool,
))
    ensures
        r.0 == observed_contains(observations_view(obs@), f@),
        r.1 == observed_slot_taken(observations_view(obs@), f@),
{
    let ghost ov = observations_view(obs@);
    let mut contains = false;
    let mut taken = false;
    let mut j: usize = 0;
    while j < obs.len()
        invariant
            j <= obs@.len(),
            ov == observations_view(obs@),
            contains == exists|m: int| 0 <= m < j && #[trigger] interface_holds(ov[m], f@),
            taken == exists|m: int| 0 <= m < j && #[trigger] interface_slot_taken(ov[m], f@),
        decreases obs.len() - j,
    {
        assert(ov[j as int] == obs@[j as int]@);
        match &obs[j] {
            InterfaceObservation::Absent => {
                assert(!interface_holds(ov[j as int], f@));
                assert(!interface_slot_taken(ov[j as int], f@));
            },
            InterfaceObservation::Present { filters, .. } => {
                let ghost fv = filters_view(filters@);
                let mut k: usize = 0;
                let mut here = false;
                let mut slot = false;
                while k < filters.len()
                    invariant
                        k <= filters@.len(),
                        fv == filters_view(filters@),
                        here == exists|q: int| 0 <= q < k && fv[q] == f@,
                        slot == exists|q: int| 0 <= q < k && same_slot(f@, #[trigger] fv[q]),
                    decreases filters.len() - k,
                {
                    if filter_eq(&filters[k], f) {
                        assert(fv[k as int] == f@);
                        here = true;
                    }
                    if same_filter_slot(f, &filters[k]) {
                        assert(same_slot(f@, fv[k as int]));
                        slot = true;
                    }
                    k += 1;
                }
                if here {
                    assert(fv.contains(f@));
                    assert(interface_holds(ov[j as int], f@));
                    contains = true;
                } else {
                    assert(!fv.contains(f@));
                    assert(!interface_holds(ov[j as int], f@));
                }
                if slot {
                    assert(interface_slot_taken(ov[j as int], f@));
                    taken = true;
                } else {
                    assert(!interface_slot_taken(ov[j as int], f@));
                }
            },
        }
        j += 1;
    }
    (contains, taken)
}

/// Classifies a container's owned shared-eBPF state from what the host
/// shows: `seen` of each owned pin (in the record's order), and
/// `interfaces` of each interface that `owned_ebpf_interfaces` lists (in its
/// order).
pub fn classify_owned_ebpf_state(
    ownership: &NetworkOwnershipRecord,
    seen: &[PinObservation],
    interfaces: &[InterfaceObservation],
) -> (r: Result<ObservedNetworkState, RuntimeError>)
    requires
        seen@.len() == ownership.ebpf_pins@.len(),
        interfaces_of(filters_view(ownership.ebpf_filters@)) matches Some(ifs) ==> interfaces@.len()
            == ifs.len(),
    ensures
        match r {
            Ok(s) => owned_ebpf_state(*ownership, seen@, observations_view(interfaces@)) == Ok::<
                ObservedNetworkState,
                ErrorView,
            >(s),
            Err(e) => owned_ebpf_state(*ownership, seen@, observations_view(interfaces@)) == Err::<
                ObservedNetworkState,
                ErrorView,
            >(e@),
        },
{
    let ghost pins = pins_view(ownership.ebpf_pins@);
    let ghost filters = filters_view(ownership.ebpf_filters@);
    let ghost ov = observations_view(interfaces@);
    if ownership.ebpf_pins.len() == 0 || ownership.ebpf_filters.len() == 0 {
        return Ok(ObservedNetworkState::PartialOrReplaced);
    }
    if ownership.ebpf_pin_path.is_none() {
        return Err(RuntimeError::Network(String::from_str("shared eBPF pin root is missing")));
    }
    let mut present: usize = 0;
    let mut missing: usize = 0;
    let mut i: usize = 0;
    while i < ownership.ebpf_pins.len()
        invariant
            i <= pins.len(),
            pins == pins_view(ownership.ebpf_pins@),
            filters == filters_view(ownership.ebpf_filters@),
            pins.len() > 0,
            filters.len() > 0,
            ownership.ebpf_pin_path is Some,
            seen@.len() == pins.len(),
            present == pins_present(pins.take(i as int), seen@),
            missing == pins_missing(pins.take(i as int), seen@),
            present + missing <= i,
            forall|m: int| 0 <= m < i ==> !((#[trigger] seen@[m]) is Present && !pin_matches(pins[m], seen@[m])),
        decreases pins.len() - i,
    {
        let p = &ownership.ebpf_pins[i];
        assert(pins.take(i + 1).drop_last() =~= pins.take(i as int));
        assert(pins.take(i + 1).last() == p@);
        match seen[i] {
            PinObservation::Missing => {
                missing += 1;
            },
            PinObservation::Present { symlink, directory, device, inode } => {
                if !symlink && device == p.device && inode == p.inode && directory == p.directory {
                    present += 1;
                } else {
                    assert(seen@[i as int] is Present && !pin_matches(pins[i as int], seen@[i as int]));
                    assert(pin_replaced(pins, seen@));
                    return Ok(ObservedNetworkState::PartialOrReplaced);
                }
            },
        }
        i += 1;
    }
    assert(pins.take(pins.len() as int) =~= pins);
    assert(!pin_replaced(pins, seen@));
    let ifs = match owned_ebpf_interfaces(ownership.ebpf_filters.as_slice()) {
        None => {
            return Ok(ObservedNetworkState::PartialOrReplaced);
        },
        Some(v) => v,
    };
    let ghost ifv = interfaces_view(ifs@);
    let mut j: usize = 0;
    while j < ifs.len()
        invariant
            j <= ifv.len(),
            ifv == interfaces_view(ifs@),
            pins == pins_view(ownership.ebpf_pins@),
            filters == filters_view(ownership.ebpf_filters@),
            pins.len() > 0,
            filters.len() > 0,
            ownership.ebpf_pin_path is Some,
            !pin_replaced(pins, seen@),
            interfaces_of(filters) == Some(ifv),
            interfaces@.len() == ifv.len(),
            ov == observations_view(interfaces@),
            forall|m: int| 0 <= m < j ==> !(#[trigger] ov[m] matches InterfaceView::Present { ifindex, .. }
                && ifindex != ifv[m].1),
        decreases ifs.len() - j,
    {
        assert(ov[j as int] == interfaces@[j as int]@);
        match &interfaces[j] {
            InterfaceObservation::Present { ifindex, .. } => {
                if *ifindex != ifs[j].1 {
                    assert(interface_renumbered(ifv, ov));
                    return Ok(ObservedNetworkState::PartialOrReplaced);
                }
            },
            InterfaceObservation::Absent => {},
        }
        j += 1;
    }
    assert(!interface_renumbered(ifv, ov));
    let mut fp: usize = 0;
    let mut k: usize = 0;
    while k < ownership.ebpf_filters.len()
        invariant
            k <= filters.len(),
            pins == pins_view(ownership.ebpf_pins@),
            filters == filters_view(ownership.ebpf_filters@),
            pins.len() > 0,
            filters.len() > 0,
            ownership.ebpf_pin_path is Some,
            !pin_replaced(pins, seen@),
            interfaces_of(filters) == Some(ifv),
            !interface_renumbered(ifv, ov),
            ov == observations_view(interfaces@),
            fp == filters_present(filters.take(k as int), ov),
            fp <= k,
            forall|m: int| 0 <= m < k ==> !(!observed_contains(ov, #[trigger] filters[m]) && observed_slot_taken(ov, filters[m])),
        decreases filters.len() - k,
    {
        let f = &ownership.ebpf_filters[k];
        assert(filters.take(k + 1).drop_last() =~= filters.take(k as int));
        assert(filters.take(k + 1).last() == f@);
        let (contains, taken) = observation_contains(interfaces, f);
        if contains {
            fp += 1;
        } else if taken {
            assert(filter_replaced(filters, ov)) by {
                assert(filters[k as int] == f@);
            }
            return Ok(ObservedNetworkState::PartialOrReplaced);
        }
        k += 1;
    }
    assert(filters.take(filters.len() as int) =~= filters);
    assert(!filter_replaced(filters, ov));
    if present == ownership.ebpf_pins.len() && fp == ownership.ebpf_filters.len() {
        Ok(ObservedNetworkState::Complete)
    } else if missing == ownership.ebpf_pins.len() && fp == 0 {
        Ok(ObservedNetworkState::CompletelyMissing)
    } else {
        Ok(ObservedNetworkState::PartialOrReplaced)
    }
}

/// Why the classifiers' interfaces cannot be listed, as cleanup reports it:
/// the first classifier without an interface and index, or that gives an
/// interface another index than an earlier one.
pub open spec fn interfaces_error(filters: Seq<FilterView>) -> Option<ErrorView>
    decreases filters.len(),
{
    if filters.len() == 0 {
        None
    } else {
        match interfaces_error(filters.drop_last()) {
            Some(e) => Some(e),
            None => match filter_interface(filters.last()) {
                None => Some(ErrorView::Network("malformed eBPF filter interface identity"@)),
                Some((name, index)) => match lookup_interface(interfaces_of(filters.drop_last())->0, name) {
                    Some(current) => if current == index {
                        None
                    } else {
                        Some(ErrorView::Network("conflicting eBPF filter interface identities"@))
                    },
                    None => None,
                },
            },
        }
    }
}

proof fn lemma_interfaces_error_iff(filters: Seq<FilterView>)
    ensures
        interfaces_error(filters) is None <==> interfaces_of(filters) is Some,
    decreases filters.len(),
{
    if filters.len() > 0 {
        lemma_interfaces_error_iff(filters.drop_last());
    }
}

/// The interfaces of an owned record's classifiers, for their cleanup.
pub fn owned_filter_interfaces(filters: &[EbpfFilterOwnershipRecord]) -> (r: Result<
    Vec<(String, u32)>,
    RuntimeError,
>)
    ensures
        match r {
            Ok(v) => interfaces_of(filters_view(filters@)) == Some(interfaces_view(v@)),
            Err(e) => interfaces_error(filters_view(filters@)) == Some(e@),
        },
{
    let ghost fv = filters_view(filters@);
    let mut acc: Vec<(String, u32)> = Vec::new();
    let mut i: usize = 0;
    assert(interfaces_view(acc@) =~= Seq::<(Seq<char>, u32)>::empty());
    while i < filters.len()
        invariant
            i <= filters@.len(),
            fv == filters_view(filters@),
            interfaces_of(fv.take(i as int)) == Some(interfaces_view(acc@)),
            interfaces_error(fv.take(i as int)) is None,
        decreases filters.len() - i,
    {
        let ghost t = fv.take(i + 1);
        assert(t.drop_last() =~= fv.take(i as int));
        assert(t.last() == filters@[i as int]@);
        let f = &filters[i];
        let name = match &f.interface {
            Some(n) if n.as_str().unicode_len() > 0 => n,
            _ => {
                proof {
                    lemma_interfaces_error_prefix(fv, i as int + 1);
                    assert(fv.take(fv.len() as int) =~= fv);
                }
                return Err(
                    RuntimeError::Network(String::from_str("malformed eBPF filter interface identity")),
                );
            },
        };
        let index = match f.interface_ifindex {
            Some(x) => x,
            None => {
                proof {
                    lemma_interfaces_error_prefix(fv, i as int + 1);
                    assert(fv.take(fv.len() as int) =~= fv);
                }
                return Err(
                    RuntimeError::Network(String::from_str("malformed eBPF filter interface identity")),
                );
            },
        };
        match lookup_interface_exec(&acc, name.as_str()) {
            Some(current) => {
                if current != index {
                    proof {
                        lemma_interfaces_error_prefix(fv, i as int + 1);
                        assert(fv.take(fv.len() as int) =~= fv);
                    }
                    return Err(
                        RuntimeError::Network(
                            String::from_str("conflicting eBPF filter interface identities"),
                        ),
                    );
                }
            },
            None => {
                let ghost a0 = interfaces_view(acc@);
                acc.push((String::from_str(name.as_str()), index));
                assert(interfaces_view(acc@) =~= a0.push((name@, index)));
            },
        }
        i += 1;
    }
    assert(fv.take(fv.len() as int) =~= fv);
    Ok(acc)
}

/// The first error of a prefix stays the first error of the whole list.
proof fn lemma_interfaces_error_prefix(fv: Seq<FilterView>, k: int)
    requires
        0 <= k <= fv.len(),
        interfaces_error(fv.take(k)) is Some,
    ensures
        interfaces_error(fv.take(fv.len() as int)) == interfaces_error(fv.take(k)),
    decreases fv.len() - k,
{
    if k < fv.len() {
        assert(fv.take(k + 1).drop_last() =~= fv.take(k));
        lemma_interfaces_error_prefix(fv, k + 1);
    }
}

/// Before an owned eBPF attachment is removed, its record must name the
/// managed interface, hold its four classifiers and some pins.
pub open spec fn ebpf_cleanup_precheck_of(o: NetworkOwnershipRecord) -> Result<(), ErrorView> {
    if o.managed_interface is None {
        Err(ErrorView::Network("eBPF ownership has no managed interface"@))
    } else if o.ebpf_filters@.len() != 4 || o.ebpf_pins@.len() == 0 {
        Err(ErrorView::Network("malformed eBPF ownership metadata"@))
    } else {
        Ok(())
    }
}

pub fn ebpf_cleanup_precheck(ownership: &NetworkOwnershipRecord) -> (r: Result<(), RuntimeError>)
    ensures
        match r {
            Ok(()) => ebpf_cleanup_precheck_of(*ownership) is Ok,
            Err(e) => ebpf_cleanup_precheck_of(*ownership) == Err::<(), ErrorView>(e@),
        },
{
    if ownership.managed_interface.is_none() {
        return Err(RuntimeError::Network(String::from_str("eBPF ownership has no managed interface")));
    }
    if ownership.ebpf_filters.len() != 4 || ownership.ebpf_pins.len() == 0 {
        return Err(RuntimeError::Network(String::from_str("malformed eBPF ownership metadata")));
    }
    Ok(())
}

/// A classifier record complete enough to delete by: a direction, a
/// non-zero priority, a hexadecimal handle, its interface and index, and its
/// program's id and tag.
pub open spec fn deletable_filter(f: FilterView) -> bool {
    &&& f.direction == "ingress"@ || f.direction == "egress"@
    &&& f.priority != 0
    &&& f.handle.len() > 0
    &&& f.interface matches Some(i) && i.len() > 0
    &&& f.interface_ifindex is Some
    &&& f.program_id is Some
    &&& f.program_tag matches Some(t) && t.len() > 0
    &&& forall|k: int| 0 <= k < f.handle.len() ==> crate::host::is_hex_digit(#[trigger] f.handle[k])
        || f.handle[k] == 'x'
}

/// The command that deletes a classifier.
pub open spec fn filter_delete_command(f: FilterView) -> Seq<Seq<char>> {
    seq![
        "tc"@,
        "filter"@,
        "delete"@,
        "dev"@,
        f.interface->0,
        f.direction,
        "pref"@,
        crate::text::decimal(f.priority as nat),
        "handle"@,
        f.handle,
        "bpf"@,
    ]
}

/// What cleanup does with each owned classifier still attached, in record
/// order: its delete command, or the error that stops cleanup there.
pub open spec fn filter_deletions_of(filters: Seq<FilterView>, obs: Seq<InterfaceView>) -> Seq<
    Result<Seq<Seq<char>>, ErrorView>,
>
    decreases filters.len(),
{
    if filters.len() == 0 {
        Seq::empty()
    } else {
        let prev = filter_deletions_of(filters.drop_last(), obs);
        let f = filters.last();
        if !observed_contains(obs, f) {
            prev
        } else if deletable_filter(f) {
            prev.push(Ok(filter_delete_command(f)))
        } else {
            prev.push(Err(ErrorView::Network("malformed eBPF filter ownership"@)))
        }
    }
}

/// Whether cleanup of the classifiers can go ahead: no owned interface was
/// renumbered and no owned classifier's slot is taken by another.
pub open spec fn filter_cleanup_check(
    ifs: Seq<(Seq<char>, u32)>,
    filters: Seq<FilterView>,
    obs: Seq<InterfaceView>,
) -> Result<(), ErrorView> {
    if interface_renumbered(ifs, obs) {
        Err(ErrorView::Network("owned eBPF filter interface was replaced"@))
    } else if filter_replaced(filters, obs) {
        Err(ErrorView::Network("owned eBPF filter was replaced"@))
    } else {
        Ok(())
    }
}

pub open spec fn deletions_view(v: Seq<Result<Vec<String>, RuntimeError>>) -> Seq<
    Result<Seq<Seq<char>>, ErrorView>,
> {
    v.map_values(
        |x: Result<Vec<String>, RuntimeError>|
            match x {
                Ok(c) => Ok(crate::text::strs_of(c@)),
                Err(e) => Err(e@),
            },
    )
}

fn is_deletable(f: &EbpfFilterOwnershipRecord) -> (r: bool)
    ensures
        r == deletable_filter(f@),
{
    let direction_ok = crate::text::str_eq(f.direction.as_str(), "ingress") || crate::text::str_eq(
        f.direction.as_str(),
        "egress",
    );
    let interface_ok = match &f.interface {
        Some(i) => i.as_str().unicode_len() > 0,
        None => false,
    };
    let tag_ok = match &f.program_tag {
        Some(t) => t.as_str().unicode_len() > 0,
        None => false,
    };
    let h = crate::text::chars_of(f.handle.as_str());
    let mut hex_ok = true;
    let mut k: usize = 0;
    while k < h.len()
        invariant
            k <= h@.len(),
            h@ == f.handle@,
            hex_ok == forall|q: int| 0 <= q < k ==> crate::host::is_hex_digit(#[trigger] h@[q]) || h@[q] == 'x',
        decreases h.len() - k,
    {
        let c = h[k];
        if !(('0' <= c && c <= '9') || ('a' <= c && c <= 'f') || ('A' <= c && c <= 'F') || c == 'x') {
            hex_ok = false;
        }
        k += 1;
    }
    direction_ok && f.priority != 0 && h.len() > 0 && interface_ok && f.interface_ifindex.is_some()
        && f.program_id.is_some() && tag_ok && hex_ok
}

/// What cleanup does with the owned classifiers, given what the host shows
/// of each interface that `owned_filter_interfaces` lists (in its order):
/// refused when an interface was renumbered or a classifier's slot taken;
/// otherwise, for each owned classifier still attached, its delete command,
/// or the error at which cleanup stops.
pub fn owned_filter_deletions(
    ownership: &NetworkOwnershipRecord,
    interfaces: &Vec<(String, u32)>,
    seen: &[InterfaceObservation],
) -> (r: Result<Vec<Result<Vec<String>, RuntimeError>>, RuntimeError>)
    requires
        seen@.len() == interfaces@.len(),
    ensures
        match r {
            Ok(d) => filter_cleanup_check(
                interfaces_view(interfaces@),
                filters_view(ownership.ebpf_filters@),
                observations_view(seen@),
            ) is Ok && deletions_view(d@) == filter_deletions_of(
                filters_view(ownership.ebpf_filters@),
                observations_view(seen@),
            ),
            Err(e) => filter_cleanup_check(
                interfaces_view(interfaces@),
                filters_view(ownership.ebpf_filters@),
                observations_view(seen@),
            ) == Err::<(), ErrorView>(e@),
        },
{
    let ghost ifv = interfaces_view(interfaces@);
    let ghost ov = observations_view(seen@);
    let ghost filters = filters_view(ownership.ebpf_filters@);
    let mut j: usize = 0;
    while j < interfaces.len()
        invariant
            j <= ifv.len(),
            ifv == interfaces_view(interfaces@),
            seen@.len() == ifv.len(),
            ov == observations_view(seen@),
            forall|m: int| 0 <= m < j ==> !(#[trigger] ov[m] matches InterfaceView::Present { ifindex, .. }
                && ifindex != ifv[m].1),
        decreases interfaces.len() - j,
    {
        assert(ov[j as int] == seen@[j as int]@);
        match &seen[j] {
            InterfaceObservation::Present { ifindex, .. } => {
                if *ifindex != interfaces[j].1 {
                    assert(interface_renumbered(ifv, ov));
                    return Err(
                        RuntimeError::Network(String::from_str("owned eBPF filter interface was replaced")),
                    );
                }
            },
            InterfaceObservation::Absent => {},
        }
        j += 1;
    }
    assert(!interface_renumbered(ifv, ov));
    let mut out: Vec<Result<Vec<String>, RuntimeError>> = Vec::new();
    let mut k: usize = 0;
    assert(deletions_view(out@) =~= filter_deletions_of(filters.take(0), ov));
    while k < ownership.ebpf_filters.len()
        invariant
            k <= filters.len(),
            filters == filters_view(ownership.ebpf_filters@),
            ov == observations_view(seen@),
            ifv == interfaces_view(interfaces@),
            !interface_renumbered(ifv, ov),
            deletions_view(out@) == filter_deletions_of(filters.take(k as int), ov),
            forall|m: int| 0 <= m < k ==> !(!observed_contains(ov, #[trigger] filters[m]) && observed_slot_taken(ov, filters[m])),
        decreases filters.len() - k,
    {
        let f = &ownership.ebpf_filters[k];
        assert(filters.take(k + 1).drop_last() =~= filters.take(k as int));
        assert(filters.take(k + 1).last() == f@);
        let (contains, taken) = observation_contains(seen, f);
        if contains {
            let ghost o0 = deletions_view(out@);
            if is_deletable(f) {
                let command = vec![
                    String::from_str("tc"),
                    String::from_str("filter"),
                    String::from_str("delete"),
                    String::from_str("dev"),
                    match &f.interface {
                        Some(i) => String::from_str(i.as_str()),
                        None => String::new(),
                    },
                    String::from_str(f.direction.as_str()),
                    String::from_str("pref"),
                    crate::text::decimal_string(f.priority as u64),
                    String::from_str("handle"),
                    String::from_str(f.handle.as_str()),
                    String::from_str("bpf"),
                ];
                assert(crate::text::strs_of(command@) =~= filter_delete_command(f@));
                out.push(Ok(command));
                assert(deletions_view(out@) =~= o0.push(Ok(filter_delete_command(f@))));
            } else {
                out.push(Err(RuntimeError::Network(String::from_str("malformed eBPF filter ownership"))));
                assert(deletions_view(out@) =~= o0.push(
                    Err(ErrorView::Network("malformed eBPF filter ownership"@)),
                ));
            }
        } else if taken {
            assert(filter_replaced(filters, ov)) by {
                assert(filters[k as int] == f@);
            }
            return Err(RuntimeError::Network(String::from_str("owned eBPF filter was replaced")));
        }
        k += 1;
    }
    assert(filters.take(filters.len() as int) =~= filters);
    assert(!filter_replaced(filters, ov));
    Ok(out)
}

} // verus!
