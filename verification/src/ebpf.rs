//! eBPF ownership checks: classifier slots, shared-network identity,
//! pinned-object trees, orphan detection, and the security monitor's
//! configuration and audit text.

use crate::error::{ErrorView, RuntimeError};
use crate::records::{
    filter_eq, filters_eq, filters_view, opt_str, opt_string_eq, opt_string_is, pin_eq, pins_eq, pins_view,
    string_eq, EbpfFilterOwnershipRecord, EbpfPinOwnershipRecord, FilterView,
    NetworkOwnershipRecord, PinView,
};
use crate::text::{
    char_is_ascii_alnum, chars_of, concat, is_ascii_alnum, join, join_chars, lower, lower_chars,
    seqs_of, split_char, split_chars, starts_with, strings_chars, strings_of, strs_of, trim,
    trim_chars, chars_eq, chars_starts_with, has_infix, comma_items,
};
use vstd::prelude::*;
use vstd::string::StringExecFns;

verus! {

/// Two classifiers occupy the same slot: interface, its index, direction,
/// priority and handle agree.
pub open spec fn same_slot(l: FilterView, r: FilterView) -> bool {
    &&& l.interface == r.interface
    &&& l.interface_ifindex == r.interface_ifindex
    &&& l.direction == r.direction
    &&& l.priority == r.priority
    &&& l.handle == r.handle
}

pub fn same_filter_slot(left: &EbpfFilterOwnershipRecord, right: &EbpfFilterOwnershipRecord) -> (r:
    bool)
    ensures
        r == same_slot(left@, right@),
{
    opt_string_eq(&left.interface, &right.interface) && left.interface_ifindex
        == right.interface_ifindex && string_eq(&left.direction, &right.direction) && left.priority
        == right.priority && string_eq(&left.handle, &right.handle)
}

/// Two containers' records describe the same shared eBPF network.
pub open spec fn same_shared_ebpf(l: NetworkOwnershipRecord, r: NetworkOwnershipRecord) -> bool {
    &&& opt_str(l.network_id) == opt_str(r.network_id)
    &&& opt_str(l.managed_interface) == opt_str(r.managed_interface)
    &&& l.managed_ifindex == r.managed_ifindex
    &&& l.loopback_ifindex == r.loopback_ifindex
    &&& opt_str(l.ebpf_pin_path) == opt_str(r.ebpf_pin_path)
    &&& filters_view(l.ebpf_filters@) == filters_view(r.ebpf_filters@)
    &&& pins_view(l.ebpf_pins@) == pins_view(r.ebpf_pins@)
    &&& opt_str(l.external_ipv4) == opt_str(r.external_ipv4)
    &&& opt_str(l.next_hop_mac) == opt_str(r.next_hop_mac)
    &&& l.snat_port_start == r.snat_port_start
    &&& l.snat_port_end == r.snat_port_end
    &&& opt_str(l.object_sha256) == opt_str(r.object_sha256)
    &&& opt_str(l.object_abi) == opt_str(r.object_abi)
}

pub fn same_shared_ebpf_ownership(left: &NetworkOwnershipRecord, right: &NetworkOwnershipRecord) -> (r:
    bool)
    ensures
        r == same_shared_ebpf(*left, *right),
{
    opt_string_eq(&left.network_id, &right.network_id) && opt_string_eq(
        &left.managed_interface,
        &right.managed_interface,
    ) && left.managed_ifindex == right.managed_ifindex && left.loopback_ifindex
        == right.loopback_ifindex && opt_string_eq(&left.ebpf_pin_path, &right.ebpf_pin_path)
        && filters_eq(&left.ebpf_filters, &right.ebpf_filters) && pins_eq(
        &left.ebpf_pins,
        &right.ebpf_pins,
    ) && opt_string_eq(&left.external_ipv4, &right.external_ipv4) && opt_string_eq(
        &left.next_hop_mac,
        &right.next_hop_mac,
    ) && left.snat_port_start == right.snat_port_start && left.snat_port_end
        == right.snat_port_end && opt_string_eq(&left.object_sha256, &right.object_sha256)
        && opt_string_eq(&left.object_abi, &right.object_abi)
}

/// A pin root may be adopted only if no classifier is live on it.
pub fn validate_orphaned_ebpf_state(root: &str, filters_before: &[EbpfFilterOwnershipRecord]) -> (r:
    Result<(), RuntimeError>)
    ensures
        r is Ok <==> filters_before@.len() == 0,
        r matches Err(e) ==> e@ == ErrorView::Network(
            "eBPF pin path has live classifiers before attach: "@ + root@,
        ),
{
    if filters_before.len() > 0 {
        return Err(
            RuntimeError::Network(concat("eBPF pin path has live classifiers before attach: ", root)),
        );
    }
    Ok(())
}

/// What the check finds wrong with expected classifier `e`, given the live
/// classifiers: replaced when another program holds its slot, incomplete
/// when it is absent (only when every one is required).
pub open spec fn classifier_error(e: FilterView, observed: Seq<FilterView>, require_all: bool) -> Option<
    ErrorView,
> {
    if observed.contains(e) {
        None
    } else if exists|i: int| 0 <= i < observed.len() && same_slot(e, #[trigger] observed[i]) {
        Some(ErrorView::Network("eBPF classifier ownership was replaced"@))
    } else if require_all {
        Some(ErrorView::Network("eBPF classifier ownership is incomplete"@))
    } else {
        None
    }
}

pub open spec fn first_classifier_error(expected: Seq<FilterView>, observed: Seq<FilterView>, require_all: bool, i: int) -> bool {
    &&& 0 <= i < expected.len()
    &&& classifier_error(expected[i], observed, require_all) is Some
    &&& forall|j: int| 0 <= j < i ==> classifier_error(#[trigger] expected[j], observed, require_all) is None
}

/// Checks recorded classifiers against a snapshot of the live ones, in the
/// recorded order; the first problem is reported.
pub fn verify_ebpf_classifier_ownership_with(
    ownership: &NetworkOwnershipRecord,
    observed_filters: &[EbpfFilterOwnershipRecord],
    require_all: bool,
) -> (r: Result<(), RuntimeError>)
    ensures
        ownership.managed_interface is None ==> (r matches Err(e) && e@ == ErrorView::Network(
            "eBPF ownership has no managed interface"@,
        )),
        ownership.managed_interface is Some ==> (r is Ok <==> forall|i: int|
            0 <= i < ownership.ebpf_filters@.len() ==> classifier_error(
                #[trigger] filters_view(ownership.ebpf_filters@)[i],
                filters_view(observed_filters@),
                require_all,
            ) is None),
        r matches Err(e) ==> (ownership.managed_interface is Some ==> exists|i: int|
            first_classifier_error(
                filters_view(ownership.ebpf_filters@),
                filters_view(observed_filters@),
                require_all,
                i,
            ) && Some(e@) == classifier_error(
                filters_view(ownership.ebpf_filters@)[i],
                filters_view(observed_filters@),
                require_all,
            )),
{
    if ownership.managed_interface.is_none() {
        return Err(
            RuntimeError::Network(String::from_str("eBPF ownership has no managed interface")),
        );
    }
    let ghost ex = filters_view(ownership.ebpf_filters@);
    let ghost ob = filters_view(observed_filters@);
    let mut i: usize = 0;
    while i < ownership.ebpf_filters.len()
        invariant
            ownership.managed_interface is Some,
            ex == filters_view(ownership.ebpf_filters@),
            ob == filters_view(observed_filters@),
            i <= ex.len(),
            forall|j: int| 0 <= j < i ==> classifier_error(#[trigger] ex[j], ob, require_all) is None,
        decreases ownership.ebpf_filters.len() - i,
    {
        let expected = &ownership.ebpf_filters[i];
        assert(expected@ == ex[i as int]);
        let mut k: usize = 0;
        let mut present = false;
        let mut slot_taken = false;
        while k < observed_filters.len()
            invariant
                ob == filters_view(observed_filters@),
                k <= ob.len(),
                present == exists|m: int| 0 <= m < k && ob[m] == expected@,
                slot_taken == exists|m: int| 0 <= m < k && same_slot(expected@, #[trigger] ob[m]),
            decreases observed_filters.len() - k,
        {
            let o = &observed_filters[k];
            assert(o@ == ob[k as int]);
            if filter_eq(o, expected) {
                present = true;
            }
            if same_filter_slot(expected, o) {
                slot_taken = true;
            }
            k += 1;
        }
        proof {
            if present {
                let m = choose|m: int| 0 <= m < ob.len() && ob[m] == expected@;
                assert(ob.contains(expected@));
            } else {
                assert(!ob.contains(expected@));
            }
        }
        if !present {
            if slot_taken {
                proof {
                    assert(first_classifier_error(ex, ob, require_all, i as int));
                }
                return Err(
                    RuntimeError::Network(String::from_str("eBPF classifier ownership was replaced")),
                );
            }
            if require_all {
                proof {
                    assert(first_classifier_error(ex, ob, require_all, i as int));
                }
                return Err(
                    RuntimeError::Network(String::from_str("eBPF classifier ownership is incomplete")),
                );
            }
        }
        i += 1;
    }
    Ok(())
}

/// The root of an ownership record's pinned eBPF tree.
pub fn owned_ebpf_pin_root(ownership: &NetworkOwnershipRecord) -> (r: Result<String, RuntimeError>)
    ensures
        r matches Ok(p) ==> opt_str(ownership.ebpf_pin_path) == Some(p@),
        r matches Err(e) ==> ownership.ebpf_pin_path is None && e@ == ErrorView::Network(
            "eBPF ownership has no pin path"@,
        ),
{
    match &ownership.ebpf_pin_path {
        Some(p) => Ok(p.clone()),
        None => Err(RuntimeError::Network(String::from_str("eBPF ownership has no pin path"))),
    }
}

pub open spec fn is_first_path(ex: Seq<PinView>, path: Seq<char>, j: int) -> bool {
    &&& 0 <= j < ex.len()
    &&& ex[j].relative_path == path
    &&& forall|m: int| 0 <= m < j ==> (#[trigger] ex[m]).relative_path != path
}

/// What is wrong with live pin `p` of an owned tree: a path the record does
/// not list is foreign; a path whose first listing has another identity was
/// replaced.
pub open spec fn pin_error(ex: Seq<PinView>, p: PinView) -> Option<ErrorView> {
    if exists|j: int| is_first_path(ex, p.relative_path, j) {
        if ex[choose|j: int| is_first_path(ex, p.relative_path, j)] != p {
            Some(ErrorView::Network("owned eBPF pin was replaced: "@ + p.relative_path))
        } else {
            None
        }
    } else {
        Some(ErrorView::Network("foreign entry in owned eBPF pin tree: "@ + p.relative_path))
    }
}

proof fn lemma_first_path(ex: Seq<PinView>, path: Seq<char>, f: int)
    requires
        is_first_path(ex, path, f),
    ensures
        (choose|j: int| is_first_path(ex, path, j)) == f,
{
    let c = choose|j: int| is_first_path(ex, path, j);
    assert(is_first_path(ex, path, c));
    if c < f {
        assert(ex[c].relative_path != path);
    }
    if f < c {
        assert(ex[f].relative_path != path);
    }
}

/// Before cleanup, every live entry of an owned pin tree (`None`: the tree
/// is gone) must be one the record lists, with the recorded identity; the
/// first offending entry is reported.
pub fn verify_owned_ebpf_pins_before_cleanup(
    ownership: &NetworkOwnershipRecord,
    observed: Option<&[EbpfPinOwnershipRecord]>,
) -> (r: Result<(), RuntimeError>)
    ensures
        ownership.ebpf_pin_path is None ==> (r matches Err(e) && e@ == ErrorView::Network(
            "eBPF ownership has no pin path"@,
        )),
        ownership.ebpf_pin_path is Some && observed is None ==> r is Ok,
        ownership.ebpf_pin_path is Some && observed is Some ==> (r is Ok <==> forall|i: int|
            0 <= i < observed.unwrap()@.len() ==> pin_error(
                pins_view(ownership.ebpf_pins@),
                #[trigger] pins_view(observed.unwrap()@)[i],
            ) is None),
        r matches Err(e) ==> (ownership.ebpf_pin_path is Some && observed is Some ==> exists|i: int|
            0 <= i < observed.unwrap()@.len() && Some(e@) == pin_error(
                pins_view(ownership.ebpf_pins@),
                pins_view(observed.unwrap()@)[i],
            ) && forall|j: int| 0 <= j < i ==> pin_error(pins_view(ownership.ebpf_pins@), #[trigger] pins_view(observed.unwrap()@)[j]) is None),
{
    if ownership.ebpf_pin_path.is_none() {
        return Err(RuntimeError::Network(String::from_str("eBPF ownership has no pin path")));
    }
    let pins = match observed {
        None => return Ok(()),
        Some(p) => p,
    };
    let ghost ex = pins_view(ownership.ebpf_pins@);
    let ghost ob = pins_view(pins@);
    let mut i: usize = 0;
    while i < pins.len()
        invariant
            ownership.ebpf_pin_path is Some,
            observed == Some(pins),
            ex == pins_view(ownership.ebpf_pins@),
            ob == pins_view(pins@),
            i <= ob.len(),
            forall|j: int| 0 <= j < i ==> pin_error(ex, #[trigger] ob[j]) is None,
        decreases pins.len() - i,
    {
        let pin = &pins[i];
        assert(pin@ == ob[i as int]);
        let mut k: usize = 0;
        let mut found: Option<usize> = None;
        while k < ownership.ebpf_pins.len()
            invariant
                ex == pins_view(ownership.ebpf_pins@),
                k <= ex.len(),
                found is None ==> forall|m: int| 0 <= m < k ==> (#[trigger] ex[m]).relative_path != pin@.relative_path,
                found matches Some(f) ==> is_first_path(ex, pin@.relative_path, f as int),
            decreases ownership.ebpf_pins.len() - k,
        {
            if found.is_none() && string_eq(&ownership.ebpf_pins[k].relative_path, &pin.relative_path) {
                assert(ex[k as int] == ownership.ebpf_pins@[k as int]@);
                found = Some(k);
            }
            k += 1;
        }
        match found {
            None => {
                proof {
                    assert(forall|j: int| !is_first_path(ex, pin@.relative_path, j));
                }
                return Err(
                    RuntimeError::Network(
                        concat("foreign entry in owned eBPF pin tree: ", pin.relative_path.as_str()),
                    ),
                );
            },
            Some(f) => {
                proof {
                    lemma_first_path(ex, pin@.relative_path, f as int);
                }
                assert(ex[f as int] == ownership.ebpf_pins@[f as int]@);
                if !pin_eq(&ownership.ebpf_pins[f], pin) {
                    return Err(
                        RuntimeError::Network(
                            concat("owned eBPF pin was replaced: ", pin.relative_path.as_str()),
                        ),
                    );
                }
            },
        }
        i += 1;
    }
    Ok(())
}

} // verus!

verus! {

/// `phase=<phase> events=<the first 32 events joined by commas>`.
pub open spec fn audit_message(phase: Seq<char>, events: Seq<Seq<char>>) -> Seq<char> {
    let n = if events.len() < 32 {
        events.len() as int
    } else {
        32
    };
    "phase="@ + phase + " events="@ + join(events.take(n), ","@)
}

pub fn security_monitor_audit_message(phase: &str, events: &[String]) -> (r: String)
    ensures
        r@ == audit_message(phase@, strs_of(events@)),
{
    let all = strings_chars(events);
    let n: usize = if events.len() < 32 {
        events.len()
    } else {
        32
    };
    let mut bounded: Vec<Vec<char>> = Vec::new();
    let mut i: usize = 0;
    assert(all@.len() == seqs_of(all@).len());
    while i < n
        invariant
            n <= all@.len(),
            seqs_of(all@) == strs_of(events@),
            i <= n,
            seqs_of(bounded@) == seqs_of(all@).take(i as int),
        decreases n - i,
    {
        let ghost b0 = seqs_of(bounded@);
        bounded.push(all[i].clone());
        assert(seqs_of(bounded@) =~= b0.push(seqs_of(all@)[i as int]));
        assert(seqs_of(all@).take(i + 1) =~= seqs_of(all@).take(i as int).push(seqs_of(all@)[i as int]));
        i += 1;
    }
    let comma = chars_of(",");
    let joined = join_chars(&bounded, comma.as_slice());
    let head = concat("phase=", phase);
    let head = head.concat(" events=");
    crate::text::concat_chars(head.as_str(), joined.as_slice())
}

pub open spec fn event_name_ok(e: Seq<char>) -> bool {
    e.len() > 0 && forall|i: int| 0 <= i < e.len() ==> (is_ascii_alnum(#[trigger] e[i]) || e[i] == '_')
}

pub open spec fn events_unique(events: Seq<Seq<char>>) -> bool {
    forall|i: int, j: int|
        0 <= i < events.len() && 0 <= j < events.len() && i != j ==> lower(#[trigger] events[i])
            != lower(#[trigger] events[j])
}

pub open spec fn dot_component(p: Seq<char>) -> bool {
    p == "."@ || p == ".."@
}

/// Why a security monitor configuration is refused, if it is: both paths
/// must be absolute (the pin root without `.` or `..` components), and the
/// 1 to 32 event names must be ASCII words, unique without regard to case.
pub open spec fn security_config_error(object_path: Seq<char>, pin_root: Seq<char>, events: Seq<Seq<char>>) -> Option<ErrorView> {
    let parts = split_char(pin_root, '/');
    if trim(object_path).len() == 0 || !starts_with(object_path, "/"@) {
        Some(ErrorView::Network("security ebpf monitor object path must be absolute"@))
    } else if trim(pin_root).len() == 0 || !starts_with(pin_root, "/"@) {
        Some(ErrorView::Network("security ebpf monitor pin root must be absolute"@))
    } else if exists|i: int| 0 <= i < parts.len() && dot_component(#[trigger] parts[i]) {
        Some(ErrorView::Network("security ebpf monitor pin root must not contain dot path components"@))
    } else if events.len() == 0 || events.len() > 32 {
        Some(ErrorView::Network("security ebpf monitor event set must contain 1..32 events"@))
    } else if exists|i: int| 0 <= i < events.len() && !event_name_ok(#[trigger] events[i]) {
        Some(ErrorView::Network("security ebpf monitor event names must be ASCII components"@))
    } else if !events_unique(events) {
        Some(ErrorView::Network("security ebpf monitor event names must be unique"@))
    } else {
        None
    }
}

fn absolute_nonblank(p: &str) -> (r: bool)
    ensures
        r == (trim(p@).len() > 0 && starts_with(p@, "/"@)),
{
    let c = chars_of(p);
    let t = trim_chars(c.as_slice());
    let slash = chars_of("/");
    t.len() > 0 && chars_starts_with(c.as_slice(), slash.as_slice())
}

fn event_ok(e: &Vec<char>) -> (r: bool)
    ensures
        r == event_name_ok(e@),
{
    if e.len() == 0 {
        return false;
    }
    let mut i: usize = 0;
    while i < e.len()
        invariant
            i <= e@.len(),
            forall|j: int| 0 <= j < i ==> (is_ascii_alnum(#[trigger] e@[j]) || e@[j] == '_'),
        decreases e.len() - i,
    {
        if !(char_is_ascii_alnum(e[i]) || e[i] == '_') {
            return false;
        }
        i += 1;
    }
    true
}

#[verifier::loop_isolation(false)]
pub fn validate_security_ebpf_config(object_path: &str, pin_root: &str, events: &[String]) -> (r:
    Result<(), RuntimeError>)
    ensures
        r is Ok <==> security_config_error(object_path@, pin_root@, strs_of(events@)) is None,
        r matches Err(e) ==> Some(e@) == security_config_error(
            object_path@,
            pin_root@,
            strs_of(events@),
        ),
{
    if !absolute_nonblank(object_path) {
        return Err(
            RuntimeError::Network(
                String::from_str("security ebpf monitor object path must be absolute"),
            ),
        );
    }
    if !absolute_nonblank(pin_root) {
        return Err(
            RuntimeError::Network(String::from_str("security ebpf monitor pin root must be absolute")),
        );
    }
    let root = chars_of(pin_root);
    let parts = split_chars(root.as_slice(), '/');
    let dot = chars_of(".");
    let dotdot = chars_of("..");
    let mut i: usize = 0;
    while i < parts.len()
        invariant
            i <= parts@.len(),
            seqs_of(parts@) == split_char(pin_root@, '/'),
            dot@ == "."@,
            dotdot@ == ".."@,
            forall|j: int| 0 <= j < i ==> !dot_component(#[trigger] seqs_of(parts@)[j]),
        decreases parts.len() - i,
    {
        assert(parts@[i as int]@ == seqs_of(parts@)[i as int]);
        if chars_eq(parts[i].as_slice(), dot.as_slice()) || chars_eq(parts[i].as_slice(), dotdot.as_slice()) {
            return Err(
                RuntimeError::Network(
                    String::from_str(
                        "security ebpf monitor pin root must not contain dot path components",
                    ),
                ),
            );
        }
        i += 1;
    }
    if events.len() == 0 || events.len() > 32 {
        return Err(
            RuntimeError::Network(
                String::from_str("security ebpf monitor event set must contain 1..32 events"),
            ),
        );
    }
    let ev = strings_chars(events);
    let ghost es = strs_of(events@);
    let mut k: usize = 0;
    while k < ev.len()
        invariant
            seqs_of(ev@) == es,
            k <= ev@.len(),
            forall|j: int| 0 <= j < k ==> event_name_ok(#[trigger] es[j]),
        decreases ev.len() - k,
    {
        assert(ev@[k as int]@ == es[k as int]);
        if !event_ok(&ev[k]) {
            return Err(
                RuntimeError::Network(
                    String::from_str("security ebpf monitor event names must be ASCII components"),
                ),
            );
        }
        k += 1;
    }
    let mut lowered: Vec<Vec<char>> = Vec::new();
    let mut a: usize = 0;
    while a < ev.len()
        invariant
            seqs_of(ev@) == es,
            a <= ev@.len(),
            lowered@.len() == a,
            forall|j: int| 0 <= j < a ==> (#[trigger] lowered@[j])@ == lower(es[j]),
            forall|x: int, y: int| 0 <= x < a && 0 <= y < a && x != y ==> lower(#[trigger] es[x]) != lower(#[trigger] es[y]),
        decreases ev.len() - a,
    {
        let l = lower_chars(&ev[a]);
        assert(ev@[a as int]@ == es[a as int]);
        let mut b: usize = 0;
        while b < a
            invariant
                a < ev@.len(),
                b <= a,
                lowered@.len() == a,
                l@ == lower(es[a as int]),
                forall|j: int| 0 <= j < a ==> (#[trigger] lowered@[j])@ == lower(es[j]),
                forall|j: int| 0 <= j < b ==> lower(#[trigger] es[j]) != lower(es[a as int]),
            decreases a - b,
        {
            if chars_eq(lowered[b].as_slice(), l.as_slice()) {
                assert(lower(es[b as int]) == lower(es[a as int]));
                assert(!events_unique(es));
                return Err(
                    RuntimeError::Network(
                        String::from_str("security ebpf monitor event names must be unique"),
                    ),
                );
            }
            b += 1;
        }
        lowered.push(l);
        a += 1;
    }
    Ok(())
}

/// The monitored events: the configured comma list, or the defaults when
/// it is unset or names nothing.
pub open spec fn monitor_events(raw: Option<Seq<char>>) -> Seq<Seq<char>> {
    if raw matches Some(r) && comma_items(r).len() > 0 {
        comma_items(raw.unwrap())
    } else {
        seq!["execve"@, "connect"@, "open"@, "ptrace"@, "mount"@, "unshare"@]
    }
}

pub fn security_ebpf_events(raw: Option<&str>) -> (r: Vec<String>)
    ensures
        strs_of(r@) == monitor_events(crate::paths::opt_view(raw)),
{
    if let Some(v) = raw {
        let items = crate::text::comma_list(v);
        if items.len() > 0 {
            return items;
        }
    }
    let mut d: Vec<String> = Vec::new();
    d.push(String::from_str("execve"));
    d.push(String::from_str("connect"));
    d.push(String::from_str("open"));
    d.push(String::from_str("ptrace"));
    d.push(String::from_str("mount"));
    d.push(String::from_str("unshare"));
    assert(strs_of(d@) =~= seq!["execve"@, "connect"@, "open"@, "ptrace"@, "mount"@, "unshare"@]);
    d
}

} // verus!

verus! {

/// What restarting a container on its persisted eBPF network needs.
#[derive(Debug, Clone, PartialEq, Eq)]
pub struct EbpfRestartConfig {
    pub network_id: String,
    pub interface: String,
    pub external_ipv4: [u8; 4],
    pub bridge_gateway: [u8; 4],
    pub external_ifindex: u32,
    pub loopback_ifindex: u32,
    pub next_hop_mac: [u8; 6],
    pub snat_port_start: u16,
    pub snat_port_end: u16,
    pub expected_object_sha256: [u8; 32],
}

pub ghost struct EbpfRestartView {
    pub network_id: Seq<char>,
    pub interface: Seq<char>,
    pub external_ipv4: Seq<u8>,
    pub bridge_gateway: Seq<u8>,
    pub external_ifindex: u32,
    pub loopback_ifindex: u32,
    pub next_hop_mac: Seq<u8>,
    pub snat_port_start: u16,
    pub snat_port_end: u16,
    pub expected_object_sha256: Seq<u8>,
}

impl View for EbpfRestartConfig {
    type V = EbpfRestartView;

    open spec fn view(&self) -> EbpfRestartView {
        EbpfRestartView {
            network_id: self.network_id@,
            interface: self.interface@,
            external_ipv4: self.external_ipv4@,
            bridge_gateway: self.bridge_gateway@,
            external_ifindex: self.external_ifindex,
            loopback_ifindex: self.loopback_ifindex,
            next_hop_mac: self.next_hop_mac@,
            snat_port_start: self.snat_port_start,
            snat_port_end: self.snat_port_end,
            expected_object_sha256: self.expected_object_sha256@,
        }
    }
}

/// A text field that is present and not empty.
pub open spec fn filled(o: Option<String>) -> bool {
    o matches Some(s) && s@.len() > 0
}

fn net_error(m: &str) -> (r: Result<EbpfRestartConfig, RuntimeError>)
    ensures
        r matches Err(e) && e@ == ErrorView::Network(m@),
{
    Err(RuntimeError::Network(String::from_str(m)))
}

/// The restart configuration of a persisted eBPF network, checked field by
/// field in this order: schema 2, network id, managed interface, external
/// and loopback interface indexes, external IPv4, next-hop MAC, a non-empty
/// SNAT range starting above 0, a 32-byte object hash and ABI equal to those
/// of the object this runtime embeds, and the bridge gateway.
pub open spec fn restart_config(
    o: NetworkOwnershipRecord,
    embedded_sha256: Seq<u8>,
    embedded_abi: Result<Seq<char>, Seq<char>>,
    bridge: Result<crate::settings::BridgeView, ErrorView>,
) -> Result<EbpfRestartView, ErrorView> {
    if o.schema_version != 2 {
        Err(ErrorView::Network("unsupported eBPF ownership schema"@))
    } else if !filled(o.network_id) {
        Err(ErrorView::Network("eBPF network identity is missing"@))
    } else if !filled(o.managed_interface) {
        Err(ErrorView::Network("eBPF managed interface is missing"@))
    } else if o.managed_ifindex is None {
        Err(ErrorView::Network("eBPF external ifindex is missing"@))
    } else if o.loopback_ifindex is None {
        Err(ErrorView::Network("eBPF loopback ifindex is missing"@))
    } else if o.external_ipv4 is None {
        Err(ErrorView::Network("eBPF external IPv4 is missing"@))
    } else if crate::hashing::ipv4_octets(o.external_ipv4->0@) is None {
        Err(ErrorView::Network("invalid persisted eBPF external IPv4"@))
    } else if o.next_hop_mac is None {
        Err(ErrorView::Network("eBPF next-hop MAC is missing"@))
    } else if crate::link::mac_of(o.next_hop_mac->0@) is Err {
        Err(crate::link::mac_of(o.next_hop_mac->0@)->Err_0)
    } else if o.snat_port_start is None {
        Err(ErrorView::Network("eBPF SNAT range start is missing"@))
    } else if o.snat_port_end is None {
        Err(ErrorView::Network("eBPF SNAT range end is missing"@))
    } else if o.snat_port_start->0 == 0 || o.snat_port_start->0 > o.snat_port_end->0 {
        Err(ErrorView::Network("invalid persisted eBPF SNAT range"@))
    } else if o.object_sha256 is None {
        Err(ErrorView::Network("eBPF object hash is missing"@))
    } else if crate::hashing::hex_bytes(o.object_sha256->0@) is None {
        Err(ErrorView::Network("invalid persisted eBPF object hash"@))
    } else if crate::hashing::hex_bytes(o.object_sha256->0@)->0.len() != 32 {
        Err(ErrorView::Network("invalid persisted eBPF object hash length"@))
    } else if crate::hashing::hex_bytes(o.object_sha256->0@)->0 != embedded_sha256 {
        Err(ErrorView::Network("persisted eBPF object identity is incompatible with this runtime"@))
    } else if embedded_abi is Err {
        Err(ErrorView::Network(embedded_abi->Err_0))
    } else if opt_str(o.object_abi) != Some(embedded_abi->Ok_0) {
        Err(ErrorView::Network("persisted eBPF object identity is incompatible with this runtime"@))
    } else if bridge is Err {
        Err(bridge->Err_0)
    } else if crate::hashing::ipv4_octets(bridge->Ok_0.gateway) is None {
        Err(ErrorView::Network("invalid bridge gateway"@))
    } else {
        Ok(
            EbpfRestartView {
                network_id: o.network_id->0@,
                interface: o.managed_interface->0@,
                external_ipv4: crate::hashing::ipv4_octets(o.external_ipv4->0@)->0,
                bridge_gateway: crate::hashing::ipv4_octets(bridge->Ok_0.gateway)->0,
                external_ifindex: o.managed_ifindex->0,
                loopback_ifindex: o.loopback_ifindex->0,
                next_hop_mac: crate::link::mac_of(o.next_hop_mac->0@)->Ok_0,
                snat_port_start: o.snat_port_start->0,
                snat_port_end: o.snat_port_end->0,
                expected_object_sha256: embedded_sha256,
            },
        )
    }
}

fn digest_matches(hash: &Vec<u8>, expected: &[u8; 32]) -> (r: bool)
    requires
        hash@.len() == 32,
    ensures
        r == (hash@ == expected@),
{
    let mut i: usize = 0;
    while i < 32
        invariant
            hash@.len() == 32,
            expected@.len() == 32,
            i <= 32,
            forall|j: int| 0 <= j < i ==> hash@[j] == expected@[j],
        decreases 32 - i,
    {
        if hash[i] != expected[i] {
            return false;
        }
        i += 1;
    }
    proof {
        assert(hash@ =~= expected@);
    }
    true
}

pub fn ebpf_config_from_ownership(
    ownership: &NetworkOwnershipRecord,
    embedded_sha256: &[u8; 32],
    embedded_abi: &Result<String, String>,
    bridge: &Result<crate::settings::BridgeConfig, RuntimeError>,
) -> (r: Result<EbpfRestartConfig, RuntimeError>)
    ensures
        r matches Ok(c) ==> restart_config(
            *ownership,
            embedded_sha256@,
            match embedded_abi {
                Ok(a) => Ok(a@),
                Err(e) => Err(e@),
            },
            match bridge {
                Ok(b) => Ok(b@),
                Err(e) => Err(e@),
            },
        ) == Ok::<EbpfRestartView, ErrorView>(c@),
        r matches Err(e) ==> restart_config(
            *ownership,
            embedded_sha256@,
            match embedded_abi {
                Ok(a) => Ok(a@),
                Err(e) => Err(e@),
            },
            match bridge {
                Ok(b) => Ok(b@),
                Err(e) => Err(e@),
            },
        ) == Err::<EbpfRestartView, ErrorView>(e@),
{
    if ownership.schema_version != 2 {
        return net_error("unsupported eBPF ownership schema");
    }
    let network_id = match &ownership.network_id {
        Some(v) if v.as_str().unicode_len() > 0 => v.clone(),
        _ => {
            return net_error("eBPF network identity is missing");
        },
    };
    let interface = match &ownership.managed_interface {
        Some(v) if v.as_str().unicode_len() > 0 => v.clone(),
        _ => {
            return net_error("eBPF managed interface is missing");
        },
    };
    let external_ifindex = match ownership.managed_ifindex {
        Some(v) => v,
        None => {
            return net_error("eBPF external ifindex is missing");
        },
    };
    let loopback_ifindex = match ownership.loopback_ifindex {
        Some(v) => v,
        None => {
            return net_error("eBPF loopback ifindex is missing");
        },
    };
    let external_ipv4 = match &ownership.external_ipv4 {
        None => {
            return net_error("eBPF external IPv4 is missing");
        },
        Some(text) => match crate::hashing::parse_ipv4(text.as_str()) {
            Some(o) => o,
            None => {
                return net_error("invalid persisted eBPF external IPv4");
            },
        },
    };
    let next_hop_mac = match &ownership.next_hop_mac {
        None => {
            return net_error("eBPF next-hop MAC is missing");
        },
        Some(text) => crate::link::parse_mac(text.as_str())?,
    };
    let snat_port_start = match ownership.snat_port_start {
        Some(v) => v,
        None => {
            return net_error("eBPF SNAT range start is missing");
        },
    };
    let snat_port_end = match ownership.snat_port_end {
        Some(v) => v,
        None => {
            return net_error("eBPF SNAT range end is missing");
        },
    };
    if snat_port_start == 0 || snat_port_start > snat_port_end {
        return net_error("invalid persisted eBPF SNAT range");
    }
    let hash = match &ownership.object_sha256 {
        None => {
            return net_error("eBPF object hash is missing");
        },
        Some(text) => match crate::hashing::hex_decode(text.as_str()) {
            Some(b) => b,
            None => {
                return net_error("invalid persisted eBPF object hash");
            },
        },
    };
    if hash.len() != 32 {
        return net_error("invalid persisted eBPF object hash length");
    }
    if !digest_matches(&hash, embedded_sha256) {
        return net_error("persisted eBPF object identity is incompatible with this runtime");
    }
    let abi = match embedded_abi {
        Ok(a) => a,
        Err(e) => {
            return Err(RuntimeError::Network(e.clone()));
        },
    };
    let abi_ok = match &ownership.object_abi {
        Some(a) => crate::text::str_eq(a.as_str(), abi.as_str()),
        None => false,
    };
    if !abi_ok {
        return net_error("persisted eBPF object identity is incompatible with this runtime");
    }
    let bridge_gateway = match bridge {
        Err(e) => {
            return Err(e.duplicate());
        },
        Ok(b) => match crate::hashing::parse_ipv4(b.gateway.as_str()) {
            Some(g) => g,
            None => {
                return net_error("invalid bridge gateway");
            },
        },
    };
    Ok(
        EbpfRestartConfig {
            network_id,
            interface,
            external_ipv4,
            bridge_gateway,
            external_ifindex,
            loopback_ifindex,
            next_hop_mac,
            snat_port_start,
            snat_port_end,
            expected_object_sha256: *embedded_sha256,
        },
    )
}

} // verus!

verus! {

/// The BPF program that a traffic-control filter reports: its id and tag,
/// each when the report holds one of the right JSON type.
#[derive(Debug, Clone, PartialEq, Eq)]
pub struct TcProgram {
    pub id: Option<u64>,
    pub tag: Option<String>,
}

/// The options of a filter as `tc -j filter show` reports them.
#[derive(Debug, Clone, PartialEq, Eq)]
pub struct TcFilterOptions {
    /// `name`: absent (`None`), or present and a string (`Some(Some(..))`) or not.
    pub name: Option<Option<String>>,
    /// `bpf_name`, when it is a string.
    pub bpf_name: Option<String>,
    /// `handle`: a string's text, or another value's JSON text.
    pub handle: Option<String>,
    /// `prog`, when the report nests the program under it.
    pub prog: Option<TcProgram>,
    /// The program fields given directly among the options.
    pub program: TcProgram,
}

/// One filter of a `tc -j filter show` report.
#[derive(Debug, Clone, PartialEq, Eq)]
pub struct TcFilterEntry {
    /// `kind`, when it is a string.
    pub kind: Option<String>,
    /// `pref`, when it is an unsigned integer.
    pub pref: Option<u64>,
    pub options: Option<TcFilterOptions>,
}

/// The classifier name a filter reports: `name` when present (empty unless
/// a string), else `bpf_name`, else empty.
pub open spec fn tc_name(o: TcFilterOptions) -> Seq<char> {
    match o.name {
        Some(Some(n)) => n@,
        Some(None) => Seq::<char>::empty(),
        None => match o.bpf_name {
            Some(n) => n@,
            None => Seq::<char>::empty(),
        },
    }
}

/// What a report entry amounts to.
pub ghost enum TcEntryView {
    /// Not one of the runtime's classifiers.
    Skip,
    /// One of them, recorded as this filter.
    Keep(FilterView),
    /// One of them, but not fully identified.
    Fail(ErrorView),
}

/// A `bpf` filter with a priority, options and the name `ferro_ingress` or
/// `ferro_egress` is the runtime's; it must carry a handle and a program
/// (under `prog`, else among the options) whose id fits 32 bits and whose
/// tag is non-empty, and its priority must fit 32 bits.
pub open spec fn tc_entry(
    e: TcFilterEntry,
    interface: Seq<char>,
    direction: Seq<char>,
    ifindex: Result<u32, ErrorView>,
) -> TcEntryView {
    if !(opt_str(e.kind) == Some("bpf"@)) || e.pref is None || e.options is None {
        TcEntryView::Skip
    } else {
        let o = e.options->0;
        let prog = match o.prog {
            Some(p) => p,
            None => o.program,
        };
        if !(tc_name(o) == "ferro_ingress"@ || tc_name(o) == "ferro_egress"@) {
            TcEntryView::Skip
        } else if o.handle is None {
            TcEntryView::Fail(ErrorView::Network("owned tc filter has no handle"@))
        } else if prog.id matches Some(id) && id > u32::MAX {
            TcEntryView::Fail(ErrorView::Network("owned tc program id is out of range"@))
        } else if prog.id is None || !(opt_str(prog.tag) matches Some(t) && t.len() > 0) {
            TcEntryView::Fail(ErrorView::Network("owned tc filter has no BPF program identity"@))
        } else if ifindex is Err {
            TcEntryView::Fail(ifindex->Err_0)
        } else if e.pref->0 > u32::MAX {
            TcEntryView::Fail(ErrorView::Network("owned tc filter priority is out of range"@))
        } else {
            TcEntryView::Keep(
                FilterView {
                    interface: Some(interface),
                    interface_ifindex: Some(ifindex->Ok_0),
                    direction,
                    priority: e.pref->0 as u32,
                    handle: o.handle->0@,
                    program_id: Some(prog.id->0 as u32),
                    program_tag: opt_str(prog.tag),
                },
            )
        }
    }
}

/// The runtime's classifiers in a report, in report order, or the error of
/// the first one that is not fully identified.
pub open spec fn tc_owned(
    es: Seq<TcFilterEntry>,
    interface: Seq<char>,
    direction: Seq<char>,
    ifindex: Result<u32, ErrorView>,
) -> Result<Seq<FilterView>, ErrorView>
    decreases es.len(),
{
    if es.len() == 0 {
        Ok(Seq::<FilterView>::empty())
    } else {
        match tc_entry(es[0], interface, direction, ifindex) {
            TcEntryView::Skip => tc_owned(es.drop_first(), interface, direction, ifindex),
            TcEntryView::Fail(err) => Err(err),
            TcEntryView::Keep(f) => match tc_owned(es.drop_first(), interface, direction, ifindex) {
                Ok(rest) => Ok(seq![f] + rest),
                Err(err) => Err(err),
            },
        }
    }
}

pub open spec fn prepend_filters(
    done: Seq<FilterView>,
    rest: Result<Seq<FilterView>, ErrorView>,
) -> Result<Seq<FilterView>, ErrorView> {
    match rest {
        Ok(v) => Ok(done + v),
        Err(e) => Err(e),
    }
}

fn text_is(o: &Option<String>, s: &str) -> (r: bool)
    ensures
        r == (opt_str(*o) == Some(s@)),
{
    match o {
        Some(v) => crate::text::str_eq(v.as_str(), s),
        None => false,
    }
}

fn owned_name(o: &TcFilterOptions) -> (r: bool)
    ensures
        r == (tc_name(*o) == "ferro_ingress"@ || tc_name(*o) == "ferro_egress"@),
{
    let name: Option<&String> = match &o.name {
        Some(Some(n)) => Some(n),
        Some(None) => None,
        None => match &o.bpf_name {
            Some(n) => Some(n),
            None => None,
        },
    };
    match name {
        Some(n) => crate::text::str_eq(n.as_str(), "ferro_ingress") || crate::text::str_eq(
            n.as_str(),
            "ferro_egress",
        ),
        None => {
            proof {
                reveal_strlit("ferro_ingress");
                reveal_strlit("ferro_egress");
                assert("ferro_ingress"@.len() > 0);
                assert("ferro_egress"@.len() > 0);
            }
            false
        },
    }
}

fn entry_error(m: &str) -> (r: Result<Vec<EbpfFilterOwnershipRecord>, RuntimeError>)
    ensures
        r matches Err(e) && e@ == ErrorView::Network(m@),
{
    Err(RuntimeError::Network(String::from_str(m)))
}

/// The runtime's classifiers in a `tc -j filter show` report for one
/// interface and direction; `ifindex` is what reading the interface's index
/// gave, consulted only when there is such a classifier.
pub fn owned_tc_filters(
    entries: &[TcFilterEntry],
    interface: &str,
    direction: &str,
    ifindex: &Result<u32, RuntimeError>,
) -> (r: Result<Vec<EbpfFilterOwnershipRecord>, RuntimeError>)
    ensures
        r matches Ok(v) ==> tc_owned(
            entries@,
            interface@,
            direction@,
            match ifindex {
                Ok(i) => Ok(*i),
                Err(e) => Err(e@),
            },
        ) == Ok::<Seq<FilterView>, ErrorView>(filters_view(v@)),
        r matches Err(e) ==> tc_owned(
            entries@,
            interface@,
            direction@,
            match ifindex {
                Ok(i) => Ok(*i),
                Err(e) => Err(e@),
            },
        ) == Err::<Seq<FilterView>, ErrorView>(e@),
{
    let ghost idx: Result<u32, ErrorView> = match ifindex {
        Ok(i) => Ok(*i),
        Err(e) => Err(e@),
    };
    let mut out: Vec<EbpfFilterOwnershipRecord> = Vec::new();
    let mut i: usize = 0;
    proof {
        assert(entries@.skip(0) =~= entries@);
        assert(filters_view(out@) =~= Seq::<FilterView>::empty());
        assert(prepend_filters(Seq::<FilterView>::empty(), tc_owned(entries@, interface@, direction@, idx)) =~= tc_owned(entries@, interface@, direction@, idx));
    }
    while i < entries.len()
        invariant
            idx == (match ifindex {
                Ok(i) => Ok(*i),
                Err(e) => Err(e@),
            }),
            i <= entries@.len(),
            tc_owned(entries@, interface@, direction@, idx) == prepend_filters(
                filters_view(out@),
                tc_owned(entries@.skip(i as int), interface@, direction@, idx),
            ),
        decreases entries.len() - i,
    {
        let ghost rest = entries@.skip(i as int);
        proof {
            assert(rest[0] == entries@[i as int]);
            assert(rest.drop_first() =~= entries@.skip(i + 1));
        }
        let e = &entries[i];
        let kind_ok = text_is(&e.kind, "bpf");
        if kind_ok && e.pref.is_some() && e.options.is_some() {
            let o = match &e.options {
                Some(o) => o,
                None => {
                    return entry_error("owned tc filter has no handle");
                },
            };
            let prog: &TcProgram = match &o.prog {
                Some(p) => p,
                None => &o.program,
            };
            if owned_name(o) {
                let handle = match &o.handle {
                    Some(h) => h.clone(),
                    None => {
                        return entry_error("owned tc filter has no handle");
                    },
                };
                let program_id: u32 = match prog.id {
                    Some(id) => {
                        if id > 0xffff_ffff {
                            return entry_error("owned tc program id is out of range");
                        }
                        id as u32
                    },
                    None => {
                        return entry_error("owned tc filter has no BPF program identity");
                    },
                };
                let tag = match &prog.tag {
                    Some(t) => {
                        if t.as_str().unicode_len() == 0 {
                            return entry_error("owned tc filter has no BPF program identity");
                        }
                        t.clone()
                    },
                    None => {
                        return entry_error("owned tc filter has no BPF program identity");
                    },
                };
                let index = match ifindex {
                    Ok(x) => *x,
                    Err(err) => {
                        return Err(err.duplicate());
                    },
                };
                let pref = match e.pref {
                    Some(p) => p,
                    None => {
                        return entry_error("owned tc filter priority is out of range");
                    },
                };
                if pref > 0xffff_ffff {
                    return entry_error("owned tc filter priority is out of range");
                }
                let f = EbpfFilterOwnershipRecord {
                    interface: Some(String::from_str(interface)),
                    interface_ifindex: Some(index),
                    direction: String::from_str(direction),
                    priority: pref as u32,
                    handle,
                    program_id: Some(program_id),
                    program_tag: Some(tag),
                };
                let ghost before = filters_view(out@);
                out.push(f);
                proof {
                    assert(filters_view(out@) =~= before + seq![f@]);
                    assert(tc_entry(rest[0], interface@, direction@, idx) == TcEntryView::Keep(f@));
                    match tc_owned(rest.drop_first(), interface@, direction@, idx) {
                        Ok(v) => {
                            assert(before + (seq![f@] + v) =~= (before + seq![f@]) + v);
                        },
                        Err(_) => {},
                    }
                }
            }
        }
        i += 1;
    }
    proof {
        assert(entries@.skip(entries@.len() as int) =~= Seq::<TcFilterEntry>::empty());
        assert(filters_view(out@) + Seq::<FilterView>::empty() =~= filters_view(out@));
    }
    Ok(out)
}

/// Whether a persisted shared eBPF ownership record describes, field by
/// field, the network that `config` restarts (the object ABI aside).
pub open spec fn shared_metadata_matches(o: NetworkOwnershipRecord, c: EbpfRestartView) -> bool {
    &&& o.schema_version == 2
    &&& opt_str(o.network_id) == Some(c.network_id)
    &&& opt_str(o.managed_interface) == Some(c.interface)
    &&& o.managed_ifindex == Some(c.external_ifindex)
    &&& o.loopback_ifindex == Some(c.loopback_ifindex)
    &&& opt_str(o.external_ipv4) == Some(crate::hashing::dotted(c.external_ipv4))
    &&& opt_str(o.next_hop_mac) == Some(crate::link::mac_text(c.next_hop_mac))
    &&& o.snat_port_start == Some(c.snat_port_start)
    &&& o.snat_port_end == Some(c.snat_port_end)
    &&& opt_str(o.object_sha256) == Some(crate::hashing::hex_lower(c.expected_object_sha256))
}

pub open spec fn foreign_metadata_error() -> ErrorView {
    ErrorView::Network("persisted shared eBPF metadata is malformed or foreign"@)
}

/// The outcome of checking a persisted shared eBPF network against the
/// configuration it is restarted with: the recorded metadata, then the ABI of
/// the embedded object, then the live index of the managed interface.
pub open spec fn shared_metadata_check(
    o: NetworkOwnershipRecord,
    c: EbpfRestartView,
    embedded_abi: Result<Seq<char>, Seq<char>>,
    actual_ifindex: Result<u32, ErrorView>,
) -> Result<(), ErrorView> {
    if !shared_metadata_matches(o, c) {
        Err(foreign_metadata_error())
    } else if embedded_abi is Err {
        Err(ErrorView::Network("embedded eBPF ABI validation failed: "@ + embedded_abi->Err_0))
    } else if opt_str(o.object_abi) != Some(embedded_abi->Ok_0) {
        Err(foreign_metadata_error())
    } else {
        match actual_ifindex {
            Err(e) => Err(e),
            Ok(found) => if found == c.external_ifindex {
                Ok(())
            } else {
                Err(
                    ErrorView::Network(
                        "managed interface identity changed: expected "@ + crate::text::decimal(
                            c.external_ifindex as nat,
                        ) + ", found "@ + crate::text::decimal(found as nat),
                    ),
                )
            },
        }
    }
}

/// Checks a persisted shared eBPF network against the configuration it is
/// restarted with. `embedded_abi` is the ABI of the object this runtime
/// embeds (or why it could not be read), and `actual_ifindex` the managed
/// interface's index as the host shows it now.
pub fn verify_shared_ebpf_metadata(
    ownership: &NetworkOwnershipRecord,
    config: &EbpfRestartConfig,
    embedded_abi: &Result<String, String>,
    actual_ifindex: &Result<u32, RuntimeError>,
) -> (r: Result<(), RuntimeError>)
    ensures
        match r {
            Ok(()) => shared_metadata_check(
                *ownership,
                config@,
                match embedded_abi {
                    Ok(a) => Ok(a@),
                    Err(e) => Err(e@),
                },
                match actual_ifindex {
                    Ok(i) => Ok(*i),
                    Err(e) => Err(e@),
                },
            ) is Ok,
            Err(e) => shared_metadata_check(
                *ownership,
                config@,
                match embedded_abi {
                    Ok(a) => Ok(a@),
                    Err(e) => Err(e@),
                },
                match actual_ifindex {
                    Ok(i) => Ok(*i),
                    Err(e) => Err(e@),
                },
            ) == Err::<(), ErrorView>(e@),
        },
{
    let address = crate::hashing::ipv4_text(config.external_ipv4);
    let mac = crate::link::format_mac(config.next_hop_mac);
    let hash = crate::hashing::hex_encode(&config.expected_object_sha256);
    let same = ownership.schema_version == 2 && opt_string_is(&ownership.network_id, config.network_id.as_str())
        && opt_string_is(&ownership.managed_interface, config.interface.as_str())
        && ownership.managed_ifindex == Some(config.external_ifindex)
        && ownership.loopback_ifindex == Some(config.loopback_ifindex)
        && opt_string_is(&ownership.external_ipv4, address.as_str())
        && opt_string_is(&ownership.next_hop_mac, mac.as_str())
        && ownership.snat_port_start == Some(config.snat_port_start)
        && ownership.snat_port_end == Some(config.snat_port_end)
        && opt_string_is(&ownership.object_sha256, hash.as_str());
    if !same {
        return Err(
            RuntimeError::Network(String::from_str("persisted shared eBPF metadata is malformed or foreign")),
        );
    }
    let abi = match embedded_abi {
        Err(e) => {
            return Err(
                RuntimeError::Network(concat("embedded eBPF ABI validation failed: ", e.as_str())),
            );
        },
        Ok(a) => a,
    };
    if !opt_string_is(&ownership.object_abi, abi.as_str()) {
        return Err(
            RuntimeError::Network(String::from_str("persisted shared eBPF metadata is malformed or foreign")),
        );
    }
    match actual_ifindex {
        Err(e) => Err(e.duplicate()),
        Ok(found) => if *found == config.external_ifindex {
            Ok(())
        } else {
            let a = concat(
                "managed interface identity changed: expected ",
                crate::text::decimal_string(config.external_ifindex as u64).as_str(),
            );
            let b = concat(a.as_str(), ", found ");
            Err(
                RuntimeError::Network(
                    concat(b.as_str(), crate::text::decimal_string(*found as u64).as_str()),
                ),
            )
        },
    }
}

/// The ownership record of a container attached to a shared eBPF network:
/// schema 2, the container's veth, namespace and classifiers, and the
/// network's identity as `config` gives it, with the pin directory under
/// `network_root`, the address and MAC as text, and the object's hash in
/// lowercase hex beside its ABI. No firewall state belongs to it.
pub open spec fn ebpf_ownership_fields(
    o: NetworkOwnershipRecord,
    config: EbpfRestartView,
    abi: Seq<char>,
    network_root: Seq<char>,
    container_id: Seq<char>,
    host_veth: Seq<char>,
    source_cidr: Seq<char>,
    bridge: Seq<char>,
    bridge_ifindex: u32,
    host_ifindex: u32,
    namespace_identity: crate::records::KernelObjectIdentityRecord,
) -> bool {
    &&& o.schema_version == 2
    &&& o.owner_id@ == container_id
    &&& opt_str(o.network_id) == Some(config.network_id)
    &&& o.host_interface@ == host_veth
    &&& o.host_ifindex == Some(host_ifindex)
    &&& o.namespace_identity == Some(namespace_identity)
    &&& opt_str(o.managed_interface) == Some(config.interface)
    &&& o.managed_ifindex == Some(config.external_ifindex)
    &&& o.loopback_ifindex == Some(config.loopback_ifindex)
    &&& o.bridge_ifindex == Some(bridge_ifindex)
    &&& opt_str(o.source_cidr) == Some(source_cidr)
    &&& opt_str(o.bridge) == Some(bridge)
    &&& o.firewall_id is None
    &&& o.firewall_marker is None
    &&& o.firewall_expected_state is None
    &&& opt_str(o.ebpf_pin_path) == Some(crate::text::path_join(network_root, config.network_id))
    &&& opt_str(o.external_ipv4) == Some(crate::hashing::dotted(config.external_ipv4))
    &&& opt_str(o.next_hop_mac) == Some(crate::link::mac_text(config.next_hop_mac))
    &&& o.snat_port_start == Some(config.snat_port_start)
    &&& o.snat_port_end == Some(config.snat_port_end)
    &&& opt_str(o.object_sha256) == Some(crate::hashing::hex_lower(config.expected_object_sha256))
    &&& opt_str(o.object_abi) == Some(abi)
}

/// Records the ownership of a container attached to the shared eBPF network
/// that `config` describes; `embedded_abi` is the ABI of the embedded object,
/// or why it could not be read, which is the one way this fails.
pub fn build_ebpf_ownership(
    config: &EbpfRestartConfig,
    embedded_abi: &Result<String, String>,
    network_root: &str,
    container_id: &str,
    host_veth: &str,
    source_cidr: &str,
    bridge: &str,
    bridge_ifindex: u32,
    host_ifindex: u32,
    namespace_identity: crate::records::KernelObjectIdentityRecord,
    filters: Vec<EbpfFilterOwnershipRecord>,
    pins: Vec<EbpfPinOwnershipRecord>,
) -> (r: Result<NetworkOwnershipRecord, RuntimeError>)
    ensures
        match embedded_abi {
            Err(e) => r matches Err(x) && x@ == ErrorView::Network(e@),
            Ok(abi) => r matches Ok(o) && ebpf_ownership_fields(
                o,
                config@,
                abi@,
                network_root@,
                container_id@,
                host_veth@,
                source_cidr@,
                bridge@,
                bridge_ifindex,
                host_ifindex,
                namespace_identity,
            ) && o.ebpf_filters == filters && o.ebpf_pins == pins,
        },
{
    let abi = match embedded_abi {
        Err(e) => {
            return Err(RuntimeError::Network(String::from_str(e.as_str())));
        },
        Ok(a) => String::from_str(a.as_str()),
    };
    Ok(NetworkOwnershipRecord {
        schema_version: 2,
        owner_id: String::from_str(container_id),
        network_id: Some(String::from_str(config.network_id.as_str())),
        host_interface: String::from_str(host_veth),
        host_ifindex: Some(host_ifindex),
        namespace_identity: Some(namespace_identity),
        managed_interface: Some(String::from_str(config.interface.as_str())),
        managed_ifindex: Some(config.external_ifindex),
        loopback_ifindex: Some(config.loopback_ifindex),
        bridge_ifindex: Some(bridge_ifindex),
        source_cidr: Some(String::from_str(source_cidr)),
        bridge: Some(String::from_str(bridge)),
        firewall_id: None,
        firewall_marker: None,
        firewall_expected_state: None,
        ebpf_pin_path: Some(crate::text::path_join_str(network_root, config.network_id.as_str())),
        external_ipv4: Some(crate::hashing::ipv4_text(config.external_ipv4)),
        next_hop_mac: Some(crate::link::format_mac(config.next_hop_mac)),
        snat_port_start: Some(config.snat_port_start),
        snat_port_end: Some(config.snat_port_end),
        object_sha256: Some(crate::hashing::hex_encode(&config.expected_object_sha256)),
        object_abi: Some(abi),
        ebpf_filters: filters,
        ebpf_pins: pins,
    })
}

/// The host must still offer a restarted shared eBPF network the external
/// route (interface, index, address, next-hop MAC) and the SNAT port range
/// that it was set up with.
pub open spec fn recovery_host_contract(
    config: EbpfRestartView,
    route: Result<(Seq<char>, u32, Seq<u8>, Seq<u8>), ErrorView>,
    snat: Result<(u16, u16), ErrorView>,
) -> Result<(), ErrorView> {
    match route {
        Err(e) => Err(e),
        Ok((interface, ifindex, address, mac)) => match snat {
            Err(e) => Err(e),
            Ok((start, end)) => if interface != config.interface || ifindex != config.external_ifindex
                || address != config.external_ipv4 || mac != config.next_hop_mac || start
                != config.snat_port_start || end != config.snat_port_end {
                Err(
                    ErrorView::Network(
                        "persisted eBPF host route or SNAT reservation no longer matches the host"@,
                    ),
                )
            } else {
                Ok(())
            },
        },
    }
}

/// Checks the host contract of a restarted shared eBPF network; `route` is
/// the host's external route now and `snat` its configured SNAT range (or
/// why either could not be had).
pub fn verify_recovery_host_contract(
    config: &EbpfRestartConfig,
    route: &Result<(String, u32, [u8; 4], [u8; 6]), RuntimeError>,
    snat: &Result<(u16, u16), RuntimeError>,
) -> (r: Result<(), RuntimeError>)
    ensures
        ({
            let rv = match route {
                Ok((i, x, a, m)) => Ok((i@, *x, a@, m@)),
                Err(e) => Err(e@),
            };
            let sv = match snat {
                Ok(p) => Ok(*p),
                Err(e) => Err(e@),
            };
            match r {
                Ok(()) => recovery_host_contract(config@, rv, sv) is Ok,
                Err(e) => recovery_host_contract(config@, rv, sv) == Err::<(), ErrorView>(e@),
            }
        }),
{
    let (interface, ifindex, address, mac) = match route {
        Err(e) => {
            return Err(e.duplicate());
        },
        Ok(v) => v,
    };
    let (start, end) = match snat {
        Err(e) => {
            return Err(e.duplicate());
        },
        Ok(p) => *p,
    };
    let same_address = address[0] == config.external_ipv4[0] && address[1] == config.external_ipv4[1]
        && address[2] == config.external_ipv4[2] && address[3] == config.external_ipv4[3];
    let same_mac = mac[0] == config.next_hop_mac[0] && mac[1] == config.next_hop_mac[1] && mac[2]
        == config.next_hop_mac[2] && mac[3] == config.next_hop_mac[3] && mac[4]
        == config.next_hop_mac[4] && mac[5] == config.next_hop_mac[5];
    proof {
        if same_address {
            assert(address@ =~= config.external_ipv4@);
        } else {
            assert(address@ != config.external_ipv4@) by {
                if address@ == config.external_ipv4@ {
                    assert(address@[0] == config.external_ipv4@[0]);
                    assert(address@[1] == config.external_ipv4@[1]);
                    assert(address@[2] == config.external_ipv4@[2]);
                    assert(address@[3] == config.external_ipv4@[3]);
                }
            }
        }
        if same_mac {
            assert(mac@ =~= config.next_hop_mac@);
        } else {
            assert(mac@ != config.next_hop_mac@) by {
                if mac@ == config.next_hop_mac@ {
                    assert(mac@[0] == config.next_hop_mac@[0]);
                    assert(mac@[1] == config.next_hop_mac@[1]);
                    assert(mac@[2] == config.next_hop_mac@[2]);
                    assert(mac@[3] == config.next_hop_mac@[3]);
                    assert(mac@[4] == config.next_hop_mac@[4]);
                    assert(mac@[5] == config.next_hop_mac@[5]);
                }
            }
        }
    }
    if !string_eq(interface, &config.interface) || *ifindex != config.external_ifindex
        || !same_address || !same_mac || start != config.snat_port_start || end
        != config.snat_port_end {
        return Err(
            RuntimeError::Network(
                String::from_str("persisted eBPF host route or SNAT reservation no longer matches the host"),
            ),
        );
    }
    Ok(())
}

} // verus!
