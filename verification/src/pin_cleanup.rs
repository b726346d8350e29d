//! Removing a captured eBPF pin tree: the order of removal, deepest entries
//! first and files before directories, and the checks made before each
//! entry is removed.

use crate::error::{ErrorView, RuntimeError};
use crate::persisted_mounts::{components_view, path_components_exec, path_components_of, PathComponent};
use crate::records::{pins_view, EbpfPinOwnershipRecord, PinView};
use vstd::prelude::*;
use vstd::string::StringExecFns;

verus! {

/// How many components a pin's path has.
pub open spec fn pin_depth(p: PinView) -> nat {
    path_components_of(p.relative_path).len()
}

/// The pins of one depth and kind, in their captured order.
pub open spec fn pins_at(pins: Seq<PinView>, depth: nat, directory: bool) -> Seq<PinView>
    decreases pins.len(),
{
    if pins.len() == 0 {
        Seq::empty()
    } else {
        let prev = pins_at(pins.drop_last(), depth, directory);
        let p = pins.last();
        if pin_depth(p) == depth && p.directory == directory {
            prev.push(p)
        } else {
            prev
        }
    }
}

/// The pins of depths `hi` down to `lo`, each depth's files before its
/// directories.
pub open spec fn pins_between(pins: Seq<PinView>, hi: int, lo: int) -> Seq<PinView>
    decreases hi - lo + 1,
{
    if hi < lo || lo < 0 {
        Seq::empty()
    } else {
        pins_at(pins, hi as nat, false) + pins_at(pins, hi as nat, true) + pins_between(
            pins,
            hi - 1,
            lo,
        )
    }
}

/// The greatest depth of the pins.
pub open spec fn deepest(pins: Seq<PinView>) -> nat
    decreases pins.len(),
{
    if pins.len() == 0 {
        0
    } else {
        let d = deepest(pins.drop_last());
        if pin_depth(pins.last()) > d {
            pin_depth(pins.last())
        } else {
            d
        }
    }
}

/// The order in which captured pins are removed: a stable sort by depth,
/// deepest first, and within a depth files before directories.
pub open spec fn pin_removal_order_of(pins: Seq<PinView>) -> Seq<PinView> {
    pins_between(pins, deepest(pins) as int, 0)
}

/// Deeper pins, and at one depth files, come first.
pub open spec fn removal_sorted(r: Seq<PinView>) -> bool {
    forall|i: int, j: int|
        0 <= i < j < r.len() ==> pin_depth(#[trigger] r[i]) > pin_depth(#[trigger] r[j]) || (
        pin_depth(r[i]) == pin_depth(r[j]) && (r[i].directory ==> r[j].directory))
}

proof fn lemma_pins_between_extend(pins: Seq<PinView>, hi: int, lo: int)
    requires
        1 <= lo <= hi + 1,
    ensures
        pins_between(pins, hi, lo - 1) == pins_between(pins, hi, lo) + pins_at(
            pins,
            (lo - 1) as nat,
            false,
        ) + pins_at(pins, (lo - 1) as nat, true),
    decreases hi - lo + 1,
{
    if hi < lo {
        assert(pins_between(pins, hi - 1, lo - 1) =~= Seq::<PinView>::empty());
        assert(pins_between(pins, hi, lo - 1) =~= pins_at(pins, (lo - 1) as nat, false) + pins_at(
            pins,
            (lo - 1) as nat,
            true,
        ));
        assert(pins_between(pins, hi, lo) =~= Seq::<PinView>::empty());
    } else {
        lemma_pins_between_extend(pins, hi - 1, lo);
        let a = pins_at(pins, hi as nat, false) + pins_at(pins, hi as nat, true);
        assert(pins_between(pins, hi, lo - 1) == a + pins_between(pins, hi - 1, lo - 1));
        assert(pins_between(pins, hi, lo) == a + pins_between(pins, hi - 1, lo));
        assert(pins_between(pins, hi, lo - 1) =~= pins_between(pins, hi, lo) + pins_at(
            pins,
            (lo - 1) as nat,
            false,
        ) + pins_at(pins, (lo - 1) as nat, true));
    }
}

fn copy_pin(p: &EbpfPinOwnershipRecord) -> (r: EbpfPinOwnershipRecord)
    ensures
        r@ == p@,
{
    EbpfPinOwnershipRecord {
        relative_path: String::from_str(p.relative_path.as_str()),
        device: p.device,
        inode: p.inode,
        directory: p.directory,
        map_id: p.map_id,
    }
}

/// Appends, in captured order, the pins of one depth and kind.
fn push_pins_at(
    out: &mut Vec<EbpfPinOwnershipRecord>,
    pins: &[EbpfPinOwnershipRecord],
    depths: &Vec<usize>,
    depth: usize,
    directory: bool,
)
    requires
        depths@.len() == pins@.len(),
        forall|i: int| 0 <= i < pins@.len() ==> depths@[i] == pin_depth(#[trigger] pins@[i]@),
        removal_sorted(pins_view(old(out)@)),
        forall|i: int|
            0 <= i < old(out)@.len() ==> pin_depth(#[trigger] old(out)@[i]@) > depth || (pin_depth(
                old(out)@[i]@,
            ) == depth && (old(out)@[i]@.directory ==> directory)),
    ensures
        pins_view(final(out)@) == pins_view(old(out)@) + pins_at(pins_view(pins@), depth as nat, directory),
        removal_sorted(pins_view(final(out)@)),
        forall|i: int|
            0 <= i < final(out)@.len() ==> pin_depth(#[trigger] final(out)@[i]@) > depth || (
            pin_depth(final(out)@[i]@) == depth && (final(out)@[i]@.directory ==> directory)),
{
    let ghost o0 = pins_view(out@);
    let ghost pv = pins_view(pins@);
    let mut i: usize = 0;
    assert(pv.take(0) =~= Seq::<PinView>::empty());
    assert(pins_view(out@) =~= o0 + pins_at(pv.take(0), depth as nat, directory));
    while i < pins.len()
        invariant
            i <= pins@.len(),
            pv == pins_view(pins@),
            depths@.len() == pins@.len(),
            forall|k: int| 0 <= k < pins@.len() ==> depths@[k] == pin_depth(#[trigger] pins@[k]@),
            pins_view(out@) == o0 + pins_at(pv.take(i as int), depth as nat, directory),
            removal_sorted(pins_view(out@)),
            forall|k: int|
                0 <= k < out@.len() ==> pin_depth(#[trigger] out@[k]@) > depth || (pin_depth(
                    out@[k]@,
                ) == depth && (out@[k]@.directory ==> directory)),
        decreases pins.len() - i,
    {
        let ghost t = pv.take(i + 1);
        assert(t.drop_last() =~= pv.take(i as int));
        assert(t.last() == pins@[i as int]@);
        if depths[i] == depth && pins[i].directory == directory {
            let ghost before = pins_view(out@);
            let ghost x = pins@[i as int]@;
            let c = copy_pin(&pins[i]);
            out.push(c);
            let ghost after = pins_view(out@);
            assert(after =~= before.push(x));
            assert forall|a: int, b: int| 0 <= a < b < after.len() implies pin_depth(
                #[trigger] after[a],
            ) > pin_depth(#[trigger] after[b]) || (pin_depth(after[a]) == pin_depth(after[b]) && (
            after[a].directory ==> after[b].directory)) by {
                if b < before.len() {
                    assert(after[a] == before[a] && after[b] == before[b]);
                } else {
                    assert(after[a] == out@[a]@);
                    assert(after[b] == x);
                }
            }
        }
        i += 1;
    }
    assert(pv.take(pins@.len() as int) =~= pv);
}

/// The order in which captured pins are removed: deepest first, and at one
/// depth files before directories, otherwise as captured.
pub fn pin_removal_order(pins: &[EbpfPinOwnershipRecord]) -> (r: Vec<EbpfPinOwnershipRecord>)
    ensures
        pins_view(r@) == pin_removal_order_of(pins_view(pins@)),
        removal_sorted(pins_view(r@)),
{
    let ghost pv = pins_view(pins@);
    let mut depths: Vec<usize> = Vec::new();
    let mut deepest_depth: usize = 0;
    let mut i: usize = 0;
    while i < pins.len()
        invariant
            i <= pins@.len(),
            pv == pins_view(pins@),
            depths@.len() == i,
            forall|k: int| 0 <= k < i ==> depths@[k] == pin_depth(#[trigger] pins@[k]@),
            deepest_depth == deepest(pv.take(i as int)),
        decreases pins.len() - i,
    {
        let c = path_components_exec(pins[i].relative_path.as_str());
        assert(pin_depth(pins@[i as int]@) == components_view(c@).len());
        let d = c.len();
        depths.push(d);
        assert(pv.take(i + 1).drop_last() =~= pv.take(i as int));
        assert(pv.take(i + 1).last() == pins@[i as int]@);
        if d > deepest_depth {
            deepest_depth = d;
        }
        i += 1;
    }
    assert(pv.take(pins@.len() as int) =~= pv);
    let mut out: Vec<EbpfPinOwnershipRecord> = Vec::new();
    let mut d: usize = deepest_depth;
    assert(pins_view(out@) =~= pins_between(pv, deepest_depth as int, deepest_depth + 1));
    loop
        invariant_except_break
            d <= deepest_depth,
            pv == pins_view(pins@),
            depths@.len() == pins@.len(),
            forall|k: int| 0 <= k < pins@.len() ==> depths@[k] == pin_depth(#[trigger] pins@[k]@),
            pins_view(out@) == pins_between(pv, deepest_depth as int, d + 1),
            removal_sorted(pins_view(out@)),
            forall|k: int| 0 <= k < out@.len() ==> pin_depth(#[trigger] out@[k]@) > d,
        ensures
            pins_view(out@) == pins_between(pv, deepest_depth as int, 0),
            removal_sorted(pins_view(out@)),
        decreases d,
    {
        push_pins_at(&mut out, pins, &depths, d, false);
        push_pins_at(&mut out, pins, &depths, d, true);
        proof {
            lemma_pins_between_extend(pv, deepest_depth as int, d + 1);
            assert(pins_view(out@) == pins_between(pv, deepest_depth as int, d as int));
        }
        if d == 0 {
            break;
        }
        assert forall|k: int| 0 <= k < out@.len() implies pin_depth(#[trigger] out@[k]@) > (d - 1) by {
        }
        d = d - 1;
    }
    out
}

/// Whether a pin's recorded path is unfit for removal beneath the root: an
/// absolute path, or one with a component other than a plain name.
pub open spec fn malformed_pin_path(path: Seq<char>) -> bool {
    let c = path_components_of(path);
    (c.len() > 0 && c[0] == PathComponent::RootDir) || (path.len() > 0 && exists|i: int|
        0 <= i < c.len() && !(#[trigger] c[i] is Normal))
}

pub fn pin_path_malformed(path: &str) -> (r: bool)
    ensures
        r == malformed_pin_path(path@),
{
    let c = path_components_exec(path);
    let ghost cv = components_view(c@);
    let absolute = c.len() > 0 && match &c[0] {
        crate::persisted_mounts::Component::RootDir => true,
        _ => false,
    };
    if absolute {
        return true;
    }
    if path.unicode_len() == 0 {
        return false;
    }
    let mut i: usize = 0;
    while i < c.len()
        invariant
            i <= c@.len(),
            cv == components_view(c@),
            cv == path_components_of(path@),
            path@.len() > 0,
            !(cv.len() > 0 && cv[0] == PathComponent::RootDir),
            forall|k: int| 0 <= k < i ==> (#[trigger] cv[k]) is Normal,
        decreases c.len() - i,
    {
        let normal = match &c[i] {
            crate::persisted_mounts::Component::Normal(_) => true,
            _ => false,
        };
        if !normal {
            assert(!(cv[i as int] is Normal));
            return true;
        }
        i += 1;
    }
    false
}

/// What the file system shows where a pin was captured.
#[derive(Debug, Clone, Copy, PartialEq, Eq, Structural)]
pub enum PinObservation {
    /// Nothing is there any more.
    Missing,
    /// An entry is there: whether it is a symbolic link or a directory, and
    /// its device and inode.
    Present { symlink: bool, directory: bool, device: u64, inode: u64 },
}

/// Whether a captured pin is removed, skipped (already gone), or refused:
/// the recorded path must be a plain relative path, and what is there must
/// be the captured entry itself.
pub open spec fn pin_removal_check(pin: PinView, path_text: Seq<char>, seen: PinObservation) -> Result<
    bool,
    ErrorView,
> {
    if malformed_pin_path(pin.relative_path) {
        Err(ErrorView::Network("malformed eBPF pin ownership path"@))
    } else {
        match seen {
            PinObservation::Missing => Ok(false),
            PinObservation::Present { symlink, directory, device, inode } => if symlink || device
                != pin.device || inode != pin.inode || directory != pin.directory {
                Err(ErrorView::Network("owned eBPF pin was replaced: "@ + path_text))
            } else {
                Ok(true)
            },
        }
    }
}

/// Decides one captured pin before its removal; `path_text` is where it
/// lies, and `seen` what is there now. `Ok(true)` removes it, `Ok(false)`
/// skips it.
pub fn check_pin_removal(pin: &EbpfPinOwnershipRecord, path_text: &str, seen: PinObservation) -> (r:
    Result<bool, RuntimeError>)
    ensures
        match r {
            Ok(b) => pin_removal_check(pin@, path_text@, seen) == Ok::<bool, ErrorView>(b),
            Err(e) => pin_removal_check(pin@, path_text@, seen) == Err::<bool, ErrorView>(e@),
        },
{
    if pin_path_malformed(pin.relative_path.as_str()) {
        return Err(RuntimeError::Network(String::from_str("malformed eBPF pin ownership path")));
    }
    match seen {
        PinObservation::Missing => Ok(false),
        PinObservation::Present { symlink, directory, device, inode } => if symlink || device
            != pin.device || inode != pin.inode || directory != pin.directory {
            Err(RuntimeError::Network(crate::text::concat("owned eBPF pin was replaced: ", path_text)))
        } else {
            Ok(true)
        },
    }
}

/// The entries of a complete pinned eBPF network tree.
pub open spec fn expected_pin_paths() -> Set<Seq<char>> {
    set![
        ""@,
        "maps"@,
        "maps/FERRO_COUNTERS"@,
        "maps/FERRO_ENDPOINTS"@,
        "maps/FERRO_META"@,
        "maps/FERRO_POLICY"@,
        "maps/FERRO_PORTS"@,
        "maps/FERRO_CONNTRACK"@,
        "programs"@,
        "programs/ferro_egress"@,
        "programs/ferro_ingress"@,
    ]
}

/// An orphaned pin tree is removed only when it holds exactly the entries
/// of a complete network tree (eleven of them, each one expected).
pub open spec fn orphaned_tree_check(pins: Seq<PinView>, root: Seq<char>) -> Result<(), ErrorView> {
    if (exists|i: int| 0 <= i < pins.len() && !expected_pin_paths().contains(#[trigger] pins[i].relative_path))
        || pins.len() != 11 {
        Err(ErrorView::Network("eBPF pin path contains foreign or incomplete entries: "@ + root))
    } else {
        Ok(())
    }
}

fn expected_pin_path(path: &str) -> (r: bool)
    ensures
        r == expected_pin_paths().contains(path@),
{
    let names: [&str; 11] = [
        "",
        "maps",
        "maps/FERRO_COUNTERS",
        "maps/FERRO_ENDPOINTS",
        "maps/FERRO_META",
        "maps/FERRO_POLICY",
        "maps/FERRO_PORTS",
        "maps/FERRO_CONNTRACK",
        "programs",
        "programs/ferro_egress",
        "programs/ferro_ingress",
    ];
    let ghost want = seq![
        ""@,
        "maps"@,
        "maps/FERRO_COUNTERS"@,
        "maps/FERRO_ENDPOINTS"@,
        "maps/FERRO_META"@,
        "maps/FERRO_POLICY"@,
        "maps/FERRO_PORTS"@,
        "maps/FERRO_CONNTRACK"@,
        "programs"@,
        "programs/ferro_egress"@,
        "programs/ferro_ingress"@,
    ];
    assert(forall|k: int| 0 <= k < 11 ==> names@[k]@ == want[k]);
    assert(expected_pin_paths() =~= want.to_set());
    let mut i: usize = 0;
    while i < 11
        invariant
            i <= 11,
            names@.len() == 11,
            want.len() == 11,
            expected_pin_paths() == want.to_set(),
            forall|k: int| 0 <= k < 11 ==> names@[k]@ == want[k],
            forall|k: int| 0 <= k < i ==> want[k] != path@,
        decreases 11 - i,
    {
        if crate::text::str_eq(names[i], path) {
            assert(want.contains(path@)) by {
                assert(want[i as int] == path@);
            }
            return true;
        }
        i += 1;
    }
    assert(!want.contains(path@));
    false
}

/// Checks that an orphaned pin tree is a complete network tree before it is
/// removed; `root` names the tree in the error.
pub fn check_orphaned_pin_tree(pins: &[EbpfPinOwnershipRecord], root: &str) -> (r: Result<
    (),
    RuntimeError,
>)
    ensures
        match r {
            Ok(()) => orphaned_tree_check(pins_view(pins@), root@) is Ok,
            Err(e) => orphaned_tree_check(pins_view(pins@), root@) == Err::<(), ErrorView>(e@),
        },
{
    let ghost pv = pins_view(pins@);
    let mut i: usize = 0;
    let mut foreign = false;
    while i < pins.len()
        invariant
            i <= pins@.len(),
            pv == pins_view(pins@),
            foreign == (exists|k: int| 0 <= k < i && !expected_pin_paths().contains(#[trigger] pv[k].relative_path)),
        decreases pins.len() - i,
    {
        if !expected_pin_path(pins[i].relative_path.as_str()) {
            assert(!expected_pin_paths().contains(pv[i as int].relative_path));
            foreign = true;
        }
        i += 1;
    }
    if foreign || pins.len() != 11 {
        Err(RuntimeError::Network(crate::text::concat("eBPF pin path contains foreign or incomplete entries: ", root)))
    } else {
        Ok(())
    }
}

} // verus!
