//! Reading the kernel's mount tables: which mount sits at a path, whether
//! anything is mounted beneath a directory, and whether bpffs is mounted.

use crate::host::{components_of, path_components};
use crate::rollback::ResourceIdentity;
use crate::text::{
    find_word, position_of, chars_eq, chars_of, chars_starts_with, lines, lines_of, parse_bounded, parse_unsigned, seqs_of,
    split_char, split_chars, starts_with, string_of, words, words_of, path_join, path_join_str,
    str_eq,
};
use vstd::prelude::*;
use vstd::string::StringExecFns;

verus! {

/// Two paths name the same place component by component, as `Path`'s
/// equality compares them (both absolute or both relative).
pub open spec fn same_path(a: Seq<char>, b: Seq<char>) -> bool {
    starts_with(a, "/"@) == starts_with(b, "/"@) && path_components(a) == path_components(b)
}

/// `Path::starts_with`: `dir`'s components are a prefix of `p`'s.
pub open spec fn path_within(p: Seq<char>, dir: Seq<char>) -> bool {
    let pc = path_components(p);
    let dc = path_components(dir);
    starts_with(p, "/"@) == starts_with(dir, "/"@) && dc.len() <= pc.len() && pc.take(
        dc.len() as int,
    ) == dc
}

fn seqs_equal(a: &Vec<Vec<char>>, b: &Vec<Vec<char>>, n: usize) -> (r: bool)
    requires
        n <= a@.len(),
        n <= b@.len(),
    ensures
        r == (seqs_of(a@).take(n as int) == seqs_of(b@).take(n as int)),
{
    let mut i: usize = 0;
    while i < n
        invariant
            n <= a@.len(),
            n <= b@.len(),
            i <= n,
            forall|j: int| 0 <= j < i ==> a@[j]@ == b@[j]@,
        decreases n - i,
    {
        if !chars_eq(a[i].as_slice(), b[i].as_slice()) {
            proof {
                assert(seqs_of(a@).take(n as int)[i as int] != seqs_of(b@).take(n as int)[i as int]);
            }
            return false;
        }
        i += 1;
    }
    proof {
        assert(seqs_of(a@).take(n as int) =~= seqs_of(b@).take(n as int));
    }
    true
}

fn path_relation(p: &[char], dir: &[char], exact: bool) -> (r: bool)
    ensures
        exact ==> r == same_path(p@, dir@),
        !exact ==> r == path_within(p@, dir@),
{
    let slash = chars_of("/");
    if chars_starts_with(p, slash.as_slice()) != chars_starts_with(dir, slash.as_slice()) {
        return false;
    }
    let pc = components_of(p);
    let dc = components_of(dir);
    proof {
        assert(seqs_of(pc@).len() == pc@.len());
        assert(seqs_of(dc@).len() == dc@.len());
    }
    if exact {
        if pc.len() != dc.len() {
            return false;
        }
        let r = seqs_equal(&pc, &dc, pc.len());
        proof {
            assert(seqs_of(pc@).take(pc@.len() as int) =~= seqs_of(pc@));
            assert(seqs_of(dc@).take(dc@.len() as int) =~= seqs_of(dc@));
        }
        r
    } else {
        if dc.len() > pc.len() {
            return false;
        }
        let r = seqs_equal(&pc, &dc, dc.len());
        proof {
            assert(seqs_of(dc@).take(dc@.len() as int) =~= seqs_of(dc@));
        }
        r
    }
}

/// The mount id that a mountinfo line gives for `path`, if the line is
/// about it: its fifth field names the path and its first is a number.
pub open spec fn line_mount_id(l: Seq<char>, path: Seq<char>) -> Option<u64> {
    let f = words(l);
    if f.len() > 4 && same_path(f[4], path) {
        match parse_unsigned(f[0], 10, u64::MAX as int) {
            Some(v) => Some(v as u64),
            None => None,
        }
    } else {
        None
    }
}

/// The first mount id that the lines give for `path`.
pub open spec fn mount_id_in(ls: Seq<Seq<char>>, path: Seq<char>) -> Option<u64>
    decreases ls.len(),
{
    if ls.len() == 0 {
        None
    } else {
        match line_mount_id(ls[0], path) {
            Some(v) => Some(v),
            None => mount_id_in(ls.drop_first(), path),
        }
    }
}

/// The id of the mount at `canonical` in a mountinfo table.
pub fn mount_id_for_path(mountinfo: &str, canonical: &str) -> (r: Option<u64>)
    ensures
        r == mount_id_in(lines(mountinfo@), canonical@),
{
    let text = chars_of(mountinfo);
    let path = chars_of(canonical);
    let ls = lines_of(text.as_slice());
    let ghost all = lines(mountinfo@);
    let mut i: usize = 0;
    proof {
        assert(all.skip(0) =~= all);
    }
    while i < ls.len()
        invariant
            all == lines(mountinfo@),
            seqs_of(ls@) == all,
            path@ == canonical@,
            i <= ls@.len(),
            mount_id_in(all, canonical@) == mount_id_in(all.skip(i as int), canonical@),
        decreases ls.len() - i,
    {
        proof {
            assert(seqs_of(ls@)[i as int] == ls@[i as int]@);
            assert(all.skip(i as int)[0] == all[i as int]);
            assert(all.skip(i as int).drop_first() =~= all.skip(i + 1));
        }
        let f = words_of(ls[i].as_slice());
        if f.len() > 4 {
            proof {
                assert(seqs_of(f@)[4] == f@[4]@);
                assert(seqs_of(f@)[0] == f@[0]@);
            }
            if path_relation(f[4].as_slice(), path.as_slice(), true) {
                if let Some(v) = parse_bounded(f[0].as_slice(), 10, u64::MAX) {
                    proof {
                        assert(words(all[i as int]) == seqs_of(f@));
                        assert(line_mount_id(all[i as int], canonical@) == Some(v));
                        assert(all.skip(i as int).len() > 0);
                        assert(mount_id_in(all.skip(i as int), canonical@) == Some(v));
                    }
                    return Some(v);
                }
            }
        }
        i += 1;
    }
    None
}

/// Whether an option list separated by commas holds `ro`.
pub open spec fn read_only(options: Seq<char>) -> bool {
    exists|i: int| 0 <= i < split_char(options, ',').len() && #[trigger] split_char(options, ',')[i] == "ro"@
}

/// What a mountinfo line tells of the mount at `path`: its id, its
/// filesystem type (the field after the `-` separator) and whether it is
/// read-only; nothing when the line is about another path or incomplete.
pub open spec fn line_mount(l: Seq<char>, path: Seq<char>) -> Option<(u64, Seq<char>, bool)> {
    let f = words(l);
    if f.len() <= 6 || !same_path(f[4], path) {
        None
    } else {
        match position_of(f, "-"@) {
            None => None,
            Some(s) => match parse_unsigned(f[0], 10, u64::MAX as int) {
                None => None,
                Some(id) => if s + 1 < f.len() {
                    Some((id as u64, f[s + 1], read_only(f[5])))
                } else {
                    None
                },
            },
        }
    }
}

pub open spec fn mount_in(ls: Seq<Seq<char>>, path: Seq<char>) -> Option<(u64, Seq<char>, bool)>
    decreases ls.len(),
{
    if ls.len() == 0 {
        None
    } else {
        match line_mount(ls[0], path) {
            Some(m) => Some(m),
            None => mount_in(ls.drop_first(), path),
        }
    }
}

fn option_list_has_ro(options: &Vec<char>) -> (r: bool)
    ensures
        r == read_only(options@),
{
    let parts = split_chars(options.as_slice(), ',');
    let ro = chars_of("ro");
    let mut i: usize = 0;
    while i < parts.len()
        invariant
            seqs_of(parts@) == split_char(options@, ','),
            ro@ == "ro"@,
            i <= parts@.len(),
            forall|j: int| 0 <= j < i ==> #[trigger] split_char(options@, ',')[j] != "ro"@,
        decreases parts.len() - i,
    {
        proof {
            assert(seqs_of(parts@)[i as int] == parts@[i as int]@);
        }
        if chars_eq(parts[i].as_slice(), ro.as_slice()) {
            return true;
        }
        i += 1;
    }
    false
}

/// The mount at `canonical` in a mountinfo table: id, filesystem type and
/// whether it is read-only.
pub fn mountinfo_for_path(mountinfo: &str, canonical: &str) -> (r: Option<(u64, String, bool)>)
    ensures
        match r {
            Some((id, fs, ro)) => mount_in(lines(mountinfo@), canonical@) == Some((id, fs@, ro)),
            None => mount_in(lines(mountinfo@), canonical@) is None,
        },
{
    let text = chars_of(mountinfo);
    let path = chars_of(canonical);
    let dash = chars_of("-");
    let ls = lines_of(text.as_slice());
    let ghost all = lines(mountinfo@);
    let mut i: usize = 0;
    proof {
        assert(all.skip(0) =~= all);
    }
    while i < ls.len()
        invariant
            all == lines(mountinfo@),
            seqs_of(ls@) == all,
            path@ == canonical@,
            dash@ == "-"@,
            i <= ls@.len(),
            mount_in(all, canonical@) == mount_in(all.skip(i as int), canonical@),
        decreases ls.len() - i,
    {
        proof {
            assert(seqs_of(ls@)[i as int] == ls@[i as int]@);
            assert(all.skip(i as int)[0] == all[i as int]);
            assert(all.skip(i as int).drop_first() =~= all.skip(i + 1));
        }
        let f = words_of(ls[i].as_slice());
        if f.len() > 6 {
            proof {
                assert(seqs_of(f@)[4] == f@[4]@);
                assert(seqs_of(f@)[5] == f@[5]@);
                assert(seqs_of(f@)[0] == f@[0]@);
            }
            if path_relation(f[4].as_slice(), path.as_slice(), true) {
                if let Some(s) = find_word(&f, dash.as_slice()) {
                    if let Some(id) = parse_bounded(f[0].as_slice(), 10, u64::MAX) {
                        if s + 1 < f.len() {
                            proof {
                                assert(seqs_of(f@)[s + 1] == f@[s + 1]@);
                            }
                            let fs = string_of(f[s + 1].as_slice());
                            let ro = option_list_has_ro(&f[5]);
                            proof {
                                assert(words(all[i as int]) == seqs_of(f@));
                                assert(line_mount(all[i as int], canonical@) == Some(
                                    (id, fs@, ro),
                                ));
                                assert(all.skip(i as int).len() > 0);
                                assert(mount_in(all.skip(i as int), canonical@) == Some(
                                    (id, fs@, ro),
                                ));
                            }
                            return Some((id, fs, ro));
                        }
                    }
                }
            }
        }
        i += 1;
    }
    None
}

/// Some line of a mountinfo table has a mount point (its fifth field) at or
/// below `directory`.
pub open spec fn mount_beneath(mountinfo: Seq<char>, directory: Seq<char>) -> bool {
    exists|i: int|
        0 <= i < lines(mountinfo).len() && words(#[trigger] lines(mountinfo)[i]).len() > 4
            && path_within(words(lines(mountinfo)[i])[4], directory)
}

/// Whether anything is mounted at or below a canonical directory.
pub fn has_live_mount_beneath(mountinfo: &str, directory: &str) -> (r: bool)
    ensures
        r == mount_beneath(mountinfo@, directory@),
{
    let text = chars_of(mountinfo);
    let dir = chars_of(directory);
    let ls = lines_of(text.as_slice());
    let mut i: usize = 0;
    while i < ls.len()
        invariant
            seqs_of(ls@) == lines(mountinfo@),
            dir@ == directory@,
            i <= ls@.len(),
            forall|j: int|
                0 <= j < i ==> !(words(#[trigger] lines(mountinfo@)[j]).len() > 4 && path_within(
                    words(lines(mountinfo@)[j])[4],
                    directory@,
                )),
        decreases ls.len() - i,
    {
        proof {
            assert(seqs_of(ls@)[i as int] == ls@[i as int]@);
        }
        let f = words_of(ls[i].as_slice());
        if f.len() > 4 {
            proof {
                assert(seqs_of(f@)[4] == f@[4]@);
            }
            if path_relation(f[4].as_slice(), dir.as_slice(), false) {
                return true;
            }
        }
        i += 1;
    }
    false
}

/// Some line of a mounts table mounts `bpf` at `/sys/fs/bpf` (its second
/// and third fields).
pub open spec fn bpffs_in(mounts: Seq<char>) -> bool {
    exists|i: int|
        0 <= i < lines(mounts).len() && words(#[trigger] lines(mounts)[i]).len() > 2 && words(
            lines(mounts)[i],
        )[1] == "/sys/fs/bpf"@ && words(lines(mounts)[i])[2] == "bpf"@
}

pub fn bpffs_mounted(mounts: &str) -> (r: bool)
    ensures
        r == bpffs_in(mounts@),
{
    let text = chars_of(mounts);
    let point = chars_of("/sys/fs/bpf");
    let kind = chars_of("bpf");
    let ls = lines_of(text.as_slice());
    let mut i: usize = 0;
    while i < ls.len()
        invariant
            seqs_of(ls@) == lines(mounts@),
            point@ == "/sys/fs/bpf"@,
            kind@ == "bpf"@,
            i <= ls@.len(),
            forall|j: int|
                0 <= j < i ==> !(words(#[trigger] lines(mounts@)[j]).len() > 2 && words(
                    lines(mounts@)[j],
                )[1] == "/sys/fs/bpf"@ && words(lines(mounts@)[j])[2] == "bpf"@),
        decreases ls.len() - i,
    {
        proof {
            assert(seqs_of(ls@)[i as int] == ls@[i as int]@);
        }
        let f = words_of(ls[i].as_slice());
        if f.len() > 2 {
            proof {
                assert(seqs_of(f@)[1] == f@[1]@);
                assert(seqs_of(f@)[2] == f@[2]@);
            }
            if chars_eq(f[1].as_slice(), point.as_slice()) && chars_eq(
                f[2].as_slice(),
                kind.as_slice(),
            ) {
                return true;
            }
        }
        i += 1;
    }
    false
}

/// Where a mount target lies beneath a rootfs: the rootfs itself for `.`,
/// else the target joined to it.
pub open spec fn target_beneath(rootfs: Seq<char>, target: Seq<char>) -> Seq<char> {
    if target == "."@ {
        rootfs
    } else {
        path_join(rootfs, target)
    }
}

pub fn mount_target_path(rootfs: &str, target: &str) -> (r: String)
    ensures
        r@ == target_beneath(rootfs@, target@),
{
    if str_eq(target, ".") {
        proof {
            reveal_strlit(".");
        }
        String::from_str(rootfs)
    } else {
        proof {
            reveal_strlit(".");
        }
        path_join_str(rootfs, target)
    }
}

/// What the file system shows at a mount target beneath the rootfs.
#[derive(Debug, Clone, Copy, PartialEq, Eq, Structural)]
pub enum TargetObservation {
    /// The container has no rootfs to look in.
    NoRootfs,
    /// Nothing is at the target.
    Missing,
    /// The target could not be inspected.
    Unreadable,
    /// The target is the object (`device`, `inode`).
    Present { device: u64, inode: u64 },
}

pub open spec fn mount_view(m: Option<(u64, String, bool)>) -> Option<(u64, Seq<char>, bool)> {
    match m {
        Some((id, fs, ro)) => Some((id, fs@, ro)),
        None => None,
    }
}

/// Whether an unmarked mount at the target is exactly the one the plan
/// would have made: the bind source's object, a tmpfs, or the read-only
/// rootfs itself.
pub open spec fn matches_planned_mount(
    device: u64,
    inode: u64,
    mount: Option<(u64, Seq<char>, bool)>,
    baseline: (u64, u64, Option<u64>),
    expected_bind: Option<(u64, u64, Option<u64>)>,
    expected_kind: Option<Seq<char>>,
) -> bool {
    match expected_bind {
        Some((source_device, source_inode, _)) => device == source_device && inode == source_inode
            && mount is Some,
        None => if expected_kind == Some("tmpfs"@) {
            mount matches Some((_, fs, _)) && fs == "tmpfs"@
        } else if expected_kind == Some("readonly"@) {
            mount matches Some((_, _, ro)) && ro && device == baseline.0 && inode == baseline.1
        } else {
            false
        },
    }
}

/// How a planned mount that was never marked applied is found: `Ok(None)`
/// when the target is absent or unchanged since the baseline, the identity
/// of the mount when it is exactly the planned one, and `Err` when the target
/// cannot be read or holds something else (cleanup is then quarantined).
pub open spec fn unmarked_mount_class(
    observed: TargetObservation,
    mount: Result<Option<(u64, Seq<char>, bool)>, ()>,
    baseline: (u64, u64, Option<u64>),
    expected_bind: Option<(u64, u64, Option<u64>)>,
    expected_kind: Option<Seq<char>>,
) -> Result<Option<ResourceIdentity>, ()> {
    match observed {
        TargetObservation::NoRootfs => Err(()),
        TargetObservation::Missing => Ok(None),
        TargetObservation::Unreadable => Err(()),
        TargetObservation::Present { device, inode } => match mount {
            Err(()) => Err(()),
            Ok(m) => {
                let mount_id = match m {
                    Some((id, _, _)) => Some(id),
                    None => None,
                };
                if device == baseline.0 && inode == baseline.1 && mount_id == baseline.2 {
                    Ok(None)
                } else if matches_planned_mount(
                    device,
                    inode,
                    m,
                    baseline,
                    expected_bind,
                    expected_kind,
                ) {
                    Ok(Some(ResourceIdentity::Path { device, inode, mount_id }))
                } else {
                    Err(())
                }
            },
        },
    }
}

pub open spec fn opt_text(o: Option<&str>) -> Option<Seq<char>> {
    match o {
        Some(s) => Some(s@),
        None => None,
    }
}

/// Classifies an unmarked planned mount from what the file system shows at
/// its target (`observed`) and the mount table's entry there (`mount`, as
/// `mountinfo_for_path` gives it, or `Err` where the table could not be read).
pub fn classify_unmarked_mount(
    observed: TargetObservation,
    mount: Result<Option<(u64, String, bool)>, ()>,
    baseline: (u64, u64, Option<u64>),
    expected_bind: Option<(u64, u64, Option<u64>)>,
    expected_kind: Option<&str>,
) -> (r: Result<Option<ResourceIdentity>, ()>)
    ensures
        r == unmarked_mount_class(
            observed,
            match mount {
                Ok(m) => Ok(mount_view(m)),
                Err(()) => Err(()),
            },
            baseline,
            expected_bind,
            opt_text(expected_kind),
        ),
{
    let (device, inode) = match observed {
        TargetObservation::NoRootfs => {
            return Err(());
        },
        TargetObservation::Missing => {
            return Ok(None);
        },
        TargetObservation::Unreadable => {
            return Err(());
        },
        TargetObservation::Present { device, inode } => (device, inode),
    };
    let m = match mount {
        Err(()) => {
            return Err(());
        },
        Ok(m) => m,
    };
    let mount_id = match &m {
        Some((id, _, _)) => Some(*id),
        None => None,
    };
    if device == baseline.0 && inode == baseline.1 && mount_id == baseline.2 {
        return Ok(None);
    }
    proof {
        reveal_strlit("tmpfs");
        reveal_strlit("readonly");
    }
    let exact = match expected_bind {
        Some((source_device, source_inode, _)) => device == source_device && inode == source_inode
            && m.is_some(),
        None => match expected_kind {
            Some(kind) => if str_eq(kind, "tmpfs") {
                match &m {
                    Some((_, fs, _)) => str_eq(fs.as_str(), "tmpfs"),
                    None => false,
                }
            } else if str_eq(kind, "readonly") {
                match &m {
                    Some((_, _, ro)) => *ro && device == baseline.0 && inode == baseline.1,
                    None => false,
                }
            } else {
                false
            },
            None => false,
        },
    };
    if !exact {
        return Err(());
    }
    Ok(Some(ResourceIdentity::Path { device, inode, mount_id }))
}

} // verus!
