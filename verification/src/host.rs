//! Host-side choices that follow from what the host shows: where a
//! container's stdin FIFO lives, which file a bare command names inside a
//! root filesystem, which cgroup the runtime may create children under,
//! whether rootless mounts can be honoured, and hexadecimal trust values.

use crate::error::{ErrorView, RuntimeError};
use crate::text::{
    chars_contain, chars_eq, chars_of, chars_skip, concat, digit_value, is_ascii_digit, lower,
    path_join, path_join_str, seqs_of, split_char, split_chars, string_of, words, words_of,
};
use vstd::prelude::*;
use vstd::string::StringExecFns;

verus! {

/// What `Path::parent` gives for a path.
pub uninterp spec fn path_parent_of(path: Seq<char>) -> Option<Seq<char>>;

/// What `Path::with_file_name` gives for a path and a file name.
pub uninterp spec fn path_with_file_name_of(path: Seq<char>, name: Seq<char>) -> Seq<char>;

/// `std::path::Path::parent` on a path given as UTF-8 text; the result is
/// named, not described.
#[verifier::external_body]
fn path_parent(path: &str) -> (r: Option<String>)
    ensures
        (match r {
            Some(s) => Some(s@),
            None => None,
        }) == path_parent_of(path@),
{
    std::path::Path::new(path).parent().map(|p| p.to_string_lossy().into_owned())
}

/// `std::path::Path::with_file_name` on UTF-8 text; the result is named,
/// not described.
#[verifier::external_body]
fn path_with_file_name(path: &str, name: &str) -> (r: String)
    ensures
        r@ == path_with_file_name_of(path@, name@),
{
    std::path::Path::new(path).with_file_name(name).to_string_lossy().into_owned()
}

/// The stdin FIFO sits in the container directory, two levels above the
/// stdout log; a log path without two parents gets it beside the log.
pub open spec fn stdin_fifo(stdout_path: Seq<char>) -> Seq<char> {
    match path_parent_of(stdout_path) {
        Some(p) => match path_parent_of(p) {
            Some(dir) => path_join(dir, "stdin"@),
            None => path_with_file_name_of(stdout_path, "stdin"@),
        },
        None => path_with_file_name_of(stdout_path, "stdin"@),
    }
}

pub fn stdin_fifo_path(stdout_path: &str) -> (r: String)
    ensures
        r@ == stdin_fifo(stdout_path@),
{
    match path_parent(stdout_path) {
        Some(p) => match path_parent(p.as_str()) {
            Some(dir) => path_join_str(dir.as_str(), "stdin"),
            None => path_with_file_name(stdout_path, "stdin"),
        },
        None => path_with_file_name(stdout_path, "stdin"),
    }
}

/// The directories of a root filesystem searched for a bare command, in order.
pub open spec fn search_dirs() -> Seq<Seq<char>> {
    seq![
        "usr/local/sbin"@,
        "usr/local/bin"@,
        "usr/sbin"@,
        "usr/bin"@,
        "sbin"@,
        "bin"@,
    ]
}

fn search_dir(i: usize) -> (r: &'static str)
    requires
        i < 6,
    ensures
        r@ == search_dirs()[i as int],
{
    if i == 0 {
        "usr/local/sbin"
    } else if i == 1 {
        "usr/local/bin"
    } else if i == 2 {
        "usr/sbin"
    } else if i == 3 {
        "usr/bin"
    } else if i == 4 {
        "sbin"
    } else {
        "bin"
    }
}

/// The files that a bare command may be, inside `rootfs`, in search order.
pub fn rootfs_command_candidates(rootfs: &str, cmd: &str) -> (r: Vec<String>)
    ensures
        r@.len() == 6,
        forall|i: int|
            0 <= i < 6 ==> (#[trigger] r@[i])@ == path_join(
                path_join(rootfs@, search_dirs()[i]),
                cmd@,
            ),
{
    let mut r: Vec<String> = Vec::new();
    let mut i: usize = 0;
    while i < 6
        invariant
            i <= 6,
            r@.len() == i,
            forall|j: int|
                0 <= j < i ==> (#[trigger] r@[j])@ == path_join(
                    path_join(rootfs@, search_dirs()[j]),
                    cmd@,
                ),
        decreases 6 - i,
    {
        let dir = path_join_str(rootfs, search_dir(i));
        r.push(path_join_str(dir.as_str(), cmd));
        i += 1;
    }
    r
}

/// The first search position whose candidate exists, from `i` on.
pub open spec fn first_present(present: Seq<bool>, i: int) -> Option<int>
    decreases 6 - i,
{
    if i >= 6 || i >= present.len() {
        None
    } else if present[i] {
        Some(i)
    } else {
        first_present(present, i + 1)
    }
}

/// A command with a `/` is taken as it is; a bare one becomes the absolute
/// path of the first search directory where it exists (`present[i]` tells
/// whether the `i`-th candidate exists), or stays bare.
pub open spec fn rootfs_command(cmd: Seq<char>, present: Seq<bool>) -> Seq<char> {
    if cmd.contains('/') {
        cmd
    } else {
        match first_present(present, 0) {
            Some(i) => "/"@ + search_dirs()[i] + "/"@ + cmd,
            None => cmd,
        }
    }
}

pub fn resolve_rootfs_command(cmd: &str, present: &[bool]) -> (r: String)
    ensures
        r@ == rootfs_command(cmd@, present@),
{
    let c = chars_of(cmd);
    if chars_contain(c.as_slice(), '/') {
        return String::from_str(cmd);
    }
    let mut i: usize = 0;
    while i < 6 && i < present.len()
        invariant
            i <= 6,
            c@ == cmd@,
            !cmd@.contains('/'),
            first_present(present@, 0) == first_present(present@, i as int),
        decreases 6 - i,
    {
        if present[i] {
            let a = concat("/", search_dir(i));
            let b = concat(a.as_str(), "/");
            return concat(b.as_str(), cmd);
        }
        i += 1;
    }
    String::from_str(cmd)
}

/// `str::trim_start_matches('+')`.
pub open spec fn strip_plus(s: Seq<char>) -> Seq<char>
    decreases s.len(),
{
    if s.len() > 0 && s[0] == '+' {
        strip_plus(s.drop_first())
    } else {
        s
    }
}

/// A control that the runtime needs delegated: `cpu`, `memory` or `pids`.
pub open spec fn needed_control(c: Seq<char>) -> bool {
    c == "cpu"@ || c == "memory"@ || c == "pids"@
}

/// A `cgroup.subtree_control` text delegates when one of its words, without
/// leading `+` signs, is a needed control.
pub open spec fn delegates(controls: Seq<char>) -> bool {
    exists|i: int| 0 <= i < words(controls).len() && needed_control(strip_plus(#[trigger] words(controls)[i]))
}

fn strip_plus_chars(s: &Vec<char>) -> (r: Vec<char>)
    ensures
        r@ == strip_plus(s@),
{
    let mut k: usize = 0;
    proof {
        assert(s@.skip(0) =~= s@);
    }
    while k < s.len() && s[k] == '+'
        invariant
            k <= s@.len(),
            strip_plus(s@) == strip_plus(s@.skip(k as int)),
        decreases s.len() - k,
    {
        proof {
            assert(s@.skip(k as int).drop_first() =~= s@.skip(k + 1));
        }
        k += 1;
    }
    chars_skip(s.as_slice(), k)
}

pub fn subtree_controls_delegate(controls: &str) -> (r: bool)
    ensures
        r == delegates(controls@),
{
    let c = chars_of(controls);
    let ws = words_of(c.as_slice());
    let cpu = chars_of("cpu");
    let memory = chars_of("memory");
    let pids = chars_of("pids");
    let mut i: usize = 0;
    while i < ws.len()
        invariant
            seqs_of(ws@) == words(controls@),
            c@ == controls@,
            cpu@ == "cpu"@,
            memory@ == "memory"@,
            pids@ == "pids"@,
            i <= ws@.len(),
            forall|j: int| 0 <= j < i ==> !needed_control(strip_plus(#[trigger] words(controls@)[j])),
        decreases ws.len() - i,
    {
        proof {
            assert(seqs_of(ws@)[i as int] == ws@[i as int]@);
        }
        let w = strip_plus_chars(&ws[i]);
        if chars_eq(w.as_slice(), cpu.as_slice()) || chars_eq(w.as_slice(), memory.as_slice())
            || chars_eq(w.as_slice(), pids.as_slice()) {
            return true;
        }
        i += 1;
    }
    false
}

/// The components of a relative cgroup path: its `/`-separated pieces,
/// without empty ones and `.`.
pub open spec fn path_components(s: Seq<char>) -> Seq<Seq<char>> {
    split_char(s, '/').filter(|c: Seq<char>| c.len() > 0 && c != "."@)
}

/// `hierarchy` joined with the first `k` components.
pub open spec fn join_components(base: Seq<char>, comps: Seq<Seq<char>>, k: int) -> Seq<char>
    decreases k,
{
    if k <= 0 {
        base
    } else {
        path_join(join_components(base, comps, k - 1), comps[k - 1])
    }
}

/// `str::trim_start_matches('/')`.
pub open spec fn strip_slashes(s: Seq<char>) -> Seq<char>
    decreases s.len(),
{
    if s.len() > 0 && s[0] == '/' {
        strip_slashes(s.drop_first())
    } else {
        s
    }
}

/// The cgroups that may host the runtime's children, deepest first: the
/// current cgroup below `hierarchy`, then each ancestor up to `hierarchy`
/// itself. None when the relative path is empty or holds `..`.
pub open spec fn delegation_candidates(hierarchy: Seq<char>, relative: Seq<char>) -> Option<
    Seq<Seq<char>>,
> {
    let r = strip_slashes(relative);
    if r.len() == 0 || crate::text::has_infix(r, ".."@) {
        None
    } else {
        let comps = path_components(r);
        Some(
            Seq::new(
                comps.len() + 1,
                |i: int| join_components(hierarchy, comps, comps.len() - i),
            ),
        )
    }
}

fn strip_slashes_chars(s: &Vec<char>) -> (r: Vec<char>)
    ensures
        r@ == strip_slashes(s@),
{
    let mut k: usize = 0;
    proof {
        assert(s@.skip(0) =~= s@);
    }
    while k < s.len() && s[k] == '/'
        invariant
            k <= s@.len(),
            strip_slashes(s@) == strip_slashes(s@.skip(k as int)),
        decreases s.len() - k,
    {
        proof {
            assert(s@.skip(k as int).drop_first() =~= s@.skip(k + 1));
        }
        k += 1;
    }
    chars_skip(s.as_slice(), k)
}

pub fn components_of(s: &[char]) -> (r: Vec<Vec<char>>)
    ensures
        seqs_of(r@) == path_components(s@),
{
    let parts = split_chars(s, '/');
    let dot = chars_of(".");
    let mut r: Vec<Vec<char>> = Vec::new();
    let mut i: usize = 0;
    let ghost ps = split_char(s@, '/');
    let ghost keep = |c: Seq<char>| c.len() > 0 && c != "."@;
    proof {
        assert(ps.take(0).filter(keep) =~= Seq::<Seq<char>>::empty());
    }
    while i < parts.len()
        invariant
            seqs_of(parts@) == ps,
            dot@ == "."@,
            i <= parts@.len(),
            keep == (|c: Seq<char>| c.len() > 0 && c != "."@),
            seqs_of(r@) == ps.take(i as int).filter(keep),
        decreases parts.len() - i,
    {
        proof {
            assert(seqs_of(parts@)[i as int] == parts@[i as int]@);
            assert(ps.take(i + 1).drop_last() =~= ps.take(i as int));
            reveal(Seq::filter);
        }
        if parts[i].len() > 0 && !chars_eq(parts[i].as_slice(), dot.as_slice()) {
            r.push(chars_skip(parts[i].as_slice(), 0));
            proof {
                assert(parts@[i as int]@.skip(0) =~= parts@[i as int]@);
            }
        }
        proof {
            assert(seqs_of(r@) =~= ps.take(i + 1).filter(keep));
        }
        i += 1;
    }
    proof {
        assert(ps.take(ps.len() as int) =~= ps);
    }
    r
}

pub fn delegated_cgroup_candidates(hierarchy: &str, relative: &str) -> (r: Option<Vec<String>>)
    ensures
        (match r {
            Some(v) => Some(crate::text::strs_of(v@)),
            None => None,
        }) == delegation_candidates(hierarchy@, relative@),
{
    let rel = chars_of(relative);
    let r = strip_slashes_chars(&rel);
    let dots = chars_of("..");
    if r.len() == 0 || crate::text::chars_has_infix(r.as_slice(), dots.as_slice()) {
        return None;
    }
    let comps = components_of(r.as_slice());
    let n = comps.len();
    let mut joined: Vec<String> = Vec::new();
    joined.push(String::from_str(hierarchy));
    let mut k: usize = 0;
    while k < n
        invariant
            n == comps@.len(),
            seqs_of(comps@) == path_components(strip_slashes(relative@)),
            k <= n,
            joined@.len() == k + 1,
            forall|j: int|
                0 <= j <= k ==> (#[trigger] joined@[j])@ == join_components(
                    hierarchy@,
                    path_components(strip_slashes(relative@)),
                    j,
                ),
        decreases n - k,
    {
        proof {
            assert(seqs_of(comps@)[k as int] == comps@[k as int]@);
        }
        let last = joined[k].clone();
        let c = string_of(comps[k].as_slice());
        joined.push(path_join_str(last.as_str(), c.as_str()));
        k += 1;
    }
    let total = joined.len();
    assert(total == n + 1);
    let mut out: Vec<String> = Vec::new();
    let mut i: usize = 0;
    while i <= n
        invariant
            n < usize::MAX,
            n == comps@.len(),
            seqs_of(comps@) == path_components(strip_slashes(relative@)),
            joined@.len() == n + 1,
            forall|j: int|
                0 <= j <= n ==> (#[trigger] joined@[j])@ == join_components(
                    hierarchy@,
                    path_components(strip_slashes(relative@)),
                    j,
                ),
            i <= n + 1,
            out@.len() == i,
            forall|j: int|
                0 <= j < i ==> (#[trigger] out@[j])@ == join_components(
                    hierarchy@,
                    path_components(strip_slashes(relative@)),
                    n - j,
                ),
        decreases n + 1 - i,
    {
        out.push(joined[n - i].clone());
        i += 1;
    }
    proof {
        let comps_s = path_components(strip_slashes(relative@));
        assert(crate::text::strs_of(out@) =~= Seq::new(
            comps_s.len() + 1,
            |i: int| join_components(hierarchy@, comps_s, comps_s.len() - i),
        ));
    }
    Some(out)
}

/// The cgroup root: an explicit setting wins; a root daemon uses the
/// hierarchy; otherwise the deepest delegated cgroup found, else the
/// current cgroup below the hierarchy, else the hierarchy.
pub open spec fn cgroup_root(
    explicit: Option<Seq<char>>,
    is_root: bool,
    relative: Option<Seq<char>>,
    delegated: Option<Seq<char>>,
) -> Seq<char> {
    match explicit {
        Some(e) => e,
        None => if is_root {
            "/sys/fs/cgroup"@
        } else {
            match delegated {
                Some(d) => d,
                None => match relative {
                    Some(r) => path_join("/sys/fs/cgroup"@, strip_slashes(r)),
                    None => "/sys/fs/cgroup"@,
                },
            }
        },
    }
}

pub fn configured_cgroup_root(
    explicit: Option<&str>,
    is_root: bool,
    relative: Option<&str>,
    delegated: Option<&str>,
) -> (r: String)
    ensures
        r@ == cgroup_root(
            crate::paths::opt_view(explicit),
            is_root,
            crate::paths::opt_view(relative),
            crate::paths::opt_view(delegated),
        ),
{
    if let Some(e) = explicit {
        return String::from_str(e);
    }
    if is_root {
        return String::from_str("/sys/fs/cgroup");
    }
    if let Some(d) = delegated {
        return String::from_str(d);
    }
    match relative {
        Some(r) => {
            let rc = chars_of(r);
            let t = strip_slashes_chars(&rc);
            let ts = string_of(t.as_slice());
            path_join_str("/sys/fs/cgroup", ts.as_str())
        },
        None => String::from_str("/sys/fs/cgroup"),
    }
}

/// Rootless mounts, and a read-only root filesystem, need bubblewrap and a
/// mount-capable user namespace.
pub fn validate_rootless_mount_capability(
    rootless: bool,
    bind_mount_count: usize,
    tmpfs_mount_count: usize,
    readonly_rootfs: bool,
    bwrap_available: bool,
    mount_namespace_available: bool,
) -> (r: Result<(), RuntimeError>)
    ensures
        r is Err <==> (rootless && (bind_mount_count > 0 || tmpfs_mount_count > 0
            || readonly_rootfs) && (!bwrap_available || !mount_namespace_available)),
        r matches Err(e) ==> e@ == ErrorView::InvalidCommand(
            "rootless workload mounts and read-only rootfs require bubblewrap plus a mount-capable user namespace; this host path cannot apply them safely"@,
        ),
{
    if rootless && (bind_mount_count > 0 || tmpfs_mount_count > 0 || readonly_rootfs) && (
    !bwrap_available || !mount_namespace_available) {
        return Err(
            RuntimeError::InvalidCommand(
                String::from_str(
                    "rootless workload mounts and read-only rootfs require bubblewrap plus a mount-capable user namespace; this host path cannot apply them safely",
                ),
            ),
        );
    }
    Ok(())
}

/// An ASCII hexadecimal digit.
pub open spec fn is_hex_digit(c: char) -> bool {
    ('0' <= c && c <= '9') || ('a' <= c && c <= 'f') || ('A' <= c && c <= 'F')
}

/// `n` bytes written as exactly `2n` hexadecimal digits, high nibble first.
pub open spec fn fixed_hex(value: Seq<char>, n: nat) -> Result<Seq<u8>, ErrorView> {
    if value.len() == 2 * n && forall|i: int| 0 <= i < value.len() ==> is_hex_digit(#[trigger] value[i]) {
        Ok(
            Seq::new(
                n,
                |i: int| (digit_value(value[2 * i]) * 16 + digit_value(value[2 * i + 1])) as u8,
            ),
        )
    } else {
        Err(ErrorView::Authorization("invalid hexadecimal trust value"@))
    }
}

pub fn decode_fixed_hex(value: &str, n: usize) -> (r: Result<Vec<u8>, RuntimeError>)
    ensures
        r matches Ok(b) ==> fixed_hex(value@, n as nat) == Ok::<Seq<u8>, ErrorView>(b@),
        r matches Err(e) ==> fixed_hex(value@, n as nat) == Err::<Seq<u8>, ErrorView>(e@),
{
    let v = chars_of(value);
    let len = v.len();
    if n > len / 2 || len != 2 * n {
        return Err(
            RuntimeError::Authorization(String::from_str("invalid hexadecimal trust value")),
        );
    }
    let mut i: usize = 0;
    while i < len
        invariant
            len == v@.len(),
            v@ == value@,
            i <= len,
            forall|j: int| 0 <= j < i ==> is_hex_digit(#[trigger] v@[j]),
        decreases len - i,
    {
        let c = v[i];
        if !(('0' <= c && c <= '9') || ('a' <= c && c <= 'f') || ('A' <= c && c <= 'F')) {
            return Err(
                RuntimeError::Authorization(String::from_str("invalid hexadecimal trust value")),
            );
        }
        i += 1;
    }
    let mut out: Vec<u8> = Vec::new();
    let mut k: usize = 0;
    while k < n
        invariant
            len == v@.len(),
            len == 2 * n,
            v@ == value@,
            forall|j: int| 0 <= j < len ==> is_hex_digit(#[trigger] v@[j]),
            k <= n,
            out@.len() == k,
            forall|j: int|
                0 <= j < k ==> out@[j] == (digit_value(v@[2 * j]) * 16 + digit_value(
                    v@[2 * j + 1],
                )) as u8,
        decreases n - k,
    {
        assert(is_hex_digit(v@[2 * k as int]));
        assert(is_hex_digit(v@[2 * k + 1]));
        let hi = crate::text::char_digit_value(v[2 * k]);
        let lo = crate::text::char_digit_value(v[2 * k + 1]);
        out.push((hi * 16 + lo) as u8);
        k += 1;
    }
    proof {
        assert(out@ =~= Seq::new(
            n as nat,
            |i: int| (digit_value(value@[2 * i]) * 16 + digit_value(value@[2 * i + 1])) as u8,
        ));
    }
    Ok(out)
}

} // verus!
