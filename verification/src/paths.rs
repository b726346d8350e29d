//! Admission of names, paths and small textual settings: container names,
//! archive targets, SELinux types, the current cgroup, working directories,
//! user specifications, environment lists and short identifiers.

use crate::error::{ErrorView, RuntimeError};
use crate::text::{
    char_is_ascii_alnum, chars_eq, chars_of, chars_starts_with, chars_take, chars_skip, concat,
    find_char, first_index, has_infix, chars_has_infix, is_ascii_alnum, lead_ws, lines, lines_of,
    parse_u64_radix, parse_unsigned, path_join, path_join_str, seqs_of, starts_with, str_eq,
    string_of, strs_of, trim, trim_chars, trim_start, lemma_lead_unique, lemma_trail_unique,
};
use vstd::prelude::*;
use vstd::string::StringExecFns;
use vstd::string::StringSliceAdditionalSpecFns;

verus! {

pub open spec fn name_char_ok(c: char) -> bool {
    is_ascii_alnum(c) || c == '_' || c == '.' || c == '-'
}

/// Why `name` is refused as a container name, if it is.
pub open spec fn container_name_error(name: &str) -> Option<ErrorView> {
    let s = name@;
    if s.len() == 0 || name.len() > 255 || s == "."@ || s == ".."@ {
        Some(ErrorView::InvalidCommand("container name must be 1-255 characters"@))
    } else if !is_ascii_alnum(s[0]) || exists|i: int| 1 <= i < s.len() && !#[trigger] name_char_ok(s[i]) {
        Some(ErrorView::InvalidCommand("container name contains unsupported characters"@))
    } else {
        None
    }
}

/// Container names are 1 to 255 bytes, neither `.` nor `..`, start with an
/// ASCII letter or digit and continue with letters, digits, `_`, `.`, `-`.
pub fn validate_container_name(name: &str) -> (r: Result<(), RuntimeError>)
    ensures
        r is Ok <==> container_name_error(name) is None,
        r matches Err(e) ==> Some(e@) == container_name_error(name),
{
    let s = chars_of(name);
    if s.len() == 0 || name.len() > 255 || str_eq(name, ".") || str_eq(name, "..") {
        return Err(
            RuntimeError::InvalidCommand(
                String::from_str("container name must be 1-255 characters"),
            ),
        );
    }
    let mut ok = char_is_ascii_alnum(s[0]);
    let mut i: usize = 1;
    while i < s.len()
        invariant
            s@ == name@,
            1 <= i <= s@.len(),
            ok == (is_ascii_alnum(s@[0]) && forall|j: int| 1 <= j < i ==> name_char_ok(#[trigger] s@[j])),
        decreases s.len() - i,
    {
        let c = s[i];
        let good = char_is_ascii_alnum(c) || c == '_' || c == '.' || c == '-';
        ok = ok && good;
        i += 1;
    }
    if !ok {
        assert(!is_ascii_alnum(name@[0]) || exists|j: int| 1 <= j < name@.len() && !#[trigger] name_char_ok(name@[j]));
        assert(container_name_error(name) == Some(ErrorView::InvalidCommand("container name contains unsupported characters"@)));
        return Err(
            RuntimeError::InvalidCommand(
                String::from_str("container name contains unsupported characters"),
            ),
        );
    }
    assert(is_ascii_alnum(name@[0]));
    assert(container_name_error(name) is None);
    Ok(())
}

/// A path component that an archive target may not contain.
pub open spec fn unnormal_component(c: Seq<char>) -> bool {
    c.len() == 0 || c == "."@ || c == ".."@
}

/// The relative path inside the root that an absolute, normalized archive
/// target names, or the refusal.
pub open spec fn archive_target(t: Seq<char>) -> Result<Seq<char>, ErrorView> {
    if !starts_with(t, "/"@) {
        Err(ErrorView::InvalidCommand("archive path must be absolute"@))
    } else {
        let rel = t.drop_first();
        let parts = crate::text::split_char(rel, '/');
        if rel.len() > 0 && exists|i: int| 0 <= i < parts.len() && unnormal_component(#[trigger] parts[i]) {
            Err(ErrorView::InvalidCommand("archive path must be normalized and absolute"@))
        } else {
            Ok(rel)
        }
    }
}

pub fn validate_archive_target(target: &str) -> (r: Result<String, RuntimeError>)
    ensures
        r matches Ok(p) ==> archive_target(target@) == Ok::<Seq<char>, ErrorView>(p@),
        r matches Err(e) ==> archive_target(target@) == Err::<Seq<char>, ErrorView>(e@),
{
    let t = chars_of(target);
    let slash = chars_of("/");
    if !chars_starts_with(t.as_slice(), slash.as_slice()) {
        return Err(RuntimeError::InvalidCommand(String::from_str("archive path must be absolute")));
    }
    proof {
        reveal_strlit("/");
        assert(slash@.len() == 1);
    }
    let rel = chars_skip(t.as_slice(), 1);
    proof {
        assert(rel@ =~= target@.drop_first());
    }
    if rel.len() > 0 {
        let parts = crate::text::split_chars(rel.as_slice(), '/');
        let dot = chars_of(".");
        let dotdot = chars_of("..");
        let mut i: usize = 0;
        while i < parts.len()
            invariant
                i <= parts@.len(),
                seqs_of(parts@) == crate::text::split_char(rel@, '/'),
                rel@ == target@.drop_first(),
                rel@.len() > 0,
                starts_with(target@, "/"@),
                dot@ == "."@,
                dotdot@ == ".."@,
                forall|j: int| 0 <= j < i ==> !unnormal_component(#[trigger] seqs_of(parts@)[j]),
            decreases parts.len() - i,
        {
            let p = &parts[i];
            assert(p@ == seqs_of(parts@)[i as int]);
            if p.len() == 0 || chars_eq(p.as_slice(), dot.as_slice()) || chars_eq(
                p.as_slice(),
                dotdot.as_slice(),
            ) {
                return Err(
                    RuntimeError::InvalidCommand(
                        String::from_str("archive path must be normalized and absolute"),
                    ),
                );
            }
            i += 1;
        }
    }
    Ok(string_of(rel.as_slice()))
}

pub open spec fn selinux_char_ok(c: char) -> bool {
    is_ascii_alnum(c) || c == '_' || c == '-'
}

/// SELinux types are ASCII letters, digits, `_` and `-`.
pub fn validate_selinux_type(selinux_type: &str) -> (r: Result<(), RuntimeError>)
    ensures
        r is Ok <==> (forall|i: int| 0 <= i < selinux_type@.len() ==> selinux_char_ok(#[trigger] selinux_type@[i])),
        r matches Err(e) ==> e@ == ErrorView::InvalidCommand("selinux type contains invalid characters"@),
{
    let s = chars_of(selinux_type);
    let mut i: usize = 0;
    while i < s.len()
        invariant
            s@ == selinux_type@,
            i <= s@.len(),
            forall|j: int| 0 <= j < i ==> selinux_char_ok(#[trigger] s@[j]),
        decreases s.len() - i,
    {
        let c = s[i];
        if !(char_is_ascii_alnum(c) || c == '_' || c == '-') {
            assert(!selinux_char_ok(s@[i as int]));
            return Err(
                RuntimeError::InvalidCommand(
                    String::from_str("selinux type contains invalid characters"),
                ),
            );
        }
        i += 1;
    }
    Ok(())
}

/// The path field of a `/proc/self/cgroup` line (`hierarchy:controllers:path`)
/// when it is a non-empty absolute path without `..`.
pub open spec fn cgroup_line_path(l: Seq<char>) -> Option<Seq<char>> {
    match first_index(l, ':') {
        None => None,
        Some(a) => {
            let rest = l.skip(a + 1);
            match first_index(rest, ':') {
                None => None,
                Some(b) => {
                    let path = rest.skip(b + 1);
                    if path.len() > 0 && starts_with(path, "/"@) && !has_infix(path, ".."@) {
                        Some(path)
                    } else {
                        None
                    }
                },
            }
        },
    }
}

pub open spec fn first_cgroup_line(ls: Seq<Seq<char>>, i: int) -> bool {
    &&& 0 <= i < ls.len()
    &&& cgroup_line_path(ls[i]) is Some
    &&& forall|j: int| 0 <= j < i ==> cgroup_line_path(#[trigger] ls[j]) is None
}

/// The path of the first line of `/proc/self/cgroup` contents that names a
/// usable cgroup-v2 path.
pub open spec fn cgroup_relative_path(contents: Seq<char>) -> Option<Seq<char>> {
    let ls = lines(contents);
    if exists|i: int| first_cgroup_line(ls, i) {
        cgroup_line_path(ls[choose|i: int| first_cgroup_line(ls, i)])
    } else {
        None
    }
}

fn line_cgroup_path(l: &Vec<char>) -> (r: Option<Vec<char>>)
    ensures
        r matches Some(p) ==> cgroup_line_path(l@) == Some(p@),
        r is None ==> cgroup_line_path(l@) is None,
{
    let n = l.len();
    let a = match find_char(l.as_slice(), ':') {
        Some(a) => a,
        None => return None,
    };
    let rest = chars_skip(l.as_slice(), a + 1);
    let m = rest.len();
    let b = match find_char(rest.as_slice(), ':') {
        Some(b) => b,
        None => return None,
    };
    let path = chars_skip(rest.as_slice(), b + 1);
    let slash = chars_of("/");
    let dots = chars_of("..");
    if path.len() > 0 && chars_starts_with(path.as_slice(), slash.as_slice())
        && !chars_has_infix(path.as_slice(), dots.as_slice()) {
        Some(path)
    } else {
        None
    }
}

pub fn current_cgroup_relative_path(contents: &str) -> (r: Option<String>)
    ensures
        r matches Some(p) ==> cgroup_relative_path(contents@) == Some(p@),
        r is None ==> cgroup_relative_path(contents@) is None,
{
    let c = chars_of(contents);
    let ls = lines_of(c.as_slice());
    let ghost v = lines(contents@);
    let mut i: usize = 0;
    while i < ls.len()
        invariant
            seqs_of(ls@) == v,
            v == lines(contents@),
            i <= ls@.len(),
            forall|j: int| 0 <= j < i ==> cgroup_line_path(#[trigger] v[j]) is None,
        decreases ls.len() - i,
    {
        assert(ls@[i as int]@ == v[i as int]);
        match line_cgroup_path(&ls[i]) {
            Some(p) => {
                proof {
                    assert(first_cgroup_line(v, i as int));
                    let k = choose|k: int| first_cgroup_line(v, k);
                    if k < i {
                        assert(cgroup_line_path(v[k]) is None);
                    }
                    if i < k {
                        assert(cgroup_line_path(v[i as int]) is None);
                    }
                }
                return Some(string_of(p.as_slice()));
            },
            None => {},
        }
        i += 1;
    }
    assert forall|k: int| !first_cgroup_line(v, k) by {
        if 0 <= k < v.len() {
            assert(cgroup_line_path(v[k]) is None);
        }
    }
    None
}

/// The working directory that the rootfs launcher enters: the trimmed
/// setting, made absolute, or `/`.
pub open spec fn launcher_workdir(workdir: Option<Seq<char>>) -> Seq<char> {
    match workdir {
        None => "/"@,
        Some(w) => {
            let t = trim(w);
            if t.len() == 0 || t == "/"@ {
                "/"@
            } else if starts_with(t, "/"@) {
                t
            } else {
                "/"@ + t
            }
        },
    }
}

pub fn container_workdir_for_launcher(workdir: Option<&str>) -> (r: String)
    ensures
        r@ == launcher_workdir(
            match workdir {
                Some(w) => Some(w@),
                None => None,
            },
        ),
{
    match workdir {
        None => String::from_str("/"),
        Some(w) => {
            let c = chars_of(w);
            let t = trim_chars(c.as_slice());
            let slash = chars_of("/");
            if t.len() == 0 || chars_eq(t.as_slice(), slash.as_slice()) {
                String::from_str("/")
            } else if chars_starts_with(t.as_slice(), slash.as_slice()) {
                string_of(t.as_slice())
            } else {
                let ts = string_of(t.as_slice());
                concat("/", ts.as_str())
            }
        },
    }
}

/// `/proc/sys/net/ipv4/conf/<interface>/route_localnet`.
pub fn route_localnet_path(interface: &str) -> (r: String)
    ensures
        r@ == path_join(path_join("/proc/sys/net/ipv4/conf"@, interface@), "route_localnet"@),
{
    let dir = path_join_str("/proc/sys/net/ipv4/conf", interface);
    path_join_str(dir.as_str(), "route_localnet")
}

/// `ip netns exec <netns> <args...>`.
pub fn ip_netns_exec(netns_name: &str, args: &[&str]) -> (out: Vec<String>)
    ensures
        strs_of(out@) == seq!["ip"@, "netns"@, "exec"@, netns_name@] + args@.map_values(
            |a: &str| a@,
        ),
{
    let mut out: Vec<String> = Vec::new();
    out.push(String::from_str("ip"));
    out.push(String::from_str("netns"));
    out.push(String::from_str("exec"));
    out.push(String::from_str(netns_name));
    let ghost head = seq!["ip"@, "netns"@, "exec"@, netns_name@];
    assert(strs_of(out@) =~= head);
    let mut i: usize = 0;
    while i < args.len()
        invariant
            i <= args@.len(),
            head == seq!["ip"@, "netns"@, "exec"@, netns_name@],
            strs_of(out@) == head + args@.take(i as int).map_values(|a: &str| a@),
        decreases args.len() - i,
    {
        let ghost o0 = strs_of(out@);
        out.push(String::from_str(args[i]));
        assert(strs_of(out@) =~= o0.push(args@[i as int]@));
        i += 1;
        assert(strs_of(out@) =~= head + args@.take(i as int).map_values(|a: &str| a@));
    }
    assert(args@.take(args@.len() as int) =~= args@);
    out
}

} // verus!

verus! {

/// The numeric `uid[:gid]` form of a user setting; a missing or unreadable
/// gid falls back to the uid.
pub open spec fn user_spec(value: Seq<char>) -> Option<(u32, u32)> {
    let t = trim(value);
    if t.len() == 0 {
        None
    } else {
        let u = match first_index(t, ':') {
            Some(a) => t.take(a),
            None => t,
        };
        match parse_unsigned(u, 10, u32::MAX as int) {
            None => None,
            Some(uid) => {
                let gid = match first_index(t, ':') {
                    Some(a) => match parse_unsigned(t.skip(a + 1), 10, u32::MAX as int) {
                        Some(g) => g,
                        None => uid,
                    },
                    None => uid,
                };
                Some((uid as u32, gid as u32))
            },
        }
    }
}

pub fn parse_user_spec(value: &str) -> (r: Option<(u32, u32)>)
    ensures
        r == user_spec(value@),
{
    let c = chars_of(value);
    let t = trim_chars(c.as_slice());
    if t.len() == 0 {
        return None;
    }
    let n = t.len();
    match find_char(t.as_slice(), ':') {
        Some(a) => {
            let u = chars_take(t.as_slice(), a);
            let uid = match crate::text::parse_bounded(u.as_slice(), 10, 0xffff_ffff) {
                Some(v) => v as u32,
                None => return None,
            };
            let g = chars_skip(t.as_slice(), a + 1);
            let gid = match crate::text::parse_bounded(g.as_slice(), 10, 0xffff_ffff) {
                Some(v) => v as u32,
                None => uid,
            };
            Some((uid, gid))
        },
        None => {
            let uid = match crate::text::parse_bounded(t.as_slice(), 10, 0xffff_ffff) {
                Some(v) => v as u32,
                None => return None,
            };
            Some((uid, uid))
        },
    }
}

/// The variable name of a `NAME=value` entry: the text before the first
/// `=`, trimmed.
pub open spec fn env_key(e: Seq<char>) -> Seq<char> {
    trim(
        match first_index(e, '=') {
            Some(i) => e.take(i),
            None => e,
        },
    )
}

pub open spec fn env_slot(out: Seq<Seq<char>>, k: Seq<char>) -> Option<int> {
    if exists|i: int| 0 <= i < out.len() && env_key(#[trigger] out[i]) == k {
        Some(choose|i: int| 0 <= i < out.len() && env_key(#[trigger] out[i]) == k)
    } else {
        None
    }
}

/// One entry per variable name, in the order in which names first appear,
/// each holding the last entry given for its name; entries without a name
/// are dropped.
pub open spec fn dedup(es: Seq<Seq<char>>) -> Seq<Seq<char>>
    decreases es.len(),
{
    if es.len() == 0 {
        Seq::<Seq<char>>::empty()
    } else {
        let prev = dedup(es.drop_last());
        let e = es.last();
        let k = env_key(e);
        if k.len() == 0 {
            prev
        } else {
            match env_slot(prev, k) {
                Some(i) => prev.update(i, e),
                None => prev.push(e),
            }
        }
    }
}

pub open spec fn keys_distinct(out: Seq<Seq<char>>) -> bool {
    forall|i: int, j: int|
        0 <= i < out.len() && 0 <= j < out.len() && i != j ==> env_key(#[trigger] out[i])
            != env_key(#[trigger] out[j])
}

fn env_key_of(e: &str) -> (k: Vec<char>)
    ensures
        k@ == env_key(e@),
{
    let c = chars_of(e);
    match find_char(c.as_slice(), '=') {
        Some(i) => {
            let head = chars_take(c.as_slice(), i);
            trim_chars(head.as_slice())
        },
        None => trim_chars(c.as_slice()),
    }
}

pub fn dedup_env(entries: Vec<String>) -> (r: Vec<String>)
    ensures
        strs_of(r@) == dedup(strs_of(entries@)),
        keys_distinct(strs_of(r@)),
{
    let ghost es = strs_of(entries@);
    let mut out: Vec<String> = Vec::new();
    let mut keys: Vec<Vec<char>> = Vec::new();
    let mut i: usize = 0;
    proof {
        assert(es.take(0) =~= Seq::<Seq<char>>::empty());
        assert(strs_of(out@) =~= Seq::<Seq<char>>::empty());
    }
    while i < entries.len()
        invariant
            es == strs_of(entries@),
            i <= entries@.len(),
            strs_of(out@) == dedup(es.take(i as int)),
            keys_distinct(strs_of(out@)),
            keys@.len() == out@.len(),
            forall|j: int| 0 <= j < keys@.len() ==> (#[trigger] keys@[j])@ == env_key(out@[j]@),
        decreases entries.len() - i,
    {
        let e = &entries[i];
        let k = env_key_of(e.as_str());
        let ghost o = strs_of(out@);
        proof {
            assert(es.take(i + 1).drop_last() =~= es.take(i as int));
            assert(es.take(i + 1).last() == e@);
        }
        if k.len() > 0 {
            let mut j: usize = 0;
            let mut found: Option<usize> = None;
            while j < keys.len()
                invariant
                    j <= keys@.len(),
                    keys@.len() == out@.len(),
                    o == strs_of(out@),
                    forall|m: int| 0 <= m < keys@.len() ==> (#[trigger] keys@[m])@ == env_key(out@[m]@),
                    found is None ==> forall|m: int| 0 <= m < j ==> env_key(#[trigger] o[m]) != k@,
                    found matches Some(f) ==> f < keys@.len() && env_key(o[f as int]) == k@,
                decreases keys.len() - j,
            {
                if found.is_none() && chars_eq(keys[j].as_slice(), k.as_slice()) {
                    assert(o[j as int] == out@[j as int]@);
                    found = Some(j);
                }
                j += 1;
            }
            match found {
                Some(f) => {
                    proof {
                        assert(exists|m: int| 0 <= m < o.len() && env_key(#[trigger] o[m]) == k@) by {
                            assert(env_key(o[f as int]) == k@);
                        }
                        let c = choose|m: int| 0 <= m < o.len() && env_key(#[trigger] o[m]) == k@;
                        if c != f {
                            assert(env_key(o[c]) != env_key(o[f as int]));
                        }
                    }
                    out.set(f, e.clone());
                    proof {
                        assert(strs_of(out@) =~= o.update(f as int, e@));
                        assert forall|a: int, b: int|
                            0 <= a < out@.len() && 0 <= b < out@.len() && a != b implies env_key(
                            #[trigger] strs_of(out@)[a],
                        ) != env_key(#[trigger] strs_of(out@)[b]) by {
                            assert(env_key(strs_of(out@)[a]) == env_key(o[a]));
                            assert(env_key(strs_of(out@)[b]) == env_key(o[b]));
                        }
                    }
                },
                None => {
                    proof {
                        assert(!exists|m: int| 0 <= m < o.len() && env_key(#[trigger] o[m]) == k@);
                    }
                    out.push(e.clone());
                    keys.push(k);
                    proof {
                        assert(strs_of(out@) =~= o.push(e@));
                    }
                },
            }
        }
        i += 1;
    }
    proof {
        assert(es.take(entries@.len() as int) =~= es);
    }
    out
}

/// The ASCII letters and digits of `s`, in order.
pub open spec fn alnum_only(s: Seq<char>) -> Seq<char>
    decreases s.len(),
{
    if s.len() == 0 {
        s
    } else {
        let p = alnum_only(s.drop_last());
        if is_ascii_alnum(s.last()) {
            p.push(s.last())
        } else {
            p
        }
    }
}

/// The last `max` ASCII letters and digits of `s`.
pub open spec fn short_id_of(s: Seq<char>, max: int) -> Seq<char> {
    let f = alnum_only(s);
    if f.len() <= max {
        f
    } else {
        f.skip(f.len() - max)
    }
}

pub fn short_id(value: &str, max: usize) -> (r: String)
    ensures
        r@ == short_id_of(value@, max as int),
{
    let s = chars_of(value);
    let mut f: Vec<char> = Vec::new();
    let mut i: usize = 0;
    while i < s.len()
        invariant
            s@ == value@,
            i <= s@.len(),
            f@ == alnum_only(s@.take(i as int)),
        decreases s.len() - i,
    {
        proof {
            assert(s@.take(i + 1).drop_last() =~= s@.take(i as int));
        }
        if char_is_ascii_alnum(s[i]) {
            f.push(s[i]);
        }
        i += 1;
    }
    proof {
        assert(s@.take(s@.len() as int) =~= s@);
    }
    if f.len() <= max {
        string_of(f.as_slice())
    } else {
        let tail = chars_skip(f.as_slice(), f.len() - max);
        string_of(tail.as_slice())
    }
}

/// The network name recorded for a container: a non-blank associated name
/// (trimmed), else the built-in mode's own name.
pub open spec fn network_name(associated: Option<Seq<char>>, mode: Seq<char>) -> Option<Seq<char>> {
    if associated matches Some(a) && trim(a).len() > 0 {
        Some(trim(associated.unwrap()))
    } else if mode == "bridge"@ || mode == "host"@ || mode == "none"@ || mode == "wireguard"@ {
        Some(mode)
    } else {
        None
    }
}

pub open spec fn opt_view(v: Option<&str>) -> Option<Seq<char>> {
    match v {
        Some(s) => Some(s@),
        None => None,
    }
}

pub fn associated_network_name(associated: Option<&str>, network_mode: &str) -> (r: Option<String>)
    ensures
        r matches Some(n) ==> network_name(opt_view(associated), network_mode@) == Some(n@),
        r is None ==> network_name(opt_view(associated), network_mode@) is None,
{
    if let Some(a) = associated {
        let c = chars_of(a);
        let t = trim_chars(c.as_slice());
        if t.len() > 0 {
            return Some(string_of(t.as_slice()));
        }
    }
    if str_eq(network_mode, "bridge") || str_eq(network_mode, "host") || str_eq(
        network_mode,
        "none",
    ) || str_eq(network_mode, "wireguard") {
        Some(String::from_str(network_mode))
    } else {
        None
    }
}

/// The network name persisted with a container record; a rootless bridge
/// (slirp4netns, not the runtime's kernel bridge) is not persisted.
pub fn persisted_network_name(
    associated: Option<&str>,
    network_mode: &str,
    rootless_bridge: bool,
) -> (r: Option<String>)
    ensures
        network_mode@ == "bridge"@ && rootless_bridge ==> r is None,
        !(network_mode@ == "bridge"@ && rootless_bridge) ==> (match r {
            Some(n) => network_name(opt_view(associated), network_mode@) == Some(n@),
            None => network_name(opt_view(associated), network_mode@) is None,
        }),
{
    if str_eq(network_mode, "bridge") && rootless_bridge {
        return None;
    }
    associated_network_name(associated, network_mode)
}

/// The program and its arguments.
pub fn parse_cmd_args(cmd: &[String]) -> (r: Result<(&String, &[String]), RuntimeError>)
    ensures
        r matches Ok((p, rest)) ==> cmd@.len() > 0 && *p == cmd@[0] && rest@ == cmd@.skip(1),
        r matches Err(e) ==> cmd@.len() == 0 && e@ == ErrorView::InvalidCommand("empty command"@),
{
    if cmd.len() == 0 {
        return Err(RuntimeError::InvalidCommand(String::from_str("empty command")));
    }
    let (_, rest) = cmd.split_at(1);
    assert(rest@ =~= cmd@.skip(1));
    Ok((&cmd[0], rest))
}

} // verus!
