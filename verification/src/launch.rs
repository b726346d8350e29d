//! How a workload is launched: the program and arguments that run it
//! (directly, in a network namespace, under a rootless user namespace, in a
//! bubblewrap sandbox or through the rootfs launcher), wrapped in the
//! stopped launch barrier, with its environment, working directory and
//! identity.

use crate::error::{ErrorView, RuntimeError};
use crate::host::{resolve_rootfs_command, rootfs_command};
use crate::paths::{parse_user_spec, user_spec};
use crate::text::{
    chars_of, concat, find_char, first_index, string_of, strs_of, trim, trim_chars, chars_take,
    chars_skip,
};
use vstd::prelude::*;
use vstd::string::StringExecFns;

verus! {

/// A bind mount requested for a workload; the target is relative to the
/// root filesystem.
#[derive(Debug, Clone, PartialEq, Eq)]
pub struct BindMountSpec {
    pub source: String,
    pub target: String,
    pub read_only: bool,
}

/// A tmpfs mount requested for a workload.
#[derive(Debug, Clone, PartialEq, Eq)]
pub struct TmpfsMountSpec {
    pub target: String,
    pub size: Option<u64>,
}

/// The runtime's own executable, or the text of the error that hid it.
#[derive(Debug, Clone, PartialEq, Eq)]
pub enum LauncherPath {
    Known(String),
    Unknown(String),
}

/// What the host offers the launch: whether the runtime is root, the
/// runtime's own executable (or why it is unknown), the trusted root-owned
/// helpers it found, and which of the rootfs search candidates of the
/// command exist.
#[derive(Debug, Clone, PartialEq, Eq)]
pub struct LaunchHost {
    pub running_as_root: bool,
    pub launcher: LauncherPath,
    pub ip: Option<String>,
    pub chroot: Option<String>,
    pub unshare: Option<String>,
    pub sh: Option<String>,
    pub setpriv: Option<String>,
    pub bwrap: Option<String>,
    pub rootfs_command_present: Vec<bool>,
}

/// Everything the process spawner needs.
#[derive(Debug, Clone, PartialEq, Eq)]
pub struct LaunchPlan {
    /// The full command line, starting with `/bin/sh`.
    pub argv: Vec<String>,
    pub env: Vec<(String, String)>,
    pub current_dir: Option<String>,
    pub identity: Option<(u32, u32)>,
    /// The namespace and user that the child itself enters before exec.
    pub setup_netns: Option<String>,
    pub setup_user: Option<String>,
    pub set_no_new_privs: bool,
    pub manage_capabilities: bool,
}

pub open spec fn opt_seq(o: Option<String>) -> Option<Seq<char>> {
    match o {
        Some(s) => Some(s@),
        None => None,
    }
}

pub open spec fn opt_text(o: Option<&str>) -> Option<Seq<char>> {
    match o {
        Some(s) => Some(s@),
        None => None,
    }
}

/// The bubblewrap arguments of the bind mounts.
pub open spec fn bind_args(ms: Seq<BindMountSpec>) -> Seq<Seq<char>>
    decreases ms.len(),
{
    if ms.len() == 0 {
        Seq::<Seq<char>>::empty()
    } else {
        let m = ms.last();
        bind_args(ms.drop_last()) + seq![
            if m.read_only { "--ro-bind"@ } else { "--bind"@ },
            m.source@,
            "/"@ + m.target@,
        ]
    }
}

/// The bubblewrap arguments of the tmpfs mounts; a size limit cannot be
/// honoured there.
pub open spec fn tmpfs_args(ts: Seq<TmpfsMountSpec>) -> Result<Seq<Seq<char>>, ErrorView>
    decreases ts.len(),
{
    if ts.len() == 0 {
        Ok(Seq::<Seq<char>>::empty())
    } else {
        match tmpfs_args(ts.drop_last()) {
            Err(e) => Err(e),
            Ok(prev) => if ts.last().size is Some {
                Err(
                    ErrorView::InvalidCommand(
                        "rootless tmpfs size limits require a mount-capable user namespace implementation"@,
                    ),
                )
            } else {
                Ok(prev + seq!["--tmpfs"@, "/"@ + ts.last().target@])
            },
        }
    }
}

/// The bubblewrap command line that runs `cmd` inside `rootfs`.
pub open spec fn bwrap_argv(
    host: LaunchHost,
    rootfs: Seq<char>,
    cmd: Seq<Seq<char>>,
    mounts: Seq<BindMountSpec>,
    tmpfs: Seq<TmpfsMountSpec>,
    readonly_rootfs: bool,
) -> Result<Seq<Seq<char>>, ErrorView> {
    match host.bwrap {
        None => Err(
            ErrorView::InvalidCommand("rootfs execution requires bubblewrap (bwrap) for rootless mounts"@),
        ),
        Some(b) => match tmpfs_args(tmpfs) {
            Err(e) => Err(e),
            Ok(t) => Ok(
                seq![
                    b@,
                    "--bind"@,
                    rootfs,
                    "/"@,
                    "--proc"@,
                    "/proc"@,
                    "--dev"@,
                    "/dev"@,
                    "--chdir"@,
                    "/"@,
                    "--setenv"@,
                    "PATH"@,
                    "/usr/local/sbin:/usr/local/bin:/usr/sbin:/usr/bin:/sbin:/bin"@,
                    "--cap-drop"@,
                    "ALL"@,
                ] + bind_args(mounts) + t + (if readonly_rootfs {
                    seq!["--remount-ro"@, "/"@]
                } else {
                    Seq::<Seq<char>>::empty()
                }) + seq![rootfs_command(cmd[0], host.rootfs_command_present@)] + cmd.drop_first(),
            ),
        },
    }
}

/// The script that keeps a rootless workload stopped until networking is
/// attached, optionally entering it without new privileges.
pub open spec fn rootless_script(setpriv: Option<Seq<char>>, no_new_privs: bool) -> Seq<char> {
    if no_new_privs {
        "kill -STOP $$; exec "@ + setpriv->0 + " --no-new-privs -- \"$@\""@
    } else {
        "kill -STOP $$; exec \"$@\""@
    }
}

/// The command line of the workload itself, before the launch barrier.
pub open spec fn workload_argv(
    host: LaunchHost,
    cmd: Seq<Seq<char>>,
    rootfs: Option<Seq<char>>,
    no_new_privs: bool,
    workdir: Option<Seq<char>>,
    user: Option<Seq<char>>,
    netns: Option<Seq<char>>,
    unshare_netns: bool,
    mounts: Seq<BindMountSpec>,
    tmpfs: Seq<TmpfsMountSpec>,
    readonly_rootfs: bool,
) -> Result<Seq<Seq<char>>, ErrorView> {
    let root = host.running_as_root;
    if root && rootfs is Some {
        match host.launcher {
            LauncherPath::Unknown(e) => Err(ErrorView::Io(e@)),
            LauncherPath::Known(l) => Ok(
                seq![
                    l@,
                    "__ferrocrate_rootfs_launch"@,
                    rootfs->0,
                    match workdir {
                        Some(w) => w,
                        None => ""@,
                    },
                    match user {
                        Some(u) => u,
                        None => ""@,
                    },
                    if no_new_privs { "1"@ } else { "0"@ },
                    "--"@,
                ] + cmd,
            ),
        }
    } else if root && netns is Some {
        Ok(cmd)
    } else if netns is Some {
        match host.ip {
            None => Err(
                ErrorView::InvalidCommand(
                    "network namespace execution requires a trusted root-owned ip executable"@,
                ),
            ),
            Some(ip) => Ok(seq![ip@, "netns"@, "exec"@, netns->0] + cmd),
        }
    } else if unshare_netns {
        if host.unshare is None {
            Err(
                ErrorView::InvalidCommand(
                    "rootless network namespaces require a trusted root-owned unshare executable"@,
                ),
            )
        } else if host.sh is None {
            Err(
                ErrorView::InvalidCommand(
                    "rootless network namespaces require a trusted root-owned shell executable"@,
                ),
            )
        } else if no_new_privs && host.setpriv is None {
            Err(
                ErrorView::InvalidCommand(
                    "rootless no-new-privileges requires a trusted root-owned setpriv executable"@,
                ),
            )
        } else {
            let head = seq![
                host.unshare->0@,
                "--user"@,
                "--net"@,
                "--"@,
                host.sh->0@,
                "-c"@,
                rootless_script(opt_seq(host.setpriv), no_new_privs),
                "ferrocrate-rootless"@,
            ];
            if rootfs is Some {
                match bwrap_argv(host, rootfs->0, cmd, mounts, tmpfs, readonly_rootfs) {
                    Err(e) => Err(e),
                    Ok(b) => Ok(head + b),
                }
            } else {
                Ok(head + cmd)
            }
        }
    } else if rootfs is Some {
        if host.bwrap is Some {
            bwrap_argv(host, rootfs->0, cmd, mounts, tmpfs, readonly_rootfs)
        } else {
            Err(
                ErrorView::InvalidCommand(
                    "rootfs execution requires root (chroot) or bubblewrap (bwrap)"@,
                ),
            )
        }
    } else {
        Ok(cmd)
    }
}

/// The launch barrier: a shell that stops itself and then execs the workload.
pub open spec fn launch_argv(workload: Seq<Seq<char>>) -> Seq<Seq<char>> {
    seq!["/bin/sh"@, "-c"@, "kill -STOP $$; exec \"$@\""@, "ferrocrate-launch"@] + workload
}

/// `NAME=value` entries as trimmed pairs; the value is empty without `=`.
pub open spec fn env_entry(e: Seq<char>) -> (Seq<char>, Seq<char>) {
    match first_index(e, '=') {
        Some(i) => (trim(e.take(i)), trim(e.skip(i + 1))),
        None => (trim(e), Seq::<char>::empty()),
    }
}

/// The environment pairs, or the refusal of an entry without a name.
pub open spec fn env_pairs(es: Seq<Seq<char>>) -> Result<Seq<(Seq<char>, Seq<char>)>, ErrorView>
    decreases es.len(),
{
    if es.len() == 0 {
        Ok(Seq::<(Seq<char>, Seq<char>)>::empty())
    } else {
        match env_pairs(es.drop_last()) {
            Err(e) => Err(e),
            Ok(prev) => if env_entry(es.last()).0.len() == 0 {
                Err(ErrorView::InvalidState("env var missing key"@))
            } else {
                Ok(prev.push(env_entry(es.last())))
            },
        }
    }
}

pub open spec fn pairs_view(v: Seq<(String, String)>) -> Seq<(Seq<char>, Seq<char>)> {
    v.map_values(|p: (String, String)| (p.0@, p.1@))
}

fn push_text(v: &mut Vec<String>, s: &str)
    ensures
        strs_of(final(v)@) == strs_of(old(v)@).push(s@),
{
    let ghost before = strs_of(v@);
    v.push(String::from_str(s));
    proof {
        assert(strs_of(v@) =~= before.push(s@));
    }
}

fn push_all(v: &mut Vec<String>, items: &[String], from: usize)
    requires
        from <= items@.len(),
    ensures
        strs_of(final(v)@) == strs_of(old(v)@) + strs_of(items@).skip(from as int),
{
    let ghost before = strs_of(v@);
    let mut i: usize = from;
    proof {
        assert(strs_of(items@).skip(from as int).take(0) =~= Seq::<Seq<char>>::empty());
        assert(strs_of(v@) =~= before + strs_of(items@).skip(from as int).take(0));
    }
    while i < items.len()
        invariant
            from <= i <= items@.len(),
            strs_of(v@) == before + strs_of(items@).skip(from as int).take(i - from),
        decreases items.len() - i,
    {
        let ghost prev = strs_of(v@);
        v.push(items[i].clone());
        i += 1;
        proof {
            assert(strs_of(items@).skip(from as int).take(i - from) =~= strs_of(items@).skip(
                from as int,
            ).take(i - 1 - from).push(items@[i - 1]@));
            assert(strs_of(v@) =~= prev.push(items@[i - 1]@));
        }
    }
    proof {
        assert(strs_of(items@).skip(from as int).take(items@.len() - from) =~= strs_of(items@).skip(
            from as int,
        ));
    }
}

fn bind_mount_args(v: &mut Vec<String>, mounts: &[BindMountSpec])
    ensures
        strs_of(final(v)@) == strs_of(old(v)@) + bind_args(mounts@),
{
    let ghost before = strs_of(v@);
    let mut i: usize = 0;
    proof {
        assert(mounts@.take(0) =~= Seq::<BindMountSpec>::empty());
        assert(strs_of(v@) =~= before + bind_args(mounts@.take(0)));
    }
    while i < mounts.len()
        invariant
            i <= mounts@.len(),
            strs_of(v@) == before + bind_args(mounts@.take(i as int)),
        decreases mounts.len() - i,
    {
        let m = &mounts[i];
        let ghost prev = strs_of(v@);
        push_text(v, if m.read_only { "--ro-bind" } else { "--bind" });
        push_text(v, m.source.as_str());
        let target = concat("/", m.target.as_str());
        push_text(v, target.as_str());
        proof {
            assert(mounts@.take(i + 1).drop_last() =~= mounts@.take(i as int));
            assert(mounts@.take(i + 1).last() == mounts@[i as int]);
            let flag = if m.read_only { "--ro-bind"@ } else { "--bind"@ };
            assert(strs_of(v@) =~= prev.push(flag).push(m.source@).push(target@));
            assert(bind_args(mounts@.take(i + 1)) =~= bind_args(mounts@.take(i as int)) + seq![
                flag,
                m.source@,
                "/"@ + m.target@,
            ]);
        }
        i += 1;
    }
    proof {
        assert(mounts@.take(mounts@.len() as int) =~= mounts@);
    }
}

fn tmpfs_mount_args(v: &mut Vec<String>, tmpfs: &[TmpfsMountSpec]) -> (r: Result<(), RuntimeError>)
    ensures
        match tmpfs_args(tmpfs@) {
            Ok(t) => r is Ok && strs_of(final(v)@) == strs_of(old(v)@) + t,
            Err(e) => r matches Err(x) && x@ == e,
        },
{
    let ghost before = strs_of(v@);
    let mut i: usize = 0;
    proof {
        assert(tmpfs@.take(0) =~= Seq::<TmpfsMountSpec>::empty());
        assert(strs_of(v@) =~= before + Seq::<Seq<char>>::empty());
    }
    while i < tmpfs.len()
        invariant
            i <= tmpfs@.len(),
            tmpfs_args(tmpfs@.take(i as int)) matches Ok(t) && strs_of(v@) == before + t,
        decreases tmpfs.len() - i,
    {
        let ghost prev = strs_of(v@);
        let ghost t = tmpfs_args(tmpfs@.take(i as int))->Ok_0;
        proof {
            assert(tmpfs@.take(i + 1).drop_last() =~= tmpfs@.take(i as int));
            assert(tmpfs@.take(i + 1).last() == tmpfs@[i as int]);
        }
        let m = &tmpfs[i];
        if m.size.is_some() {
            proof {
                lemma_tmpfs_error_sticks(tmpfs@, i + 1);
            }
            return Err(
                RuntimeError::InvalidCommand(
                    String::from_str(
                        "rootless tmpfs size limits require a mount-capable user namespace implementation",
                    ),
                ),
            );
        }
        push_text(v, "--tmpfs");
        let target = concat("/", m.target.as_str());
        push_text(v, target.as_str());
        proof {
            assert(strs_of(v@) =~= before + (t + seq!["--tmpfs"@, "/"@ + m.target@]));
        }
        i += 1;
    }
    proof {
        assert(tmpfs@.take(tmpfs@.len() as int) =~= tmpfs@);
    }
    Ok(())
}

proof fn lemma_tmpfs_error_sticks(ts: Seq<TmpfsMountSpec>, k: int)
    requires
        0 < k <= ts.len(),
        tmpfs_args(ts.take(k)) is Err,
    ensures
        tmpfs_args(ts) == tmpfs_args(ts.take(k)),
    decreases ts.len() - k,
{
    if k < ts.len() {
        assert(ts.take(k + 1).drop_last() =~= ts.take(k));
        lemma_tmpfs_error_sticks(ts, k + 1);
    } else {
        assert(ts.take(k) =~= ts);
    }
}

fn push_bwrap(
    v: &mut Vec<String>,
    host: &LaunchHost,
    rootfs: &str,
    cmd: &[String],
    mounts: &[BindMountSpec],
    tmpfs: &[TmpfsMountSpec],
    readonly_rootfs: bool,
) -> (r: Result<(), RuntimeError>)
    requires
        cmd@.len() > 0,
    ensures
        match bwrap_argv(*host, rootfs@, strs_of(cmd@), mounts@, tmpfs@, readonly_rootfs) {
            Ok(b) => r is Ok && strs_of(final(v)@) == strs_of(old(v)@) + b,
            Err(e) => r matches Err(x) && x@ == e,
        },
{
    let b = match &host.bwrap {
        Some(b) => b,
        None => {
            return Err(
                RuntimeError::InvalidCommand(
                    String::from_str("rootfs execution requires bubblewrap (bwrap) for rootless mounts"),
                ),
            );
        },
    };
    let ghost before = strs_of(v@);
    let mut w: Vec<String> = Vec::new();
    push_text(&mut w, b.as_str());
    push_text(&mut w, "--bind");
    push_text(&mut w, rootfs);
    push_text(&mut w, "/");
    push_text(&mut w, "--proc");
    push_text(&mut w, "/proc");
    push_text(&mut w, "--dev");
    push_text(&mut w, "/dev");
    push_text(&mut w, "--chdir");
    push_text(&mut w, "/");
    push_text(&mut w, "--setenv");
    push_text(&mut w, "PATH");
    push_text(&mut w, "/usr/local/sbin:/usr/local/bin:/usr/sbin:/usr/bin:/sbin:/bin");
    push_text(&mut w, "--cap-drop");
    push_text(&mut w, "ALL");
    let ghost fixed = strs_of(w@);
    bind_mount_args(&mut w, mounts);
    let ghost with_binds = strs_of(w@);
    tmpfs_mount_args(&mut w, tmpfs)?;
    let ghost with_tmpfs = strs_of(w@);
    if readonly_rootfs {
        push_text(&mut w, "--remount-ro");
        push_text(&mut w, "/");
    }
    let ghost with_ro = strs_of(w@);
    let root_cmd = resolve_rootfs_command(cmd[0].as_str(), host.rootfs_command_present.as_slice());
    push_text(&mut w, root_cmd.as_str());
    push_all(&mut w, cmd, 1);
    proof {
        let t = tmpfs_args(tmpfs@)->Ok_0;
        assert(strs_of(cmd@)[0] == cmd@[0]@);
        assert(strs_of(cmd@).drop_first() =~= strs_of(cmd@).skip(1));
        assert(with_binds == fixed + bind_args(mounts@));
        assert(with_tmpfs == with_binds + t);
        let ro: Seq<Seq<char>> = if readonly_rootfs {
            seq!["--remount-ro"@, "/"@]
        } else {
            Seq::<Seq<char>>::empty()
        };
        assert(with_ro =~= with_tmpfs + ro);
        assert(strs_of(w@) =~= fixed + bind_args(mounts@) + t + ro + seq![
            rootfs_command(cmd@[0]@, host.rootfs_command_present@),
        ] + strs_of(cmd@).drop_first());
    }
    let ghost wv = strs_of(w@);
    push_all(v, w.as_slice(), 0);
    proof {
        assert(strs_of(w@).skip(0) =~= strs_of(w@));
    }
    Ok(())
}

fn env_pair(e: &str) -> (r: (String, String))
    ensures
        (r.0@, r.1@) == env_entry(e@),
{
    let c = chars_of(e);
    let n = c.len();
    match find_char(c.as_slice(), '=') {
        Some(i) => {
            assert(i < n);
            let k = chars_take(c.as_slice(), i);
            let v = chars_skip(c.as_slice(), i + 1);
            let kt = trim_chars(k.as_slice());
            let vt = trim_chars(v.as_slice());
            (string_of(kt.as_slice()), string_of(vt.as_slice()))
        },
        None => {
            let kt = trim_chars(c.as_slice());
            (string_of(kt.as_slice()), String::new())
        },
    }
}

fn env_of(env: &[String]) -> (r: Result<Vec<(String, String)>, RuntimeError>)
    ensures
        match env_pairs(strs_of(env@)) {
            Ok(p) => r matches Ok(v) && pairs_view(v@) == p,
            Err(e) => r matches Err(x) && x@ == e,
        },
{
    let ghost es = strs_of(env@);
    let mut out: Vec<(String, String)> = Vec::new();
    let mut i: usize = 0;
    proof {
        assert(es.take(0) =~= Seq::<Seq<char>>::empty());
        assert(pairs_view(out@) =~= Seq::<(Seq<char>, Seq<char>)>::empty());
    }
    while i < env.len()
        invariant
            es == strs_of(env@),
            i <= env@.len(),
            env_pairs(es.take(i as int)) == Ok::<Seq<(Seq<char>, Seq<char>)>, ErrorView>(
                pairs_view(out@),
            ),
        decreases env.len() - i,
    {
        proof {
            assert(es.take(i + 1).drop_last() =~= es.take(i as int));
            assert(es.take(i + 1).last() == env@[i as int]@);
        }
        let pair = env_pair(env[i].as_str());
        if pair.0.as_str().unicode_len() == 0 {
            proof {
                lemma_env_error_sticks(es, i + 1);
            }
            return Err(RuntimeError::InvalidState(String::from_str("env var missing key")));
        }
        let ghost prev = pairs_view(out@);
        out.push(pair);
        proof {
            assert(pairs_view(out@) =~= prev.push((pair.0@, pair.1@)));
        }
        i += 1;
    }
    proof {
        assert(es.take(es.len() as int) =~= es);
    }
    Ok(out)
}

proof fn lemma_env_error_sticks(es: Seq<Seq<char>>, k: int)
    requires
        0 < k <= es.len(),
        env_pairs(es.take(k)) is Err,
    ensures
        env_pairs(es) == env_pairs(es.take(k)),
    decreases es.len() - k,
{
    if k < es.len() {
        assert(es.take(k + 1).drop_last() =~= es.take(k));
        lemma_env_error_sticks(es, k + 1);
    } else {
        assert(es.take(k) =~= es);
    }
}

/// The plan of a launch: its command line, environment, working directory
/// and identity. The working directory and identity are applied only when
/// neither the child itself nor the rootfs launcher sets them up; the
/// identity only by a root runtime and for a valid `uid[:gid]`.
pub open spec fn launch_plan(
    host: LaunchHost,
    cmd: Seq<Seq<char>>,
    env: Seq<Seq<char>>,
    rootfs: Option<Seq<char>>,
    no_new_privs: bool,
    workdir: Option<Seq<char>>,
    user: Option<Seq<char>>,
    netns: Option<Seq<char>>,
    unshare_netns: bool,
    mounts: Seq<BindMountSpec>,
    tmpfs: Seq<TmpfsMountSpec>,
    readonly_rootfs: bool,
) -> Result<
    (
        Seq<Seq<char>>,
        Seq<(Seq<char>, Seq<char>)>,
        Option<Seq<char>>,
        Option<(u32, u32)>,
        Option<Seq<char>>,
        Option<Seq<char>>,
        bool,
        bool,
    ),
    ErrorView,
> {
    let root = host.running_as_root;
    let direct = root && netns is Some;
    let chroot_launcher = root && rootfs is Some;
    match workload_argv(
        host,
        cmd,
        rootfs,
        no_new_privs,
        workdir,
        user,
        netns,
        unshare_netns,
        mounts,
        tmpfs,
        readonly_rootfs,
    ) {
        Err(e) => Err(e),
        Ok(w) => match env_pairs(env) {
            Err(e) => Err(e),
            Ok(pairs) => Ok(
                (
                    launch_argv(w),
                    pairs,
                    if !direct && !chroot_launcher {
                        workdir
                    } else {
                        None
                    },
                    if user is Some && root && !direct && !chroot_launcher {
                        user_spec(user->0)
                    } else {
                        None
                    },
                    if direct {
                        netns
                    } else {
                        None
                    },
                    if direct {
                        user
                    } else {
                        None
                    },
                    no_new_privs && !unshare_netns,
                    root && !chroot_launcher,
                ),
            ),
        },
    }
}

pub open spec fn plan_view(p: LaunchPlan) -> (
    Seq<Seq<char>>,
    Seq<(Seq<char>, Seq<char>)>,
    Option<Seq<char>>,
    Option<(u32, u32)>,
    Option<Seq<char>>,
    Option<Seq<char>>,
    bool,
    bool,
) {
    (
        strs_of(p.argv@),
        pairs_view(p.env@),
        opt_seq(p.current_dir),
        p.identity,
        opt_seq(p.setup_netns),
        opt_seq(p.setup_user),
        p.set_no_new_privs,
        p.manage_capabilities,
    )
}

fn text_of(o: Option<&str>) -> (r: Option<String>)
    ensures
        opt_seq(r) == opt_text(o),
{
    match o {
        Some(s) => Some(String::from_str(s)),
        None => None,
    }
}

fn push_workload(
    v: &mut Vec<String>,
    host: &LaunchHost,
    cmd: &[String],
    rootfs: Option<&str>,
    no_new_privs: bool,
    workdir: Option<&str>,
    user: Option<&str>,
    netns_name: Option<&str>,
    unshare_netns: bool,
    mounts: &[BindMountSpec],
    tmpfs: &[TmpfsMountSpec],
    readonly_rootfs: bool,
) -> (r: Result<(), RuntimeError>)
    requires
        cmd@.len() > 0,
    ensures
        match workload_argv(
            *host,
            strs_of(cmd@),
            opt_text(rootfs),
            no_new_privs,
            opt_text(workdir),
            opt_text(user),
            opt_text(netns_name),
            unshare_netns,
            mounts@,
            tmpfs@,
            readonly_rootfs,
        ) {
            Ok(w) => r is Ok && strs_of(final(v)@) == strs_of(old(v)@) + w,
            Err(e) => r matches Err(x) && x@ == e,
        },
{
    let root = host.running_as_root;
    proof {
        assert(strs_of(cmd@).skip(0) =~= strs_of(cmd@));
    }
    if root && rootfs.is_some() {
        let launcher = match &host.launcher {
            LauncherPath::Known(l) => l,
            LauncherPath::Unknown(e) => {
                return Err(RuntimeError::Io(e.clone()));
            },
        };
        let r = match rootfs {
            Some(r) => r,
            None => "",
        };
        let ghost before = strs_of(v@);
        push_text(v, launcher.as_str());
        push_text(v, "__ferrocrate_rootfs_launch");
        push_text(v, r);
        push_text(
            v,
            match workdir {
                Some(w) => w,
                None => "",
            },
        );
        push_text(
            v,
            match user {
                Some(u) => u,
                None => "",
            },
        );
        push_text(
            v,
            if no_new_privs {
                "1"
            } else {
                "0"
            },
        );
        push_text(v, "--");
        let ghost head = strs_of(v@);
        push_all(v, cmd, 0);
        proof {
            reveal_strlit("");
            assert(strs_of(v@) =~= before + (seq![
                launcher@,
                "__ferrocrate_rootfs_launch"@,
                r@,
                match opt_text(workdir) {
                    Some(w) => w,
                    None => ""@,
                },
                match opt_text(user) {
                    Some(u) => u,
                    None => ""@,
                },
                if no_new_privs { "1"@ } else { "0"@ },
                "--"@,
            ] + strs_of(cmd@)));
        }
        return Ok(());
    }
    if root && netns_name.is_some() {
        push_all(v, cmd, 0);
        return Ok(());
    }
    if let Some(ns) = netns_name {
        let ip = match &host.ip {
            Some(ip) => ip,
            None => {
                return Err(
                    RuntimeError::InvalidCommand(
                        String::from_str(
                            "network namespace execution requires a trusted root-owned ip executable",
                        ),
                    ),
                );
            },
        };
        let ghost before = strs_of(v@);
        push_text(v, ip.as_str());
        push_text(v, "netns");
        push_text(v, "exec");
        push_text(v, ns);
        push_all(v, cmd, 0);
        proof {
            assert(strs_of(v@) =~= before + (seq![ip@, "netns"@, "exec"@, ns@] + strs_of(cmd@)));
        }
        return Ok(());
    }
    if unshare_netns {
        let unshare = match &host.unshare {
            Some(u) => u,
            None => {
                return Err(
                    RuntimeError::InvalidCommand(
                        String::from_str(
                            "rootless network namespaces require a trusted root-owned unshare executable",
                        ),
                    ),
                );
            },
        };
        let sh = match &host.sh {
            Some(s) => s,
            None => {
                return Err(
                    RuntimeError::InvalidCommand(
                        String::from_str(
                            "rootless network namespaces require a trusted root-owned shell executable",
                        ),
                    ),
                );
            },
        };
        let script = if no_new_privs {
            let setpriv = match &host.setpriv {
                Some(p) => p,
                None => {
                    return Err(
                        RuntimeError::InvalidCommand(
                            String::from_str(
                                "rootless no-new-privileges requires a trusted root-owned setpriv executable",
                            ),
                        ),
                    );
                },
            };
            let a = concat("kill -STOP $$; exec ", setpriv.as_str());
            concat(a.as_str(), " --no-new-privs -- \"$@\"")
        } else {
            String::from_str("kill -STOP $$; exec \"$@\"")
        };
        let ghost before = strs_of(v@);
        push_text(v, unshare.as_str());
        push_text(v, "--user");
        push_text(v, "--net");
        push_text(v, "--");
        push_text(v, sh.as_str());
        push_text(v, "-c");
        push_text(v, script.as_str());
        push_text(v, "ferrocrate-rootless");
        let ghost head = seq![
            unshare@,
            "--user"@,
            "--net"@,
            "--"@,
            sh@,
            "-c"@,
            rootless_script(opt_seq(host.setpriv), no_new_privs),
            "ferrocrate-rootless"@,
        ];
        proof {
            assert(strs_of(v@) =~= before + head);
        }
        match rootfs {
            Some(r) => {
                let ghost mid = strs_of(v@);
                push_bwrap(v, host, r, cmd, mounts, tmpfs, readonly_rootfs)?;
                proof {
                    let b = bwrap_argv(*host, r@, strs_of(cmd@), mounts@, tmpfs@, readonly_rootfs)->Ok_0;
                    assert(strs_of(v@) =~= before + (head + b));
                }
            },
            None => {
                push_all(v, cmd, 0);
                proof {
                    assert(strs_of(v@) =~= before + (head + strs_of(cmd@)));
                }
            },
        }
        return Ok(());
    }
    if let Some(r) = rootfs {
        if host.bwrap.is_some() {
            return push_bwrap(v, host, r, cmd, mounts, tmpfs, readonly_rootfs);
        }
        return Err(
            RuntimeError::InvalidCommand(
                String::from_str("rootfs execution requires root (chroot) or bubblewrap (bwrap)"),
            ),
        );
    }
    push_all(v, cmd, 0);
    Ok(())
}

/// Plans the launch of `cmd` (its first element is the program).
pub fn build_command(
    host: &LaunchHost,
    cmd: &[String],
    env: &[String],
    rootfs: Option<&str>,
    no_new_privs: bool,
    workdir: Option<&str>,
    user: Option<&str>,
    netns_name: Option<&str>,
    unshare_netns: bool,
    mounts: &[BindMountSpec],
    tmpfs: &[TmpfsMountSpec],
    readonly_rootfs: bool,
) -> (r: Result<LaunchPlan, RuntimeError>)
    requires
        cmd@.len() > 0,
    ensures
        r matches Ok(p) ==> launch_plan(
            *host,
            strs_of(cmd@),
            strs_of(env@),
            opt_text(rootfs),
            no_new_privs,
            opt_text(workdir),
            opt_text(user),
            opt_text(netns_name),
            unshare_netns,
            mounts@,
            tmpfs@,
            readonly_rootfs,
        ) == Ok::<_, ErrorView>(plan_view(p)),
        r matches Err(e) ==> launch_plan(
            *host,
            strs_of(cmd@),
            strs_of(env@),
            opt_text(rootfs),
            no_new_privs,
            opt_text(workdir),
            opt_text(user),
            opt_text(netns_name),
            unshare_netns,
            mounts@,
            tmpfs@,
            readonly_rootfs,
        ) is Err && launch_plan(
            *host,
            strs_of(cmd@),
            strs_of(env@),
            opt_text(rootfs),
            no_new_privs,
            opt_text(workdir),
            opt_text(user),
            opt_text(netns_name),
            unshare_netns,
            mounts@,
            tmpfs@,
            readonly_rootfs,
        )->Err_0 == e@,
{
    let root = host.running_as_root;
    let direct = root && netns_name.is_some();
    let chroot_launcher = root && rootfs.is_some();
    let mut argv: Vec<String> = Vec::new();
    push_text(&mut argv, "/bin/sh");
    push_text(&mut argv, "-c");
    push_text(&mut argv, "kill -STOP $$; exec \"$@\"");
    push_text(&mut argv, "ferrocrate-launch");
    let ghost head = strs_of(argv@);
    proof {
        assert(head =~= seq!["/bin/sh"@, "-c"@, "kill -STOP $$; exec \"$@\""@, "ferrocrate-launch"@]);
    }
    push_workload(
        &mut argv,
        host,
        cmd,
        rootfs,
        no_new_privs,
        workdir,
        user,
        netns_name,
        unshare_netns,
        mounts,
        tmpfs,
        readonly_rootfs,
    )?;
    let pairs = env_of(env)?;
    let current_dir = if !direct && !chroot_launcher {
        text_of(workdir)
    } else {
        None
    };
    let identity = match user {
        Some(u) => {
            if root && !direct && !chroot_launcher {
                parse_user_spec(u)
            } else {
                None
            }
        },
        None => None,
    };
    let setup_netns = if direct {
        text_of(netns_name)
    } else {
        None
    };
    let setup_user = if direct {
        text_of(user)
    } else {
        None
    };
    proof {
        assert(strs_of(argv@) =~= launch_argv(
            workload_argv(
                *host,
                strs_of(cmd@),
                opt_text(rootfs),
                no_new_privs,
                opt_text(workdir),
                opt_text(user),
                opt_text(netns_name),
                unshare_netns,
                mounts@,
                tmpfs@,
                readonly_rootfs,
            )->Ok_0,
        ));
    }
    Ok(
        LaunchPlan {
            argv,
            env: pairs,
            current_dir,
            identity,
            setup_netns,
            setup_user,
            set_no_new_privs: no_new_privs && !unshare_netns,
            manage_capabilities: root && !chroot_launcher,
        },
    )
}

} // verus!

verus! {

/// The bubblewrap command line (program first) that runs `cmd` inside `rootfs`.
pub fn build_bwrap_command(
    host: &LaunchHost,
    rootfs: &str,
    cmd: &[String],
    mounts: &[BindMountSpec],
    tmpfs: &[TmpfsMountSpec],
    readonly_rootfs: bool,
) -> (r: Result<Vec<String>, RuntimeError>)
    requires
        cmd@.len() > 0,
    ensures
        r matches Ok(v) ==> bwrap_argv(*host, rootfs@, strs_of(cmd@), mounts@, tmpfs@, readonly_rootfs)
            == Ok::<Seq<Seq<char>>, ErrorView>(strs_of(v@)),
        r matches Err(e) ==> bwrap_argv(
            *host,
            rootfs@,
            strs_of(cmd@),
            mounts@,
            tmpfs@,
            readonly_rootfs,
        ) == Err::<Seq<Seq<char>>, ErrorView>(e@),
{
    let mut v: Vec<String> = Vec::new();
    push_bwrap(&mut v, host, rootfs, cmd, mounts, tmpfs, readonly_rootfs)?;
    proof {
        let b = bwrap_argv(*host, rootfs@, strs_of(cmd@), mounts@, tmpfs@, readonly_rootfs)->Ok_0;
        assert(strs_of(v@) =~= b);
    }
    Ok(v)
}

} // verus!

verus! {

/// What the image's configuration supplies to a run that leaves it out; all
/// empty when the image has no configuration.
#[derive(Debug, Clone, PartialEq, Eq)]
pub struct ImageProcessDefaults {
    pub command: Option<Vec<String>>,
    pub env: Vec<String>,
    pub workdir: Option<String>,
    pub user: Option<String>,
}

/// The process a run starts.
#[derive(Debug, Clone, PartialEq, Eq)]
pub struct RunProcess {
    pub command: Vec<String>,
    pub env: Vec<String>,
    pub workdir: Option<String>,
    pub user: Option<String>,
}

/// The command of a run: the requested one, or the image's when none was
/// requested.
pub open spec fn run_command_of(cmd: Seq<Seq<char>>, image: ImageProcessDefaults) -> Seq<Seq<char>> {
    if cmd.len() == 0 && image.command is Some {
        strs_of(image.command->0@)
    } else {
        cmd
    }
}

/// The environment of a run: the image's, then the requested entries, then
/// the AI runtime's, with a later entry replacing an earlier one of the same
/// name.
pub open spec fn run_env_of(image: ImageProcessDefaults, env: Seq<Seq<char>>, ai_env: Seq<Seq<char>>) -> Seq<Seq<char>> {
    crate::paths::dedup(strs_of(image.env@) + env + ai_env)
}

fn copy_opt(o: Option<&str>, fallback: &Option<String>) -> (r: Option<String>)
    ensures
        crate::records::opt_str(r) == match o {
            Some(s) => Some(s@),
            None => crate::records::opt_str(*fallback),
        },
{
    match o {
        Some(s) => Some(String::from_str(s)),
        None => match fallback {
            Some(f) => Some(f.clone()),
            None => None,
        },
    }
}

/// Settles the process of a run from the request and the image defaults:
/// the requested command or else the image's (refused when both are empty),
/// the merged environment, and the requested working directory and user or
/// else the image's.
pub fn resolve_run_process(
    cmd: &[String],
    env: &[String],
    ai_env: &[String],
    workdir: Option<&str>,
    user: Option<&str>,
    image: &ImageProcessDefaults,
) -> (r: Result<RunProcess, RuntimeError>)
    ensures
        r is Err <==> run_command_of(strs_of(cmd@), *image).len() == 0,
        r matches Err(e) ==> e@ == ErrorView::MissingCommand,
        r matches Ok(p) ==> {
            &&& strs_of(p.command@) == run_command_of(strs_of(cmd@), *image)
            &&& strs_of(p.env@) == run_env_of(*image, strs_of(env@), strs_of(ai_env@))
            &&& crate::records::opt_str(p.workdir) == match workdir {
                Some(w) => Some(w@),
                None => crate::records::opt_str(image.workdir),
            }
            &&& crate::records::opt_str(p.user) == match user {
                Some(u) => Some(u@),
                None => crate::records::opt_str(image.user),
            }
        },
{
    let command = if cmd.len() == 0 && image.command.is_some() {
        match &image.command {
            Some(c) => crate::text::copy_strings(c.as_slice()),
            None => crate::text::copy_strings(cmd),
        }
    } else {
        crate::text::copy_strings(cmd)
    };
    if command.len() == 0 {
        return Err(RuntimeError::MissingCommand);
    }
    let mut merged = crate::text::copy_strings(image.env.as_slice());
    let mut rest = crate::text::copy_strings(env);
    let mut ai = crate::text::copy_strings(ai_env);
    let ghost m0 = strs_of(merged@);
    let ghost r0 = strs_of(rest@);
    let ghost a0 = strs_of(ai@);
    merged.append(&mut rest);
    proof {
        assert(strs_of(merged@) =~= m0 + r0);
    }
    merged.append(&mut ai);
    proof {
        assert(strs_of(merged@) =~= m0 + r0 + a0);
    }
    let env_out = crate::paths::dedup_env(merged);
    Ok(
        RunProcess {
            command,
            env: env_out,
            workdir: copy_opt(workdir, &image.workdir),
            user: copy_opt(user, &image.user),
        },
    )
}

} // verus!
