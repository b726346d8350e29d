//! The OCI runtime-spec `config.json` model and its validation.

use crate::text::{chars_of, chars_starts_with, concat, starts_with, str_eq, trim, trim_chars};
use std::collections::HashMap;
use vstd::prelude::*;
use vstd::string::StringExecFns;

verus! {

/// Why a runtime configuration was refused.
#[derive(Debug, Clone, PartialEq, Eq)]
pub enum RuntimeConfigParseError {
    /// The document is not JSON of the expected shape; holds the parser's text.
    InvalidJson(String),
    InvalidOciVersion(String),
    MissingRequiredField(&'static str),
    InvalidField(String),
}

pub ghost enum ConfigErrorView {
    InvalidJson(Seq<char>),
    InvalidOciVersion(Seq<char>),
    MissingRequiredField(Seq<char>),
    InvalidField(Seq<char>),
}

impl View for RuntimeConfigParseError {
    type V = ConfigErrorView;

    open spec fn view(&self) -> ConfigErrorView {
        match self {
            RuntimeConfigParseError::InvalidJson(m) => ConfigErrorView::InvalidJson(m@),
            RuntimeConfigParseError::InvalidOciVersion(m) => ConfigErrorView::InvalidOciVersion(m@),
            RuntimeConfigParseError::MissingRequiredField(m) => ConfigErrorView::MissingRequiredField(
                m@,
            ),
            RuntimeConfigParseError::InvalidField(m) => ConfigErrorView::InvalidField(m@),
        }
    }
}

pub open spec fn config_error_message(e: ConfigErrorView) -> Seq<char> {
    match e {
        ConfigErrorView::InvalidJson(m) => "invalid OCI runtime config JSON: "@ + m,
        ConfigErrorView::InvalidOciVersion(m) => "unsupported OCI runtime version: "@ + m,
        ConfigErrorView::MissingRequiredField(m) => "missing required section: "@ + m,
        ConfigErrorView::InvalidField(m) => "invalid field: "@ + m,
    }
}

impl RuntimeConfigParseError {
    /// The human-readable text of this error.
    pub fn message(&self) -> (r: String)
        ensures
            r@ == config_error_message(self@),
    {
        match self {
            RuntimeConfigParseError::InvalidJson(m) => concat(
                "invalid OCI runtime config JSON: ",
                m.as_str(),
            ),
            RuntimeConfigParseError::InvalidOciVersion(m) => concat(
                "unsupported OCI runtime version: ",
                m.as_str(),
            ),
            RuntimeConfigParseError::MissingRequiredField(m) => concat(
                "missing required section: ",
                m,
            ),
            RuntimeConfigParseError::InvalidField(m) => concat("invalid field: ", m.as_str()),
        }
    }
}

/// Minimal-but-extensible representation of OCI Runtime Spec v1.2 `config.json`.
#[derive(Debug, Clone)]
pub struct RuntimeConfig {
    pub oci_version: String,
    pub process: Option<Process>,
    pub root: Option<Root>,
    pub hostname: Option<String>,
    pub mounts: Vec<Mount>,
    pub linux: Option<Linux>,
    pub annotations: HashMap<String, String>,
}

#[derive(Debug, Clone, PartialEq)]
pub struct Process {
    pub terminal: Option<bool>,
    pub user: Option<User>,
    pub args: Vec<String>,
    pub env: Vec<String>,
    pub cwd: Option<String>,
    pub capabilities: Option<Capabilities>,
    pub no_new_privileges: Option<bool>,
}

#[derive(Debug, Clone, PartialEq)]
pub struct User {
    pub uid: u32,
    pub gid: u32,
    pub additional_gids: Vec<u32>,
}

#[derive(Debug, Clone, PartialEq)]
pub struct Capabilities {
    pub bounding: Vec<String>,
    pub effective: Vec<String>,
    pub inheritable: Vec<String>,
    pub permitted: Vec<String>,
    pub ambient: Vec<String>,
}

#[derive(Debug, Clone, PartialEq)]
pub struct Root {
    pub path: String,
    pub readonly: Option<bool>,
}

#[derive(Debug, Clone, PartialEq)]
pub struct Mount {
    pub destination: String,
    pub mount_type: Option<String>,
    pub source: Option<String>,
    pub options: Vec<String>,
}

#[derive(Debug, Clone, PartialEq)]
pub struct Linux {
    pub namespaces: Vec<LinuxNamespace>,
    pub resources: Option<LinuxResources>,
    pub uid_mappings: Vec<IdMapping>,
    pub gid_mappings: Vec<IdMapping>,
    pub cgroups_path: Option<String>,
}

#[derive(Debug, Clone, PartialEq)]
pub struct LinuxNamespace {
    pub namespace_type: String,
    pub path: Option<String>,
}

#[derive(Debug, Clone, Copy, PartialEq, Eq)]
pub struct IdMapping {
    pub container_id: u32,
    pub host_id: u32,
    pub size: u32,
}

#[derive(Debug, Clone, PartialEq)]
pub struct LinuxResources {
    pub memory: Option<LinuxMemory>,
    pub cpu: Option<LinuxCpu>,
    pub pids: Option<LinuxPids>,
}

#[derive(Debug, Clone, Copy, PartialEq, Eq)]
pub struct LinuxMemory {
    pub limit: Option<i64>,
    pub reservation: Option<i64>,
    pub swap: Option<i64>,
}

#[derive(Debug, Clone, PartialEq)]
pub struct LinuxCpu {
    pub shares: Option<u64>,
    pub quota: Option<i64>,
    pub period: Option<u64>,
    pub cpus: Option<String>,
    pub mems: Option<String>,
}

#[derive(Debug, Clone, Copy, PartialEq, Eq)]
pub struct LinuxPids {
    pub limit: i64,
}

/// Runtime-spec versions 1.0, 1.1 and 1.2 are accepted.
pub open spec fn version_supported(v: Seq<char>) -> bool {
    starts_with(v, "1.0"@) || starts_with(v, "1.1"@) || starts_with(v, "1.2"@)
}

pub open spec fn is_absolute(p: Seq<char>) -> bool {
    starts_with(p, "/"@)
}

/// Mount `i` has a relative destination or repeats an earlier one.
pub open spec fn mount_bad(ms: Seq<Mount>, i: int) -> bool {
    ||| !is_absolute(ms[i].destination@)
    ||| exists|j: int| 0 <= j < i && #[trigger] ms[j].destination@ == ms[i].destination@
}

pub open spec fn first_bad_mount(ms: Seq<Mount>, i: int) -> bool {
    &&& 0 <= i < ms.len()
    &&& mount_bad(ms, i)
    &&& forall|j: int| 0 <= j < i ==> !#[trigger] mount_bad(ms, j)
}

pub open spec fn mount_error(ms: Seq<Mount>, i: int) -> ConfigErrorView {
    if !is_absolute(ms[i].destination@) {
        ConfigErrorView::InvalidField("mount destination must be absolute: "@ + ms[i].destination@)
    } else {
        ConfigErrorView::InvalidField("duplicate mount destination: "@ + ms[i].destination@)
    }
}

/// The error for the first refused mount, if any.
pub open spec fn mount_violation(ms: Seq<Mount>) -> Option<ConfigErrorView> {
    if exists|i: int| first_bad_mount(ms, i) {
        Some(mount_error(ms, choose|i: int| first_bad_mount(ms, i)))
    } else {
        None
    }
}

/// The namespace kinds of the runtime specification.
pub open spec fn namespace_kind_valid(k: Seq<char>) -> bool {
    ||| k == "pid"@
    ||| k == "network"@
    ||| k == "mount"@
    ||| k == "ipc"@
    ||| k == "uts"@
    ||| k == "user"@
    ||| k == "cgroup"@
    ||| k == "time"@
}

pub open spec fn namespace_bad(ns: Seq<LinuxNamespace>, i: int) -> bool {
    ||| !namespace_kind_valid(ns[i].namespace_type@)
    ||| exists|j: int|
        0 <= j < i && #[trigger] ns[j].namespace_type@ == ns[i].namespace_type@
}

pub open spec fn first_bad_namespace(ns: Seq<LinuxNamespace>, i: int) -> bool {
    &&& 0 <= i < ns.len()
    &&& namespace_bad(ns, i)
    &&& forall|j: int| 0 <= j < i ==> !#[trigger] namespace_bad(ns, j)
}

pub open spec fn namespace_error(ns: Seq<LinuxNamespace>, i: int) -> ConfigErrorView {
    if !namespace_kind_valid(ns[i].namespace_type@) {
        ConfigErrorView::InvalidField(
            "unsupported linux namespace type: "@ + ns[i].namespace_type@,
        )
    } else {
        ConfigErrorView::InvalidField("duplicate linux namespace type: "@ + ns[i].namespace_type@)
    }
}

pub open spec fn namespace_violation(ns: Seq<LinuxNamespace>) -> Option<ConfigErrorView> {
    if exists|i: int| first_bad_namespace(ns, i) {
        Some(namespace_error(ns, choose|i: int| first_bad_namespace(ns, i)))
    } else {
        None
    }
}

pub open spec fn some_negative(v: Option<i64>) -> bool {
    v matches Some(x) && x < 0
}

pub open spec fn resources_violation(r: LinuxResources) -> Option<ConfigErrorView> {
    if r.memory matches Some(m) && (some_negative(m.limit) || some_negative(m.reservation)
        || some_negative(m.swap)) {
        Some(ConfigErrorView::InvalidField("linux.resources.memory values must be >= 0"@))
    } else if r.cpu matches Some(c) && some_negative(c.quota) {
        Some(ConfigErrorView::InvalidField("linux.resources.cpu.quota must be >= 0"@))
    } else if r.pids matches Some(p) && p.limit <= 0 {
        Some(ConfigErrorView::InvalidField("linux.resources.pids.limit must be > 0"@))
    } else {
        None
    }
}

pub open spec fn linux_violation(l: Linux) -> Option<ConfigErrorView> {
    let maps = l.uid_mappings@ + l.gid_mappings@;
    if namespace_violation(l.namespaces@) is Some {
        namespace_violation(l.namespaces@)
    } else if exists|i: int| 0 <= i < maps.len() && (#[trigger] maps[i]).size == 0 {
        Some(ConfigErrorView::InvalidField("id mapping size must be > 0"@))
    } else {
        match l.resources {
            Some(r) => resources_violation(r),
            None => None,
        }
    }
}

/// The first rule of the runtime specification that `c` breaks, checked in
/// the order: version, process, process.args, process.cwd, root, root.path,
/// mounts, then the linux section (namespaces, id mappings, resources).
pub open spec fn first_violation(c: RuntimeConfig) -> Option<ConfigErrorView> {
    if !version_supported(c.oci_version@) {
        Some(ConfigErrorView::InvalidOciVersion(c.oci_version@))
    } else if c.process is None {
        Some(ConfigErrorView::MissingRequiredField("process"@))
    } else if c.process.unwrap().args@.len() == 0 {
        Some(ConfigErrorView::InvalidField("process.args must not be empty"@))
    } else if c.process.unwrap().cwd matches Some(cwd) && !is_absolute(cwd@) {
        Some(ConfigErrorView::InvalidField("process.cwd must be absolute"@))
    } else if c.root is None {
        Some(ConfigErrorView::MissingRequiredField("root"@))
    } else if trim(c.root.unwrap().path@).len() == 0 {
        Some(ConfigErrorView::InvalidField("root.path must not be empty"@))
    } else if mount_violation(c.mounts@) is Some {
        mount_violation(c.mounts@)
    } else {
        match c.linux {
            Some(l) => linux_violation(l),
            None => None,
        }
    }
}

proof fn lemma_first_bad_mount(ms: Seq<Mount>, i: int)
    requires
        first_bad_mount(ms, i),
    ensures
        mount_violation(ms) == Some(mount_error(ms, i)),
{
    let k = choose|k: int| first_bad_mount(ms, k);
    assert(first_bad_mount(ms, k));
    if k < i {
        assert(!mount_bad(ms, k));
    }
    if i < k {
        assert(!mount_bad(ms, i));
    }
}

proof fn lemma_first_bad_namespace(ns: Seq<LinuxNamespace>, i: int)
    requires
        first_bad_namespace(ns, i),
    ensures
        namespace_violation(ns) == Some(namespace_error(ns, i)),
{
    let k = choose|k: int| first_bad_namespace(ns, k);
    assert(first_bad_namespace(ns, k));
    if k < i {
        assert(!namespace_bad(ns, k));
    }
    if i < k {
        assert(!namespace_bad(ns, i));
    }
}

fn str_starts_with(s: &str, p: &str) -> (r: bool)
    ensures
        r == starts_with(s@, p@),
{
    let a = chars_of(s);
    let b = chars_of(p);
    chars_starts_with(a.as_slice(), b.as_slice())
}

fn check_mounts(ms: &Vec<Mount>) -> (r: Result<(), RuntimeConfigParseError>)
    ensures
        r is Ok <==> mount_violation(ms@) is None,
        r matches Err(e) ==> Some(e@) == mount_violation(ms@),
{
    let mut i: usize = 0;
    while i < ms.len()
        invariant
            i <= ms@.len(),
            forall|k: int| 0 <= k < i ==> !#[trigger] mount_bad(ms@, k),
        decreases ms.len() - i,
    {
        let dest = &ms[i].destination;
        if !str_starts_with(dest.as_str(), "/") {
            proof {
                lemma_first_bad_mount(ms@, i as int);
            }
            return Err(
                RuntimeConfigParseError::InvalidField(
                    concat("mount destination must be absolute: ", dest.as_str()),
                ),
            );
        }
        let mut j: usize = 0;
        while j < i
            invariant
                i < ms@.len(),
                j <= i,
                dest@ == ms@[i as int].destination@,
                is_absolute(dest@),
                forall|k: int| 0 <= k < i ==> !#[trigger] mount_bad(ms@, k),
                forall|k: int| 0 <= k < j ==> ms@[k].destination@ != ms@[i as int].destination@,
            decreases i - j,
        {
            if ms[j].destination == *dest {
                proof {
                    assert(ms@[j as int].destination@ == ms@[i as int].destination@);
                    assert(mount_bad(ms@, i as int));
                    lemma_first_bad_mount(ms@, i as int);
                }
                return Err(
                    RuntimeConfigParseError::InvalidField(
                        concat("duplicate mount destination: ", dest.as_str()),
                    ),
                );
            }
            j += 1;
        }
        assert(!mount_bad(ms@, i as int));
        i += 1;
    }
    assert forall|k: int| !first_bad_mount(ms@, k) by {
        if 0 <= k < ms@.len() {
            assert(!mount_bad(ms@, k));
        }
    }
    Ok(())
}

fn check_namespaces(ns: &Vec<LinuxNamespace>) -> (r: Result<(), RuntimeConfigParseError>)
    ensures
        r is Ok <==> namespace_violation(ns@) is None,
        r matches Err(e) ==> Some(e@) == namespace_violation(ns@),
{
    let mut i: usize = 0;
    while i < ns.len()
        invariant
            i <= ns@.len(),
            forall|k: int| 0 <= k < i ==> !#[trigger] namespace_bad(ns@, k),
        decreases ns.len() - i,
    {
        let kind = &ns[i].namespace_type;
        let k = kind.as_str();
        let valid = str_eq(k, "pid") || str_eq(k, "network") || str_eq(k, "mount") || str_eq(
            k,
            "ipc",
        ) || str_eq(k, "uts") || str_eq(k, "user") || str_eq(k, "cgroup") || str_eq(k, "time");
        if !valid {
            proof {
                lemma_first_bad_namespace(ns@, i as int);
            }
            return Err(
                RuntimeConfigParseError::InvalidField(
                    concat("unsupported linux namespace type: ", k),
                ),
            );
        }
        let mut j: usize = 0;
        while j < i
            invariant
                i < ns@.len(),
                j <= i,
                kind@ == ns@[i as int].namespace_type@,
                namespace_kind_valid(kind@),
                forall|k: int| 0 <= k < i ==> !#[trigger] namespace_bad(ns@, k),
                forall|m: int|
                    0 <= m < j ==> ns@[m].namespace_type@ != ns@[i as int].namespace_type@,
            decreases i - j,
        {
            if ns[j].namespace_type == *kind {
                proof {
                    assert(ns@[j as int].namespace_type@ == ns@[i as int].namespace_type@);
                    assert(namespace_bad(ns@, i as int));
                    lemma_first_bad_namespace(ns@, i as int);
                }
                return Err(
                    RuntimeConfigParseError::InvalidField(
                        concat("duplicate linux namespace type: ", kind.as_str()),
                    ),
                );
            }
            j += 1;
        }
        assert(!namespace_bad(ns@, i as int));
        i += 1;
    }
    assert forall|k: int| !first_bad_namespace(ns@, k) by {
        if 0 <= k < ns@.len() {
            assert(!namespace_bad(ns@, k));
        }
    }
    Ok(())
}

fn negative(v: Option<i64>) -> (r: bool)
    ensures
        r == some_negative(v),
{
    match v {
        Some(x) => x < 0,
        None => false,
    }
}

fn check_resources(r: &LinuxResources) -> (res: Result<(), RuntimeConfigParseError>)
    ensures
        res is Ok <==> resources_violation(*r) is None,
        res matches Err(e) ==> Some(e@) == resources_violation(*r),
{
    if let Some(memory) = &r.memory {
        if negative(memory.limit) || negative(memory.reservation) || negative(memory.swap) {
            return Err(
                RuntimeConfigParseError::InvalidField(
                    String::from_str("linux.resources.memory values must be >= 0"),
                ),
            );
        }
    }
    if let Some(cpu) = &r.cpu {
        if negative(cpu.quota) {
            return Err(
                RuntimeConfigParseError::InvalidField(
                    String::from_str("linux.resources.cpu.quota must be >= 0"),
                ),
            );
        }
    }
    if let Some(pids) = &r.pids {
        if pids.limit <= 0 {
            return Err(
                RuntimeConfigParseError::InvalidField(
                    String::from_str("linux.resources.pids.limit must be > 0"),
                ),
            );
        }
    }
    Ok(())
}

fn check_linux(l: &Linux) -> (r: Result<(), RuntimeConfigParseError>)
    ensures
        r is Ok <==> linux_violation(*l) is None,
        r matches Err(e) ==> Some(e@) == linux_violation(*l),
{
    check_namespaces(&l.namespaces)?;
    let ghost maps = l.uid_mappings@ + l.gid_mappings@;
    let mut i: usize = 0;
    while i < l.uid_mappings.len()
        invariant
            i <= l.uid_mappings@.len(),
            maps == l.uid_mappings@ + l.gid_mappings@,
            namespace_violation(l.namespaces@) is None,
            forall|k: int| 0 <= k < i ==> (#[trigger] maps[k]).size != 0,
        decreases l.uid_mappings.len() - i,
    {
        if l.uid_mappings[i].size == 0 {
            assert(maps[i as int].size == 0);
            return Err(
                RuntimeConfigParseError::InvalidField(
                    String::from_str("id mapping size must be > 0"),
                ),
            );
        }
        i += 1;
    }
    let mut j: usize = 0;
    while j < l.gid_mappings.len()
        invariant
            j <= l.gid_mappings@.len(),
            maps == l.uid_mappings@ + l.gid_mappings@,
            namespace_violation(l.namespaces@) is None,
            forall|k: int| 0 <= k < l.uid_mappings@.len() + j ==> (#[trigger] maps[k]).size != 0,
        decreases l.gid_mappings.len() - j,
    {
        if l.gid_mappings[j].size == 0 {
            assert(maps[l.uid_mappings@.len() + j].size == 0);
            return Err(
                RuntimeConfigParseError::InvalidField(
                    String::from_str("id mapping size must be > 0"),
                ),
            );
        }
        j += 1;
    }
    match &l.resources {
        Some(r) => check_resources(r),
        None => Ok(()),
    }
}

impl RuntimeConfig {
    /// Checks the configuration against the runtime specification; the
    /// error names the first rule broken (see `first_violation`).
    pub fn validate(&self) -> (r: Result<(), RuntimeConfigParseError>)
        ensures
            r is Ok <==> first_violation(*self) is None,
            r matches Err(e) ==> Some(e@) == first_violation(*self),
    {
        let version = self.oci_version.as_str();
        if !(str_starts_with(version, "1.0") || str_starts_with(version, "1.1")
            || str_starts_with(version, "1.2")) {
            return Err(RuntimeConfigParseError::InvalidOciVersion(self.oci_version.clone()));
        }
        let process = match &self.process {
            Some(p) => p,
            None => {
                return Err(RuntimeConfigParseError::MissingRequiredField("process"));
            },
        };
        if process.args.len() == 0 {
            return Err(
                RuntimeConfigParseError::InvalidField(
                    String::from_str("process.args must not be empty"),
                ),
            );
        }
        if let Some(cwd) = &process.cwd {
            if !str_starts_with(cwd.as_str(), "/") {
                return Err(
                    RuntimeConfigParseError::InvalidField(
                        String::from_str("process.cwd must be absolute"),
                    ),
                );
            }
        }
        let root = match &self.root {
            Some(r) => r,
            None => {
                return Err(RuntimeConfigParseError::MissingRequiredField("root"));
            },
        };
        let path = chars_of(root.path.as_str());
        let trimmed = trim_chars(path.as_slice());
        if trimmed.len() == 0 {
            return Err(
                RuntimeConfigParseError::InvalidField(
                    String::from_str("root.path must not be empty"),
                ),
            );
        }
        check_mounts(&self.mounts)?;
        match &self.linux {
            Some(l) => check_linux(l),
            None => Ok(()),
        }
    }
}

} // verus!
