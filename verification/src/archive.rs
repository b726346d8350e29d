//! The admission of an archive written into a container and of a new
//! container name: the archive's size, a target that is no persisted mount,
//! and a name no other container holds.

use crate::error::{ErrorView, RuntimeError};
use crate::host::strip_slashes;
use crate::persisted_mounts::{components_view, path_components_exec, path_components_of, Component};
use crate::records::{opt_str, opt_string_is, string_eq, ContainerRecord};
use crate::text::{chars_of, chars_skip, concat, string_of};
use vstd::prelude::*;
use vstd::string::StringExecFns;

verus! {

/// The largest archive accepted: 64 MiB.
pub const ARCHIVE_LIMIT: usize = 67108864;

pub open spec fn archive_size_check(len: nat) -> Result<(), ErrorView> {
    if len == 0 {
        Err(ErrorView::InvalidCommand("container archive must not be empty"@))
    } else if len > ARCHIVE_LIMIT {
        Err(ErrorView::InvalidCommand("container archive exceeds the 64 MiB limit"@))
    } else {
        Ok(())
    }
}

/// An archive must hold something and stay within the limit.
pub fn check_archive_size(archive: &[u8]) -> (r: Result<(), RuntimeError>)
    ensures
        match r {
            Ok(()) => archive_size_check(archive@.len()) is Ok,
            Err(e) => archive_size_check(archive@.len()) == Err::<(), ErrorView>(e@),
        },
{
    if archive.len() == 0 {
        return Err(
            RuntimeError::InvalidCommand(String::from_str("container archive must not be empty")),
        );
    }
    if archive.len() > ARCHIVE_LIMIT {
        return Err(
            RuntimeError::InvalidCommand(
                String::from_str("container archive exceeds the 64 MiB limit"),
            ),
        );
    }
    Ok(())
}

/// The relative archive target is a mount target (with its leading `/`s
/// removed) or lies beneath one, comparing whole path components.
pub open spec fn within_mount_target(relative: Seq<char>, target: Seq<char>) -> bool {
    let t = path_components_of(strip_slashes(target));
    let r = path_components_of(relative);
    t.len() <= r.len() && r.take(t.len() as int) == t
}

proof fn lemma_strip_slashes_skip(s: Seq<char>, i: int)
    requires
        0 <= i <= s.len(),
        forall|k: int| 0 <= k < i ==> s[k] == '/',
    ensures
        strip_slashes(s) == strip_slashes(s.skip(i)),
    decreases i,
{
    if i > 0 {
        lemma_strip_slashes_skip(s, i - 1);
        let t = s.skip(i - 1);
        assert(t[0] == s[i - 1]);
        assert(t.drop_first() =~= s.skip(i));
    } else {
        assert(s.skip(0) =~= s);
    }
}

fn strip_leading_slashes(s: &str) -> (r: String)
    ensures
        r@ == strip_slashes(s@),
{
    let c = chars_of(s);
    let mut i: usize = 0;
    while i < c.len() && c[i] == '/'
        invariant
            i <= c@.len(),
            c@ == s@,
            forall|k: int| 0 <= k < i ==> c@[k] == '/',
        decreases c.len() - i,
    {
        i += 1;
    }
    proof {
        lemma_strip_slashes_skip(s@, i as int);
        let t = s@.skip(i as int);
        if t.len() > 0 {
            assert(t[0] == c@[i as int]);
        }
    }
    let rest = chars_skip(c.as_slice(), i);
    string_of(rest.as_slice())
}

fn component_eq(a: &Component, b: &Component) -> (r: bool)
    ensures
        r == (a@ == b@),
{
    match (a, b) {
        (Component::RootDir, Component::RootDir) => true,
        (Component::CurDir, Component::CurDir) => true,
        (Component::ParentDir, Component::ParentDir) => true,
        (Component::Normal(x), Component::Normal(y)) => crate::text::chars_eq(
            x.as_slice(),
            y.as_slice(),
        ),
        _ => false,
    }
}

fn components_prefix(prefix: &Vec<Component>, path: &Vec<Component>) -> (r: bool)
    ensures
        r == (components_view(prefix@).len() <= components_view(path@).len() && components_view(
            path@,
        ).take(components_view(prefix@).len() as int) == components_view(prefix@)),
{
    let ghost p = components_view(prefix@);
    let ghost q = components_view(path@);
    if prefix.len() > path.len() {
        return false;
    }
    let mut i: usize = 0;
    while i < prefix.len()
        invariant
            prefix@.len() <= path@.len(),
            i <= prefix@.len(),
            p == components_view(prefix@),
            q == components_view(path@),
            forall|k: int| 0 <= k < i ==> q[k] == p[k],
        decreases prefix.len() - i,
    {
        assert(p[i as int] == prefix@[i as int]@);
        assert(q[i as int] == path@[i as int]@);
        if !component_eq(&prefix[i], &path[i]) {
            proof {
                assert(q.take(p.len() as int)[i as int] != p[i as int]);
            }
            return false;
        }
        i += 1;
    }
    proof {
        assert(q.take(p.len() as int) =~= p);
    }
    true
}

/// Refuses an archive target (relative to the root filesystem) that is a
/// persisted bind or tmpfs mount target or lies beneath one.
pub fn check_archive_target_mounts(relative: &str, mount_targets: &[String]) -> (r: Result<
    (),
    RuntimeError,
>)
    ensures
        r is Ok <==> forall|i: int|
            0 <= i < mount_targets@.len() ==> !within_mount_target(
                relative@,
                #[trigger] mount_targets@[i]@,
            ),
        r matches Err(e) ==> e@ == ErrorView::InvalidCommand(
            "archive target is a persisted mount target"@,
        ),
{
    let path = path_components_exec(relative);
    let mut i: usize = 0;
    while i < mount_targets.len()
        invariant
            i <= mount_targets@.len(),
            components_view(path@) == path_components_of(relative@),
            forall|k: int|
                0 <= k < i ==> !within_mount_target(relative@, #[trigger] mount_targets@[k]@),
        decreases mount_targets.len() - i,
    {
        let stripped = strip_leading_slashes(mount_targets[i].as_str());
        let target = path_components_exec(stripped.as_str());
        if components_prefix(&target, &path) {
            return Err(
                RuntimeError::InvalidCommand(
                    String::from_str("archive target is a persisted mount target"),
                ),
            );
        }
        i += 1;
    }
    Ok(())
}

/// Another container than `id` already holds the name `name`.
pub open spec fn name_taken(records: Seq<ContainerRecord>, id: Seq<char>, name: Seq<char>) -> bool {
    exists|j: int|
        0 <= j < records.len() && (#[trigger] records[j]).id@ != id && opt_str(records[j].name)
            == Some(name)
}

/// A container may take a name that no other container holds.
pub fn check_rename(records: &[ContainerRecord], id: &str, name: &str) -> (r: Result<
    (),
    RuntimeError,
>)
    ensures
        r is Ok <==> !name_taken(records@, id@, name@),
        r matches Err(e) ==> e@ == ErrorView::InvalidState(
            "container name is already in use: "@ + name@,
        ),
{
    let mut i: usize = 0;
    while i < records.len()
        invariant
            i <= records@.len(),
            forall|j: int|
                0 <= j < i ==> !((#[trigger] records@[j]).id@ != id@ && opt_str(records@[j].name)
                    == Some(name@)),
        decreases records.len() - i,
    {
        let other = &records[i];
        if !crate::text::str_eq(other.id.as_str(), id) && opt_string_is(&other.name, name) {
            return Err(RuntimeError::InvalidState(concat("container name is already in use: ", name)));
        }
        i += 1;
    }
    Ok(())
}

} // verus!
