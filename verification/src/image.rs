//! Image references: where a stored reference points, and the immutable
//! `registry/repository@digest` form under which an image is pinned.

use crate::error::{ErrorView, RuntimeError};
use crate::text::{
    chars_contain, chars_eq, chars_of, chars_skip, chars_take, concat, concat_chars, find_char,
    first_index, string_of,
};
use vstd::prelude::*;
use vstd::string::StringExecFns;

verus! {

/// The registry of references that name none.
pub open spec fn default_registry() -> Seq<char> {
    "registry-1.docker.io"@
}

/// `s` up to the first `c`, or all of `s` when there is none.
pub open spec fn before_char(s: Seq<char>, c: char) -> Seq<char> {
    match first_index(s, c) {
        Some(i) => s.take(i),
        None => s,
    }
}

/// A first path component names a registry when it holds a `.` or a `:`
/// (a host or a port) or is `localhost`.
pub open spec fn is_registry_host(c: Seq<char>) -> bool {
    c.contains('.') || c.contains(':') || c == "localhost"@
}

/// The registry and repository that a reference names; its tag and digest
/// are dropped. A reference without a registry names the default one, and
/// a single-component repository there lives under `library/`.
pub open spec fn image_location(r: Seq<char>) -> Result<(Seq<char>, Seq<char>), ErrorView> {
    let name = before_char(r, '@');
    let split = first_index(name, '/');
    if split is Some && is_registry_host(name.take(split->0)) {
        let k = split->0;
        let repo = before_char(name.skip(k + 1), ':');
        if repo.len() == 0 {
            Err(ErrorView::InvalidImage("image reference has no repository"@))
        } else {
            Ok((name.take(k), repo))
        }
    } else {
        let repo = before_char(name, ':');
        if repo.len() == 0 {
            Err(ErrorView::InvalidImage("image reference has no repository"@))
        } else if split is None {
            Ok((default_registry(), "library/"@ + repo))
        } else {
            Ok((default_registry(), repo))
        }
    }
}

/// The immutable form of a stored reference: its repository followed
/// directly by `@digest`, never `name:tag@digest`.
pub open spec fn pinned_reference(r: Seq<char>, digest: Seq<char>) -> Result<Seq<char>, ErrorView> {
    match image_location(r) {
        Err(e) => Err(e),
        Ok((registry, repo)) => Ok(registry + "/"@ + repo + "@"@ + digest),
    }
}

fn chars_before(s: &Vec<char>, c: char) -> (r: Vec<char>)
    ensures
        r@ == before_char(s@, c),
{
    match find_char(s.as_slice(), c) {
        Some(i) => chars_take(s.as_slice(), i),
        None => chars_take(s.as_slice(), s.len()),
    }
}

/// Where a reference points: `(registry, repository)`.
pub fn image_location_of(reference: &str) -> (r: Result<(String, String), RuntimeError>)
    ensures
        r matches Ok((g, p)) ==> image_location(reference@) == Ok::<
            (Seq<char>, Seq<char>),
            ErrorView,
        >((g@, p@)),
        r matches Err(e) ==> image_location(reference@) == Err::<(Seq<char>, Seq<char>), ErrorView>(
            e@,
        ),
{
    let all = chars_of(reference);
    let name = chars_before(&all, '@');
    let n = name.len();
    let split = find_char(name.as_slice(), '/');
    let no_repo = Err(
        RuntimeError::InvalidImage(String::from_str("image reference has no repository")),
    );
    if let Some(k) = split {
        assert(k < n);
        let host = chars_take(name.as_slice(), k);
        let localhost = chars_of("localhost");
        if chars_contain(host.as_slice(), '.') || chars_contain(host.as_slice(), ':') || chars_eq(
            host.as_slice(),
            localhost.as_slice(),
        ) {
            let rest = chars_skip(name.as_slice(), k + 1);
            let repo = chars_before(&rest, ':');
            if repo.len() == 0 {
                return no_repo;
            }
            return Ok((string_of(host.as_slice()), string_of(repo.as_slice())));
        }
    }
    let repo = chars_before(&name, ':');
    if repo.len() == 0 {
        return no_repo;
    }
    let registry = String::from_str("registry-1.docker.io");
    if split.is_none() {
        Ok((registry, concat_chars("library/", repo.as_slice())))
    } else {
        Ok((registry, string_of(repo.as_slice())))
    }
}

pub fn immutable_image_reference(reference: &str, digest: &str) -> (r: Result<
    String,
    RuntimeError,
>)
    ensures
        r matches Ok(s) ==> pinned_reference(reference@, digest@) == Ok::<Seq<char>, ErrorView>(
            s@,
        ),
        r matches Err(e) ==> pinned_reference(reference@, digest@) == Err::<Seq<char>, ErrorView>(
            e@,
        ),
{
    let (registry, repository) = image_location_of(reference)?;
    let a = concat(registry.as_str(), "/");
    let b = concat(a.as_str(), repository.as_str());
    let c = concat(b.as_str(), "@");
    Ok(concat(c.as_str(), digest))
}

} // verus!
