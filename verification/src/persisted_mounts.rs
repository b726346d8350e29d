//! The order in which a stopped container's recorded mounts are detached:
//! nested mounts first, each target once.

use crate::hosts::{
    lemma_text_lt_irreflexive, lemma_text_lt_total, lemma_text_lt_transitive, text_less, text_lt,
};
use crate::text::{chars_eq, chars_of, seqs_of, split_char, split_chars, starts_with, string_of, strs_of};
use vstd::prelude::*;
use vstd::string::StringExecFns;

verus! {

/// A component of a Unix path, as `Path::components` yields it.
pub ghost enum PathComponent {
    RootDir,
    CurDir,
    ParentDir,
    Normal(Seq<char>),
}

/// A path component in executable form.
#[derive(Debug, Clone)]
pub enum Component {
    RootDir,
    CurDir,
    ParentDir,
    Normal(Vec<char>),
}

impl View for Component {
    type V = PathComponent;

    open spec fn view(&self) -> PathComponent {
        match self {
            Component::RootDir => PathComponent::RootDir,
            Component::CurDir => PathComponent::CurDir,
            Component::ParentDir => PathComponent::ParentDir,
            Component::Normal(t) => PathComponent::Normal(t@),
        }
    }
}

pub open spec fn components_view(v: Seq<Component>) -> Seq<PathComponent> {
    v.map_values(|c: Component| c@)
}

pub open spec fn component_of(piece: Seq<char>) -> PathComponent {
    if piece == ".."@ {
        PathComponent::ParentDir
    } else {
        PathComponent::Normal(piece)
    }
}

/// The components of `/`-separated pieces: empty pieces and `.` vanish.
pub open spec fn piece_components(pieces: Seq<Seq<char>>) -> Seq<PathComponent>
    decreases pieces.len(),
{
    if pieces.len() == 0 {
        Seq::empty()
    } else {
        let prev = piece_components(pieces.drop_last());
        let p = pieces.last();
        if p.len() > 0 && p != "."@ {
            prev.push(component_of(p))
        } else {
            prev
        }
    }
}

/// `Path::components` on Unix: a leading `/` is the root; a leading `.` of a
/// relative path is kept; elsewhere empty pieces and `.` vanish, and `..`
/// is the parent.
pub open spec fn path_components_of(s: Seq<char>) -> Seq<PathComponent> {
    let pieces = split_char(s, '/');
    if starts_with(s, "/"@) {
        seq![PathComponent::RootDir] + piece_components(pieces)
    } else if pieces.len() > 0 && pieces[0] == "."@ {
        seq![PathComponent::CurDir] + piece_components(pieces.drop_first())
    } else {
        piece_components(pieces)
    }
}

/// Appends the components of the pieces from index `from` on.
fn push_piece_components(out: &mut Vec<Component>, pieces: &Vec<Vec<char>>, from: usize)
    requires
        from <= pieces@.len(),
    ensures
        components_view(final(out)@) == components_view(old(out)@) + piece_components(
            seqs_of(pieces@).skip(from as int),
        ),
{
    let dot = chars_of(".");
    let dotdot = chars_of("..");
    proof {
        reveal_strlit(".");
        reveal_strlit("..");
    }
    let ghost base = components_view(out@);
    let mut i: usize = from;
    let ghost ps = seqs_of(pieces@);
    assert(ps.skip(from as int).take(0) =~= Seq::<Seq<char>>::empty());
    assert(components_view(out@) =~= base + piece_components(ps.skip(from as int).take(0)));
    while i < pieces.len()
        invariant
            from <= i <= pieces@.len(),
            ps == seqs_of(pieces@),
            dot@ == "."@,
            dotdot@ == ".."@,
            components_view(out@) == base + piece_components(ps.skip(from as int).take(i - from)),
        decreases pieces.len() - i,
    {
        let ghost t = ps.skip(from as int).take(i + 1 - from);
        assert(t.drop_last() =~= ps.skip(from as int).take(i - from));
        assert(t.last() == pieces@[i as int]@);
        let p = &pieces[i];
        if p.len() > 0 && !chars_eq(p.as_slice(), dot.as_slice()) {
            let ghost r0 = components_view(out@);
            let c = if chars_eq(p.as_slice(), dotdot.as_slice()) {
                Component::ParentDir
            } else {
                Component::Normal(p.clone())
            };
            out.push(c);
            assert(components_view(out@) =~= r0.push(component_of(p@)));
        }
        i += 1;
    }
    assert(ps.skip(from as int).take(pieces@.len() - from) =~= ps.skip(from as int));
}

/// The components of a path.
pub fn path_components_exec(s: &str) -> (r: Vec<Component>)
    ensures
        components_view(r@) == path_components_of(s@),
{
    let c = chars_of(s);
    let pieces = split_chars(c.as_slice(), '/');
    let slash = chars_of("/");
    let dot = chars_of(".");
    proof {
        reveal_strlit("/");
        reveal_strlit(".");
        crate::text::lemma_split_nonempty(s@, '/');
        assert(seqs_of(pieces@).skip(0) =~= seqs_of(pieces@));
        assert(seqs_of(pieces@).skip(1) =~= seqs_of(pieces@).drop_first());
    }
    let mut r: Vec<Component> = Vec::new();
    if crate::text::chars_starts_with(c.as_slice(), slash.as_slice()) {
        r.push(Component::RootDir);
        assert(components_view(r@) =~= seq![PathComponent::RootDir]);
        push_piece_components(&mut r, &pieces, 0);
    } else if chars_eq(pieces[0].as_slice(), dot.as_slice()) {
        r.push(Component::CurDir);
        assert(components_view(r@) =~= seq![PathComponent::CurDir]);
        push_piece_components(&mut r, &pieces, 1);
    } else {
        assert(components_view(r@) =~= Seq::<PathComponent>::empty());
        push_piece_components(&mut r, &pieces, 0);
        assert(components_view(r@) =~= piece_components(seqs_of(pieces@)));
    }
    r
}

pub open spec fn component_rank(c: PathComponent) -> int {
    match c {
        PathComponent::RootDir => 0,
        PathComponent::CurDir => 1,
        PathComponent::ParentDir => 2,
        PathComponent::Normal(_) => 3,
    }
}

/// `Ord for Component`: root, current, parent, then named components by
/// their text.
pub open spec fn component_lt(a: PathComponent, b: PathComponent) -> bool {
    if component_rank(a) != component_rank(b) {
        component_rank(a) < component_rank(b)
    } else {
        match (a, b) {
            (PathComponent::Normal(x), PathComponent::Normal(y)) => text_lt(x, y),
            _ => false,
        }
    }
}

/// `Ord for Path`: its components in lexicographic order.
pub open spec fn components_lt(a: Seq<PathComponent>, b: Seq<PathComponent>) -> bool
    decreases a.len(),
{
    if b.len() == 0 {
        false
    } else if a.len() == 0 {
        true
    } else if a[0] != b[0] {
        component_lt(a[0], b[0])
    } else {
        components_lt(a.drop_first(), b.drop_first())
    }
}

proof fn lemma_component_lt_irreflexive(a: PathComponent)
    ensures
        !component_lt(a, a),
{
    if let PathComponent::Normal(x) = a {
        lemma_text_lt_irreflexive(x);
    }
}

proof fn lemma_component_lt_transitive(a: PathComponent, b: PathComponent, c: PathComponent)
    requires
        component_lt(a, b),
        component_lt(b, c),
    ensures
        component_lt(a, c),
{
    if let (PathComponent::Normal(x), PathComponent::Normal(y), PathComponent::Normal(z)) = (
        a,
        b,
        c,
    ) {
        lemma_text_lt_transitive(x, y, z);
    }
}

proof fn lemma_component_lt_total(a: PathComponent, b: PathComponent)
    requires
        a != b,
    ensures
        component_lt(a, b) || component_lt(b, a),
{
    if let (PathComponent::Normal(x), PathComponent::Normal(y)) = (a, b) {
        lemma_text_lt_total(x, y);
    }
}

proof fn lemma_components_lt_irreflexive(a: Seq<PathComponent>)
    ensures
        !components_lt(a, a),
    decreases a.len(),
{
    if a.len() > 0 {
        lemma_components_lt_irreflexive(a.drop_first());
    }
}

proof fn lemma_components_lt_transitive(
    a: Seq<PathComponent>,
    b: Seq<PathComponent>,
    c: Seq<PathComponent>,
)
    requires
        components_lt(a, b),
        components_lt(b, c),
    ensures
        components_lt(a, c),
    decreases a.len(),
{
    if a.len() > 0 {
        if a[0] == b[0] && b[0] == c[0] {
            lemma_components_lt_transitive(a.drop_first(), b.drop_first(), c.drop_first());
        } else if a[0] != b[0] && b[0] != c[0] {
            lemma_component_lt_transitive(a[0], b[0], c[0]);
            if a[0] == c[0] {
                lemma_component_lt_irreflexive(a[0]);
            }
        } else if a[0] != b[0] {
            if a[0] == c[0] {
                lemma_component_lt_irreflexive(a[0]);
            }
        } else {
            if a[0] == c[0] {
                lemma_component_lt_irreflexive(a[0]);
            }
        }
    }
}

proof fn lemma_components_lt_total(a: Seq<PathComponent>, b: Seq<PathComponent>)
    requires
        a != b,
    ensures
        components_lt(a, b) || components_lt(b, a),
    decreases a.len(),
{
    if a.len() == 0 {
        if b.len() == 0 {
            assert(a =~= b);
        }
    } else if b.len() > 0 {
        if a[0] == b[0] {
            if a.drop_first() == b.drop_first() {
                assert(a =~= seq![a[0]] + a.drop_first());
                assert(b =~= seq![b[0]] + b.drop_first());
            }
            lemma_components_lt_total(a.drop_first(), b.drop_first());
        } else {
            lemma_component_lt_total(a[0], b[0]);
        }
    }
}

/// Detach order: the path with more components first; among paths with as
/// many, the greater first.
pub open spec fn detach_first(a: Seq<PathComponent>, b: Seq<PathComponent>) -> bool {
    a.len() > b.len() || (a.len() == b.len() && components_lt(b, a))
}

proof fn lemma_detach_first_irreflexive(a: Seq<PathComponent>)
    ensures
        !detach_first(a, a),
{
    lemma_components_lt_irreflexive(a);
}

proof fn lemma_detach_first_transitive(
    a: Seq<PathComponent>,
    b: Seq<PathComponent>,
    c: Seq<PathComponent>,
)
    requires
        detach_first(a, b),
        detach_first(b, c),
    ensures
        detach_first(a, c),
{
    if a.len() == b.len() && b.len() == c.len() {
        lemma_components_lt_transitive(c, b, a);
    }
}

proof fn lemma_detach_first_total(a: Seq<PathComponent>, b: Seq<PathComponent>)
    requires
        a != b,
    ensures
        detach_first(a, b) || detach_first(b, a),
{
    if a.len() == b.len() {
        lemma_components_lt_total(a, b);
    }
}

fn component_less(a: &Component, b: &Component) -> (r: bool)
    ensures
        r == component_lt(a@, b@),
{
    match (a, b) {
        (Component::Normal(x), Component::Normal(y)) => {
            let xs = string_of(x.as_slice());
            let ys = string_of(y.as_slice());
            text_less(xs.as_str(), ys.as_str())
        },
        _ => rank(a) < rank(b),
    }
}

fn rank(c: &Component) -> (r: u8)
    ensures
        r == component_rank(c@),
{
    match c {
        Component::RootDir => 0,
        Component::CurDir => 1,
        Component::ParentDir => 2,
        Component::Normal(_) => 3,
    }
}

fn component_eq(a: &Component, b: &Component) -> (r: bool)
    ensures
        r == (a@ == b@),
{
    match (a, b) {
        (Component::Normal(x), Component::Normal(y)) => chars_eq(x.as_slice(), y.as_slice()),
        _ => rank(a) == rank(b),
    }
}

fn components_less(a: &Vec<Component>, b: &Vec<Component>) -> (r: bool)
    ensures
        r == components_lt(components_view(a@), components_view(b@)),
{
    let ghost x = components_view(a@);
    let ghost y = components_view(b@);
    let mut i: usize = 0;
    assert(x.skip(0) =~= x);
    assert(y.skip(0) =~= y);
    while i < a.len() && i < b.len() && component_eq(&a[i], &b[i])
        invariant
            x == components_view(a@),
            y == components_view(b@),
            i <= a@.len(),
            i <= b@.len(),
            components_lt(x, y) == components_lt(x.skip(i as int), y.skip(i as int)),
        decreases a.len() - i,
    {
        assert(x.skip(i + 1) =~= x.skip(i as int).drop_first());
        assert(y.skip(i + 1) =~= y.skip(i as int).drop_first());
        i += 1;
    }
    if i == b.len() {
        false
    } else if i == a.len() {
        true
    } else {
        assert(x.skip(i as int)[0] == x[i as int]);
        assert(y.skip(i as int)[0] == y[i as int]);
        component_less(&a[i], &b[i])
    }
}

fn components_eq(a: &Vec<Component>, b: &Vec<Component>) -> (r: bool)
    ensures
        r == (components_view(a@) == components_view(b@)),
{
    if a.len() != b.len() {
        assert(components_view(a@).len() != components_view(b@).len());
        return false;
    }
    let mut i: usize = 0;
    while i < a.len()
        invariant
            a@.len() == b@.len(),
            i <= a@.len(),
            forall|j: int| 0 <= j < i ==> a@[j]@ == b@[j]@,
        decreases a.len() - i,
    {
        if !component_eq(&a[i], &b[i]) {
            assert(components_view(a@)[i as int] != components_view(b@)[i as int]);
            return false;
        }
        i += 1;
    }
    assert(components_view(a@) =~= components_view(b@));
    true
}

fn detach_first_exec(a: &Vec<Component>, b: &Vec<Component>) -> (r: bool)
    ensures
        r == detach_first(components_view(a@), components_view(b@)),
{
    a.len() > b.len() || (a.len() == b.len() && components_less(b, a))
}

/// A recorded mount target: a bind mount with its source, or a tmpfs.
#[derive(Debug, Clone, PartialEq, Eq)]
pub struct PersistedMountTarget {
    pub target: String,
    pub source: Option<String>,
    pub tmpfs: bool,
}

pub ghost struct TargetView {
    pub target: Seq<char>,
    pub source: Option<Seq<char>>,
    pub tmpfs: bool,
}

impl View for PersistedMountTarget {
    type V = TargetView;

    open spec fn view(&self) -> TargetView {
        TargetView {
            target: self.target@,
            source: match self.source {
                Some(s) => Some(s@),
                None => None,
            },
            tmpfs: self.tmpfs,
        }
    }
}

pub open spec fn targets_view(v: Seq<PersistedMountTarget>) -> Seq<TargetView> {
    v.map_values(|t: PersistedMountTarget| t@)
}

/// The recorded targets in record order: bind mounts, then tmpfs mounts.
pub open spec fn recorded_targets(binds: Seq<(String, String)>, tmpfs: Seq<String>) -> Seq<TargetView> {
    binds.map_values(
        |b: (String, String)| TargetView { target: b.0@, source: Some(b.1@), tmpfs: false },
    ) + tmpfs.map_values(|t: String| TargetView { target: t@, source: None, tmpfs: true })
}

#[verifier::opaque]
pub open spec fn target_key(t: TargetView) -> Seq<PathComponent> {
    path_components_of(t.target)
}

/// No earlier recorded target names the same path.
pub open spec fn first_of_its_path(all: Seq<TargetView>, k: int) -> bool {
    forall|m: int| 0 <= m < k ==> target_key(#[trigger] all[m]) != target_key(all[k])
}

pub open spec fn detach_ordered(r: Seq<TargetView>) -> bool {
    forall|i: int, j: int|
        0 <= i < j < r.len() ==> detach_first(target_key(#[trigger] r[i]), target_key(#[trigger] r[j]))
}

spec fn keys_view(out: Seq<(Vec<Component>, PersistedMountTarget)>) -> Seq<Seq<PathComponent>> {
    out.map_values(|e: (Vec<Component>, PersistedMountTarget)| components_view(e.0@))
}

spec fn entry_targets(out: Seq<(Vec<Component>, PersistedMountTarget)>) -> Seq<TargetView> {
    out.map_values(|e: (Vec<Component>, PersistedMountTarget)| e.1@)
}

/// The placed target at `i` is the first record of its path among the first `n`.
#[verifier::opaque]
spec fn came_from(e: Seq<TargetView>, all: Seq<TargetView>, n: int, i: int) -> bool {
    exists|k: int| #![trigger all[k]] 0 <= k < n && first_of_its_path(all, k) && e[i] == all[k]
}

/// The record at `k` is among the placed targets.
#[verifier::opaque]
spec fn placed(e: Seq<TargetView>, all: Seq<TargetView>, k: int) -> bool {
    exists|i: int| #![trigger e[i]] 0 <= i < e.len() && e[i] == all[k]
}

/// Some placed target has the path of the record at `k`.
#[verifier::opaque]
spec fn path_placed(e: Seq<TargetView>, all: Seq<TargetView>, k: int) -> bool {
    exists|i: int| #![trigger e[i]] 0 <= i < e.len() && target_key(e[i]) == target_key(all[k])
}

/// What holds of the targets placed so far, from the first `n` recorded.
spec fn placed_wf(e: Seq<TargetView>, all: Seq<TargetView>, n: int) -> bool {
    &&& 0 <= n <= all.len()
    &&& detach_ordered(e)
    &&& forall|i: int| 0 <= i < e.len() ==> #[trigger] came_from(e, all, n, i)
    &&& forall|k: int| 0 <= k < n && first_of_its_path(all, k) ==> #[trigger] placed(e, all, k)
    &&& forall|k: int| 0 <= k < n ==> #[trigger] path_placed(e, all, k)
}

proof fn lemma_placed_skip(e: Seq<TargetView>, all: Seq<TargetView>, n: int, p: int)
    requires
        placed_wf(e, all, n),
        n < all.len(),
        0 <= p < e.len(),
        target_key(e[p]) == target_key(all[n]),
    ensures
        placed_wf(e, all, n + 1),
{
    assert(came_from(e, all, n, p));
    assert(exists|m: int| #![trigger all[m]] 0 <= m < n && first_of_its_path(all, m) && e[p] == all[m])
        by {
        reveal(came_from);
    }
    let m = choose|m: int| #![trigger all[m]] 0 <= m < n && first_of_its_path(all, m) && e[p] == all[m];
    assert(!first_of_its_path(all, n)) by {
        assert(target_key(all[m]) == target_key(all[n]));
    }
    assert forall|i: int| 0 <= i < e.len() implies #[trigger] came_from(e, all, n + 1, i) by {
        assert(came_from(e, all, n, i));
        reveal(came_from);
        let k = choose|k: int| #![trigger all[k]] 0 <= k < n && first_of_its_path(all, k) && e[i] == all[k];
    }
    assert forall|k: int| 0 <= k < n + 1 && first_of_its_path(all, k) implies #[trigger] placed(
        e,
        all,
        k,
    ) by {
        assert(k < n);
    }
    assert forall|k: int| 0 <= k < n + 1 implies #[trigger] path_placed(e, all, k) by {
        if k == n {
            reveal(path_placed);
            assert(target_key(e[p]) == target_key(all[k]));
        }
    }
}

proof fn lemma_placed_insert(e: Seq<TargetView>, all: Seq<TargetView>, n: int, p: int)
    requires
        placed_wf(e, all, n),
        n < all.len(),
        0 <= p <= e.len(),
        forall|i: int| 0 <= i < p ==> detach_first(target_key(#[trigger] e[i]), target_key(all[n])),
        p < e.len() ==> detach_first(target_key(all[n]), target_key(e[p])),
    ensures
        placed_wf(e.insert(p, all[n]), all, n + 1),
{
    let key = target_key(all[n]);
    let e1 = e.insert(p, all[n]);
    assert forall|i: int| 0 <= i < e.len() implies target_key(#[trigger] e[i]) != key by {
        lemma_detach_first_irreflexive(key);
        if i < p {
            assert(detach_first(target_key(e[i]), key));
        } else if i == p {
            assert(detach_first(key, target_key(e[p])));
        } else {
            assert(detach_first(target_key(e[p]), target_key(e[i])));
            lemma_detach_first_transitive(key, target_key(e[p]), target_key(e[i]));
            lemma_detach_first_irreflexive(key);
        }
    }
    assert(first_of_its_path(all, n)) by {
        assert forall|m: int| 0 <= m < n implies target_key(#[trigger] all[m]) != key by {
            assert(path_placed(e, all, m));
            reveal(path_placed);
            let i = choose|i: int| #![trigger e[i]] 0 <= i < e.len() && target_key(e[i]) == target_key(all[m]);
        }
    }
    assert forall|i: int, j: int| 0 <= i < j < e1.len() implies detach_first(
        target_key(#[trigger] e1[i]),
        target_key(#[trigger] e1[j]),
    ) by {
        if j < p {
            assert(e1[i] == e[i] && e1[j] == e[j]);
        } else if j == p {
            assert(e1[i] == e[i]);
        } else if i < p {
            assert(e1[i] == e[i] && e1[j] == e[j - 1]);
        } else if i == p {
            assert(e1[j] == e[j - 1]);
            if j - 1 > p {
                assert(detach_first(target_key(e[p]), target_key(e[j - 1])));
                lemma_detach_first_transitive(key, target_key(e[p]), target_key(e[j - 1]));
            }
        } else {
            assert(e1[i] == e[i - 1] && e1[j] == e[j - 1]);
        }
    }
    assert forall|i: int| 0 <= i < e1.len() implies #[trigger] came_from(e1, all, n + 1, i) by {
        reveal(came_from);
        if i == p {
            assert(e1[i] == all[n]);
        } else {
            let j = if i < p {
                i
            } else {
                i - 1
            };
            assert(e1[i] == e[j]);
            assert(came_from(e, all, n, j));
            let k = choose|k: int| #![trigger all[k]] 0 <= k < n && first_of_its_path(all, k) && e[j] == all[k];
        }
    }
    assert forall|k: int| 0 <= k < n + 1 && first_of_its_path(all, k) implies #[trigger] placed(
        e1,
        all,
        k,
    ) by {
        reveal(placed);
        if k == n {
            assert(e1[p] == all[k]);
        } else {
            assert(placed(e, all, k));
            let i = choose|i: int| #![trigger e[i]] 0 <= i < e.len() && e[i] == all[k];
            if i < p {
                assert(e1[i] == all[k]);
            } else {
                assert(e1[i + 1] == all[k]);
            }
        }
    }
    assert forall|k: int| 0 <= k < n + 1 implies #[trigger] path_placed(e1, all, k) by {
        reveal(path_placed);
        if k == n {
            assert(target_key(e1[p]) == target_key(all[k]));
        } else {
            assert(path_placed(e, all, k));
            let i = choose|i: int| #![trigger e[i]] 0 <= i < e.len() && target_key(e[i]) == target_key(all[k]);
            if i < p {
                assert(e1[i] == e[i]);
            } else {
                assert(e1[i + 1] == e[i]);
            }
        }
    }
}

/// The placed targets, each with the components of its path.
spec fn keyed(out: Seq<(Vec<Component>, PersistedMountTarget)>) -> bool {
    forall|i: int| 0 <= i < out.len() ==> #[trigger] keys_view(out)[i] == target_key(entry_targets(out)[i])
}

fn place_target(
    out: &mut Vec<(Vec<Component>, PersistedMountTarget)>,
    t: PersistedMountTarget,
    all: Ghost<Seq<TargetView>>,
    n: Ghost<int>,
)
    requires
        keyed(old(out)@),
        placed_wf(entry_targets(old(out)@), all@, n@),
        n@ < all@.len(),
        t@ == all@[n@],
    ensures
        keyed(final(out)@),
        placed_wf(entry_targets(final(out)@), all@, n@ + 1),
{
    let c = path_components_exec(t.target.as_str());
    let ghost o0 = out@;
    let ghost e0 = entry_targets(o0);
    let ghost key = components_view(c@);
    assert(key == target_key(all@[n@])) by {
        reveal(target_key);
    }
    let mut p: usize = 0;
    while p < out.len() && detach_first_exec(&out[p].0, &c)
        invariant
            out@ == o0,
            keyed(o0),
            e0 == entry_targets(o0),
            key == components_view(c@),
            p <= o0.len(),
            forall|i: int| 0 <= i < p ==> detach_first(target_key(#[trigger] e0[i]), key),
        decreases out.len() - p,
    {
        assert(keys_view(o0)[p as int] == components_view(out@[p as int].0@));
        assert(keys_view(o0)[p as int] == target_key(e0[p as int]));
        p += 1;
    }
    if p < out.len() && components_eq(&out[p].0, &c) {
        proof {
            assert(keys_view(o0)[p as int] == components_view(out@[p as int].0@));
            assert(keys_view(o0)[p as int] == target_key(e0[p as int]));
            lemma_placed_skip(e0, all@, n@, p as int);
        }
        return;
    }
    proof {
        if p < o0.len() {
            assert(keys_view(o0)[p as int] == components_view(out@[p as int].0@));
            assert(keys_view(o0)[p as int] == target_key(e0[p as int]));
            lemma_detach_first_total(target_key(e0[p as int]), key);
        }
        lemma_placed_insert(e0, all@, n@, p as int);
    }
    out.insert(p, (c, t));
    proof {
        let o1 = out@;
        assert(entry_targets(o1) =~= e0.insert(p as int, all@[n@]));
        assert(keys_view(o1) =~= keys_view(o0).insert(p as int, key));
        assert forall|i: int| 0 <= i < o1.len() implies #[trigger] keys_view(o1)[i] == target_key(
            entry_targets(o1)[i],
        ) by {
            if i < p {
                assert(keys_view(o1)[i] == keys_view(o0)[i]);
            } else if i > p {
                assert(keys_view(o1)[i] == keys_view(o0)[i - 1]);
            }
        }
    }
}

/// The recorded targets as values: bind mounts, then tmpfs mounts.
fn recorded_target_list(binds: &[(String, String)], tmpfs: &[String]) -> (r: Vec<
    PersistedMountTarget,
>)
    ensures
        targets_view(r@) == recorded_targets(binds@, tmpfs@),
{
    let mut r: Vec<PersistedMountTarget> = Vec::new();
    let ghost bv = binds@.map_values(
        |b: (String, String)| TargetView { target: b.0@, source: Some(b.1@), tmpfs: false },
    );
    let ghost tv = tmpfs@.map_values(|t: String| TargetView { target: t@, source: None, tmpfs: true });
    let mut i: usize = 0;
    while i < binds.len()
        invariant
            i <= binds@.len(),
            bv == binds@.map_values(
                |b: (String, String)| TargetView { target: b.0@, source: Some(b.1@), tmpfs: false },
            ),
            targets_view(r@) == bv.take(i as int),
        decreases binds.len() - i,
    {
        let ghost r0 = targets_view(r@);
        r.push(
            PersistedMountTarget {
                target: String::from_str(binds[i].0.as_str()),
                source: Some(String::from_str(binds[i].1.as_str())),
                tmpfs: false,
            },
        );
        assert(targets_view(r@) =~= r0.push(bv[i as int]));
        assert(bv.take(i + 1) =~= bv.take(i as int).push(bv[i as int]));
        i += 1;
    }
    assert(bv.take(binds@.len() as int) =~= bv);
    let mut j: usize = 0;
    while j < tmpfs.len()
        invariant
            j <= tmpfs@.len(),
            tv == tmpfs@.map_values(|t: String| TargetView { target: t@, source: None, tmpfs: true }),
            targets_view(r@) == bv + tv.take(j as int),
        decreases tmpfs.len() - j,
    {
        let ghost r0 = targets_view(r@);
        r.push(PersistedMountTarget { target: String::from_str(tmpfs[j].as_str()), source: None, tmpfs: true });
        assert(targets_view(r@) =~= r0.push(tv[j as int]));
        assert(bv + tv.take(j + 1) =~= (bv + tv.take(j as int)).push(tv[j as int]));
        j += 1;
    }
    assert(tv.take(tmpfs@.len() as int) =~= tv);
    r
}

/// `t` is the first record of its path in `all`.
pub open spec fn is_first_record(t: TargetView, all: Seq<TargetView>) -> bool {
    exists|k: int| #![trigger all[k]] 0 <= k < all.len() && first_of_its_path(all, k) && t == all[k]
}

/// Every target in `r` is the first record of its path in `all`.
pub open spec fn only_first_records(r: Seq<TargetView>, all: Seq<TargetView>) -> bool {
    forall|i: int| 0 <= i < r.len() ==> #[trigger] is_first_record(r[i], all)
}

/// The first record of every path in `all` is in `r`.
pub open spec fn every_first_record(r: Seq<TargetView>, all: Seq<TargetView>) -> bool {
    forall|k: int| 0 <= k < all.len() && first_of_its_path(all, k) ==> r.contains(#[trigger] all[k])
}

/// The order in which a stopped container's recorded mounts are detached:
/// each recorded path once, with the first record of it (bind mounts are
/// recorded before tmpfs mounts), nested paths before the paths that
/// contain them (more components first), and among paths with as many
/// components the greater first.
pub fn persisted_mount_detach_order(binds: &[(String, String)], tmpfs: &[String]) -> (r: Vec<
    PersistedMountTarget,
>)
    ensures
        detach_ordered(targets_view(r@)),
        only_first_records(targets_view(r@), recorded_targets(binds@, tmpfs@)),
        every_first_record(targets_view(r@), recorded_targets(binds@, tmpfs@)),
{
    let items = recorded_target_list(binds, tmpfs);
    let ghost all = targets_view(items@);
    let mut out: Vec<(Vec<Component>, PersistedMountTarget)> = Vec::new();
    assert(entry_targets(out@) =~= Seq::<TargetView>::empty());
    let mut i: usize = 0;
    while i < items.len()
        invariant
            i <= items@.len(),
            all == targets_view(items@),
            keyed(out@),
            placed_wf(entry_targets(out@), all, i as int),
        decreases items.len() - i,
    {
        let t = PersistedMountTarget {
            target: String::from_str(items[i].target.as_str()),
            source: match &items[i].source {
                Some(s) => Some(String::from_str(s.as_str())),
                None => None,
            },
            tmpfs: items[i].tmpfs,
        };
        assert(t@ == all[i as int]);
        place_target(&mut out, t, Ghost(all), Ghost(i as int));
        i += 1;
    }
    let ghost fin = entry_targets(out@);
    let mut r: Vec<PersistedMountTarget> = Vec::new();
    let mut k: usize = 0;
    while k < out.len()
        invariant
            fin == entry_targets(out@),
            k <= out@.len(),
            targets_view(r@) == fin.take(k as int),
        decreases out.len() - k,
    {
        let e = &out[k];
        let t = PersistedMountTarget {
            target: String::from_str(e.1.target.as_str()),
            source: match &e.1.source {
                Some(s) => Some(String::from_str(s.as_str())),
                None => None,
            },
            tmpfs: e.1.tmpfs,
        };
        let ghost r0 = targets_view(r@);
        r.push(t);
        assert(targets_view(r@) =~= r0.push(fin[k as int]));
        assert(fin.take(k + 1) =~= fin.take(k as int).push(fin[k as int]));
        k += 1;
    }
    assert(fin.take(fin.len() as int) =~= fin);
    assert(targets_view(r@) == fin);
    proof {
        let rv = targets_view(r@);
        assert(all.len() == items@.len());
        assert forall|i: int| 0 <= i < rv.len() implies #[trigger] is_first_record(rv[i], all) by {
            assert(came_from(fin, all, all.len() as int, i));
            reveal(came_from);
        }
        assert forall|k: int| 0 <= k < all.len() && first_of_its_path(all, k) implies rv.contains(
            #[trigger] all[k],
        ) by {
            assert(placed(fin, all, k));
            reveal(placed);
            let i = choose|i: int| #![trigger fin[i]] 0 <= i < fin.len() && fin[i] == all[k];
            assert(rv[i] == all[k]);
        }
    }
    r
}

/// A recorded target is detached only where a mount of its own sits: one
/// that the mount table knows, and that is not the container root's mount.
pub open spec fn has_own_mount(mount_id: Option<u64>, root_mount_id: Option<u64>) -> bool {
    mount_id is Some && mount_id != root_mount_id
}

pub fn target_has_own_mount(mount_id: Option<u64>, root_mount_id: Option<u64>) -> (r: bool)
    ensures
        r == has_own_mount(mount_id, root_mount_id),
{
    match mount_id {
        Some(id) => match root_mount_id {
            Some(root) => id != root,
            None => true,
        },
        None => false,
    }
}

pub open spec fn mount_check_error(text: Seq<char>) -> crate::error::ErrorView {
    crate::error::ErrorView::InvalidState(text)
}

/// What must hold before a recorded mount is detached: a tmpfs target must
/// still be a tmpfs mount (`kind` is the type that the mount table shows,
/// `None` when it shows no mount there); a bind target must still be the
/// object (`observed`) that its source is (`source`).
pub open spec fn detach_check(
    target: TargetView,
    kind: Option<Seq<char>>,
    observed: (u64, u64),
    source: Option<(u64, u64)>,
) -> Result<(), crate::error::ErrorView> {
    if target.tmpfs {
        match kind {
            None => Err(mount_check_error("persisted tmpfs mount disappeared"@)),
            Some(k) => if k == "tmpfs"@ {
                Ok(())
            } else {
                Err(mount_check_error("refusing to detach non-tmpfs mount at "@ + target.target))
            },
        }
    } else {
        match source {
            Some(s) => if observed == s {
                Ok(())
            } else {
                Err(mount_check_error("persisted bind mount identity changed at "@ + target.target))
            },
            None => Ok(()),
        }
    }
}

pub fn check_persisted_mount(
    target: &PersistedMountTarget,
    kind: Option<&str>,
    observed: (u64, u64),
    source: Option<(u64, u64)>,
) -> (r: Result<(), crate::error::RuntimeError>)
    ensures
        match r {
            Ok(()) => detach_check(
                target@,
                match kind {
                    Some(k) => Some(k@),
                    None => None,
                },
                observed,
                source,
            ) is Ok,
            Err(e) => detach_check(
                target@,
                match kind {
                    Some(k) => Some(k@),
                    None => None,
                },
                observed,
                source,
            ) == Err::<(), crate::error::ErrorView>(e@),
        },
{
    if target.tmpfs {
        match kind {
            None => Err(
                crate::error::RuntimeError::InvalidState(
                    String::from_str("persisted tmpfs mount disappeared"),
                ),
            ),
            Some(k) => if crate::text::str_eq(k, "tmpfs") {
                proof {
                    reveal_strlit("tmpfs");
                }
                Ok(())
            } else {
                proof {
                    reveal_strlit("tmpfs");
                }
                Err(
                    crate::error::RuntimeError::InvalidState(
                        crate::text::concat(
                            "refusing to detach non-tmpfs mount at ",
                            target.target.as_str(),
                        ),
                    ),
                )
            },
        }
    } else {
        match source {
            Some(s) => if observed.0 == s.0 && observed.1 == s.1 {
                Ok(())
            } else {
                Err(
                    crate::error::RuntimeError::InvalidState(
                        crate::text::concat(
                            "persisted bind mount identity changed at ",
                            target.target.as_str(),
                        ),
                    ),
                )
            },
            None => Ok(()),
        }
    }
}

/// A read-only rootfs is detached only where it is a mount of its own:
/// both the rootfs and its container directory have known mounts, and they
/// differ.
pub fn readonly_rootfs_detachable(root_mount_id: Option<u64>, parent_mount_id: Option<u64>) -> (r:
    bool)
    ensures
        r == (root_mount_id is Some && parent_mount_id is Some && parent_mount_id != root_mount_id),
{
    match (root_mount_id, parent_mount_id) {
        (Some(root), Some(parent)) => parent != root,
        _ => false,
    }
}

} // verus!
