//! The shared hosts file of running containers: every address of a running
//! or paused container, with the container's id and name, sorted as a
//! sorted map of sorted sets would give them.

use crate::network::{entries_view, hosts_file, render_hosts};
use crate::records::{opt_str, ContainerRecord};
use crate::text::{chars_of, str_eq, strs_of};
use vstd::prelude::*;
use vstd::string::StringExecFns;

verus! {

/// `<` on strings as `Ord for str` orders them: character by character by
/// code point (the order of their UTF-8 bytes), a proper prefix first.
pub open spec fn text_lt(a: Seq<char>, b: Seq<char>) -> bool
    decreases a.len(),
{
    if b.len() == 0 {
        false
    } else if a.len() == 0 {
        true
    } else if a[0] != b[0] {
        a[0] < b[0]
    } else {
        text_lt(a.drop_first(), b.drop_first())
    }
}

pub proof fn lemma_text_lt_irreflexive(a: Seq<char>)
    ensures
        !text_lt(a, a),
    decreases a.len(),
{
    if a.len() > 0 {
        lemma_text_lt_irreflexive(a.drop_first());
    }
}

pub proof fn lemma_text_lt_transitive(a: Seq<char>, b: Seq<char>, c: Seq<char>)
    requires
        text_lt(a, b),
        text_lt(b, c),
    ensures
        text_lt(a, c),
    decreases a.len(),
{
    if a.len() > 0 && a[0] == b[0] && b[0] == c[0] {
        lemma_text_lt_transitive(a.drop_first(), b.drop_first(), c.drop_first());
    }
}

pub proof fn lemma_text_lt_total(a: Seq<char>, b: Seq<char>)
    requires
        a != b,
    ensures
        text_lt(a, b) || text_lt(b, a),
    decreases a.len(),
{
    if a.len() == 0 {
        if b.len() == 0 {
            assert(a =~= b);
        }
    } else if b.len() > 0 && a[0] == b[0] {
        if a.drop_first() == b.drop_first() {
            assert(a =~= seq![a[0]] + a.drop_first());
            assert(b =~= seq![b[0]] + b.drop_first());
        }
        lemma_text_lt_total(a.drop_first(), b.drop_first());
    }
}

pub proof fn lemma_text_lt_asymmetric(a: Seq<char>, b: Seq<char>)
    requires
        text_lt(a, b),
    ensures
        !text_lt(b, a),
{
    if text_lt(b, a) {
        lemma_text_lt_transitive(a, b, a);
        lemma_text_lt_irreflexive(a);
    }
}

/// Whether `a` sorts before `b`.
pub fn text_less(a: &str, b: &str) -> (r: bool)
    ensures
        r == text_lt(a@, b@),
{
    let x = chars_of(a);
    let y = chars_of(b);
    let mut i: usize = 0;
    assert(x@.skip(0) =~= x@);
    assert(y@.skip(0) =~= y@);
    while i < x.len() && i < y.len() && x[i] == y[i]
        invariant
            i <= x@.len(),
            i <= y@.len(),
            text_lt(x@, y@) == text_lt(x@.skip(i as int), y@.skip(i as int)),
        decreases x.len() - i,
    {
        assert(x@.skip(i + 1) =~= x@.skip(i as int).drop_first());
        assert(y@.skip(i + 1) =~= y@.skip(i as int).drop_first());
        i += 1;
    }
    if i == y.len() {
        false
    } else if i == x.len() {
        true
    } else {
        x[i] < y[i]
    }
}

/// Texts in strictly ascending order, so also distinct.
pub open spec fn sorted_texts(s: Seq<Seq<char>>) -> bool {
    forall|i: int, j: int| 0 <= i < j < s.len() ==> text_lt(#[trigger] s[i], #[trigger] s[j])
}

/// Inserts `name` into ascending distinct names, unless it is there already.
fn insert_name(names: &mut Vec<String>, name: &str)
    requires
        sorted_texts(strs_of(old(names)@)),
    ensures
        sorted_texts(strs_of(final(names)@)),
        strs_of(final(names)@).len() > 0,
        forall|t: Seq<char>|
            #![trigger strs_of(final(names)@).contains(t)]
            strs_of(final(names)@).contains(t) <==> strs_of(old(names)@).contains(t) || t == name@,
{
    let ghost s0 = strs_of(names@);
    let mut p: usize = 0;
    while p < names.len() && text_less(names[p].as_str(), name)
        invariant
            p <= names@.len(),
            strs_of(names@) == s0,
            forall|k: int| 0 <= k < p ==> text_lt(#[trigger] s0[k], name@),
        decreases names.len() - p,
    {
        p += 1;
    }
    if p < names.len() && str_eq(names[p].as_str(), name) {
        assert(s0[p as int] == name@);
        return;
    }
    proof {
        if p < s0.len() {
            assert(!text_lt(s0[p as int], name@));
            assert(s0[p as int] != name@);
            lemma_text_lt_total(s0[p as int], name@);
        }
    }
    names.insert(p, String::from_str(name));
    let ghost s1 = strs_of(names@);
    assert(s1 =~= s0.insert(p as int, name@));
    assert forall|i: int, j: int| 0 <= i < j < s1.len() implies text_lt(
        #[trigger] s1[i],
        #[trigger] s1[j],
    ) by {
        if j < p {
        } else if j == p {
            assert(s1[i] == s0[i]);
        } else if i < p {
            assert(s1[i] == s0[i]);
            assert(s1[j] == s0[j - 1]);
        } else if i == p {
            assert(s1[j] == s0[j - 1]);
            if j - 1 > p {
                assert(text_lt(s0[p as int], s0[j - 1]));
                lemma_text_lt_transitive(name@, s0[p as int], s0[j - 1]);
            }
        } else {
            assert(s1[i] == s0[i - 1]);
            assert(s1[j] == s0[j - 1]);
        }
    }
    assert forall|t: Seq<char>| #![trigger s1.contains(t)] s1.contains(t) <==> s0.contains(t) || t
        == name@ by {
        if s1.contains(t) {
            let k = choose|k: int| 0 <= k < s1.len() && s1[k] == t;
            if k < p {
                assert(s0[k] == t);
            } else if k > p {
                assert(s0[k - 1] == t);
            }
        }
        if s0.contains(t) {
            let k = choose|k: int| 0 <= k < s0.len() && s0[k] == t;
            if k < p {
                assert(s1[k] == t);
            } else {
                assert(s1[k + 1] == t);
            }
        }
        if t == name@ {
            assert(s1[p as int] == t);
        }
    }
}

/// Hosts entries: addresses strictly ascending, each with a non-empty list
/// of strictly ascending names.
pub open spec fn hosts_entries_wf(v: Seq<(Seq<char>, Seq<Seq<char>>)>) -> bool {
    &&& forall|i: int, j: int| 0 <= i < j < v.len() ==> text_lt(#[trigger] v[i].0, #[trigger] v[j].0)
    &&& forall|i: int| 0 <= i < v.len() ==> (#[trigger] v[i]).1.len() > 0 && sorted_texts(v[i].1)
}

/// Whether the entries list `name` under address `ip`.
pub open spec fn lists_name(v: Seq<(Seq<char>, Seq<Seq<char>>)>, ip: Seq<char>, name: Seq<char>) -> bool {
    exists|i: int| 0 <= i < v.len() && (#[trigger] v[i]).0 == ip && v[i].1.contains(name)
}

/// Adds `name` under address `ip`.
fn add_host_name(entries: &mut Vec<(String, Vec<String>)>, ip: &str, name: &str)
    requires
        hosts_entries_wf(entries_view(old(entries)@)),
    ensures
        hosts_entries_wf(entries_view(final(entries)@)),
        forall|a: Seq<char>, n: Seq<char>|
            #![trigger lists_name(entries_view(final(entries)@), a, n)]
            lists_name(entries_view(final(entries)@), a, n) <==> lists_name(
                entries_view(old(entries)@),
                a,
                n,
            ) || (a == ip@ && n == name@),
{
    let ghost v0 = entries_view(entries@);
    let mut p: usize = 0;
    while p < entries.len() && text_less(entries[p].0.as_str(), ip)
        invariant
            p <= entries@.len(),
            entries_view(entries@) == v0,
            forall|k: int| 0 <= k < p ==> text_lt(#[trigger] v0[k].0, ip@),
        decreases entries.len() - p,
    {
        assert(v0[p as int].0 == entries@[p as int].0@);
        p += 1;
    }
    if p < entries.len() && str_eq(entries[p].0.as_str(), ip) {
        assert(v0[p as int].0 == ip@);
        let (eip, mut enames) = entries.remove(p);
        assert(strs_of(enames@) == v0[p as int].1);
        insert_name(&mut enames, name);
        let ghost e1 = (eip@, strs_of(enames@));
        entries.insert(p, (eip, enames));
        let ghost v1 = entries_view(entries@);
        assert(v1 =~= v0.update(p as int, e1));
        assert forall|i: int, j: int| 0 <= i < j < v1.len() implies text_lt(
            #[trigger] v1[i].0,
            #[trigger] v1[j].0,
        ) by {
            assert(v1[i].0 == v0[i].0);
            assert(v1[j].0 == v0[j].0);
        }
        assert forall|a: Seq<char>, n: Seq<char>| #![trigger lists_name(v1, a, n)] lists_name(
            v1,
            a,
            n,
        ) <==> lists_name(v0, a, n) || (a == ip@ && n == name@) by {
            if lists_name(v1, a, n) {
                let i = choose|i: int| 0 <= i < v1.len() && (#[trigger] v1[i]).0 == a && v1[i].1.contains(n);
                if i != p {
                    assert(v0[i] == v1[i]);
                } else {
                    assert(e1.1.contains(n));
                    if !(a == ip@ && n == name@) {
                        assert(v0[p as int].1.contains(n));
                    }
                }
            }
            if lists_name(v0, a, n) {
                let i = choose|i: int| 0 <= i < v0.len() && (#[trigger] v0[i]).0 == a && v0[i].1.contains(n);
                if i != p {
                    assert(v1[i] == v0[i]);
                } else {
                    assert(v0[p as int].1.contains(n));
                    assert(e1.1.contains(n));
                    assert(v1[p as int] == e1);
                }
            }
            if a == ip@ && n == name@ {
                assert(e1.1.contains(n));
                assert(v1[p as int] == e1);
            }
        }
    } else {
        proof {
            if p < v0.len() {
                assert(v0[p as int].0 == entries@[p as int].0@);
                assert(!text_lt(v0[p as int].0, ip@));
                assert(v0[p as int].0 != ip@);
                lemma_text_lt_total(v0[p as int].0, ip@);
            }
        }
        let names = vec![String::from_str(name)];
        let ghost e1 = (ip@, strs_of(names@));
        assert(strs_of(names@) =~= seq![name@]);
        entries.insert(p, (String::from_str(ip), names));
        let ghost v1 = entries_view(entries@);
        assert(v1 =~= v0.insert(p as int, e1));
        assert forall|i: int, j: int| 0 <= i < j < v1.len() implies text_lt(
            #[trigger] v1[i].0,
            #[trigger] v1[j].0,
        ) by {
            if j < p {
            } else if j == p {
                assert(v1[i] == v0[i]);
            } else if i < p {
                assert(v1[i] == v0[i]);
                assert(v1[j] == v0[j - 1]);
            } else if i == p {
                assert(v1[j] == v0[j - 1]);
                if j - 1 > p {
                    assert(text_lt(v0[p as int].0, v0[j - 1].0));
                    lemma_text_lt_transitive(ip@, v0[p as int].0, v0[j - 1].0);
                }
            } else {
                assert(v1[i] == v0[i - 1]);
                assert(v1[j] == v0[j - 1]);
            }
        }
        assert forall|i: int| 0 <= i < v1.len() implies (#[trigger] v1[i]).1.len() > 0
            && sorted_texts(v1[i].1) by {
            if i < p {
                assert(v1[i] == v0[i]);
            } else if i > p {
                assert(v1[i] == v0[i - 1]);
            }
        }
        assert forall|a: Seq<char>, n: Seq<char>| #![trigger lists_name(v1, a, n)] lists_name(
            v1,
            a,
            n,
        ) <==> lists_name(v0, a, n) || (a == ip@ && n == name@) by {
            if lists_name(v1, a, n) {
                let i = choose|i: int| 0 <= i < v1.len() && (#[trigger] v1[i]).0 == a && v1[i].1.contains(n);
                if i < p {
                    assert(v0[i] == v1[i]);
                } else if i > p {
                    assert(v0[i - 1] == v1[i]);
                } else {
                    assert(e1.1[0] == name@);
                }
            }
            if lists_name(v0, a, n) {
                let i = choose|i: int| 0 <= i < v0.len() && (#[trigger] v0[i]).0 == a && v0[i].1.contains(n);
                if i < p {
                    assert(v1[i] == v0[i]);
                } else {
                    assert(v1[i + 1] == v0[i]);
                }
            }
            if a == ip@ && n == name@ {
                assert(e1.1[0] == name@);
                assert(v1[p as int] == e1);
            }
        }
    }
}

/// Containers that are running or paused are listed.
pub open spec fn listed_in_hosts(r: ContainerRecord) -> bool {
    r.status@ == "running"@ || r.status@ == "paused"@
}

/// Whether a container lists `name` under address `ip`: one of its
/// addresses, with its id or its name.
pub open spec fn record_lists(r: ContainerRecord, ip: Seq<char>, name: Seq<char>) -> bool {
    &&& listed_in_hosts(r)
    &&& opt_str(r.ip_address) == Some(ip) || opt_str(r.ipv6_address) == Some(ip)
    &&& name == r.id@ || opt_str(r.name) == Some(name)
}

pub open spec fn containers_list(records: Seq<ContainerRecord>, ip: Seq<char>, name: Seq<char>) -> bool {
    exists|k: int| 0 <= k < records.len() && record_lists(#[trigger] records[k], ip, name)
}

fn is_listed(r: &ContainerRecord) -> (b: bool)
    ensures
        b == listed_in_hosts(*r),
{
    str_eq(r.status.as_str(), "running") || str_eq(r.status.as_str(), "paused")
}

/// Adds one address of a container with its id and name.
fn add_record_address(
    entries: &mut Vec<(String, Vec<String>)>,
    ip: &str,
    r: &ContainerRecord,
)
    requires
        hosts_entries_wf(entries_view(old(entries)@)),
    ensures
        hosts_entries_wf(entries_view(final(entries)@)),
        forall|a: Seq<char>, n: Seq<char>|
            #![trigger lists_name(entries_view(final(entries)@), a, n)]
            lists_name(entries_view(final(entries)@), a, n) <==> lists_name(
                entries_view(old(entries)@),
                a,
                n,
            ) || (a == ip@ && (n == r.id@ || opt_str(r.name) == Some(n))),
{
    let ghost v0 = entries_view(entries@);
    add_host_name(entries, ip, r.id.as_str());
    let ghost v1 = entries_view(entries@);
    match &r.name {
        Some(name) => {
            add_host_name(entries, ip, name.as_str());
            let ghost v2 = entries_view(entries@);
            assert forall|a: Seq<char>, n: Seq<char>| #![trigger lists_name(v2, a, n)] lists_name(
                v2,
                a,
                n,
            ) <==> lists_name(v0, a, n) || (a == ip@ && (n == r.id@ || opt_str(r.name) == Some(
                n,
            ))) by {
                assert(lists_name(v2, a, n) <==> lists_name(v1, a, n) || (a == ip@ && n
                    == name@));
                assert(lists_name(v1, a, n) <==> lists_name(v0, a, n) || (a == ip@ && n
                    == r.id@));
            }
        },
        None => {
            assert forall|a: Seq<char>, n: Seq<char>| #![trigger lists_name(v1, a, n)] lists_name(
                v1,
                a,
                n,
            ) <==> lists_name(v0, a, n) || (a == ip@ && (n == r.id@ || opt_str(r.name) == Some(
                n,
            ))) by {
                assert(lists_name(v1, a, n) <==> lists_name(v0, a, n) || (a == ip@ && n
                    == r.id@));
            }
        },
    }
}

/// The entries of the hosts file shared by the containers: every address of
/// a running or paused container, with the ids and names of the containers
/// that have it, addresses and names each in ascending order.
pub fn container_hosts_entries(containers: &[ContainerRecord]) -> (r: Vec<(String, Vec<String>)>)
    ensures
        hosts_entries_wf(entries_view(r@)),
        forall|a: Seq<char>, n: Seq<char>|
            #![trigger lists_name(entries_view(r@), a, n)]
            lists_name(entries_view(r@), a, n) <==> containers_list(containers@, a, n),
{
    let mut entries: Vec<(String, Vec<String>)> = Vec::new();
    let mut k: usize = 0;
    assert(entries_view(entries@) =~= Seq::<(Seq<char>, Seq<Seq<char>>)>::empty());
    while k < containers.len()
        invariant
            k <= containers@.len(),
            hosts_entries_wf(entries_view(entries@)),
            forall|a: Seq<char>, n: Seq<char>|
                #![trigger lists_name(entries_view(entries@), a, n)]
                lists_name(entries_view(entries@), a, n) <==> containers_list(
                    containers@.take(k as int),
                    a,
                    n,
                ),
        decreases containers.len() - k,
    {
        let r = &containers[k];
        let ghost v0 = entries_view(entries@);
        let ghost before = containers@.take(k as int);
        let ghost after = containers@.take(k + 1);
        assert(after =~= before.push(*r));
        assert forall|a: Seq<char>, n: Seq<char>| #![trigger containers_list(after, a, n)] containers_list(
            after,
            a,
            n,
        ) <==> containers_list(before, a, n) || record_lists(*r, a, n) by {
            if containers_list(after, a, n) {
                let i = choose|i: int| 0 <= i < after.len() && record_lists(#[trigger] after[i], a, n);
                if i < k {
                    assert(before[i] == after[i]);
                }
            }
            if containers_list(before, a, n) {
                let i = choose|i: int| 0 <= i < before.len() && record_lists(#[trigger] before[i], a, n);
                assert(after[i] == before[i]);
            }
            if record_lists(*r, a, n) {
                assert(after[k as int] == *r);
            }
        }
        if is_listed(r) {
            match &r.ip_address {
                Some(ip) => {
                    add_record_address(&mut entries, ip.as_str(), r);
                },
                None => {},
            }
            let ghost v1 = entries_view(entries@);
            match &r.ipv6_address {
                Some(ip) => {
                    add_record_address(&mut entries, ip.as_str(), r);
                },
                None => {},
            }
            let ghost v2 = entries_view(entries@);
            assert forall|a: Seq<char>, n: Seq<char>| #![trigger lists_name(v2, a, n)] lists_name(
                v2,
                a,
                n,
            ) <==> containers_list(after, a, n) by {
                assert(containers_list(after, a, n) <==> containers_list(before, a, n)
                    || record_lists(*r, a, n));
                assert(lists_name(v0, a, n) <==> containers_list(before, a, n));
            }
        } else {
            assert forall|a: Seq<char>, n: Seq<char>| #![trigger lists_name(v0, a, n)] lists_name(
                v0,
                a,
                n,
            ) <==> containers_list(after, a, n) by {
                assert(containers_list(after, a, n) <==> containers_list(before, a, n)
                    || record_lists(*r, a, n));
            }
        }
        k += 1;
    }
    assert(containers@.take(containers@.len() as int) =~= containers@);
    entries
}

/// The hosts file shared by the containers, or `None` when no running or
/// paused container has an address (then no file is written).
pub fn container_hosts_body(containers: &[ContainerRecord]) -> (r: Option<String>)
    ensures
        r is None <==> forall|a: Seq<char>, n: Seq<char>| !containers_list(containers@, a, n),
        r matches Some(body) ==> exists|v: Seq<(Seq<char>, Seq<Seq<char>>)>|
            {
                &&& hosts_entries_wf(v)
                &&& forall|a: Seq<char>, n: Seq<char>|
                    lists_name(v, a, n) <==> containers_list(containers@, a, n)
                &&& body@ == hosts_file(v)
            },
{
    let entries = container_hosts_entries(containers);
    let ghost v = entries_view(entries@);
    if entries.len() == 0 {
        assert forall|a: Seq<char>, n: Seq<char>| !containers_list(containers@, a, n) by {
            assert(!lists_name(v, a, n));
        }
        return None;
    }
    proof {
        let e = v[0];
        assert(e.1.len() > 0);
        assert(lists_name(v, e.0, e.1[0]));
        assert(containers_list(containers@, e.0, e.1[0]));
    }
    let body = render_hosts(entries.as_slice());
    assert(hosts_entries_wf(v) && body@ == hosts_file(v));
    Some(body)
}

/// The containers whose `/etc/hosts` and `/etc/resolv.conf` are rewritten:
/// running or paused ones with an address, in the given order.
pub open spec fn hosts_file_targets_of(records: Seq<ContainerRecord>) -> Seq<Seq<char>>
    decreases records.len(),
{
    if records.len() == 0 {
        Seq::empty()
    } else {
        let r = records.last();
        let rest = hosts_file_targets_of(records.drop_last());
        if listed_in_hosts(r) && (r.ip_address is Some || r.ipv6_address is Some) {
            rest.push(r.id@)
        } else {
            rest
        }
    }
}

pub fn hosts_file_targets(containers: &[ContainerRecord]) -> (r: Vec<String>)
    ensures
        strs_of(r@) == hosts_file_targets_of(containers@),
{
    let mut r: Vec<String> = Vec::new();
    let mut k: usize = 0;
    while k < containers.len()
        invariant
            k <= containers@.len(),
            strs_of(r@) == hosts_file_targets_of(containers@.take(k as int)),
        decreases containers.len() - k,
    {
        let c = &containers[k];
        assert(containers@.take(k + 1).drop_last() =~= containers@.take(k as int));
        if is_listed(c) && (c.ip_address.is_some() || c.ipv6_address.is_some()) {
            let ghost r0 = strs_of(r@);
            r.push(String::from_str(c.id.as_str()));
            assert(strs_of(r@) =~= r0.push(c.id@));
        }
        k += 1;
    }
    assert(containers@.take(containers@.len() as int) =~= containers@);
    r
}

/// A container's file under its rootfs `etc` directory:
/// `<runtime_dir>/containers/<id>/rootfs/etc/<file>`.
pub open spec fn container_etc_file(runtime_dir: Seq<char>, id: Seq<char>, file: Seq<char>) -> Seq<
    char,
> {
    crate::text::path_join(
        crate::text::path_join(
            crate::text::path_join(
                crate::text::path_join(crate::text::path_join(runtime_dir, "containers"@), id),
                "rootfs"@,
            ),
            "etc"@,
        ),
        file,
    )
}

pub fn container_etc_path(runtime_dir: &str, id: &str, file: &str) -> (r: String)
    ensures
        r@ == container_etc_file(runtime_dir@, id@, file@),
{
    let a = crate::text::path_join_str(runtime_dir, "containers");
    let b = crate::text::path_join_str(a.as_str(), id);
    let c = crate::text::path_join_str(b.as_str(), "rootfs");
    let d = crate::text::path_join_str(c.as_str(), "etc");
    crate::text::path_join_str(d.as_str(), file)
}

/// Ascending distinct texts are determined by which texts they hold.
pub proof fn lemma_sorted_texts_unique(s: Seq<Seq<char>>, t: Seq<Seq<char>>)
    requires
        sorted_texts(s),
        sorted_texts(t),
        forall|x: Seq<char>|
            #![trigger s.contains(x)]
            #![trigger t.contains(x)]
            s.contains(x) <==> t.contains(x),
    ensures
        s == t,
    decreases s.len(),
{
    if s.len() == 0 {
        if t.len() > 0 {
            assert(t.contains(t[0]));
            assert(s.contains(t[0]));
        }
        assert(s =~= t);
    } else {
        assert(s.contains(s[0]));
        assert(t.contains(s[0]));
        let j = choose|j: int| 0 <= j < t.len() && t[j] == s[0];
        assert(t.contains(t[0]));
        assert(s.contains(t[0]));
        let k = choose|k: int| 0 <= k < s.len() && s[k] == t[0];
        if j > 0 {
            assert(text_lt(t[0], t[j]));
            if k > 0 {
                assert(text_lt(s[0], s[k]));
                lemma_text_lt_asymmetric(t[0], s[0]);
            } else {
                lemma_text_lt_irreflexive(t[0]);
            }
        }
        assert(t[0] == s[0]);
        let s1 = s.drop_first();
        let t1 = t.drop_first();
        assert forall|x: Seq<char>| #![trigger s1.contains(x)] #![trigger t1.contains(x)] s1.contains(x)
            <==> t1.contains(x) by {
            if s1.contains(x) {
                let a = choose|a: int| 0 <= a < s1.len() && s1[a] == x;
                assert(s[a + 1] == x);
                assert(text_lt(s[0], s[a + 1]));
                assert(t.contains(x));
                let b = choose|b: int| 0 <= b < t.len() && t[b] == x;
                if b == 0 {
                    lemma_text_lt_irreflexive(x);
                }
                assert(t1[b - 1] == x);
            }
            if t1.contains(x) {
                let a = choose|a: int| 0 <= a < t1.len() && t1[a] == x;
                assert(t[a + 1] == x);
                assert(text_lt(t[0], t[a + 1]));
                assert(s.contains(x));
                let b = choose|b: int| 0 <= b < s.len() && s[b] == x;
                if b == 0 {
                    lemma_text_lt_irreflexive(x);
                }
                assert(s1[b - 1] == x);
            }
        }
        lemma_sorted_texts_unique(s1, t1);
        assert(s =~= seq![s[0]] + s1);
        assert(t =~= seq![t[0]] + t1);
    }
}

/// Hosts entries are determined by the names they list under each address.
pub proof fn lemma_hosts_entries_unique(
    v: Seq<(Seq<char>, Seq<Seq<char>>)>,
    w: Seq<(Seq<char>, Seq<Seq<char>>)>,
)
    requires
        hosts_entries_wf(v),
        hosts_entries_wf(w),
        forall|a: Seq<char>, n: Seq<char>| lists_name(v, a, n) <==> lists_name(w, a, n),
    ensures
        v == w,
{
    let va = v.map_values(|e: (Seq<char>, Seq<Seq<char>>)| e.0);
    let wa = w.map_values(|e: (Seq<char>, Seq<Seq<char>>)| e.0);
    assert(sorted_texts(va)) by {
        assert forall|i: int, j: int| 0 <= i < j < va.len() implies text_lt(
            #[trigger] va[i],
            #[trigger] va[j],
        ) by {
            assert(text_lt(v[i].0, v[j].0));
        }
    }
    assert(sorted_texts(wa)) by {
        assert forall|i: int, j: int| 0 <= i < j < wa.len() implies text_lt(
            #[trigger] wa[i],
            #[trigger] wa[j],
        ) by {
            assert(text_lt(w[i].0, w[j].0));
        }
    }
    assert forall|x: Seq<char>| #![trigger va.contains(x)] #![trigger wa.contains(x)] va.contains(x)
        <==> wa.contains(x) by {
        if va.contains(x) {
            let i = choose|i: int| 0 <= i < va.len() && va[i] == x;
            assert(v[i].1.len() > 0);
            assert(v[i].1.contains(v[i].1[0]));
            assert(lists_name(v, x, v[i].1[0]));
            assert(lists_name(w, x, v[i].1[0]));
            let j = choose|j: int| 0 <= j < w.len() && (#[trigger] w[j]).0 == x && w[j].1.contains(
                v[i].1[0],
            );
            assert(wa[j] == x);
        }
        if wa.contains(x) {
            let i = choose|i: int| 0 <= i < wa.len() && wa[i] == x;
            assert(w[i].1.len() > 0);
            assert(w[i].1.contains(w[i].1[0]));
            assert(lists_name(w, x, w[i].1[0]));
            assert(lists_name(v, x, w[i].1[0]));
            let j = choose|j: int| 0 <= j < v.len() && (#[trigger] v[j]).0 == x && v[j].1.contains(
                w[i].1[0],
            );
            assert(va[j] == x);
        }
    }
    lemma_sorted_texts_unique(va, wa);
    assert(v.len() == w.len()) by {
        assert(va.len() == wa.len());
    }
    assert forall|i: int| 0 <= i < v.len() implies v[i] == w[i] by {
        assert(va[i] == wa[i]);
        let a = v[i].0;
        assert(w[i].0 == a);
        assert forall|n: Seq<char>| #![trigger v[i].1.contains(n)] #![trigger w[i].1.contains(n)] v[i].1.contains(n)
            <==> w[i].1.contains(n) by {
            if v[i].1.contains(n) {
                assert(lists_name(v, a, n));
                assert(lists_name(w, a, n));
                let j = choose|j: int| 0 <= j < w.len() && (#[trigger] w[j]).0 == a && w[j].1.contains(n);
                if j != i {
                    if j < i {
                        assert(text_lt(w[j].0, w[i].0));
                    } else {
                        assert(text_lt(w[i].0, w[j].0));
                    }
                    lemma_text_lt_irreflexive(a);
                }
            }
            if w[i].1.contains(n) {
                assert(lists_name(w, a, n));
                assert(lists_name(v, a, n));
                let j = choose|j: int| 0 <= j < v.len() && (#[trigger] v[j]).0 == a && v[j].1.contains(n);
                if j != i {
                    if j < i {
                        assert(text_lt(v[j].0, v[i].0));
                    } else {
                        assert(text_lt(v[i].0, v[j].0));
                    }
                    lemma_text_lt_irreflexive(a);
                }
            }
        }
        lemma_sorted_texts_unique(v[i].1, w[i].1);
    }
    assert(v =~= w);
}

} // verus!
