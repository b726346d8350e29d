//! Properties that hold across the runtime's operations, proved over the
//! same specifications that the operations' contracts use.

use crate::ebpf::{
    ebpf_ownership_fields, restart_config, shared_metadata_check, EbpfRestartView,
};
use crate::firewall_plan::FirewallPlan;
use crate::hashing::{dotted, ipv4_octets, octet};
use crate::hosts::{
    containers_list, hosts_entries_wf, lemma_hosts_entries_unique, lists_name, record_lists,
};
use crate::persisted_mounts::{detach_ordered, path_components_of, target_key, TargetView};
use crate::pin_cleanup::{pin_depth, removal_sorted};
use crate::records::PinView;
use crate::records::ContainerRecord;
use crate::records::{KernelObjectIdentityRecord, NetworkOwnershipRecord};
use crate::text::{decimal, digit_char, is_ascii_digit};
use crate::hashing::{hex_char, hex_lower, host_octet, listen_port};
use crate::host::{fixed_hex, is_hex_digit};
use crate::network::NetworkMutationKind;
use crate::paths::{container_name_error, name_char_ok};
use crate::rollback::{
    cleanup_decisions_of, decision_for, is_applied, unapplied, AppliedResource, DecisionView,
    ResourceIdentity, ResourcePlan,
};
use crate::link::{byte_hex, mac_of, mac_text, nibble_char};
use crate::link::{bandwidth_limit, bandwidth_unit, strip_suffix_all};
use crate::text::{
    is_ws, lead_ok, lemma_lead_unique, lemma_trail_unique, lower, lower_char, trail_ok, trim,
    trim_end, trim_start,
    all_digits, digit_value, digits_value, is_ascii_alnum, lemma_split_nonempty, parse_unsigned,
    split_char, unsigned_digits,
};
use crate::limits::{limit_record_of, restored_limits, ResourceLimits};
use crate::lifecycle::{health_after, HealthStatus, LifecycleOperation};
use crate::recovery::{
    is_run, pending_resolution, run_live_effects, PendingResolution, RecoveryObservation,
};
use vstd::prelude::*;

verus! {

/// Network rollback undoes the newest recorded mutation first, then every
/// earlier one in reverse order.
pub proof fn law_rollback_undoes_newest_first(done: Seq<NetworkMutationKind>, m: NetworkMutationKind)
    ensures
        done.push(m).reverse() == seq![m] + done.reverse(),
{
    assert(done.push(m).reverse() =~= seq![m] + done.reverse());
}

/// Once a plan has been marked applied, it counts as applied, so a second
/// mark of the same plan is refused.
pub proof fn law_plan_is_applied_once(
    applied: Seq<AppliedResource>,
    plan_index: usize,
    identity: ResourceIdentity,
)
    ensures
        is_applied(applied.push(AppliedResource { plan_index, identity }), plan_index as int),
{
    let a = applied.push(AppliedResource { plan_index, identity });
    assert(a[applied.len() as int].plan_index == plan_index);
}

/// Typed cleanup handles the most recently applied resource first, then the
/// rest in the order it would have used without it.
pub proof fn law_cleanup_starts_with_newest(
    plans: Seq<ResourcePlan>,
    observed: Seq<AppliedResource>,
    newest: AppliedResource,
    has_rootfs: bool,
)
    ensures
        cleanup_decisions_of(plans, observed.push(newest), has_rootfs) == seq![
            decision_for(plans, newest, has_rootfs),
        ] + cleanup_decisions_of(plans, observed, has_rootfs),
{
    assert(observed.push(newest).reverse() =~= seq![newest] + observed.reverse());
    assert(cleanup_decisions_of(plans, observed.push(newest), has_rootfs) =~= seq![
        decision_for(plans, newest, has_rootfs),
    ] + cleanup_decisions_of(plans, observed, has_rootfs));
}

proof fn lemma_unapplied_below(n: nat, applied: Seq<AppliedResource>)
    requires
        n <= usize::MAX,
    ensures
        forall|i: int| 0 <= i < unapplied(n, applied).len() ==> (#[trigger] unapplied(n, applied)[i]) < n,
    decreases n,
{
    if n > 0 {
        let rest = unapplied((n - 1) as nat, applied);
        lemma_unapplied_below((n - 1) as nat, applied);
        let full = unapplied(n, applied);
        assert forall|i: int| 0 <= i < full.len() implies (#[trigger] full[i]) < n by {
            if i < rest.len() {
                assert(full[i] == rest[i]);
            } else {
                assert(full[i] == (n - 1) as usize);
            }
        }
    }
}

/// The plans that cleanup observes before undoing anything are exactly the
/// plans that no applied resource names.
pub proof fn law_unapplied_are_exactly_the_unmarked(n: nat, applied: Seq<AppliedResource>, k: int)
    requires
        n <= usize::MAX,
        0 <= k < n,
    ensures
        unapplied(n, applied).contains(k as usize) <==> !is_applied(applied, k),
    decreases n,
{
    let rest = unapplied((n - 1) as nat, applied);
    lemma_unapplied_below((n - 1) as nat, applied);
    if k == n - 1 {
        if is_applied(applied, n - 1) {
            assert(!rest.contains(k as usize));
        } else {
            assert(rest.push((n - 1) as usize)[rest.len() as int] == k as usize);
        }
    } else {
        law_unapplied_are_exactly_the_unmarked((n - 1) as nat, applied, k);
        if !is_applied(applied, n - 1) {
            let full = rest.push((n - 1) as usize);
            if rest.contains(k as usize) {
                let i = choose|i: int| 0 <= i < rest.len() && rest[i] == k as usize;
                assert(full[i] == k as usize);
            }
            if full.contains(k as usize) {
                let i = choose|i: int| 0 <= i < full.len() && full[i] == k as usize;
                assert(i < rest.len());
                assert(rest[i] == k as usize);
            }
        }
    }
}

/// An accepted container name is safe as a single path component: it holds
/// no `/` and is neither `.` nor `..`.
pub proof fn law_accepted_names_are_path_safe(name: &str)
    requires
        container_name_error(name) is None,
    ensures
        !name@.contains('/'),
        name@ != "."@,
        name@ != ".."@,
{
    if name@.contains('/') {
        let i = choose|i: int| 0 <= i < name@.len() && name@[i] == '/';
        if i == 0 {
            assert(!is_ascii_alnum(name@[0]));
        } else {
            assert(!name_char_ok(name@[i]));
        }
    }
}

/// A container's host octet on a bridge lies between 2 and 201, so it never
/// takes the network address, the gateway's usual `.1`, or the top of the range.
pub proof fn law_host_octet_in_range(container_id: Seq<char>)
    ensures
        2 <= host_octet(container_id) <= 201,
{
}

/// With no configured base, a WireGuard listen port lies in 51820..=52819.
pub proof fn law_default_listen_port_range(container_id: Seq<char>)
    ensures
        51820 <= listen_port(container_id, None) <= 52819,
{
}

proof fn lemma_hex_char(n: int)
    requires
        0 <= n < 16,
    ensures
        is_hex_digit(hex_char(n)),
        digit_value(hex_char(n)) == n,
{
}

proof fn lemma_hex_lower_shape(b: Seq<u8>)
    ensures
        hex_lower(b).len() == 2 * b.len(),
        forall|i: int|
            0 <= i < b.len() ==> hex_lower(b)[2 * i] == hex_char(#[trigger] b[i] as int / 16)
                && hex_lower(b)[2 * i + 1] == hex_char(b[i] as int % 16),
    decreases b.len(),
{
    if b.len() > 0 {
        let p = b.drop_last();
        lemma_hex_lower_shape(p);
        assert forall|i: int| 0 <= i < b.len() implies hex_lower(b)[2 * i] == hex_char(
            #[trigger] b[i] as int / 16,
        ) && hex_lower(b)[2 * i + 1] == hex_char(b[i] as int % 16) by {
            if i < p.len() {
                assert(p[i] == b[i]);
            }
        }
    }
}

/// Decoding the lowercase hexadecimal text of `n` bytes as a fixed-length
/// `n`-byte value gives the bytes back.
pub proof fn law_fixed_hex_decodes_hex_text(b: Seq<u8>)
    ensures
        fixed_hex(hex_lower(b), b.len()) == Ok::<Seq<u8>, crate::error::ErrorView>(b),
{
    let h = hex_lower(b);
    lemma_hex_lower_shape(b);
    assert forall|i: int| 0 <= i < h.len() implies is_hex_digit(#[trigger] h[i]) by {
        let j = i / 2;
        assert(0 <= j < b.len());
        if i % 2 == 0 {
            assert(i == 2 * j);
            lemma_hex_char(b[j] as int / 16);
        } else {
            assert(i == 2 * j + 1);
            lemma_hex_char(b[j] as int % 16);
        }
    }
    let d = Seq::new(b.len(), |i: int| (digit_value(h[2 * i]) * 16 + digit_value(h[2 * i + 1])) as u8);
    assert forall|i: int| 0 <= i < b.len() implies d[i] == b[i] by {
        lemma_hex_char(b[i] as int / 16);
        lemma_hex_char(b[i] as int % 16);
    }
    assert(d =~= b);
}


/// A character with an ASCII lowercase letter turned into its capital.
pub open spec fn ascii_upper(c: char) -> char {
    if 'a' <= c && c <= 'z' {
        ((c as int) - 32) as char
    } else {
        c
    }
}

proof fn lemma_ascii_upper_hex(c: char)
    ensures
        is_hex_digit(ascii_upper(c)) == is_hex_digit(c),
        is_hex_digit(c) ==> digit_value(ascii_upper(c)) == digit_value(c),
{
}

/// Fixed-length hexadecimal decoding ignores letter case: the text with its
/// lowercase letters capitalised decodes to the same bytes, or is refused
/// alike.
pub proof fn law_fixed_hex_ignores_case(value: Seq<char>, n: nat)
    ensures
        fixed_hex(value.map_values(|c: char| ascii_upper(c)), n) == fixed_hex(value, n),
{
    let u = value.map_values(|c: char| ascii_upper(c));
    assert forall|i: int| 0 <= i < value.len() implies is_hex_digit(#[trigger] u[i]) == is_hex_digit(
        value[i],
    ) && (is_hex_digit(value[i]) ==> digit_value(u[i]) == digit_value(value[i])) by {
        lemma_ascii_upper_hex(value[i]);
    }
    if value.len() == 2 * n && forall|i: int| 0 <= i < value.len() ==> is_hex_digit(#[trigger] value[i]) {
        assert forall|i: int| 0 <= i < u.len() implies is_hex_digit(#[trigger] u[i]) by {
            lemma_ascii_upper_hex(value[i]);
        }
        let a = Seq::new(n, |i: int| (digit_value(u[2 * i]) * 16 + digit_value(u[2 * i + 1])) as u8);
        let b = Seq::new(n, |i: int| (digit_value(value[2 * i]) * 16 + digit_value(value[2 * i + 1])) as u8);
        assert forall|i: int| 0 <= i < n implies a[i] == b[i] by {
            assert(is_hex_digit(value[2 * i]));
            assert(is_hex_digit(value[2 * i + 1]));
            lemma_ascii_upper_hex(value[2 * i]);
            lemma_ascii_upper_hex(value[2 * i + 1]);
        }
        assert(a =~= b);
    } else if value.len() == 2 * n {
        let k = choose|i: int| 0 <= i < value.len() && !is_hex_digit(#[trigger] value[i]);
        lemma_ascii_upper_hex(value[k]);
        assert(!is_hex_digit(u[k]));
    }
}

/// The uppercase hexadecimal text of `n` bytes (as `hex::encode_upper`
/// writes it) decodes back to the bytes as well.
pub proof fn law_fixed_hex_decodes_uppercase_hex_text(b: Seq<u8>)
    ensures
        fixed_hex(hex_lower(b).map_values(|c: char| ascii_upper(c)), b.len()) == Ok::<
            Seq<u8>,
            crate::error::ErrorView,
        >(b),
{
    law_fixed_hex_ignores_case(hex_lower(b), b.len());
    law_fixed_hex_decodes_hex_text(b);
}

/// Splitting at a separator that joins two texts splits each text on its own.
pub proof fn lemma_split_at_separator(a: Seq<char>, b: Seq<char>, sep: char)
    ensures
        split_char(a + seq![sep] + b, sep) == split_char(a, sep) + split_char(b, sep),
    decreases b.len(),
{
    let s = a + seq![sep] + b;
    if b.len() == 0 {
        assert(s.drop_last() =~= a);
        assert(split_char(b, sep) =~= seq![Seq::<char>::empty()]);
        assert(split_char(s, sep) =~= split_char(a, sep) + split_char(b, sep));
    } else {
        assert(s.drop_last() =~= a + seq![sep] + b.drop_last());
        lemma_split_at_separator(a, b.drop_last(), sep);
        lemma_split_nonempty(b.drop_last(), sep);
        let x = split_char(a, sep);
        let y = split_char(b.drop_last(), sep);
        assert(s.last() == b.last());
        if b.last() == sep {
            assert((x + y).push(Seq::<char>::empty()) =~= x + y.push(Seq::<char>::empty()));
        } else {
            let xy = x + y;
            assert(xy.last() == y.last());
            assert(xy.update(xy.len() - 1, xy.last().push(b.last())) =~= x + y.update(
                y.len() - 1,
                y.last().push(b.last()),
            ));
        }
    }
}

/// A text without the separator is a single piece.
pub proof fn lemma_split_without_separator(s: Seq<char>, sep: char)
    requires
        !s.contains(sep),
    ensures
        split_char(s, sep) == seq![s],
    decreases s.len(),
{
    if s.len() > 0 {
        let p = s.drop_last();
        assert(!p.contains(sep)) by {
            if p.contains(sep) {
                let i = choose|i: int| 0 <= i < p.len() && p[i] == sep;
                assert(s[i] == sep);
            }
        }
        lemma_split_without_separator(p, sep);
        assert(s.last() != sep) by {
            assert(s[s.len() - 1] == s.last());
        }
        let prev = split_char(p, sep);
        assert(prev.last() == p);
        assert(p.push(s.last()) =~= s);
        assert(prev.update(prev.len() - 1, prev.last().push(s.last())) =~= seq![s]);
        assert(split_char(s, sep) == prev.update(prev.len() - 1, prev.last().push(s.last())));
    } else {
        assert(s =~= Seq::<char>::empty());
    }
}

proof fn lemma_byte_hex(b: u8)
    ensures
        !byte_hex(b).contains(':'),
        parse_unsigned(byte_hex(b), 16, 255) == Some(b as int),
{
    let h = byte_hex(b);
    lemma_hex_char(b as int / 16);
    lemma_hex_char(b as int % 16);
    assert(nibble_char(b as int / 16) == hex_char(b as int / 16));
    assert(nibble_char(b as int % 16) == hex_char(b as int % 16));
    assert(h.len() == 2);
    assert(!h.contains(':')) by {
        if h.contains(':') {
            let i = choose|i: int| 0 <= i < h.len() && h[i] == ':';
            assert(i == 0 || i == 1);
        }
    }
    assert(unsigned_digits(h) == h);
    assert(all_digits(h, 16)) by {
        assert forall|i: int| 0 <= i < h.len() implies digit_value(#[trigger] h[i]) < 16 by {
            assert(i == 0 || i == 1);
        }
    }
    let h1 = h.drop_last();
    assert(h1.drop_last() =~= Seq::<char>::empty());
    assert(h1.last() == h[0]);
    assert(h.last() == h[1]);
    assert(digits_value(h1.drop_last(), 16) == 0);
    assert(digits_value(h1, 16) == digit_value(h[0]));
    assert(digits_value(h, 16) == digit_value(h[0]) * 16 + digit_value(h[1]));
    assert(digit_value(h[0]) == b as int / 16);
    assert(digit_value(h[1]) == b as int % 16);
    assert(digits_value(h, 16) == b as int);
}

/// Reading back the text of a MAC address gives the address.
pub proof fn law_mac_text_parses_back(mac: Seq<u8>)
    requires
        mac.len() == 6,
    ensures
        mac_of(mac_text(mac)) == Ok::<Seq<u8>, crate::error::ErrorView>(mac),
{
    reveal_strlit(":");
    let h0 = byte_hex(mac[0]);
    let h1 = byte_hex(mac[1]);
    let h2 = byte_hex(mac[2]);
    let h3 = byte_hex(mac[3]);
    let h4 = byte_hex(mac[4]);
    let h5 = byte_hex(mac[5]);
    lemma_byte_hex(mac[0]);
    lemma_byte_hex(mac[1]);
    lemma_byte_hex(mac[2]);
    lemma_byte_hex(mac[3]);
    lemma_byte_hex(mac[4]);
    lemma_byte_hex(mac[5]);
    let c = seq![':'];
    let t4 = h4 + c + h5;
    let t3 = h3 + c + t4;
    let t2 = h2 + c + t3;
    let t1 = h1 + c + t2;
    let t0 = h0 + c + t1;
    assert(mac_text(mac) =~= t0);
    lemma_split_at_separator(h4, h5, ':');
    lemma_split_at_separator(h3, t4, ':');
    lemma_split_at_separator(h2, t3, ':');
    lemma_split_at_separator(h1, t2, ':');
    lemma_split_at_separator(h0, t1, ':');
    lemma_split_without_separator(h0, ':');
    lemma_split_without_separator(h1, ':');
    lemma_split_without_separator(h2, ':');
    lemma_split_without_separator(h3, ':');
    lemma_split_without_separator(h4, ':');
    lemma_split_without_separator(h5, ':');
    let parts = split_char(t0, ':');
    assert(parts =~= seq![h0, h1, h2, h3, h4, h5]);
    assert(Seq::new(6, |i: int| parse_unsigned(parts[i], 16, 255)->0 as u8) =~= mac);
}


proof fn lemma_lead_exists(s: Seq<char>)
    ensures
        exists|k: int| lead_ok(s, k),
    decreases s.len(),
{
    if s.len() == 0 || !is_ws(s[0]) {
        assert(lead_ok(s, 0));
    } else {
        let t = s.drop_first();
        lemma_lead_exists(t);
        let k = choose|k: int| lead_ok(t, k);
        assert forall|j: int| 0 <= j < k + 1 implies is_ws(#[trigger] s[j]) by {
            if j > 0 {
                assert(s[j] == t[j - 1]);
            }
        }
        if k < t.len() {
            assert(s[k + 1] == t[k]);
        }
        assert(lead_ok(s, k + 1));
    }
}

proof fn lemma_trail_exists(s: Seq<char>)
    ensures
        exists|e: int| trail_ok(s, e),
    decreases s.len(),
{
    if s.len() == 0 || !is_ws(s.last()) {
        assert(trail_ok(s, s.len() as int));
    } else {
        let t = s.drop_last();
        lemma_trail_exists(t);
        let e = choose|e: int| trail_ok(t, e);
        assert forall|j: int| e <= j < s.len() implies is_ws(#[trigger] s[j]) by {
            if j < t.len() {
                assert(s[j] == t[j]);
            }
        }
        if e > 0 {
            assert(s[e - 1] == t[e - 1]);
        }
        assert(trail_ok(s, e));
    }
}

/// A trimmed text neither starts nor ends with white space.
proof fn lemma_trim_ends(s: Seq<char>)
    ensures
        trim(s).len() > 0 ==> !is_ws(trim(s)[0]) && !is_ws(trim(s).last()),
{
    lemma_lead_exists(s);
    let k = choose|k: int| lead_ok(s, k);
    lemma_lead_unique(s, k);
    let a = s.skip(k);
    lemma_trail_exists(a);
    let e = choose|e: int| trail_ok(a, e);
    lemma_trail_unique(a, e);
    let t = a.take(e);
    assert(trim(s) == t);
    if t.len() > 0 {
        assert(t[0] == s[k]);
        assert(t.last() == a[e - 1]);
    }
}

/// A text that neither starts nor ends with white space is its own trim.
proof fn lemma_trim_fixed(u: Seq<char>)
    requires
        u.len() > 0 ==> !is_ws(u[0]) && !is_ws(u.last()),
    ensures
        trim(u) == u,
{
    assert(lead_ok(u, 0));
    lemma_lead_unique(u, 0);
    assert(u.skip(0) =~= u);
    assert(trail_ok(u, u.len() as int));
    lemma_trail_unique(u, u.len() as int);
    assert(u.take(u.len() as int) =~= u);
}

proof fn lemma_lower_keeps_ws(c: char)
    ensures
        is_ws(lower_char(c)) == is_ws(c),
        lower_char(lower_char(c)) == lower_char(c),
{
}

/// A bandwidth limit that was accepted is accepted again unchanged: the
/// normal form is a fixed point.
pub proof fn law_bandwidth_limit_normal_form_is_stable(limit: Seq<char>, v: Seq<char>)
    requires
        bandwidth_limit(limit) == Ok::<Seq<char>, crate::error::ErrorView>(v),
    ensures
        bandwidth_limit(v) == Ok::<Seq<char>, crate::error::ErrorView>(v),
{
    let t = trim(limit);
    lemma_trim_ends(limit);
    assert(v == lower(t));
    if v.len() > 0 {
        lemma_lower_keeps_ws(t[0]);
        lemma_lower_keeps_ws(t.last());
        assert(v[0] == lower_char(t[0]));
        assert(v.last() == lower_char(t.last()));
    }
    lemma_trim_fixed(v);
    assert forall|i: int| 0 <= i < v.len() implies lower(v)[i] == v[i] by {
        lemma_lower_keeps_ws(t[i]);
    }
    assert(lower(trim(v)) =~= v);
}


/// A container's IPv6 address stays in its gateway's network: both lie in
/// the same block of `2^(128 - prefix)` addresses.
pub proof fn law_ipv6_stays_in_gateway_network(container_id: Seq<char>, gateway: u128, prefix: u8)
    requires
        prefix <= 128,
    ensures
        ({
            let h = crate::hashing::two_pow((128 - prefix) as nat) as int;
            crate::hashing::ipv6_address(container_id, gateway, prefix) / h == gateway as int / h
        }),
{
    let hb = (128 - prefix) as nat;
    let h = crate::hashing::two_pow(hb) as int;
    crate::hashing::lemma_two_pow_positive(hb);
    if hb > 0 {
        crate::hashing::lemma_two_pow_positive((hb - 1) as nat);
        assert(crate::hashing::two_pow(hb) == 2 * crate::hashing::two_pow((hb - 1) as nat));
        let n = crate::hashing::be_value(
            crate::hashing::shake256_256_digest(vstd::utf8::encode_utf8(container_id)).take(16),
        ) as int;
        let host = if h >= 4 { 2 + n % (h - 3) } else { 1 };
        assert(0 <= host < h) by (nonlinear_arith)
            requires
                h >= 2,
                n >= 0,
                host == (if h >= 4 { 2 + n % (h - 3) } else { 1 }),
        ;
        let q = gateway as int / h;
        assert((q * h + host) / h == q) by (nonlinear_arith)
            requires
                h >= 2,
                0 <= host < h,
        ;
    } else {
        assert(crate::hashing::two_pow(0) == 1);
    }
}

/// Firewall changes are undone newest first: after remembering a command,
/// the next cleanup takes exactly that command and leaves what was there
/// before.
pub proof fn law_firewall_cleanup_is_last_in_first_out(pending: Seq<Vec<String>>, command: Vec<String>)
    ensures
        pending.push(command).last() == command,
        pending.push(command).drop_last() == pending,
{
    assert(pending.push(command).drop_last() =~= pending);
}

/// Once a creation's network counts as persisted, adopting or tracking a
/// backend never makes it unpersisted again.
pub proof fn law_persisted_network_stays_persisted(
    backend: Option<crate::network::NetworkBackend>,
    shared: bool,
)
    ensures
        crate::creation::persisted_after(true, backend, shared),
{
}

/// Every classifier taken from a filter report belongs to the interface and
/// direction that were asked about.
pub proof fn law_owned_filters_stay_on_their_interface(
    entries: Seq<crate::ebpf::TcFilterEntry>,
    interface: Seq<char>,
    direction: Seq<char>,
    ifindex: Result<u32, crate::error::ErrorView>,
)
    ensures
        crate::ebpf::tc_owned(entries, interface, direction, ifindex) matches Ok(v) ==> forall|i: int|
            0 <= i < v.len() ==> (#[trigger] v[i]).interface == Some(interface) && v[i].direction
                == direction,
    decreases entries.len(),
{
    if entries.len() > 0 {
        law_owned_filters_stay_on_their_interface(entries.drop_first(), interface, direction, ifindex);
    }
}

/// Decoding the lowercase hexadecimal text of bytes gives the bytes back.
pub proof fn law_hex_text_decodes_back(b: Seq<u8>)
    ensures
        crate::hashing::hex_bytes(hex_lower(b)) == Some(b),
{
    law_fixed_hex_decodes_hex_text(b);
    lemma_hex_lower_shape(b);
    assert(hex_lower(b).len() / 2 == b.len());
}

/// A restart configuration always carries a non-empty SNAT port range that
/// starts above 0.
pub proof fn law_restart_config_snat_range_is_ordered(
    o: crate::records::NetworkOwnershipRecord,
    embedded_sha256: Seq<u8>,
    embedded_abi: Result<Seq<char>, Seq<char>>,
    bridge: Result<crate::settings::BridgeView, crate::error::ErrorView>,
)
    ensures
        crate::ebpf::restart_config(o, embedded_sha256, embedded_abi, bridge) matches Ok(c) ==> 0
            < c.snat_port_start <= c.snat_port_end,
{
}

/// As a firewall setup confirms more commands, the undo commands it has
/// acquired stay as they were: the earlier list is a prefix of the later one,
/// so a rollback after any failure undoes exactly the confirmed commands,
/// newest first.
pub proof fn law_firewall_undo_list_only_grows(plan: FirewallPlan, m: int, n: int)
    requires
        0 <= m <= n,
    ensures
        plan.rollbacks_before(m).len() <= plan.rollbacks_before(n).len(),
        plan.rollbacks_before(n).take(plan.rollbacks_before(m).len() as int)
            == plan.rollbacks_before(m),
    decreases n - m,
{
    if m == n {
        assert(plan.rollbacks_before(n).take(plan.rollbacks_before(n).len() as int)
            =~= plan.rollbacks_before(n));
    } else {
        law_firewall_undo_list_only_grows(plan, m, n - 1);
        let k = plan.rollbacks_before(m).len() as int;
        assert(plan.rollbacks_before(n) == plan.rollbacks_before(n - 1) + plan.rollback_for(n - 1));
        assert(plan.rollbacks_before(n).take(k) =~= plan.rollbacks_before(n - 1).take(k));
    }
}

proof fn lemma_decimal_shape(n: nat)
    ensures
        decimal(n).len() > 0,
        forall|i: int| 0 <= i < decimal(n).len() ==> is_ascii_digit(#[trigger] decimal(n)[i]),
        all_digits(decimal(n), 10),
        digits_value(decimal(n), 10) == n,
        decimal(n)[0] == '0' ==> n == 0,
        n == 0 ==> decimal(n).len() == 1,
    decreases n,
{
    if n < 10 {
        assert(digit_char(n) as int == 48 + n);
        assert(decimal(n) =~= seq![digit_char(n)]);
        assert(decimal(n).drop_last() =~= Seq::<char>::empty());
        assert(('0' as int) == 48);
        assert(digit_value(digit_char(n)) == n);
        assert(digits_value(Seq::<char>::empty(), 10) == 0);
        assert(decimal(n).last() == digit_char(n));
        assert(digits_value(decimal(n), 10) == n);
    } else {
        lemma_decimal_shape(n / 10);
        let p = decimal(n / 10);
        let c = digit_char(n % 10);
        assert(c as int == 48 + n % 10);
        assert(decimal(n) == p.push(c));
        assert(decimal(n).drop_last() =~= p);
        assert forall|i: int| 0 <= i < decimal(n).len() implies is_ascii_digit(
            #[trigger] decimal(n)[i],
        ) by {
            if i < p.len() {
                assert(decimal(n)[i] == p[i]);
            }
        }
        assert(decimal(n)[0] == p[0]);
        assert(n / 10 >= 1);
        assert(('0' as int) == 48);
        assert(digit_value(c) == n % 10);
        assert(digits_value(decimal(n), 10) == digits_value(p, 10) * 10 + (n % 10));
        assert(n == (n / 10) * 10 + n % 10);
    }
}

proof fn lemma_octet_text(b: u8)
    ensures
        octet(decimal(b as nat)) == Some(b),
        !decimal(b as nat).contains('.'),
{
    let d = decimal(b as nat);
    lemma_decimal_shape(b as nat);
    assert(unsigned_digits(d) == d);
    if d.len() > 1 {
        assert(b as nat != 0);
    }
    assert(!d.contains('.')) by {
        if d.contains('.') {
            let i = choose|i: int| 0 <= i < d.len() && d[i] == '.';
            assert(is_ascii_digit(d[i]));
        }
    }
}

/// Reading back the dotted text of an IPv4 address gives the address.
pub proof fn law_ipv4_text_parses_back(o: Seq<u8>)
    requires
        o.len() == 4,
    ensures
        ipv4_octets(dotted(o)) == Some(o),
{
    reveal_strlit(".");
    let d0 = decimal(o[0] as nat);
    let d1 = decimal(o[1] as nat);
    let d2 = decimal(o[2] as nat);
    let d3 = decimal(o[3] as nat);
    lemma_octet_text(o[0]);
    lemma_octet_text(o[1]);
    lemma_octet_text(o[2]);
    lemma_octet_text(o[3]);
    let c = seq!['.'];
    let t2 = d2 + c + d3;
    let t1 = d1 + c + t2;
    let t0 = d0 + c + t1;
    assert(dotted(o) =~= t0);
    lemma_split_at_separator(d2, d3, '.');
    lemma_split_at_separator(d1, t2, '.');
    lemma_split_at_separator(d0, t1, '.');
    lemma_split_without_separator(d0, '.');
    lemma_split_without_separator(d1, '.');
    lemma_split_without_separator(d2, '.');
    lemma_split_without_separator(d3, '.');
    let parts = split_char(t0, '.');
    assert(parts =~= seq![d0, d1, d2, d3]);
    assert(seq![octet(parts[0])->0, octet(parts[1])->0, octet(parts[2])->0, octet(parts[3])->0]
        =~= o);
}

/// The ownership record written for a container on a shared eBPF network
/// restores, on restart, the very network configuration it was written from
/// (with the bridge gateway of the bridge settings), and passes the shared
/// metadata check against that configuration while the managed interface
/// keeps its index. The network needs a name and an interface, and a SNAT
/// range that starts above 0 and is not empty; otherwise the record is
/// refused on restart.
pub proof fn law_recorded_ebpf_network_restarts_as_recorded(
    o: NetworkOwnershipRecord,
    config: EbpfRestartView,
    abi: Seq<char>,
    bridge: crate::settings::BridgeView,
    network_root: Seq<char>,
    container_id: Seq<char>,
    host_veth: Seq<char>,
    source_cidr: Seq<char>,
    bridge_name: Seq<char>,
    bridge_ifindex: u32,
    host_ifindex: u32,
    namespace_identity: KernelObjectIdentityRecord,
)
    requires
        ebpf_ownership_fields(
            o,
            config,
            abi,
            network_root,
            container_id,
            host_veth,
            source_cidr,
            bridge_name,
            bridge_ifindex,
            host_ifindex,
            namespace_identity,
        ),
        config.external_ipv4.len() == 4,
        config.next_hop_mac.len() == 6,
        config.expected_object_sha256.len() == 32,
        config.network_id.len() > 0,
        config.interface.len() > 0,
        0 < config.snat_port_start <= config.snat_port_end,
        ipv4_octets(bridge.gateway) is Some,
    ensures
        restart_config(o, config.expected_object_sha256, Ok(abi), Ok(bridge)) == Ok::<
            EbpfRestartView,
            crate::error::ErrorView,
        >(EbpfRestartView { bridge_gateway: ipv4_octets(bridge.gateway)->0, ..config }),
        shared_metadata_check(o, config, Ok(abi), Ok(config.external_ifindex)) is Ok,
{
    law_ipv4_text_parses_back(config.external_ipv4);
    law_mac_text_parses_back(config.next_hop_mac);
    law_hex_text_decodes_back(config.expected_object_sha256);
    lemma_hex_lower_shape(config.expected_object_sha256);
}

/// The shared hosts file does not depend on the order of the containers:
/// entry lists that are well formed and list exactly the names of two
/// orderings of the same containers are equal, so they render the same file.
pub proof fn law_hosts_entries_ignore_container_order(
    c1: Seq<ContainerRecord>,
    c2: Seq<ContainerRecord>,
    v: Seq<(Seq<char>, Seq<Seq<char>>)>,
    w: Seq<(Seq<char>, Seq<Seq<char>>)>,
)
    requires
        c1.to_multiset() == c2.to_multiset(),
        hosts_entries_wf(v),
        hosts_entries_wf(w),
        forall|a: Seq<char>, n: Seq<char>| lists_name(v, a, n) <==> containers_list(c1, a, n),
        forall|a: Seq<char>, n: Seq<char>| lists_name(w, a, n) <==> containers_list(c2, a, n),
    ensures
        v == w,
{
    broadcast use vstd::seq_lib::group_to_multiset_ensures;
    assert forall|a: Seq<char>, n: Seq<char>| lists_name(v, a, n) <==> lists_name(w, a, n) by {
        if containers_list(c1, a, n) {
            let k = choose|k: int| 0 <= k < c1.len() && record_lists(#[trigger] c1[k], a, n);
            assert(c1.contains(c1[k]));
            assert(c2.to_multiset().count(c1[k]) > 0);
            assert(c2.contains(c1[k]));
            let j = choose|j: int| 0 <= j < c2.len() && c2[j] == c1[k];
            assert(record_lists(c2[j], a, n));
        }
        if containers_list(c2, a, n) {
            let k = choose|k: int| 0 <= k < c2.len() && record_lists(#[trigger] c2[k], a, n);
            assert(c2.contains(c2[k]));
            assert(c1.to_multiset().count(c2[k]) > 0);
            assert(c1.contains(c2[k]));
            let j = choose|j: int| 0 <= j < c1.len() && c1[j] == c2[k];
            assert(record_lists(c1[j], a, n));
        }
    }
    lemma_hosts_entries_unique(v, w);
}

/// In the detach order of a stopped container's mounts, a mount nested
/// inside another recorded mount is detached before it: when one target's
/// path lies strictly within another's, the inner one comes first.
pub proof fn law_nested_mounts_detach_first(r: Seq<TargetView>, inner: int, outer: int)
    requires
        detach_ordered(r),
        0 <= inner < r.len(),
        0 <= outer < r.len(),
        target_key(r[outer]).len() < target_key(r[inner]).len(),
        target_key(r[inner]).take(target_key(r[outer]).len() as int) == target_key(r[outer]),
    ensures
        inner < outer,
{
    if outer < inner {
        assert(crate::persisted_mounts::detach_first(target_key(r[outer]), target_key(r[inner])));
    }
}

/// In the removal order of a captured eBPF pin tree, every entry inside a
/// pinned directory is removed before the directory itself.
pub proof fn law_pin_directory_removed_after_its_entries(r: Seq<PinView>, entry: int, dir: int)
    requires
        removal_sorted(r),
        0 <= entry < r.len(),
        0 <= dir < r.len(),
        r[dir].directory,
        path_components_of(r[dir].relative_path).len() < path_components_of(
            r[entry].relative_path,
        ).len(),
        path_components_of(r[entry].relative_path).take(
            path_components_of(r[dir].relative_path).len() as int,
        ) == path_components_of(r[dir].relative_path),
    ensures
        entry < dir,
{
    if dir < entry {
        assert(pin_depth(r[dir]) > pin_depth(r[entry]) || pin_depth(r[dir]) == pin_depth(r[entry]));
    }
}

/// Recovery never settles a run whose effects are live: such a reservation
/// belongs to the process that is still publishing it.
pub proof fn law_live_run_is_left_to_its_owner(
    record: ContainerRecord,
    action: Seq<char>,
    generation: u64,
    journal_action: Seq<char>,
    journal_generation: u64,
    operation: Option<LifecycleOperation>,
    o: RecoveryObservation,
)
    requires
        run_live_effects(record, action, o),
    ensures
        pending_resolution(record, action, generation, journal_action, journal_generation, operation, o)
            == PendingResolution::InFlight,
{
}

/// Recovery deletes a record only for a delete whose effect is proven, or
/// for a run that never took effect; a run that it recovers is never
/// deleted.
pub proof fn law_recovery_deletes_only_proven_deletes_or_failed_runs(
    record: ContainerRecord,
    action: Seq<char>,
    generation: u64,
    journal_action: Seq<char>,
    journal_generation: u64,
    operation: Option<LifecycleOperation>,
    o: RecoveryObservation,
)
    ensures
        pending_resolution(record, action, generation, journal_action, journal_generation, operation, o)
            matches PendingResolution::Settle { recovered, delete_record, .. } ==> (delete_record ==> (
        action == "container.delete"@ && recovered) || (is_run(action) && !recovered
            && !run_live_effects(record, action, o))),
{
    reveal_strlit("container.run");
    reveal_strlit("container.delete");
    reveal_strlit("container.exec");
    reveal_strlit("container.pause");
    reveal_strlit("container.resume");
    reveal_strlit("container.stop");
    reveal_strlit("container.kill");
    reveal_strlit("container.restart");
}

/// The limits a run persists are exactly the limits a restart re-applies.
pub proof fn law_restart_restores_the_persisted_limits(limits: ResourceLimits)
    ensures
        restored_limits(limit_record_of(limits)) == Ok::<ResourceLimits, crate::error::ErrorView>(
            limits,
        ),
{
}

/// The health a run of `k` failed checks leaves, from a fresh container.
pub open spec fn health_after_failures(retries: u32, k: nat) -> (HealthStatus, u32)
    decreases k,
{
    if k == 0 {
        (HealthStatus::Starting, 0)
    } else {
        health_after(health_after_failures(retries, (k - 1) as nat).1, retries, false)
    }
}

/// A container becomes unhealthy exactly when the number of consecutive
/// failed checks reaches the configured retries (at least one), and the
/// failure count is the number of those checks.
pub proof fn law_unhealthy_after_the_configured_failures(retries: u32, k: nat)
    requires
        1 <= k <= u32::MAX,
    ensures
        health_after_failures(retries, k) == (
            if k >= (if retries < 1 { 1 } else { retries }) {
                HealthStatus::Unhealthy
            } else {
                HealthStatus::Starting
            },
            k as u32,
        ),
    decreases k,
{
    let prev = health_after_failures(retries, (k - 1) as nat);
    if k > 1 {
        law_unhealthy_after_the_configured_failures(retries, (k - 1) as nat);
        assert(prev.1 == (k - 1) as u32);
    } else {
        assert(prev.1 == 0);
    }
    assert(prev.1 < u32::MAX);
    assert(health_after_failures(retries, k) == health_after(prev.1, retries, false));
    assert((prev.1 + 1) as u32 == k as u32);
}

/// A container whose process was stopped or killed by the user is never
/// restarted, whatever its policy and exit code; any other ended process is
/// restarted under `Always` and `UnlessStopped`, never under `No`, and under
/// `OnFailure` exactly when its exit code is non-zero.
pub proof fn law_stopped_or_killed_is_never_restarted(
    policy: crate::lifecycle::RestartPolicy,
    status: Seq<char>,
    exit_code: i32,
)
    ensures
        !crate::lifecycle::restart_wanted(policy, "stopped"@, exit_code),
        !crate::lifecycle::restart_wanted(policy, "killed"@, exit_code),
        status != "stopped"@ && status != "killed"@ ==> (crate::lifecycle::restart_wanted(
            policy,
            status,
            exit_code,
        ) <==> (policy == crate::lifecycle::RestartPolicy::Always || policy
            == crate::lifecycle::RestartPolicy::UnlessStopped || (policy
            == crate::lifecycle::RestartPolicy::OnFailure && exit_code != 0))),
{
}

/// A runtime configuration is refused for its version exactly when the
/// version starts with none of `1.0`, `1.1` and `1.2`, and the refusal names
/// that version.
pub proof fn law_supported_versions_are_never_refused(c: crate::runtime_config::RuntimeConfig)
    ensures
        (crate::runtime_config::first_violation(c) matches Some(
            crate::runtime_config::ConfigErrorView::InvalidOciVersion(_),
        )) <==> !(crate::text::starts_with(c.oci_version@, "1.0"@) || crate::text::starts_with(
            c.oci_version@,
            "1.1"@,
        ) || crate::text::starts_with(c.oci_version@, "1.2"@)),
        crate::runtime_config::first_violation(c) matches Some(
            crate::runtime_config::ConfigErrorView::InvalidOciVersion(v),
        ) ==> v == c.oci_version@,
{
}

/// A requested port conflicts with a running container exactly when some
/// running container maps the same host port with the same protocol, the
/// protocol compared ignoring ASCII case; the same port under another
/// protocol never conflicts.
pub proof fn law_ports_conflict_only_on_same_port_and_protocol(
    records: Seq<ContainerRecord>,
    requested: Seq<crate::records::PortMappingRecord>,
)
    ensures
        crate::network::port_conflict(records, requested) <==> exists|r: int, p: int, q: int|
            0 <= r < records.len() && records[r].status@ == "running"@ && 0 <= p
                < records[r].ports@.len() && 0 <= q < requested.len() && (#[trigger] records[r].ports@[p]).host_port
                == (#[trigger] requested[q]).host_port && lower(records[r].ports@[p].protocol@)
                == lower(requested[q].protocol@),
{
}

/// A user setting that is a bare number (no `:`) runs the process with that
/// number as both user and group; whatever such a setting gives, its group
/// is its user.
pub proof fn law_bare_uid_is_also_the_gid(value: Seq<char>, n: int)
    requires
        !trim(value).contains(':'),
    ensures
        crate::paths::user_spec(value) matches Some((uid, gid)) ==> uid == gid,
        parse_unsigned(trim(value), 10, u32::MAX as int) == Some(n) ==> crate::paths::user_spec(
            value,
        ) == Some((n as u32, n as u32)),
{
    assert(crate::text::first_index(trim(value), ':') is None);
}

/// A kernel is accepted exactly when its release is at least 5.10, comparing
/// (major, minor) lexicographically; the fields are the leading numbers of
/// the release split at dots and dashes.
pub proof fn law_kernel_at_least_5_10_is_accepted(release: Seq<char>)
    ensures
        ({
            let parts = split_char(crate::settings::dashes_as_dots(release), '.');
            let major = crate::settings::release_field(parts, 0);
            let minor = crate::settings::release_field(parts, 1);
            crate::settings::kernel_release_ok(release) <==> (major > 5 || (major == 5 && minor
                >= 10))
        }),
{
}

} // verus!
