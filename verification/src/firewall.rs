//! Firewall ownership: the normal form of captured firewall state, the
//! check that live state holds nothing foreign, and the bookkeeping of
//! legacy iptables rules.

use crate::error::{ErrorView, RuntimeError};
use crate::records::{opt_str, ContainerRecord};
use crate::text::{
    before_infix, chars_before_infix, chars_ends_with, chars_eq, chars_of, chars_starts_with,
    concat, concat_chars, ends_with, join, join_chars, lines, lines_of, seqs_of, starts_with,
    str_eq, string_of, strings_chars, strs_of, trimmed_nonempty, trimmed_nonempty_chars, words,
    words_of,
};
use vstd::prelude::*;
use vstd::string::StringExecFns;

verus! {

pub open spec fn quote_lead(s: Seq<char>, k: int) -> bool {
    &&& 0 <= k <= s.len()
    &&& forall|j: int| 0 <= j < k ==> #[trigger] s[j] == '"'
    &&& k == s.len() || s[k] != '"'
}

pub open spec fn quote_trail(s: Seq<char>, e: int) -> bool {
    &&& 0 <= e <= s.len()
    &&& forall|j: int| e <= j < s.len() ==> #[trigger] s[j] == '"'
    &&& e == 0 || s[e - 1] != '"'
}

/// `str::trim_matches('"')`.
pub open spec fn strip_quotes(s: Seq<char>) -> Seq<char> {
    let t = s.skip(choose|k: int| quote_lead(s, k));
    t.take(choose|e: int| quote_trail(t, e))
}

fn strip_quotes_chars(s: &Vec<char>) -> (r: Vec<char>)
    ensures
        r@ == strip_quotes(s@),
{
    let n = s.len();
    let mut k: usize = 0;
    while k < n && s[k] == '"'
        invariant
            n == s@.len(),
            k <= n,
            forall|j: int| 0 <= j < k ==> #[trigger] s@[j] == '"',
        decreases n - k,
    {
        k += 1;
    }
    proof {
        let c = choose|c: int| quote_lead(s@, c);
        assert(quote_lead(s@, k as int));
        assert(quote_lead(s@, c));
        if c < k {
            assert(s@[c] == '"');
        }
        if k < c {
            assert(s@[k as int] == '"');
        }
    }
    let ghost t = s@.skip(k as int);
    let mut e: usize = n - k;
    while e > 0 && s[k + e - 1] == '"'
        invariant
            n == s@.len(),
            k <= n,
            t == s@.skip(k as int),
            e <= t.len(),
            forall|j: int| e <= j < t.len() ==> #[trigger] t[j] == '"',
        decreases e,
    {
        e -= 1;
    }
    proof {
        let c = choose|c: int| quote_trail(t, c);
        assert(quote_trail(t, e as int));
        assert(quote_trail(t, c));
        if c < e {
            assert(t[e - 1] == '"');
        }
        if e < c {
            assert(t[c - 1] == '"');
        }
    }
    let mut r: Vec<char> = Vec::new();
    let mut i: usize = 0;
    while i < e
        invariant
            n == s@.len(),
            k <= n,
            t == s@.skip(k as int),
            e <= t.len(),
            i <= e,
            r@ == t.take(i as int),
        decreases e - i,
    {
        r.push(s[k + i]);
        i += 1;
        assert(r@ =~= t.take(i as int));
    }
    r
}

/// An nft counter reference such as `[1:2]`.
pub open spec fn counter_ref(t: Seq<char>) -> bool {
    starts_with(t, "["@) && ends_with(t, "]"@) && t.contains(':')
}

/// Tokens of a firewall rule with volatile parts removed: counter references
/// vanish, `counter packets N bytes M` becomes `counter`, and quotes around
/// a token are dropped.
pub open spec fn norm_tokens(t: Seq<Seq<char>>) -> Seq<Seq<char>>
    decreases t.len(),
{
    if t.len() == 0 {
        t
    } else if counter_ref(t[0]) {
        norm_tokens(t.drop_first())
    } else if t[0] == "counter"@ && t.len() > 1 && t[1] == "packets"@ && t.len() > 3 && t[3]
        == "bytes"@ {
        seq!["counter"@] + norm_tokens(
            if t.len() >= 5 {
                t.skip(5)
            } else {
                Seq::<Seq<char>>::empty()
            },
        )
    } else {
        seq![strip_quotes(t[0])] + norm_tokens(t.drop_first())
    }
}

/// The normal form of one rule line: the text before ` # handle `, split
/// into words, normalized and joined by single spaces.
pub open spec fn norm_line(l: Seq<char>) -> Seq<char> {
    join(norm_tokens(words(before_infix(l, " # handle "@))), " "@)
}

/// The normal form of captured firewall state: its non-blank lines,
/// trimmed and normalized, joined by newlines. Handles and counters do not
/// take part; rule content does.
pub open spec fn normalized_firewall_state(s: Seq<char>) -> Seq<char> {
    join(trimmed_nonempty(lines(s)).map_values(|l: Seq<char>| norm_line(l)), "\n"@)
}

fn is_counter_ref(t: &Vec<char>) -> (r: bool)
    ensures
        r == counter_ref(t@),
{
    let open = chars_of("[");
    let close = chars_of("]");
    chars_starts_with(t.as_slice(), open.as_slice()) && chars_ends_with(t.as_slice(), close.as_slice())
        && crate::text::chars_contain(t.as_slice(), ':')
}

fn normalize_tokens(tokens: &Vec<Vec<char>>) -> (r: Vec<Vec<char>>)
    ensures
        seqs_of(r@) == norm_tokens(seqs_of(tokens@)),
{
    let ghost t = seqs_of(tokens@);
    let counter = chars_of("counter");
    let packets = chars_of("packets");
    let bytes = chars_of("bytes");
    let mut result: Vec<Vec<char>> = Vec::new();
    let mut index: usize = 0;
    let n = tokens.len();
    proof {
        assert(t.skip(0) =~= t);
        assert(seqs_of(result@) + norm_tokens(t.skip(0)) =~= norm_tokens(t));
    }
    while index < n
        invariant
            n == tokens@.len(),
            t == seqs_of(tokens@),
            counter@ == "counter"@,
            packets@ == "packets"@,
            bytes@ == "bytes"@,
            index <= n,
            seqs_of(result@) + norm_tokens(t.skip(index as int)) == norm_tokens(t),
        decreases n - index,
    {
        let ghost rest = t.skip(index as int);
        let ghost r0 = seqs_of(result@);
        proof {
            assert(rest[0] == t[index as int]);
            assert(rest.drop_first() =~= t.skip(index + 1));
        }
        let token = &tokens[index];
        assert(token@ == t[index as int]);
        if is_counter_ref(token) {
            index += 1;
        } else if chars_eq(token.as_slice(), counter.as_slice()) && n - index > 1 && chars_eq(
            tokens[index + 1].as_slice(),
            packets.as_slice(),
        ) && n - index > 3 && chars_eq(tokens[index + 3].as_slice(), bytes.as_slice()) {
            proof {
                assert(rest[1] == t[index + 1]);
                assert(rest[3] == t[index + 3]);
            }
            result.push(counter.clone());
            proof {
                assert(seqs_of(result@) =~= r0.push("counter"@));
            }
            if n - index >= 5 {
                proof {
                    assert(rest.skip(5) =~= t.skip(index + 5));
                }
                index += 5;
            } else {
                proof {
                    assert(t.skip(n as int) =~= Seq::<Seq<char>>::empty());
                }
                index = n;
            }
            proof {
                assert(seqs_of(result@) + norm_tokens(t.skip(index as int)) =~= r0 + norm_tokens(rest));
            }
        } else {
            let stripped = strip_quotes_chars(token);
            result.push(stripped);
            proof {
                assert(seqs_of(result@) =~= r0.push(strip_quotes(t[index as int])));
            }
            index += 1;
            proof {
                assert(seqs_of(result@) + norm_tokens(t.skip(index as int)) =~= r0 + norm_tokens(rest));
            }
        }
    }
    proof {
        assert(t.skip(n as int) =~= Seq::<Seq<char>>::empty());
        assert(seqs_of(result@) =~= norm_tokens(t));
    }
    result
}

fn normalize_line(l: &Vec<char>) -> (r: Vec<char>)
    ensures
        r@ == norm_line(l@),
{
    let pat = chars_of(" # handle ");
    let head = chars_before_infix(l.as_slice(), pat.as_slice());
    let ws = words_of(head.as_slice());
    let toks = normalize_tokens(&ws);
    let space = chars_of(" ");
    join_chars(&toks, space.as_slice())
}

pub fn normalize_owned_firewall_state(state: &str) -> (r: String)
    ensures
        r@ == normalized_firewall_state(state@),
{
    let c = chars_of(state);
    let ls = lines_of(c.as_slice());
    let kept = trimmed_nonempty_chars(&ls);
    let ghost k = seqs_of(kept@);
    let mut out: Vec<Vec<char>> = Vec::new();
    let mut i: usize = 0;
    while i < kept.len()
        invariant
            k == seqs_of(kept@),
            i <= k.len(),
            seqs_of(out@) == k.take(i as int).map_values(|l: Seq<char>| norm_line(l)),
        decreases kept.len() - i,
    {
        let ghost o = seqs_of(out@);
        let n = normalize_line(&kept[i]);
        out.push(n);
        proof {
            assert(seqs_of(out@) =~= o.push(norm_line(k[i as int])));
            assert(k.take(i + 1).map_values(|l: Seq<char>| norm_line(l)) =~= k.take(i as int).map_values(|l: Seq<char>| norm_line(l)).push(norm_line(k[i as int])));
        }
        i += 1;
    }
    proof {
        assert(k.take(k.len() as int) =~= k);
    }
    let nl = chars_of("\n");
    let joined = join_chars(&out, nl.as_slice());
    string_of(joined.as_slice())
}

} // verus!

verus! {

pub open spec fn first_foreign_line(expected: Seq<char>, ls: Seq<Seq<char>>, i: int) -> bool {
    &&& 0 <= i < ls.len()
    &&& !lines(expected).contains(ls[i])
    &&& forall|j: int| 0 <= j < i ==> lines(expected).contains(#[trigger] ls[j])
}

/// The first line of live firewall state that the expected state does not
/// contain, reported as foreign or replaced.
pub open spec fn resumable_error(expected: Seq<char>, live: Seq<char>) -> Option<ErrorView> {
    let ls = lines(live);
    if exists|i: int| first_foreign_line(expected, ls, i) {
        Some(
            ErrorView::Network(
                "owned firewall object contains foreign or replaced state: "@ + ls[choose|i: int|
                    first_foreign_line(expected, ls, i)],
            ),
        )
    } else {
        None
    }
}

fn contains_line(ls: &Vec<Vec<char>>, l: &Vec<char>) -> (r: bool)
    ensures
        r == seqs_of(ls@).contains(l@),
{
    let mut i: usize = 0;
    while i < ls.len()
        invariant
            i <= ls@.len(),
            forall|j: int| 0 <= j < i ==> seqs_of(ls@)[j] != l@,
        decreases ls.len() - i,
    {
        if chars_eq(ls[i].as_slice(), l.as_slice()) {
            assert(seqs_of(ls@)[i as int] == l@);
            return true;
        }
        i += 1;
    }
    false
}

/// Live state may only hold lines of the state the runtime recorded.
pub fn verify_resumable_firewall_state(expected: &str, live: &str) -> (r: Result<(), RuntimeError>)
    ensures
        r is Ok <==> resumable_error(expected@, live@) is None,
        r matches Err(e) ==> Some(e@) == resumable_error(expected@, live@),
{
    let ec = chars_of(expected);
    let lc = chars_of(live);
    let el = lines_of(ec.as_slice());
    let ll = lines_of(lc.as_slice());
    let ghost ls = seqs_of(ll@);
    let mut i: usize = 0;
    while i < ll.len()
        invariant
            seqs_of(el@) == lines(expected@),
            ls == seqs_of(ll@),
            ls == lines(live@),
            i <= ls.len(),
            forall|j: int| 0 <= j < i ==> lines(expected@).contains(#[trigger] ls[j]),
        decreases ll.len() - i,
    {
        assert(ll@[i as int]@ == ls[i as int]);
        if !contains_line(&el, &ll[i]) {
            proof {
                assert(first_foreign_line(expected@, ls, i as int));
                let c = choose|c: int| first_foreign_line(expected@, ls, c);
                if c < i {
                    assert(lines(expected@).contains(ls[c]));
                }
                if i < c {
                    assert(lines(expected@).contains(ls[i as int]));
                }
            }
            return Err(
                RuntimeError::Network(
                    concat_chars(
                        "owned firewall object contains foreign or replaced state: ",
                        ll[i].as_slice(),
                    ),
                ),
            );
        }
        i += 1;
    }
    assert forall|c: int| !first_foreign_line(expected@, ls, c) by {
        if 0 <= c < ls.len() {
            assert(lines(expected@).contains(ls[c]));
        }
    }
    Ok(())
}

pub open spec fn is_first_append(c: Seq<Seq<char>>, i: int) -> bool {
    &&& 0 <= i < c.len()
    &&& c[i] == "-A"@
    &&& forall|j: int| 0 <= j < i ==> #[trigger] c[j] != "-A"@
}

/// The `iptables-save` line of a rule command: the command from its first
/// `-A` on, joined by spaces.
pub open spec fn save_rule(c: Seq<Seq<char>>) -> Option<Seq<char>> {
    if exists|i: int| is_first_append(c, i) {
        Some(join(c.skip(choose|i: int| is_first_append(c, i)), " "@))
    } else {
        None
    }
}

fn first_append(command: &[String]) -> (r: Option<usize>)
    ensures
        r matches Some(i) ==> is_first_append(strs_of(command@), i as int) && (choose|j: int|
            is_first_append(strs_of(command@), j)) == i,
        r is None ==> forall|j: int| !is_first_append(strs_of(command@), j),
{
    let ghost c = strs_of(command@);
    let mut i: usize = 0;
    while i < command.len()
        invariant
            c == strs_of(command@),
            i <= c.len(),
            forall|j: int| 0 <= j < i ==> #[trigger] c[j] != "-A"@,
        decreases command.len() - i,
    {
        assert(c[i as int] == command@[i as int]@);
        if str_eq(command[i].as_str(), "-A") {
            proof {
                assert(is_first_append(c, i as int));
                let k = choose|j: int| is_first_append(c, j);
                if k < i {
                    assert(c[k] != "-A"@);
                }
                if i < k {
                    assert(c[i as int] != "-A"@);
                }
            }
            return Some(i);
        }
        i += 1;
    }
    None
}

pub fn iptables_save_rule(command: &[String]) -> (r: Option<String>)
    ensures
        r matches Some(s) ==> save_rule(strs_of(command@)) == Some(s@),
        r is None ==> save_rule(strs_of(command@)) is None,
{
    let a = first_append(command)?;
    let parts = strings_chars(command);
    let mut tail: Vec<Vec<char>> = Vec::new();
    let mut i: usize = a;
    while i < parts.len()
        invariant
            a <= i <= parts@.len(),
            seqs_of(parts@) == strs_of(command@),
            seqs_of(tail@) == seqs_of(parts@).subrange(a as int, i as int),
        decreases parts.len() - i,
    {
        let ghost t0 = seqs_of(tail@);
        tail.push(parts[i].clone());
        assert(seqs_of(tail@) =~= t0.push(seqs_of(parts@)[i as int]));
        i += 1;
        assert(seqs_of(tail@) =~= seqs_of(parts@).subrange(a as int, i as int));
    }
    assert(seqs_of(tail@) =~= strs_of(command@).skip(a as int));
    let space = chars_of(" ");
    let joined = join_chars(&tail, space.as_slice());
    Some(string_of(joined.as_slice()))
}

pub open spec fn cmds_view(cmds: Seq<Vec<String>>) -> Seq<Seq<Seq<char>>> {
    cmds.map_values(|c: Vec<String>| strs_of(c@))
}

/// A legacy record's rules are proven to be its own when it is on the
/// kernel bridge, publishes ports, and every rule line it would have added
/// appears in the saved ruleset.
pub open spec fn legacy_rules_proven(record: ContainerRecord, saved: Seq<char>, commands: Seq<Seq<Seq<char>>>) -> bool {
    &&& opt_str(record.network_name) == Some("bridge"@)
    &&& record.ports@.len() > 0
    &&& forall|i: int|
        0 <= i < commands.len() ==> match save_rule(#[trigger] commands[i]) {
            Some(rule) => lines(saved).contains(rule),
            None => true,
        }
}

pub fn legacy_firewall_rules_proven(
    record: &ContainerRecord,
    saved: &str,
    commands: &Vec<Vec<String>>,
) -> (r: bool)
    ensures
        r == legacy_rules_proven(*record, saved@, cmds_view(commands@)),
{
    let is_bridge = match &record.network_name {
        Some(n) => str_eq(n.as_str(), "bridge"),
        None => false,
    };
    if !is_bridge || record.ports.len() == 0 {
        return false;
    }
    let sc = chars_of(saved);
    let sl = lines_of(sc.as_slice());
    let ghost cv = cmds_view(commands@);
    let mut i: usize = 0;
    while i < commands.len()
        invariant
            opt_str(record.network_name) == Some("bridge"@),
            record.ports@.len() > 0,
            cv == cmds_view(commands@),
            seqs_of(sl@) == lines(saved@),
            i <= cv.len(),
            forall|j: int|
                0 <= j < i ==> match save_rule(#[trigger] cv[j]) {
                    Some(rule) => lines(saved@).contains(rule),
                    None => true,
                },
        decreases commands.len() - i,
    {
        assert(cv[i as int] == strs_of(commands@[i as int]@));
        match iptables_save_rule(commands[i].as_slice()) {
            Some(rule) => {
                let rc = chars_of(rule.as_str());
                if !contains_line(&sl, &rc) {
                    return false;
                }
            },
            None => {},
        }
        i += 1;
    }
    true
}

/// Another record still relies on the global masquerade rule: a legacy
/// bridge record without ownership metadata.
pub open spec fn keeps_global_masquerade(record: ContainerRecord, all: Seq<ContainerRecord>) -> bool {
    exists|i: int|
        0 <= i < all.len() && (#[trigger] all[i]).id@ != record.id@ && opt_str(all[i].network_name)
            == Some("bridge"@) && all[i].network_ownership is None
}

/// The legacy commands to undo, last first; the global masquerade rule (the
/// last command) stays while another legacy bridge record relies on it.
pub open spec fn legacy_cleanup(record: ContainerRecord, all: Seq<ContainerRecord>, commands: Seq<Seq<Seq<char>>>) -> Seq<Seq<Seq<char>>> {
    let kept = if keeps_global_masquerade(record, all) && commands.len() > 0 {
        commands.drop_last()
    } else {
        commands
    };
    kept.reverse()
}

pub fn legacy_cleanup_plan(
    record: &ContainerRecord,
    all_records: &[ContainerRecord],
    commands: Vec<Vec<String>>,
) -> (r: Vec<Vec<String>>)
    ensures
        cmds_view(r@) == legacy_cleanup(*record, all_records@, cmds_view(commands@)),
{
    let mut keep = false;
    let mut i: usize = 0;
    while i < all_records.len()
        invariant
            i <= all_records@.len(),
            keep == exists|j: int|
                0 <= j < i && (#[trigger] all_records@[j]).id@ != record.id@ && opt_str(
                    all_records@[j].network_name,
                ) == Some("bridge"@) && all_records@[j].network_ownership is None,
        decreases all_records.len() - i,
    {
        let c = &all_records[i];
        let bridge = match &c.network_name {
            Some(n) => str_eq(n.as_str(), "bridge"),
            None => false,
        };
        if !crate::records::string_eq(&c.id, &record.id) && bridge && c.network_ownership.is_none() {
            keep = true;
        }
        i += 1;
    }
    let mut commands = commands;
    let ghost all_cmds = cmds_view(commands@);
    if keep && commands.len() > 0 {
        commands.pop();
        assert(cmds_view(commands@) =~= all_cmds.drop_last());
    }
    let ghost kept = cmds_view(commands@);
    let mut r: Vec<Vec<String>> = Vec::new();
    let n = commands.len();
    let mut k: usize = n;
    while k > 0
        invariant
            n == commands@.len(),
            kept == cmds_view(commands@),
            k <= n,
            cmds_view(r@) == kept.subrange(k as int, n as int).reverse(),
        decreases k,
    {
        k -= 1;
        let ghost r0 = cmds_view(r@);
        r.push(commands[k].clone());
        proof {
            assert(cmds_view(r@) =~= r0.push(kept[k as int]));
            assert(cmds_view(r@) =~= kept.subrange(k as int, n as int).reverse());
        }
    }
    assert(kept.subrange(0, n as int) =~= kept);
    r
}

/// The deletion form of a proven legacy rule: its first `-A` becomes `-D`.
pub fn legacy_rule_deletion(command: Vec<String>) -> (r: Result<Vec<String>, RuntimeError>)
    ensures
        r matches Ok(d) ==> exists|i: int|
            is_first_append(strs_of(command@), i) && strs_of(d@) == strs_of(command@).update(
                i,
                "-D"@,
            ),
        r matches Err(e) ==> (forall|i: int| !is_first_append(strs_of(command@), i)) && e@
            == ErrorView::Network("malformed proven legacy firewall command"@),
        r is Err <==> forall|i: int| !is_first_append(strs_of(command@), i),
{
    match first_append(command.as_slice()) {
        None => Err(
            RuntimeError::Network(String::from_str("malformed proven legacy firewall command")),
        ),
        Some(a) => {
            let mut d = command;
            let ghost c0 = strs_of(d@);
            d.set(a, String::from_str("-D"));
            assert(strs_of(d@) =~= c0.update(a as int, "-D"@));
            Ok(d)
        },
    }
}

} // verus!
