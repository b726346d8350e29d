//! Link-level values: bandwidth limits and their qdisc readback, MAC
//! addresses, and the IP protocol numbers of published ports.

use crate::error::{ErrorView, RuntimeError};
use crate::text::{
    chars_ends_with, chars_eq, chars_of, chars_take, concat, ends_with, lines, lines_of, lower,
    lower_chars, parse_bounded, parse_unsigned, seqs_of, split_char, split_chars, string_of, trim,
    trim_chars, words, words_of, is_ascii_digit, digit_value,
};
use vstd::prelude::*;
use vstd::string::StringExecFns;

verus! {

/// `str::trim_end_matches` with a non-empty string pattern: every trailing
/// repetition of `u` is removed.
pub open spec fn strip_suffix_all(s: Seq<char>, u: Seq<char>) -> Seq<char>
    decreases s.len(),
{
    if u.len() > 0 && ends_with(s, u) {
        strip_suffix_all(s.take(s.len() - u.len()), u)
    } else {
        s
    }
}

/// The unit that a bandwidth limit ends with, if any.
pub open spec fn bandwidth_unit(v: Seq<char>) -> Option<Seq<char>> {
    if ends_with(v, "kbit"@) {
        Some("kbit"@)
    } else if ends_with(v, "mbit"@) {
        Some("mbit"@)
    } else if ends_with(v, "gbit"@) {
        Some("gbit"@)
    } else {
        None
    }
}

/// A bandwidth limit is trimmed and lowercased; it must end with `kbit`,
/// `mbit` or `gbit`, and what precedes the unit must be a positive `u64`.
pub open spec fn bandwidth_limit(limit: Seq<char>) -> Result<Seq<char>, ErrorView> {
    let v = lower(trim(limit));
    match bandwidth_unit(v) {
        None => Err(ErrorView::Network("bandwidth limit must end with kbit, mbit, or gbit"@)),
        Some(u) => match parse_unsigned(strip_suffix_all(v, u), 10, u64::MAX as int) {
            Some(n) => if n != 0 {
                Ok(v)
            } else {
                Err(ErrorView::Network("bandwidth limit must be a positive integer with unit"@))
            },
            None => Err(ErrorView::Network("bandwidth limit must be a positive integer with unit"@)),
        },
    }
}

fn strip_unit(v: &Vec<char>, u: &Vec<char>) -> (r: Vec<char>)
    requires
        u@.len() > 0,
    ensures
        r@ == strip_suffix_all(v@, u@),
{
    let mut d = chars_take(v.as_slice(), v.len());
    proof {
        assert(v@.take(v@.len() as int) =~= v@);
    }
    while chars_ends_with(d.as_slice(), u.as_slice())
        invariant
            u@.len() > 0,
            strip_suffix_all(d@, u@) == strip_suffix_all(v@, u@),
        decreases d@.len(),
    {
        let n = d.len() - u.len();
        d = chars_take(d.as_slice(), n);
    }
    d
}

pub fn validate_bandwidth_limit(limit: &str) -> (r: Result<String, RuntimeError>)
    ensures
        r matches Ok(s) ==> bandwidth_limit(limit@) == Ok::<Seq<char>, ErrorView>(s@),
        r matches Err(e) ==> bandwidth_limit(limit@) == Err::<Seq<char>, ErrorView>(e@),
{
    let raw = chars_of(limit);
    let trimmed = trim_chars(raw.as_slice());
    let v = lower_chars(&trimmed);
    let kbit = chars_of("kbit");
    let mbit = chars_of("mbit");
    let gbit = chars_of("gbit");
    let unit = if chars_ends_with(v.as_slice(), kbit.as_slice()) {
        kbit
    } else if chars_ends_with(v.as_slice(), mbit.as_slice()) {
        mbit
    } else if chars_ends_with(v.as_slice(), gbit.as_slice()) {
        gbit
    } else {
        return Err(
            RuntimeError::Network(
                String::from_str("bandwidth limit must end with kbit, mbit, or gbit"),
            ),
        );
    };
    proof {
        reveal_strlit("kbit");
        reveal_strlit("mbit");
        reveal_strlit("gbit");
    }
    let digits = strip_unit(&v, &unit);
    match parse_bounded(digits.as_slice(), 10, u64::MAX) {
        Some(n) => {
            if n != 0 {
                Ok(string_of(v.as_slice()))
            } else {
                Err(
                    RuntimeError::Network(
                        String::from_str("bandwidth limit must be a positive integer with unit"),
                    ),
                )
            }
        },
        None => Err(
            RuntimeError::Network(
                String::from_str("bandwidth limit must be a positive integer with unit"),
            ),
        ),
    }
}

/// Some line of the qdisc report has `rate` followed by the expected rate
/// as consecutive whitespace-separated words.
/// The commands that shape an interface's egress with a token bucket of
/// rate `rate`, and that show its queueing discipline afterwards.
#[derive(Debug, Clone, PartialEq, Eq)]
pub struct BandwidthPlan {
    pub rate: String,
    pub apply: Vec<String>,
    pub show: Vec<String>,
}

pub open spec fn tbf_apply_command(link: Seq<char>, rate: Seq<char>) -> Seq<Seq<char>> {
    seq![
        "tc"@,
        "qdisc"@,
        "replace"@,
        "dev"@,
        link,
        "root"@,
        "tbf"@,
        "rate"@,
        rate,
        "burst"@,
        "32kbit"@,
        "latency"@,
        "400ms"@,
    ]
}

pub open spec fn tbf_show_command(link: Seq<char>) -> Seq<Seq<char>> {
    seq!["tc"@, "qdisc"@, "show"@, "dev"@, link]
}

/// How a bandwidth limit is applied to `link`: nothing for a blank limit;
/// otherwise the host must allow network changes and have `tc`, and the
/// limit must be valid.
pub open spec fn bandwidth_plan_of(
    link: Seq<char>,
    limit: Seq<char>,
    mutation: Result<(), ErrorView>,
    tc_available: bool,
) -> Result<Option<(Seq<char>, Seq<Seq<char>>, Seq<Seq<char>>)>, ErrorView> {
    if trim(limit).len() == 0 {
        Ok(None)
    } else if mutation is Err {
        Err(mutation->Err_0)
    } else if !tc_available {
        Err(ErrorView::Network("bandwidth limit requires tc command"@))
    } else {
        match bandwidth_limit(limit) {
            Err(e) => Err(e),
            Ok(rate) => Ok(Some((rate, tbf_apply_command(link, rate), tbf_show_command(link)))),
        }
    }
}

pub open spec fn plan_view(p: BandwidthPlan) -> (Seq<char>, Seq<Seq<char>>, Seq<Seq<char>>) {
    (p.rate@, crate::text::strs_of(p.apply@), crate::text::strs_of(p.show@))
}

/// Plans a bandwidth limit on `link`. `mutation` is whether the host allows
/// network changes, and `tc_available` whether it has `tc`.
pub fn bandwidth_limit_plan(
    link: &str,
    limit: &str,
    mutation: Result<(), RuntimeError>,
    tc_available: bool,
) -> (r: Result<Option<BandwidthPlan>, RuntimeError>)
    ensures
        match r {
            Ok(None) => bandwidth_plan_of(
                link@,
                limit@,
                match mutation {
                    Ok(()) => Ok(()),
                    Err(e) => Err(e@),
                },
                tc_available,
            ) == Ok::<Option<(Seq<char>, Seq<Seq<char>>, Seq<Seq<char>>)>, ErrorView>(None),
            Ok(Some(p)) => bandwidth_plan_of(
                link@,
                limit@,
                match mutation {
                    Ok(()) => Ok(()),
                    Err(e) => Err(e@),
                },
                tc_available,
            ) == Ok::<Option<(Seq<char>, Seq<Seq<char>>, Seq<Seq<char>>)>, ErrorView>(
                Some(plan_view(p)),
            ),
            Err(e) => bandwidth_plan_of(
                link@,
                limit@,
                match mutation {
                    Ok(()) => Ok(()),
                    Err(e) => Err(e@),
                },
                tc_available,
            ) == Err::<Option<(Seq<char>, Seq<Seq<char>>, Seq<Seq<char>>)>, ErrorView>(e@),
        },
{
    let raw = chars_of(limit);
    let trimmed = trim_chars(raw.as_slice());
    if trimmed.len() == 0 {
        return Ok(None);
    }
    if let Err(e) = mutation {
        return Err(e);
    }
    if !tc_available {
        return Err(RuntimeError::Network(String::from_str("bandwidth limit requires tc command")));
    }
    let rate = validate_bandwidth_limit(limit)?;
    let apply = vec![
        String::from_str("tc"),
        String::from_str("qdisc"),
        String::from_str("replace"),
        String::from_str("dev"),
        String::from_str(link),
        String::from_str("root"),
        String::from_str("tbf"),
        String::from_str("rate"),
        String::from_str(rate.as_str()),
        String::from_str("burst"),
        String::from_str("32kbit"),
        String::from_str("latency"),
        String::from_str("400ms"),
    ];
    let show = vec![
        String::from_str("tc"),
        String::from_str("qdisc"),
        String::from_str("show"),
        String::from_str("dev"),
        String::from_str(link),
    ];
    assert(crate::text::strs_of(apply@) =~= tbf_apply_command(link@, rate@));
    assert(crate::text::strs_of(show@) =~= tbf_show_command(link@));
    Ok(Some(BandwidthPlan { rate, apply, show }))
}

/// After shaping, the queueing discipline must be a token bucket that
/// reports the planned rate.
pub open spec fn bandwidth_applied(link: Seq<char>, rate: Seq<char>, shown: Seq<char>) -> Result<
    (),
    ErrorView,
> {
    if crate::text::has_infix(shown, "tbf"@) && reports_rate(shown, rate) {
        Ok(())
    } else {
        Err(
            ErrorView::Network(
                "bandwidth limit verification failed for "@ + link + ": expected tbf rate "@
                    + rate,
            ),
        )
    }
}

pub open spec fn reports_rate(output: Seq<char>, expected: Seq<char>) -> bool {
    exists|i: int, j: int|
        0 <= i < lines(output).len() && 0 <= j && j + 1 < words(lines(output)[i]).len() && #[trigger] words(
            lines(output)[i],
        )[j] == "rate"@ && words(lines(output)[i])[j + 1] == expected
}

pub fn qdisc_reports_rate(output: &str, expected_rate: &str) -> (r: bool)
    ensures
        r == reports_rate(output@, expected_rate@),
{
    let out = chars_of(output);
    let expected = chars_of(expected_rate);
    let rate = chars_of("rate");
    let ls = lines_of(out.as_slice());
    let mut i: usize = 0;
    while i < ls.len()
        invariant
            seqs_of(ls@) == lines(out@),
            out@ == output@,
            expected@ == expected_rate@,
            rate@ == "rate"@,
            i <= ls@.len(),
            forall|a: int, b: int|
                0 <= a < i && 0 <= b && b + 1 < words(lines(output@)[a]).len() ==> !(#[trigger] words(
                    lines(output@)[a],
                )[b] == "rate"@ && words(lines(output@)[a])[b + 1] == expected_rate@),
        decreases ls.len() - i,
    {
        let ws = words_of(ls[i].as_slice());
        proof {
            assert(seqs_of(ls@)[i as int] == ls@[i as int]@);
        }
        let mut j: usize = 0;
        let last: usize = if ws.len() > 0 {
            ws.len() - 1
        } else {
            0
        };
        while j < last
            invariant
                last == (if ws@.len() > 0 { ws@.len() - 1 } else { 0 }),
                i < ls@.len(),
                seqs_of(ls@) == lines(out@),
                out@ == output@,
                seqs_of(ws@) == words(lines(output@)[i as int]),
                rate@ == "rate"@,
                expected@ == expected_rate@,
                j <= ws@.len(),
                forall|b: int|
                    0 <= b < j && b + 1 < words(lines(output@)[i as int]).len() ==> !(#[trigger] words(
                        lines(output@)[i as int],
                    )[b] == "rate"@ && words(lines(output@)[i as int])[b + 1] == expected_rate@),
            decreases ws.len() - j,
        {
            proof {
                assert(seqs_of(ws@)[j as int] == ws@[j as int]@);
                assert(seqs_of(ws@)[j + 1] == ws@[j + 1]@);
            }
            if chars_eq(ws[j].as_slice(), rate.as_slice()) && chars_eq(
                ws[j + 1].as_slice(),
                expected.as_slice(),
            ) {
                proof {
                    assert(words(lines(output@)[i as int])[j as int] == "rate"@);
                    assert(words(lines(output@)[i as int])[j + 1] == expected_rate@);
                }
                return true;
            }
            j += 1;
        }
        i += 1;
    }
    false
}

/// `tcp` is 6 and `udp` is 17, in any ASCII case; anything else is refused.
pub open spec fn protocol_of(protocol: Seq<char>) -> Result<u8, ErrorView> {
    if lower(protocol) == "tcp"@ {
        Ok(6)
    } else if lower(protocol) == "udp"@ {
        Ok(17)
    } else {
        Err(ErrorView::Network("unsupported eBPF port protocol `"@ + protocol + "`"@))
    }
}

pub fn protocol_number(protocol: &str) -> (r: Result<u8, RuntimeError>)
    ensures
        r matches Ok(n) ==> protocol_of(protocol@) == Ok::<u8, ErrorView>(n),
        r matches Err(e) ==> protocol_of(protocol@) == Err::<u8, ErrorView>(e@),
{
    let p = chars_of(protocol);
    let l = lower_chars(&p);
    let tcp = chars_of("tcp");
    let udp = chars_of("udp");
    if chars_eq(l.as_slice(), tcp.as_slice()) {
        Ok(6)
    } else if chars_eq(l.as_slice(), udp.as_slice()) {
        Ok(17)
    } else {
        let head = concat("unsupported eBPF port protocol `", protocol);
        Err(RuntimeError::Network(concat(head.as_str(), "`")))
    }
}

/// The six octets of a colon-separated MAC address: each part is read by
/// `u8::from_str_radix(_, 16)`.
pub open spec fn mac_of(value: Seq<char>) -> Result<Seq<u8>, ErrorView> {
    let parts = split_char(value, ':');
    if (forall|i: int| 0 <= i < parts.len() ==> parse_unsigned(#[trigger] parts[i], 16, 255) is Some)
        && parts.len() == 6 {
        Ok(Seq::new(6, |i: int| parse_unsigned(parts[i], 16, 255)->0 as u8))
    } else {
        Err(ErrorView::Network("invalid MAC address `"@ + value + "`"@))
    }
}

fn mac_error(value: &str) -> (e: RuntimeError)
    ensures
        e@ == ErrorView::Network("invalid MAC address `"@ + value@ + "`"@),
{
    let head = concat("invalid MAC address `", value);
    RuntimeError::Network(concat(head.as_str(), "`"))
}

pub fn parse_mac(value: &str) -> (r: Result<[u8; 6], RuntimeError>)
    ensures
        r matches Ok(m) ==> mac_of(value@) == Ok::<Seq<u8>, ErrorView>(m@),
        r matches Err(e) ==> mac_of(value@) == Err::<Seq<u8>, ErrorView>(e@),
{
    let v = chars_of(value);
    let parts = split_chars(v.as_slice(), ':');
    let mut octets: Vec<u8> = Vec::new();
    let mut i: usize = 0;
    while i < parts.len()
        invariant
            seqs_of(parts@) == split_char(value@, ':'),
            i <= parts@.len(),
            octets@.len() == i,
            forall|j: int|
                0 <= j < i ==> parse_unsigned(#[trigger] split_char(value@, ':')[j], 16, 255)
                    == Some(octets@[j] as int),
        decreases parts.len() - i,
    {
        proof {
            assert(seqs_of(parts@)[i as int] == parts@[i as int]@);
        }
        match parse_bounded(parts[i].as_slice(), 16, 255) {
            Some(b) => {
                octets.push(b as u8);
            },
            None => {
                proof {
                    assert(!(parse_unsigned(split_char(value@, ':')[i as int], 16, 255) is Some));
                }
                return Err(mac_error(value));
            },
        }
        i += 1;
    }
    if parts.len() != 6 {
        return Err(mac_error(value));
    }
    let m: [u8; 6] = [octets[0], octets[1], octets[2], octets[3], octets[4], octets[5]];
    proof {
        let ps = split_char(value@, ':');
        assert(m@ =~= Seq::new(6, |i: int| parse_unsigned(ps[i], 16, 255)->0 as u8));
    }
    Ok(m)
}

/// A lowercase hexadecimal digit.
pub open spec fn nibble_char(n: int) -> char {
    if n < 10 {
        (n + 48) as char
    } else {
        (n + 87) as char
    }
}

/// Two lowercase hexadecimal digits.
pub open spec fn byte_hex(b: u8) -> Seq<char> {
    seq![nibble_char(b as int / 16), nibble_char(b as int % 16)]
}

/// `aa:bb:cc:dd:ee:ff` in lowercase hexadecimal.
pub open spec fn mac_text(mac: Seq<u8>) -> Seq<char> {
    byte_hex(mac[0]) + ":"@ + byte_hex(mac[1]) + ":"@ + byte_hex(mac[2]) + ":"@ + byte_hex(mac[3])
        + ":"@ + byte_hex(mac[4]) + ":"@ + byte_hex(mac[5])
}

fn nibble(n: u8) -> (c: char)
    requires
        n < 16,
    ensures
        c == nibble_char(n as int),
{
    if n < 10 {
        (n + 48) as char
    } else {
        (n + 87) as char
    }
}

fn push_byte_hex(out: &mut Vec<char>, b: u8)
    ensures
        final(out)@ == old(out)@ + byte_hex(b),
{
    out.push(nibble(b / 16));
    out.push(nibble(b % 16));
    proof {
        assert(final(out)@ =~= old(out)@ + byte_hex(b));
    }
}

pub fn format_mac(mac: [u8; 6]) -> (r: String)
    ensures
        r@ == mac_text(mac@),
{
    let mut out: Vec<char> = Vec::new();
    push_byte_hex(&mut out, mac[0]);
    out.push(':');
    push_byte_hex(&mut out, mac[1]);
    out.push(':');
    push_byte_hex(&mut out, mac[2]);
    out.push(':');
    push_byte_hex(&mut out, mac[3]);
    out.push(':');
    push_byte_hex(&mut out, mac[4]);
    out.push(':');
    push_byte_hex(&mut out, mac[5]);
    proof {
        reveal_strlit(":");
        assert(out@ =~= mac_text(mac@));
    }
    string_of(out.as_slice())
}

} // verus!

verus! {

/// The external side of the eBPF backend as the host route shows it.
#[derive(Debug, Clone, PartialEq, Eq)]
pub struct ExternalRoute {
    pub interface: String,
    pub address: [u8; 4],
}

/// The external interface and source address: each an explicit setting if
/// given, else the word after `dev` (respectively `src`) in the output of
/// `ip -4 route get`; the address must be a dotted IPv4 address.
pub open spec fn external_route(
    route: Seq<char>,
    interface: Option<Seq<char>>,
    address: Option<Seq<char>>,
) -> Result<(Seq<char>, Seq<u8>), ErrorView> {
    let f = words(route);
    let i = match interface {
        Some(v) => Some(v),
        None => crate::text::word_after(f, "dev"@),
    };
    let a = match address {
        Some(v) => Some(v),
        None => crate::text::word_after(f, "src"@),
    };
    if i is None {
        Err(ErrorView::Network("eBPF route has no external interface"@))
    } else if a is None {
        Err(ErrorView::Network("eBPF route has no external source IPv4"@))
    } else {
        match crate::hashing::ipv4_octets(a->0) {
            None => Err(ErrorView::Network("invalid eBPF external IPv4"@)),
            Some(o) => Ok((i->0, o)),
        }
    }
}

fn setting_or_word(setting: Option<&str>, f: &Vec<Vec<char>>, name: &str) -> (r: Option<String>)
    ensures
        (match r {
            Some(s) => Some(s@),
            None => None,
        }) == (match setting {
            Some(v) => Some(v@),
            None => crate::text::word_after(seqs_of(f@), name@),
        }),
{
    match setting {
        Some(v) => Some(String::from_str(v)),
        None => {
            let n = chars_of(name);
            match crate::text::find_word_after(f, n.as_slice()) {
                Some(w) => Some(string_of(w.as_slice())),
                None => None,
            }
        },
    }
}

pub fn external_route_of(route: &str, interface: Option<&str>, address: Option<&str>) -> (r:
    Result<ExternalRoute, RuntimeError>)
    ensures
        r matches Ok(x) ==> external_route(
            route@,
            crate::paths::opt_view(interface),
            crate::paths::opt_view(address),
        ) == Ok::<(Seq<char>, Seq<u8>), ErrorView>((x.interface@, x.address@)),
        r matches Err(e) ==> external_route(
            route@,
            crate::paths::opt_view(interface),
            crate::paths::opt_view(address),
        ) == Err::<(Seq<char>, Seq<u8>), ErrorView>(e@),
{
    let text = chars_of(route);
    let f = words_of(text.as_slice());
    let i = setting_or_word(interface, &f, "dev");
    let a = setting_or_word(address, &f, "src");
    let iface = match i {
        Some(v) => v,
        None => {
            return Err(RuntimeError::Network(String::from_str("eBPF route has no external interface")));
        },
    };
    let addr = match a {
        Some(v) => v,
        None => {
            return Err(
                RuntimeError::Network(String::from_str("eBPF route has no external source IPv4")),
            );
        },
    };
    match crate::hashing::parse_ipv4(addr.as_str()) {
        Some(o) => Ok(ExternalRoute { interface: iface, address: o }),
        None => Err(RuntimeError::Network(String::from_str("invalid eBPF external IPv4"))),
    }
}

/// How the next hop's MAC address is known: set explicitly, or to be read
/// from the neighbour table for the route's gateway.
#[derive(Debug, Clone, PartialEq, Eq)]
pub enum NextHop {
    Mac([u8; 6]),
    Gateway(String),
}

/// An explicit MAC setting is parsed; otherwise the route must name a
/// gateway (the word after `via`).
pub open spec fn next_hop(route: Seq<char>, mac: Option<Seq<char>>) -> Result<
    Result<Seq<u8>, Seq<char>>,
    ErrorView,
> {
    match mac {
        Some(m) => match mac_of(m) {
            Ok(b) => Ok(Ok(b)),
            Err(e) => Err(e),
        },
        None => match crate::text::word_after(words(route), "via"@) {
            Some(g) => Ok(Err(g)),
            None => Err(
                ErrorView::Network(
                    "eBPF default route has no next hop; set FERROCRATE_EBPF_NEXT_HOP_MAC"@,
                ),
            ),
        },
    }
}

pub fn route_next_hop(route: &str, mac: Option<&str>) -> (r: Result<NextHop, RuntimeError>)
    ensures
        r matches Ok(NextHop::Mac(b)) ==> next_hop(route@, crate::paths::opt_view(mac)) == Ok::<
            Result<Seq<u8>, Seq<char>>,
            ErrorView,
        >(Ok(b@)),
        r matches Ok(NextHop::Gateway(g)) ==> next_hop(route@, crate::paths::opt_view(mac))
            == Ok::<Result<Seq<u8>, Seq<char>>, ErrorView>(Err(g@)),
        r matches Err(e) ==> next_hop(route@, crate::paths::opt_view(mac)) == Err::<
            Result<Seq<u8>, Seq<char>>,
            ErrorView,
        >(e@),
{
    match mac {
        Some(m) => {
            let b = parse_mac(m)?;
            Ok(NextHop::Mac(b))
        },
        None => {
            let text = chars_of(route);
            let f = words_of(text.as_slice());
            let via = chars_of("via");
            match crate::text::find_word_after(&f, via.as_slice()) {
                Some(g) => Ok(NextHop::Gateway(string_of(g.as_slice()))),
                None => Err(
                    RuntimeError::Network(
                        String::from_str(
                            "eBPF default route has no next hop; set FERROCRATE_EBPF_NEXT_HOP_MAC",
                        ),
                    ),
                ),
            }
        },
    }
}

/// The MAC that the neighbour table shows after `lladdr` for the gateway;
/// an entry without one is unresolved, and a missing address reads as empty.
pub open spec fn neighbor_mac(neighbor: Seq<char>, gateway: Seq<char>) -> Result<Seq<u8>, ErrorView> {
    let f = words(neighbor);
    match crate::text::position_of(f, "lladdr"@) {
        None => Err(
            ErrorView::Network(
                "eBPF next-hop MAC for "@ + gateway
                    + " is unresolved; populate the neighbor entry or set FERROCRATE_EBPF_NEXT_HOP_MAC"@,
            ),
        ),
        Some(i) => mac_of(if i + 1 < f.len() { f[i + 1] } else { Seq::<char>::empty() }),
    }
}

pub fn neighbor_next_hop_mac(neighbor: &str, gateway: &str) -> (r: Result<[u8; 6], RuntimeError>)
    ensures
        r matches Ok(b) ==> neighbor_mac(neighbor@, gateway@) == Ok::<Seq<u8>, ErrorView>(b@),
        r matches Err(e) ==> neighbor_mac(neighbor@, gateway@) == Err::<Seq<u8>, ErrorView>(e@),
{
    let text = chars_of(neighbor);
    let f = words_of(text.as_slice());
    let n = f.len();
    let lladdr = chars_of("lladdr");
    match crate::text::find_word(&f, lladdr.as_slice()) {
        None => {
            let head = concat("eBPF next-hop MAC for ", gateway);
            Err(
                RuntimeError::Network(
                    concat(
                        head.as_str(),
                        " is unresolved; populate the neighbor entry or set FERROCRATE_EBPF_NEXT_HOP_MAC",
                    ),
                ),
            )
        },
        Some(i) => {
            if i + 1 < n {
                proof {
                    assert(seqs_of(f@)[i + 1] == f@[i + 1]@);
                }
                let w = string_of(f[i + 1].as_slice());
                parse_mac(w.as_str())
            } else {
                proof {
                    reveal_strlit("");
                    assert(""@ =~= Seq::<char>::empty());
                }
                parse_mac("")
            }
        },
    }
}

pub fn verify_bandwidth_applied(link: &str, rate: &str, shown: &str) -> (r: Result<
    (),
    RuntimeError,
>)
    ensures
        match r {
            Ok(()) => bandwidth_applied(link@, rate@, shown@) is Ok,
            Err(e) => bandwidth_applied(link@, rate@, shown@) == Err::<(), ErrorView>(e@),
        },
{
    let out = chars_of(shown);
    let tbf = chars_of("tbf");
    if crate::text::chars_has_infix(out.as_slice(), tbf.as_slice()) && qdisc_reports_rate(
        shown,
        rate,
    ) {
        Ok(())
    } else {
        let a = concat("bandwidth limit verification failed for ", link);
        let b = concat(a.as_str(), ": expected tbf rate ");
        Err(RuntimeError::Network(concat(b.as_str(), rate)))
    }
}

} // verus!
