//! Identities that the runtime derives from digests: lifecycle lock paths,
//! mount-target digests, shared bridge network ids, container addresses and
//! WireGuard listen ports.

use crate::error::{ErrorView, RuntimeError};
use crate::text::{
    chars_of, concat, decimal, decimal_string, is_ascii_digit, parse_bounded, parse_unsigned,
    path_join, path_join_str, seqs_of, split_char, split_chars,
};
use sha2::Digest;
use vstd::prelude::*;
use vstd::string::StringExecFns;
use vstd::string::StringSliceAdditionalSpecFns;
use vstd::utf8::encode_utf8;

verus! {

/// What SHA-256 computes of a byte string.
pub uninterp spec fn sha256_digest(data: Seq<u8>) -> Seq<u8>;

/// What SHAKE256, read out to 32 bytes, computes of a byte string.
pub uninterp spec fn shake256_256_digest(data: Seq<u8>) -> Seq<u8>;

/// `sha2::Sha256::digest`. The contract only names the 32 bytes it returns:
/// equal inputs give equal digests; nothing else of SHA-256 is stated.
#[verifier::external_body]
pub(crate) fn sha256(data: &[u8]) -> (r: [u8; 32])
    ensures
        r@ == sha256_digest(data@),
{
    sha2::Sha256::digest(data).into()
}

/// `rvf_crypto::shake256_256`. The contract only names the 32 bytes it
/// returns: equal inputs give equal digests; nothing else of SHAKE256 is
/// stated.
#[verifier::external_body]
pub(crate) fn shake256_256(data: &[u8]) -> (r: [u8; 32])
    ensures
        r@ == shake256_256_digest(data@),
{
    rvf_crypto::shake256_256(data)
}

/// A lowercase hexadecimal digit.
pub open spec fn hex_char(n: int) -> char {
    if n < 10 {
        (n + 48) as char
    } else {
        (n + 87) as char
    }
}

/// Lowercase hexadecimal text of bytes, two digits a byte, high nibble first.
pub open spec fn hex_lower(b: Seq<u8>) -> Seq<char>
    decreases b.len(),
{
    if b.len() == 0 {
        Seq::<char>::empty()
    } else {
        hex_lower(b.drop_last()) + seq![hex_char(b.last() as int / 16), hex_char(b.last() as int % 16)]
    }
}

/// `hex::encode`: lowercase hexadecimal, two digits a byte, high nibble
/// first, as the crate documents it.
#[verifier::external_body]
pub(crate) fn hex_encode(data: &[u8]) -> (r: String)
    ensures
        r@ == hex_lower(data@),
{
    hex::encode(data)
}

/// `a` followed by `b`.
pub fn bytes_concat(a: &[u8], b: &[u8]) -> (r: Vec<u8>)
    ensures
        r@ == a@ + b@,
{
    let mut r: Vec<u8> = Vec::new();
    let mut i: usize = 0;
    while i < a.len()
        invariant
            i <= a@.len(),
            r@ == a@.take(i as int),
        decreases a.len() - i,
    {
        r.push(a[i]);
        i += 1;
        proof {
            assert(r@ =~= a@.take(i as int));
        }
    }
    let mut j: usize = 0;
    while j < b.len()
        invariant
            i == a@.len(),
            j <= b@.len(),
            r@ == a@ + b@.take(j as int),
        decreases b.len() - j,
    {
        r.push(b[j]);
        j += 1;
        proof {
            assert(r@ =~= a@ + b@.take(j as int));
        }
    }
    proof {
        assert(a@.take(a@.len() as int) =~= a@);
        assert(b@.take(b@.len() as int) =~= b@);
    }
    r
}

/// The first `n` bytes.
pub fn bytes_take(a: &[u8], n: usize) -> (r: Vec<u8>)
    requires
        n <= a@.len(),
    ensures
        r@ == a@.take(n as int),
{
    let mut r: Vec<u8> = Vec::new();
    let mut i: usize = 0;
    while i < n
        invariant
            n <= a@.len(),
            i <= n,
            r@ == a@.take(i as int),
        decreases n - i,
    {
        r.push(a[i]);
        i += 1;
        proof {
            assert(r@ =~= a@.take(i as int));
        }
    }
    r
}

/// `rand::Rng::random` on the thread's generator (`rand::rng()`), for
/// sixteen bytes. Nothing is promised of their values.
#[verifier::external_body]
fn random_id_bytes() -> (r: [u8; 16]) {
    let mut rng = rand::rng();
    rand::Rng::random(&mut rng)
}

/// The container id that sixteen bytes spell: two lowercase hex digits a byte.
pub fn container_id_from_bytes(bytes: &[u8; 16]) -> (r: String)
    ensures
        r@ == hex_lower(bytes@),
{
    hex_encode(bytes)
}

/// A fresh container id: sixteen random bytes in lowercase hex.
pub fn generate_container_id() -> (r: String)
    ensures
        exists|b: Seq<u8>| b.len() == 16 && r@ == hex_lower(b),
{
    let bytes = random_id_bytes();
    let id = container_id_from_bytes(&bytes);
    assert(bytes@.len() == 16 && id@ == hex_lower(bytes@));
    id
}

/// The lock file that serialises lifecycle operations on one container:
/// `<runtime_dir>/lifecycle-locks/<hex SHA-256 of the id>.lock`.
pub open spec fn lock_path(runtime_dir: Seq<char>, container_id: Seq<char>) -> Seq<char> {
    path_join(
        path_join(runtime_dir, "lifecycle-locks"@),
        hex_lower(sha256_digest(encode_utf8(container_id))) + ".lock"@,
    )
}

pub fn lifecycle_lock_path(runtime_dir: &str, container_id: &str) -> (r: String)
    ensures
        r@ == lock_path(runtime_dir@, container_id@),
{
    let digest = sha256(container_id.as_bytes());
    let name = hex_encode(&digest);
    let file = concat(name.as_str(), ".lock");
    let dir = path_join_str(runtime_dir, "lifecycle-locks");
    path_join_str(dir.as_str(), file.as_str())
}

/// The domain-separated digest that names a mount target.
pub open spec fn mount_digest(target: Seq<char>) -> Seq<u8> {
    sha256_digest(encode_utf8("ferrocrate/mount-target/v1"@) + encode_utf8(target))
}

pub fn mount_target_digest(target: &str) -> (r: [u8; 32])
    ensures
        r@ == mount_digest(target@),
{
    let data = bytes_concat("ferrocrate/mount-target/v1".as_bytes(), target.as_bytes());
    sha256(data.as_slice())
}

/// The id of a shared bridge network: `bridge-` and the first 12 bytes of
/// the SHAKE256 digest of `bridge\0<bridge>\0<cidr>`, in hexadecimal.
pub open spec fn bridge_id(bridge: Seq<char>, cidr: Seq<char>) -> Seq<char> {
    "bridge-"@ + hex_lower(
        shake256_256_digest(encode_utf8("bridge\0"@ + bridge + "\0"@ + cidr)).take(12),
    )
}

pub fn bridge_network_id(bridge: &str, cidr: &str) -> (r: String)
    ensures
        r@ == bridge_id(bridge@, cidr@),
{
    let a = concat("bridge\0", bridge);
    let b = concat(a.as_str(), "\0");
    let c = concat(b.as_str(), cidr);
    let digest = shake256_256(c.as_str().as_bytes());
    proof {
        assert(digest@.len() == 32);
    }
    let head = bytes_take(&digest, 12);
    let hex = hex_encode(head.as_slice());
    concat("bridge-", hex.as_str())
}

/// One decimal octet of a dotted IPv4 address as `Ipv4Addr`'s parser reads
/// it: one to three digits, no sign, no leading zero, at most 255.
pub open spec fn octet(p: Seq<char>) -> Option<u8> {
    if p.len() > 0 && is_ascii_digit(p[0]) && !(p[0] == '0' && p.len() > 1) {
        match parse_unsigned(p, 10, 255) {
            Some(v) => Some(v as u8),
            None => None,
        }
    } else {
        None
    }
}

/// The four octets of a dotted IPv4 address, or `None` when the text is not one.
pub open spec fn ipv4_octets(s: Seq<char>) -> Option<Seq<u8>> {
    let parts = split_char(s, '.');
    if parts.len() == 4 && octet(parts[0]) is Some && octet(parts[1]) is Some && octet(
        parts[2],
    ) is Some && octet(parts[3]) is Some {
        Some(
            seq![
                octet(parts[0])->0,
                octet(parts[1])->0,
                octet(parts[2])->0,
                octet(parts[3])->0,
            ],
        )
    } else {
        None
    }
}

/// Dotted decimal text of four octets.
pub open spec fn dotted(o: Seq<u8>) -> Seq<char> {
    decimal(o[0] as nat) + "."@ + decimal(o[1] as nat) + "."@ + decimal(o[2] as nat) + "."@
        + decimal(o[3] as nat)
}

fn parse_octet(p: &Vec<char>) -> (r: Option<u8>)
    ensures
        r == octet(p@),
{
    if p.len() == 0 || !('0' <= p[0] && p[0] <= '9') || (p[0] == '0' && p.len() > 1) {
        return None;
    }
    match parse_bounded(p.as_slice(), 10, 255) {
        Some(v) => Some(v as u8),
        None => None,
    }
}

/// The host octet of a container on a bridge: 2 to 201, from the first
/// byte of the SHAKE256 digest of its id.
pub open spec fn host_octet(container_id: Seq<char>) -> u8 {
    (2 + shake256_256_digest(encode_utf8(container_id))[0] % 200) as u8
}

/// The address of a container on a bridge whose gateway is `gateway`: the
/// gateway's network with the host octet in place of its last octet.
pub open spec fn container_ip(container_id: Seq<char>, gateway: Seq<char>) -> Result<
    Seq<char>,
    ErrorView,
> {
    match ipv4_octets(gateway) {
        None => Err(ErrorView::Network("invalid bridge gateway"@)),
        Some(o) => Ok(dotted(o.update(3, host_octet(container_id)))),
    }
}

/// The octets of a dotted IPv4 address, as `Ipv4Addr`'s parser reads it.
pub fn parse_ipv4(text: &str) -> (r: Option<[u8; 4]>)
    ensures
        match r {
            Some(o) => ipv4_octets(text@) == Some(o@),
            None => ipv4_octets(text@) is None,
        },
{
    let g = chars_of(text);
    let parts = split_chars(g.as_slice(), '.');
    if parts.len() != 4 {
        return None;
    }
    let a = parse_octet(&parts[0])?;
    let b = parse_octet(&parts[1])?;
    let c = parse_octet(&parts[2])?;
    let d = parse_octet(&parts[3])?;
    let o: [u8; 4] = [a, b, c, d];
    proof {
        assert(o@ =~= seq![a, b, c, d]);
    }
    Some(o)
}

/// An IPv4 address in dotted decimal, as `Ipv4Addr` displays it.
pub fn ipv4_text(o: [u8; 4]) -> (r: String)
    ensures
        r@ == dotted(o@),
{
    let s1 = concat(decimal_string(o[0] as u64).as_str(), ".");
    let s2 = concat(s1.as_str(), decimal_string(o[1] as u64).as_str());
    let s3 = concat(s2.as_str(), ".");
    let s4 = concat(s3.as_str(), decimal_string(o[2] as u64).as_str());
    let s5 = concat(s4.as_str(), ".");
    concat(s5.as_str(), decimal_string(o[3] as u64).as_str())
}

pub fn allocate_container_ip(container_id: &str, gateway: &str) -> (r: Result<
    String,
    RuntimeError,
>)
    ensures
        r matches Ok(s) ==> container_ip(container_id@, gateway@) == Ok::<Seq<char>, ErrorView>(
            s@,
        ),
        r matches Err(e) ==> container_ip(container_id@, gateway@) == Err::<Seq<char>, ErrorView>(
            e@,
        ),
{
    let o = match parse_ipv4(gateway) {
        Some(o) => o,
        None => {
            return Err(RuntimeError::Network(String::from_str("invalid bridge gateway")));
        },
    };
    let hash = shake256_256(container_id.as_bytes());
    proof {
        assert(hash@.len() == 32);
    }
    let host: u8 = 2 + hash[0] % 200;
    proof {
        assert(o@.update(3, host) =~= seq![o@[0], o@[1], o@[2], host]);
    }
    let s1 = concat(decimal_string(o[0] as u64).as_str(), ".");
    let s2 = concat(s1.as_str(), decimal_string(o[1] as u64).as_str());
    let s3 = concat(s2.as_str(), ".");
    let s4 = concat(s3.as_str(), decimal_string(o[2] as u64).as_str());
    let s5 = concat(s4.as_str(), ".");
    let s6 = concat(s5.as_str(), decimal_string(host as u64).as_str());
    Ok(s6)
}

/// Bytes spelled by hexadecimal text: an even number of ASCII hexadecimal
/// digits of either case, two a byte, high nibble first.
pub open spec fn hex_bytes(s: Seq<char>) -> Option<Seq<u8>> {
    if s.len() % 2 == 0 && forall|i: int| 0 <= i < s.len() ==> crate::host::is_hex_digit(#[trigger] s[i]) {
        Some(
            Seq::new(
                s.len() / 2,
                |i: int| (crate::text::digit_value(s[2 * i]) * 16 + crate::text::digit_value(s[2 * i + 1])) as u8,
            ),
        )
    } else {
        None
    }
}

/// `hex::decode`: an even number of hexadecimal digits (either case)
/// decodes two a byte, high nibble first; anything else is an error, here
/// `None`.
#[verifier::external_body]
pub(crate) fn hex_decode(text: &str) -> (r: Option<Vec<u8>>)
    ensures
        match r {
            Some(b) => hex_bytes(text@) == Some(b@),
            None => hex_bytes(text@) is None,
        },
{
    hex::decode(text).ok()
}

/// The WireGuard listen port of a container: the configured base (51820
/// when unset or not a port number) plus the first two digest bytes, read
/// big-endian, modulo 1000, saturating at 65535.
pub open spec fn listen_port(container_id: Seq<char>, base: Option<Seq<char>>) -> u16 {
    let b: int = match base {
        Some(raw) => match parse_unsigned(raw, 10, u16::MAX as int) {
            Some(v) => v,
            None => 51820,
        },
        None => 51820,
    };
    let h = shake256_256_digest(encode_utf8(container_id));
    let sum = b + (h[0] * 256 + h[1]) % 1000;
    if sum > u16::MAX { u16::MAX } else { sum as u16 }
}

pub fn wireguard_listen_port(container_id: &str, base: Option<&str>) -> (r: u16)
    ensures
        r == listen_port(container_id@, crate::paths::opt_view(base)),
{
    let b: u16 = match base {
        Some(raw) => {
            let v = chars_of(raw);
            match parse_bounded(v.as_slice(), 10, 0xffff) {
                Some(x) => x as u16,
                None => 51820,
            }
        },
        None => 51820,
    };
    let hash = shake256_256(container_id.as_bytes());
    proof {
        assert(hash@.len() == 32);
    }
    let offset: u16 = (hash[0] as u16) * 256 + (hash[1] as u16);
    b.saturating_add(offset % 1000)
}

} // verus!

verus! {

/// `2^n`.
pub open spec fn two_pow(n: nat) -> nat
    decreases n,
{
    if n == 0 {
        1
    } else {
        2 * two_pow((n - 1) as nat)
    }
}

/// The unsigned big-endian number that bytes spell.
pub open spec fn be_value(s: Seq<u8>) -> nat
    decreases s.len(),
{
    if s.len() == 0 {
        0
    } else {
        (be_value(s.drop_last()) * 256 + s.last()) as nat
    }
}

/// The IPv6 address of a container on a bridge whose gateway is `gateway`
/// with prefix length `prefix` (at most 128): the gateway's network, and a
/// host part drawn from the first 16 digest bytes of the id into
/// `2 ..= 2^h - 2` (h host bits), or 1 when that range is empty; with no
/// host bits, the gateway itself.
pub open spec fn ipv6_address(container_id: Seq<char>, gateway: u128, prefix: u8) -> int {
    let p: int = if prefix > 128 { 128 } else { prefix as int };
    let hb: nat = (128 - p) as nat;
    if hb == 0 {
        gateway as int
    } else {
        let h = two_pow(hb) as int;
        let n = be_value(shake256_256_digest(encode_utf8(container_id)).take(16)) as int;
        let host = if h >= 4 { 2 + n % (h - 3) } else { 1 };
        (gateway as int / h) * h + host
    }
}

proof fn lemma_two_pow_add(a: nat, b: nat)
    ensures
        two_pow(a + b) == two_pow(a) * two_pow(b),
    decreases a,
{
    if a > 0 {
        let a1 = (a - 1) as nat;
        lemma_two_pow_add(a1, b);
        assert(a1 + b + 1 == a + b);
        assert(two_pow(a + b) == 2 * two_pow(a1 + b));
        assert(two_pow(a) == 2 * two_pow(a1));
        assert(two_pow(a + b) == two_pow(a) * two_pow(b)) by (nonlinear_arith)
            requires
                two_pow(a + b) == 2 * two_pow(a1 + b),
                two_pow(a1 + b) == two_pow(a1) * two_pow(b),
                two_pow(a) == 2 * two_pow(a1),
        ;
    } else {
        assert(two_pow(0) == 1);
        assert(a + b == b);
    }
}

pub proof fn lemma_two_pow_positive(n: nat)
    ensures
        two_pow(n) >= 1,
    decreases n,
{
    if n > 0 {
        lemma_two_pow_positive((n - 1) as nat);
    }
}

proof fn lemma_two_pow_8()
    ensures
        two_pow(8) == 256,
{
    reveal_with_fuel(two_pow, 9);
}

proof fn lemma_two_pow_128()
    ensures
        two_pow(128) == 0x1_0000_0000_0000_0000_0000_0000_0000_0000nat,
{
    lemma_two_pow_8();
    lemma_two_pow_add(8, 8);
    assert(two_pow(16) == 65536);
    lemma_two_pow_add(16, 16);
    assert(two_pow(32) == 4294967296);
    lemma_two_pow_add(32, 32);
    assert(two_pow(64) == 18446744073709551616);
    lemma_two_pow_add(64, 64);
}

proof fn lemma_two_pow_fits(k: nat)
    requires
        k <= 127,
    ensures
        two_pow(k) <= 0x8000_0000_0000_0000_0000_0000_0000_0000nat,
{
    lemma_two_pow_add(k, (128 - k) as nat);
    lemma_two_pow_128();
    let t = (128 - k) as nat;
    lemma_two_pow_positive((t - 1) as nat);
    assert(two_pow(t) == 2 * two_pow((t - 1) as nat));
    assert(two_pow(k) <= 0x8000_0000_0000_0000_0000_0000_0000_0000nat) by (nonlinear_arith)
        requires
            two_pow(k) * two_pow(t) == 0x1_0000_0000_0000_0000_0000_0000_0000_0000nat,
            two_pow(t) >= 2,
    ;
}

proof fn lemma_be_bound(s: Seq<u8>)
    ensures
        be_value(s) < two_pow(8 * s.len()),
    decreases s.len(),
{
    if s.len() > 0 {
        let p = s.drop_last();
        lemma_be_bound(p);
        lemma_two_pow_add(8 * p.len(), 8);
        lemma_two_pow_8();
        assert(8 * s.len() == 8 * p.len() + 8);
        assert(be_value(s) < two_pow(8 * s.len())) by (nonlinear_arith)
            requires
                be_value(s) == be_value(p) * 256 + s.last(),
                be_value(p) < two_pow(8 * p.len()),
                s.last() < 256,
                two_pow(8 * s.len()) == two_pow(8 * p.len()) * 256,
        ;
    }
}

proof fn lemma_two_pow_64()
    ensures
        two_pow(64) == 0x1_0000_0000_0000_0000nat,
{
    lemma_two_pow_8();
    lemma_two_pow_add(8, 8);
    assert(two_pow(16) == 65536);
    lemma_two_pow_add(16, 16);
    assert(two_pow(32) == 4294967296);
    lemma_two_pow_add(32, 32);
}

/// The number that the first 8 bytes spell, big-endian.
pub(crate) fn be_u64_prefix(bytes: &[u8; 32]) -> (r: u64)
    ensures
        r == be_value(bytes@.take(8)),
{
    let mut acc: u64 = 0;
    let mut i: usize = 0;
    proof {
        assert(bytes@.take(0) =~= Seq::<u8>::empty());
    }
    while i < 8
        invariant
            bytes@.len() == 32,
            i <= 8,
            acc == be_value(bytes@.take(i as int)),
        decreases 8 - i,
    {
        proof {
            lemma_be_bound(bytes@.take(i as int));
            lemma_two_pow_64();
            lemma_two_pow_add(8 * i as nat + 8, (56 - 8 * i) as nat);
            lemma_two_pow_positive((56 - 8 * i) as nat);
            assert(two_pow(8 * i as nat + 8) <= two_pow(64)) by (nonlinear_arith)
                requires
                    two_pow(8 * i as nat + 8) * two_pow((56 - 8 * i) as nat) == two_pow(64),
                    two_pow((56 - 8 * i) as nat) >= 1,
            ;
            lemma_two_pow_add(8 * i as nat, 8);
            lemma_two_pow_8();
            assert(acc * 256 + 255 < 0x1_0000_0000_0000_0000nat) by (nonlinear_arith)
                requires
                    acc < two_pow(8 * i as nat),
                    two_pow(8 * i as nat + 8) == two_pow(8 * i as nat) * 256,
                    two_pow(8 * i as nat + 8) <= two_pow(64),
                    two_pow(64) == 0x1_0000_0000_0000_0000nat,
            {
            }
            assert(bytes@.take(i + 1).drop_last() =~= bytes@.take(i as int));
        }
        acc = acc * 256 + bytes[i] as u64;
        i += 1;
    }
    acc
}

fn be_u128(bytes: &[u8; 32]) -> (r: u128)
    ensures
        r == be_value(bytes@.take(16)),
{
    let mut acc: u128 = 0;
    let mut i: usize = 0;
    proof {
        assert(bytes@.take(0) =~= Seq::<u8>::empty());
    }
    while i < 16
        invariant
            bytes@.len() == 32,
            i <= 16,
            acc == be_value(bytes@.take(i as int)),
        decreases 16 - i,
    {
        proof {
            lemma_be_bound(bytes@.take(i as int));
            lemma_two_pow_128();
            lemma_two_pow_add(8 * i as nat + 8, (120 - 8 * i) as nat);
            lemma_two_pow_positive((120 - 8 * i) as nat);
            assert(two_pow(8 * i as nat + 8) <= two_pow(128)) by (nonlinear_arith)
                requires
                    two_pow(8 * i as nat + 8) * two_pow((120 - 8 * i) as nat) == two_pow(128),
                    two_pow((120 - 8 * i) as nat) >= 1,
            ;
            lemma_two_pow_add(8 * i as nat, 8);
            lemma_two_pow_8();
            assert(acc * 256 + 255 < 0x1_0000_0000_0000_0000_0000_0000_0000_0000nat) by (nonlinear_arith)
                requires
                    acc < two_pow(8 * i as nat),
                    two_pow(8 * i as nat + 8) == two_pow(8 * i as nat) * 256,
                    two_pow(8 * i as nat + 8) <= two_pow(128),
                    two_pow(128) == 0x1_0000_0000_0000_0000_0000_0000_0000_0000nat,
            {
            }
            assert(bytes@.take(i + 1).drop_last() =~= bytes@.take(i as int));
        }
        acc = acc * 256 + bytes[i] as u128;
        i += 1;
    }
    acc
}

pub fn allocate_container_ipv6(container_id: &str, gateway: u128, prefix: u8) -> (r: u128)
    ensures
        r == ipv6_address(container_id@, gateway, prefix),
{
    let p: u8 = if prefix > 128 {
        128
    } else {
        prefix
    };
    let hb: u8 = 128 - p;
    if hb == 0 {
        return gateway;
    }
    let hash = shake256_256(container_id.as_bytes());
    proof {
        assert(hash@.len() == 32);
    }
    let n = be_u128(&hash);
    if hb == 128 {
        proof {
            lemma_two_pow_128();
        }
        let host = 2 + n % (u128::MAX - 2);
        proof {
            assert((gateway as int / 0x1_0000_0000_0000_0000_0000_0000_0000_0000int) == 0);
        }
        return host;
    }
    let mut h: u128 = 1;
    let mut i: u8 = 0;
    while i < hb
        invariant
            hb < 128,
            i <= hb,
            h == two_pow(i as nat),
        decreases hb - i,
    {
        proof {
            lemma_two_pow_fits((i + 1) as nat);
            assert(two_pow((i + 1) as nat) == 2 * two_pow(i as nat));
        }
        h = h * 2;
        i += 1;
    }
    let host: u128 = if h >= 4 {
        2 + n % (h - 3)
    } else {
        1
    };
    proof {
        lemma_two_pow_add(hb as nat, (128 - hb) as nat);
        lemma_two_pow_128();
        lemma_two_pow_positive((128 - hb) as nat);
        let k = two_pow((128 - hb) as nat);
        assert((gateway as int / h as int) * h as int + h as int <= 0x1_0000_0000_0000_0000_0000_0000_0000_0000int) by (nonlinear_arith)
            requires
                h as int * k == 0x1_0000_0000_0000_0000_0000_0000_0000_0000int,
                h >= 2,
                gateway < 0x1_0000_0000_0000_0000_0000_0000_0000_0000int,
        {
            let q = gateway as int / h as int;
            assert(q * h as int <= gateway as int);
            assert(q < k);
        }
        assert(host < h) by (nonlinear_arith)
            requires
                h >= 2,
                host as int == (if h >= 4 { 2 + n as int % (h as int - 3) } else { 1 }),
        {
        }
    }
    (gateway / h) * h + host
}

} // verus!
