//! Character-level models of the `str` operations that the runtime's
//! parsers rely on (`trim`, `split`, `lines`, `split_whitespace`, decimal and
//! hexadecimal parsing, ASCII case folding), each with an executable
//! counterpart that is proved to compute the model.

use vstd::prelude::*;
use vstd::string::StrSliceExecFns;
use vstd::string::StringExecFns;

verus! {

/// Unicode `White_Space`, which is what `char::is_whitespace` tests.
pub open spec fn is_ws(c: char) -> bool {
    ||| c == ' ' || c == '\t' || c == '\n' || c == '\r'
    ||| c == '\u{0B}' || c == '\u{0C}'
    ||| c == '\u{85}' || c == '\u{A0}' || c == '\u{1680}'
    ||| ('\u{2000}' <= c && c <= '\u{200A}')
    ||| c == '\u{2028}' || c == '\u{2029}' || c == '\u{202F}' || c == '\u{205F}'
    ||| c == '\u{3000}'
}

pub fn char_is_ws(c: char) -> (b: bool)
    ensures
        b == is_ws(c),
{
    c == ' ' || c == '\t' || c == '\n' || c == '\r' || c == '\u{0B}' || c == '\u{0C}'
        || c == '\u{85}' || c == '\u{A0}' || c == '\u{1680}' || ('\u{2000}' <= c && c
        <= '\u{200A}') || c == '\u{2028}' || c == '\u{2029}' || c == '\u{202F}' || c
        == '\u{205F}' || c == '\u{3000}'
}

pub open spec fn is_ascii_digit(c: char) -> bool {
    '0' <= c && c <= '9'
}

pub open spec fn is_ascii_upper(c: char) -> bool {
    'A' <= c && c <= 'Z'
}

pub open spec fn is_ascii_lower(c: char) -> bool {
    'a' <= c && c <= 'z'
}

pub open spec fn is_ascii_alnum(c: char) -> bool {
    is_ascii_digit(c) || is_ascii_upper(c) || is_ascii_lower(c)
}

pub fn char_is_ascii_alnum(c: char) -> (b: bool)
    ensures
        b == is_ascii_alnum(c),
{
    ('0' <= c && c <= '9') || ('A' <= c && c <= 'Z') || ('a' <= c && c <= 'z')
}

/// `char::to_ascii_lowercase`.
pub open spec fn lower_char(c: char) -> char {
    if is_ascii_upper(c) {
        ((c as u32) + 32) as char
    } else {
        c
    }
}

pub fn char_to_lower(c: char) -> (r: char)
    ensures
        r == lower_char(c),
{
    if 'A' <= c && c <= 'Z' {
        let v: u8 = ((c as u32) + 32) as u8;
        v as char
    } else {
        c
    }
}

/// `str::to_ascii_lowercase`.
pub open spec fn lower(s: Seq<char>) -> Seq<char> {
    s.map_values(|c: char| lower_char(c))
}

} // verus!

verus! {

/// The characters of a string slice, in order.
pub fn chars_of(s: &str) -> (out: Vec<char>)
    ensures
        out@ == s@,
{
    let n = s.unicode_len();
    let mut out: Vec<char> = Vec::new();
    let mut i: usize = 0;
    while i < n
        invariant
            n == s@.len(),
            i <= n,
            out@ == s@.subrange(0, i as int),
        decreases n - i,
    {
        out.push(s.get_char(i));
        i = i + 1;
    }
    out
}

/// `String::from_iter` over a slice of characters.
#[verifier::external_body]
pub(crate) fn string_of(chars: &[char]) -> (s: String)
    ensures
        s@ == chars@,
{
    chars.iter().collect()
}

/// The views of a sequence of character vectors.
pub open spec fn seqs_of(v: Seq<Vec<char>>) -> Seq<Seq<char>> {
    v.map_values(|x: Vec<char>| x@)
}

pub open spec fn strs_of(v: Seq<String>) -> Seq<Seq<char>> {
    v.map_values(|x: String| x@)
}

pub fn lower_chars(s: &Vec<char>) -> (r: Vec<char>)
    ensures
        r@ == lower(s@),
{
    let mut r: Vec<char> = Vec::new();
    let mut i: usize = 0;
    while i < s.len()
        invariant
            i <= s.len(),
            r@ == lower(s@.take(i as int)),
        decreases s.len() - i,
    {
        r.push(char_to_lower(s[i]));
        i += 1;
        assert(r@ =~= lower(s@.take(i as int)));
    }
    assert(s@.take(s@.len() as int) =~= s@);
    r
}

pub fn chars_eq(a: &[char], b: &[char]) -> (r: bool)
    ensures
        r == (a@ == b@),
{
    if a.len() != b.len() {
        return false;
    }
    let mut i: usize = 0;
    while i < a.len()
        invariant
            a@.len() == b@.len(),
            i <= a@.len(),
            forall|j: int| 0 <= j < i ==> a@[j] == b@[j],
        decreases a.len() - i,
    {
        if a[i] != b[i] {
            return false;
        }
        i += 1;
    }
    assert(a@ =~= b@);
    true
}

pub open spec fn starts_with(s: Seq<char>, p: Seq<char>) -> bool {
    p.len() <= s.len() && s.take(p.len() as int) == p
}

pub open spec fn ends_with(s: Seq<char>, p: Seq<char>) -> bool {
    p.len() <= s.len() && s.skip(s.len() - p.len()) == p
}

pub fn chars_starts_with(s: &[char], p: &[char]) -> (r: bool)
    ensures
        r == starts_with(s@, p@),
{
    if p.len() > s.len() {
        return false;
    }
    let mut i: usize = 0;
    while i < p.len()
        invariant
            p@.len() <= s@.len(),
            i <= p@.len(),
            forall|j: int| 0 <= j < i ==> s@[j] == p@[j],
        decreases p.len() - i,
    {
        if s[i] != p[i] {
            assert(s@.take(p@.len() as int)[i as int] != p@[i as int]);
            return false;
        }
        i += 1;
    }
    assert(s@.take(p@.len() as int) =~= p@);
    true
}

pub fn chars_ends_with(s: &[char], p: &[char]) -> (r: bool)
    ensures
        r == ends_with(s@, p@),
{
    if p.len() > s.len() {
        return false;
    }
    let slen = s.len();
    let off = s.len() - p.len();
    let mut i: usize = 0;
    while i < p.len()
        invariant
            slen == s@.len(),
            p@.len() <= s@.len(),
            off == s@.len() - p@.len(),
            i <= p@.len(),
            forall|j: int| 0 <= j < i ==> s@[off + j] == p@[j],
        decreases p.len() - i,
    {
        if s[off + i] != p[i] {
            assert(s@.skip(off as int)[i as int] != p@[i as int]);
            return false;
        }
        i += 1;
    }
    assert(s@.skip(off as int) =~= p@);
    true
}

/// Whether `c` occurs in `s`.
pub fn chars_contain(s: &[char], c: char) -> (r: bool)
    ensures
        r == s@.contains(c),
{
    let mut i: usize = 0;
    while i < s.len()
        invariant
            i <= s@.len(),
            forall|j: int| 0 <= j < i ==> s@[j] != c,
        decreases s.len() - i,
    {
        if s[i] == c {
            assert(s@[i as int] == c);
            return true;
        }
        i += 1;
    }
    false
}

/// Whether `p` occurs as a contiguous block of `s` (`str::contains` with a
/// string pattern).
pub open spec fn has_infix(s: Seq<char>, p: Seq<char>) -> bool {
    exists|k: int| 0 <= k && k + p.len() <= s.len() && #[trigger] s.subrange(k, k + p.len()) == p
}

pub fn chars_has_infix(s: &[char], p: &[char]) -> (r: bool)
    ensures
        r == has_infix(s@, p@),
{
    if p.len() > s.len() {
        return false;
    }
    let slen = s.len();
    let last = s.len() - p.len();
    let mut k: usize = 0;
    loop
        invariant
            slen == s@.len(),
            p@.len() <= s@.len(),
            last == s@.len() - p@.len(),
            k <= last,
            forall|m: int| 0 <= m < k ==> #[trigger] s@.subrange(m, m + p@.len()) != p@,
        decreases last - k,
    {
        let mut i: usize = 0;
        let mut same = true;
        while i < p.len()
            invariant
                slen == s@.len(),
                p@.len() <= s@.len(),
                k <= last,
                last == s@.len() - p@.len(),
                i <= p@.len(),
                same == (forall|j: int| 0 <= j < i ==> s@[k + j] == p@[j]),
            decreases p.len() - i,
        {
            if s[k + i] != p[i] {
                same = false;
            }
            i += 1;
        }
        if same {
            assert(s@.subrange(k as int, k + p@.len()) =~= p@);
            return true;
        } else {
            assert(!same);
            let ghost w = choose|j: int| 0 <= j < p@.len() && s@[k + j] != p@[j];
            assert(s@.subrange(k as int, k + p@.len())[w] != p@[w]);
        }
        if k == last {
            return false;
        }
        k += 1;
    }
}

} // verus!

verus! {

/// `str::split` on a single character, as a sequence of pieces.
pub open spec fn split_char(s: Seq<char>, sep: char) -> Seq<Seq<char>>
    decreases s.len(),
{
    if s.len() == 0 {
        seq![Seq::<char>::empty()]
    } else {
        let prev = split_char(s.drop_last(), sep);
        if s.last() == sep {
            prev.push(Seq::<char>::empty())
        } else {
            prev.update(prev.len() - 1, prev.last().push(s.last()))
        }
    }
}

pub proof fn lemma_split_nonempty(s: Seq<char>, sep: char)
    ensures
        split_char(s, sep).len() >= 1,
    decreases s.len(),
{
    if s.len() > 0 {
        lemma_split_nonempty(s.drop_last(), sep);
    }
}

pub fn split_chars(s: &[char], sep: char) -> (parts: Vec<Vec<char>>)
    ensures
        seqs_of(parts@) == split_char(s@, sep),
{
    let mut parts: Vec<Vec<char>> = Vec::new();
    let mut cur: Vec<char> = Vec::new();
    let mut i: usize = 0;
    proof {
        assert(s@.take(0) =~= Seq::<char>::empty());
        assert(seqs_of(parts@).push(cur@) =~= seq![Seq::<char>::empty()]);
    }
    while i < s.len()
        invariant
            i <= s@.len(),
            seqs_of(parts@).push(cur@) == split_char(s@.take(i as int), sep),
        decreases s.len() - i,
    {
        let c = s[i];
        let ghost before = seqs_of(parts@).push(cur@);
        proof {
            assert(s@.take(i + 1).drop_last() =~= s@.take(i as int));
            assert(s@.take(i + 1).last() == c);
        }
        if c == sep {
            parts.push(cur);
            cur = Vec::new();
            proof {
                assert(seqs_of(parts@).push(cur@) =~= before.push(Seq::<char>::empty()));
            }
        } else {
            let ghost old_cur = cur@;
            cur.push(c);
            proof {
                assert(seqs_of(parts@).push(cur@) =~= before.update(
                    before.len() - 1,
                    before.last().push(c),
                ));
            }
        }
        i += 1;
    }
    parts.push(cur);
    proof {
        assert(s@.take(s@.len() as int) =~= s@);
    }
    parts
}

/// Removes one trailing carriage return.
pub open spec fn strip_cr(l: Seq<char>) -> Seq<char> {
    if l.len() > 0 && l.last() == '\r' {
        l.drop_last()
    } else {
        l
    }
}

/// `str::lines`: pieces between `\n`; a piece that a `\n` ends loses one
/// trailing `\r`; a final empty piece is not a line.
pub open spec fn lines(s: Seq<char>) -> Seq<Seq<char>> {
    let p = split_char(s, '\n');
    let n = p.len() as int;
    let k = if p[n - 1].len() == 0 {
        n - 1
    } else {
        n
    };
    Seq::new(k as nat, |i: int| if i < n - 1 { strip_cr(p[i]) } else { p[i] })
}

pub fn lines_of(s: &[char]) -> (out: Vec<Vec<char>>)
    ensures
        seqs_of(out@) == lines(s@),
{
    let parts = split_chars(s, '\n');
    proof {
        lemma_split_nonempty(s@, '\n');
    }
    let n = parts.len();
    let k = if parts[n - 1].len() == 0 {
        n - 1
    } else {
        n
    };
    let ghost p = split_char(s@, '\n');
    let mut out: Vec<Vec<char>> = Vec::new();
    let mut i: usize = 0;
    while i < k
        invariant
            n == parts@.len(),
            n >= 1,
            seqs_of(parts@) == p,
            p == split_char(s@, '\n'),
            k <= n,
            k as int == (if p[n - 1].len() == 0 { n - 1 } else { n as int }),
            i <= k,
            seqs_of(out@) == lines(s@).take(i as int),
        decreases k - i,
    {
        let piece = &parts[i];
        assert(piece@ == p[i as int]);
        let mut line: Vec<char> = piece.clone();
        if i + 1 < n {
            let len = line.len();
            if len > 0 && line[len - 1] == '\r' {
                line.pop();
            }
        }
        assert(line@ == lines(s@)[i as int]);
        let ghost o0 = seqs_of(out@);
        out.push(line);
        assert(seqs_of(out@) =~= o0.push(line@));
        assert(lines(s@).take(i + 1) =~= lines(s@).take(i as int).push(lines(s@)[i as int]));
        i += 1;
    }
    assert(lines(s@).take(k as int) =~= lines(s@));
    out
}

/// State of the `split_whitespace` scan: finished words and the current one.
pub open spec fn words_acc(s: Seq<char>) -> (Seq<Seq<char>>, Seq<char>)
    decreases s.len(),
{
    if s.len() == 0 {
        (Seq::<Seq<char>>::empty(), Seq::<char>::empty())
    } else {
        let (d, cur) = words_acc(s.drop_last());
        if is_ws(s.last()) {
            if cur.len() > 0 {
                (d.push(cur), Seq::<char>::empty())
            } else {
                (d, cur)
            }
        } else {
            (d, cur.push(s.last()))
        }
    }
}

/// `str::split_whitespace`.
pub open spec fn words(s: Seq<char>) -> Seq<Seq<char>> {
    let (d, cur) = words_acc(s);
    if cur.len() > 0 {
        d.push(cur)
    } else {
        d
    }
}

pub fn words_of(s: &[char]) -> (out: Vec<Vec<char>>)
    ensures
        seqs_of(out@) == words(s@),
{
    let mut done: Vec<Vec<char>> = Vec::new();
    let mut cur: Vec<char> = Vec::new();
    let mut i: usize = 0;
    proof {
        assert(s@.take(0) =~= Seq::<char>::empty());
        assert(seqs_of(done@) =~= Seq::<Seq<char>>::empty());
    }
    while i < s.len()
        invariant
            i <= s@.len(),
            (seqs_of(done@), cur@) == words_acc(s@.take(i as int)),
        decreases s.len() - i,
    {
        let c = s[i];
        proof {
            assert(s@.take(i + 1).drop_last() =~= s@.take(i as int));
            assert(s@.take(i + 1).last() == c);
        }
        let ghost d0 = seqs_of(done@);
        let ghost c0 = cur@;
        if char_is_ws(c) {
            if cur.len() > 0 {
                done.push(cur);
                cur = Vec::new();
                assert(seqs_of(done@) =~= d0.push(c0));
            }
        } else {
            cur.push(c);
        }
        i += 1;
    }
    proof {
        assert(s@.take(s@.len() as int) =~= s@);
    }
    if cur.len() > 0 {
        let ghost d0 = seqs_of(done@);
        let ghost c0 = cur@;
        done.push(cur);
        assert(seqs_of(done@) =~= d0.push(c0));
    }
    done
}

} // verus!

verus! {

pub open spec fn lead_ok(s: Seq<char>, k: int) -> bool {
    &&& 0 <= k <= s.len()
    &&& forall|j: int| 0 <= j < k ==> is_ws(#[trigger] s[j])
    &&& k == s.len() || !is_ws(s[k])
}

pub open spec fn trail_ok(s: Seq<char>, e: int) -> bool {
    &&& 0 <= e <= s.len()
    &&& forall|j: int| e <= j < s.len() ==> is_ws(#[trigger] s[j])
    &&& e == 0 || !is_ws(s[e - 1])
}

/// `str::trim_start`.
pub open spec fn trim_start(s: Seq<char>) -> Seq<char> {
    s.skip(choose|k: int| lead_ok(s, k))
}

/// `str::trim_end`.
pub open spec fn trim_end(s: Seq<char>) -> Seq<char> {
    s.take(choose|e: int| trail_ok(s, e))
}

/// `str::trim`.
pub open spec fn trim(s: Seq<char>) -> Seq<char> {
    trim_end(trim_start(s))
}

pub proof fn lemma_lead_unique(s: Seq<char>, k: int)
    requires
        lead_ok(s, k),
    ensures
        (choose|k2: int| lead_ok(s, k2)) == k,
        trim_start(s) == s.skip(k),
{
    let k2 = choose|k2: int| lead_ok(s, k2);
    assert(lead_ok(s, k2));
    if k2 < k {
        assert(is_ws(s[k2]));
    }
    if k < k2 {
        assert(is_ws(s[k]));
    }
}

pub proof fn lemma_trail_unique(s: Seq<char>, e: int)
    requires
        trail_ok(s, e),
    ensures
        (choose|e2: int| trail_ok(s, e2)) == e,
        trim_end(s) == s.take(e),
{
    let e2 = choose|e2: int| trail_ok(s, e2);
    assert(trail_ok(s, e2));
    if e2 < e {
        assert(is_ws(s[e - 1]));
    }
    if e < e2 {
        assert(is_ws(s[e2 - 1]));
    }
}

/// Index of the first character that is not white space.
pub fn lead_ws(s: &[char]) -> (k: usize)
    ensures
        lead_ok(s@, k as int),
{
    let mut k: usize = 0;
    while k < s.len() && char_is_ws(s[k])
        invariant
            k <= s@.len(),
            forall|j: int| 0 <= j < k ==> is_ws(#[trigger] s@[j]),
        decreases s.len() - k,
    {
        k += 1;
    }
    k
}

pub fn trim_chars(s: &[char]) -> (r: Vec<char>)
    ensures
        r@ == trim(s@),
{
    let k = lead_ws(s);
    proof {
        lemma_lead_unique(s@, k as int);
    }
    let ghost t = s@.skip(k as int);
    let slen = s.len();
    let mut e: usize = s.len() - k;
    while e > 0 && char_is_ws(s[k + e - 1])
        invariant
            slen == s@.len(),
            k <= s@.len(),
            t == s@.skip(k as int),
            e <= t.len(),
            forall|j: int| e <= j < t.len() ==> is_ws(#[trigger] t[j]),
        decreases e,
    {
        e -= 1;
    }
    proof {
        lemma_trail_unique(t, e as int);
    }
    let mut r: Vec<char> = Vec::new();
    let mut i: usize = 0;
    while i < e
        invariant
            slen == s@.len(),
            k <= s@.len(),
            t == s@.skip(k as int),
            e <= t.len(),
            i <= e,
            r@ == t.take(i as int),
        decreases e - i,
    {
        r.push(s[k + i]);
        i += 1;
        assert(r@ =~= t.take(i as int));
    }
    r
}

/// Value of an ASCII digit in bases up to 36; 99 for anything else.
pub open spec fn digit_value(c: char) -> int {
    if is_ascii_digit(c) {
        (c as int) - ('0' as int)
    } else if is_ascii_lower(c) {
        (c as int) - ('a' as int) + 10
    } else if is_ascii_upper(c) {
        (c as int) - ('A' as int) + 10
    } else {
        99
    }
}

pub fn char_digit_value(c: char) -> (v: u32)
    ensures
        v == digit_value(c),
{
    if '0' <= c && c <= '9' {
        (c as u32) - ('0' as u32)
    } else if 'a' <= c && c <= 'z' {
        (c as u32) - ('a' as u32) + 10
    } else if 'A' <= c && c <= 'Z' {
        (c as u32) - ('A' as u32) + 10
    } else {
        99
    }
}

pub open spec fn all_digits(d: Seq<char>, radix: int) -> bool {
    forall|i: int| 0 <= i < d.len() ==> digit_value(#[trigger] d[i]) < radix
}

pub open spec fn digits_value(d: Seq<char>, radix: int) -> int
    decreases d.len(),
{
    if d.len() == 0 {
        0
    } else {
        digits_value(d.drop_last(), radix) * radix + digit_value(d.last())
    }
}

/// The digits of an unsigned number: an optional leading `+` is dropped.
pub open spec fn unsigned_digits(s: Seq<char>) -> Seq<char> {
    if s.len() > 0 && s[0] == '+' {
        s.drop_first()
    } else {
        s
    }
}

/// `from_str_radix` (and `parse`) for an unsigned integer type whose
/// largest value is `max`.
pub open spec fn parse_unsigned(s: Seq<char>, radix: int, max: int) -> Option<int> {
    let d = unsigned_digits(s);
    if d.len() > 0 && all_digits(d, radix) && digits_value(d, radix) <= max {
        Some(digits_value(d, radix))
    } else {
        None
    }
}

pub proof fn lemma_digits_monotone(d: Seq<char>, radix: int, i: int)
    requires
        2 <= radix,
        all_digits(d, radix),
        0 <= i <= d.len(),
    ensures
        digits_value(d.take(i), radix) <= digits_value(d, radix),
        0 <= digits_value(d.take(i), radix),
    decreases d.len(),
{
    if i < d.len() {
        let p = d.drop_last();
        assert(all_digits(p, radix));
        assert(p.take(i) =~= d.take(i));
        lemma_digits_monotone(p, radix, i);
        lemma_digits_monotone(p, radix, p.len() as int);
        assert(p.take(p.len() as int) =~= p);
        assert(digit_value(d.last()) >= 0);
        assert(digits_value(p, radix) * radix >= digits_value(p, radix)) by (nonlinear_arith)
            requires
                digits_value(p, radix) >= 0,
                radix >= 2,
        ;
    } else {
        assert(d.take(i) =~= d);
        if d.len() > 0 {
            let p = d.drop_last();
            assert(all_digits(p, radix));
            lemma_digits_monotone(p, radix, p.len() as int);
            assert(p.take(p.len() as int) =~= p);
            assert(digits_value(p, radix) * radix >= 0) by (nonlinear_arith)
                requires
                    digits_value(p, radix) >= 0,
                    radix >= 2,
            ;
        }
    }
}

/// Parses an unsigned number in base 10 or 16 into a `u64`.
pub fn parse_u64_radix(s: &[char], radix: u64) -> (r: Option<u64>)
    requires
        radix == 10 || radix == 16,
    ensures
        r matches Some(v) ==> parse_unsigned(s@, radix as int, u64::MAX as int) == Some(v as int),
        r is None ==> parse_unsigned(s@, radix as int, u64::MAX as int) is None,
{
    let start: usize = if s.len() > 0 && s[0] == '+' {
        1
    } else {
        0
    };
    let ghost d = unsigned_digits(s@);
    proof {
        assert(d =~= s@.skip(start as int));
    }
    if start == s.len() {
        return None;
    }
    let mut acc: u64 = 0;
    let mut i: usize = start;
    while i < s.len()
        invariant
            start <= i <= s@.len(),
            d == s@.skip(start as int),
            d == unsigned_digits(s@),
            all_digits(d.take(i - start), radix as int),
            acc == digits_value(d.take(i - start), radix as int),
            radix == 10 || radix == 16,
        decreases s.len() - i,
    {
        let dv = char_digit_value(s[i]);
        let ghost j = i - start;
        proof {
            assert(d[j] == s@[i as int]);
            assert(d.take(j + 1).drop_last() =~= d.take(j));
        }
        if dv as u64 >= radix {
            assert(digit_value(d[j]) >= radix);
            assert(!all_digits(d, radix as int));
            return None;
        }
        proof {
            assert(all_digits(d.take(j + 1), radix as int));
        }
        let m = acc.checked_mul(radix);
        if m.is_none() {
            proof {
                if all_digits(d, radix as int) {
                    lemma_digits_monotone(d, radix as int, j + 1);
                    assert(digits_value(d.take(j + 1), radix as int) >= acc * radix);
                }
            }
            return None;
        }
        let a = m.unwrap().checked_add(dv as u64);
        if a.is_none() {
            proof {
                if all_digits(d, radix as int) {
                    lemma_digits_monotone(d, radix as int, j + 1);
                }
            }
            return None;
        }
        acc = a.unwrap();
        i += 1;
    }
    proof {
        assert(d.take(i - start) =~= d);
    }
    Some(acc)
}

} // verus!

verus! {

/// Equality of two string slices by their characters.
pub fn str_eq(a: &str, b: &str) -> (r: bool)
    ensures
        r == (a@ == b@),
{
    let x = chars_of(a);
    let y = chars_of(b);
    chars_eq(x.as_slice(), y.as_slice())
}

/// `a` followed by `b`.
pub fn concat(a: &str, b: &str) -> (r: String)
    ensures
        r@ == a@ + b@,
{
    let s = String::from_str(a);
    s.concat(b)
}

} // verus!

verus! {

/// `[..].join(sep)`.
pub open spec fn join(parts: Seq<Seq<char>>, sep: Seq<char>) -> Seq<char>
    decreases parts.len(),
{
    if parts.len() == 0 {
        Seq::<char>::empty()
    } else if parts.len() == 1 {
        parts[0]
    } else {
        join(parts.drop_last(), sep) + sep + parts.last()
    }
}

/// Joins character vectors with a separator.
pub fn join_chars(parts: &Vec<Vec<char>>, sep: &[char]) -> (r: Vec<char>)
    ensures
        r@ == join(seqs_of(parts@), sep@),
{
    let mut r: Vec<char> = Vec::new();
    let mut i: usize = 0;
    while i < parts.len()
        invariant
            i <= parts@.len(),
            r@ == join(seqs_of(parts@).take(i as int), sep@),
        decreases parts.len() - i,
    {
        let ghost t = seqs_of(parts@).take(i + 1);
        proof {
            assert(t.drop_last() =~= seqs_of(parts@).take(i as int));
        }
        if i > 0 {
            let mut k: usize = 0;
            let ghost r0 = r@;
            while k < sep.len()
                invariant
                    k <= sep@.len(),
                    r@ == r0 + sep@.take(k as int),
                decreases sep.len() - k,
            {
                r.push(sep[k]);
                k += 1;
                assert(r@ =~= r0 + sep@.take(k as int));
            }
            assert(sep@.take(sep@.len() as int) =~= sep@);
        }
        let ghost r1 = r@;
        let piece = &parts[i];
        let mut k: usize = 0;
        while k < piece.len()
            invariant
                k <= piece@.len(),
                r@ == r1 + piece@.take(k as int),
            decreases piece.len() - k,
        {
            r.push(piece[k]);
            k += 1;
            assert(r@ =~= r1 + piece@.take(k as int));
        }
        proof {
            assert(piece@.take(piece@.len() as int) =~= piece@);
            if i == 0 {
                assert(r@ =~= t[0]);
            }
        }
        i += 1;
    }
    assert(seqs_of(parts@).take(parts@.len() as int) =~= seqs_of(parts@));
    r
}

/// The character vectors of a list of strings.
pub fn strings_chars(v: &[String]) -> (r: Vec<Vec<char>>)
    ensures
        seqs_of(r@) == strs_of(v@),
{
    let mut r: Vec<Vec<char>> = Vec::new();
    let mut i: usize = 0;
    while i < v.len()
        invariant
            i <= v@.len(),
            seqs_of(r@) == strs_of(v@).take(i as int),
        decreases v.len() - i,
    {
        let ghost r0 = seqs_of(r@);
        let c = chars_of(v[i].as_str());
        r.push(c);
        assert(seqs_of(r@) =~= r0.push(v@[i as int]@));
        assert(strs_of(v@).take(i + 1) =~= strs_of(v@).take(i as int).push(v@[i as int]@));
        i += 1;
    }
    assert(strs_of(v@).take(v@.len() as int) =~= strs_of(v@));
    r
}

/// A copy of a list of strings.
pub fn copy_strings(v: &[String]) -> (r: Vec<String>)
    ensures
        strs_of(r@) == strs_of(v@),
{
    let mut r: Vec<String> = Vec::new();
    let mut i: usize = 0;
    while i < v.len()
        invariant
            i <= v@.len(),
            strs_of(r@) == strs_of(v@).take(i as int),
        decreases v.len() - i,
    {
        let ghost r0 = strs_of(r@);
        r.push(String::from_str(v[i].as_str()));
        assert(strs_of(r@) =~= r0.push(v@[i as int]@));
        assert(strs_of(v@).take(i + 1) =~= strs_of(v@).take(i as int).push(v@[i as int]@));
        i += 1;
    }
    assert(strs_of(v@).take(v@.len() as int) =~= strs_of(v@));
    r
}

/// Whether two lists of strings are equal, item by item.
pub fn strings_eq(a: &[String], b: &[String]) -> (r: bool)
    ensures
        r == (strs_of(a@) == strs_of(b@)),
{
    if a.len() != b.len() {
        proof {
            assert(strs_of(a@).len() != strs_of(b@).len());
        }
        return false;
    }
    let mut i: usize = 0;
    while i < a.len()
        invariant
            a@.len() == b@.len(),
            i <= a@.len(),
            forall|j: int| 0 <= j < i ==> strs_of(a@)[j] == strs_of(b@)[j],
        decreases a.len() - i,
    {
        if !str_eq(a[i].as_str(), b[i].as_str()) {
            proof {
                assert(strs_of(a@)[i as int] != strs_of(b@)[i as int]);
            }
            return false;
        }
        i += 1;
    }
    assert(strs_of(a@) =~= strs_of(b@));
    true
}

/// Strings made from character vectors.
pub fn strings_of(v: &Vec<Vec<char>>) -> (r: Vec<String>)
    ensures
        strs_of(r@) == seqs_of(v@),
{
    let mut r: Vec<String> = Vec::new();
    let mut i: usize = 0;
    while i < v.len()
        invariant
            i <= v@.len(),
            strs_of(r@) == seqs_of(v@).take(i as int),
        decreases v.len() - i,
    {
        let ghost r0 = strs_of(r@);
        let x = string_of(v[i].as_slice());
        r.push(x);
        assert(strs_of(r@) =~= r0.push(v@[i as int]@));
        assert(seqs_of(v@).take(i + 1) =~= seqs_of(v@).take(i as int).push(v@[i as int]@));
        i += 1;
    }
    assert(seqs_of(v@).take(v@.len() as int) =~= seqs_of(v@));
    r
}

/// `PathBuf::push` on Unix: an absolute segment replaces the path; otherwise
/// a `/` is added between a non-empty base that does not end in `/` and the
/// segment.
pub open spec fn path_join(base: Seq<char>, seg: Seq<char>) -> Seq<char> {
    if starts_with(seg, "/"@) {
        seg
    } else if base.len() == 0 || base.last() == '/' {
        base + seg
    } else {
        base + "/"@ + seg
    }
}

pub fn path_join_str(base: &str, seg: &str) -> (r: String)
    ensures
        r@ == path_join(base@, seg@),
{
    let b = chars_of(base);
    let s = chars_of(seg);
    let slash = chars_of("/");
    if chars_starts_with(s.as_slice(), slash.as_slice()) {
        return String::from_str(seg);
    }
    if b.len() == 0 || b[b.len() - 1] == '/' {
        concat(base, seg)
    } else {
        let with_sep = concat(base, "/");
        with_sep.concat(seg)
    }
}

} // verus!

verus! {

pub open spec fn is_first_index(s: Seq<char>, c: char, i: int) -> bool {
    &&& 0 <= i < s.len()
    &&& s[i] == c
    &&& forall|j: int| 0 <= j < i ==> s[j] != c
}

/// Position of the first occurrence of `c` in `s`.
pub open spec fn first_index(s: Seq<char>, c: char) -> Option<int> {
    if s.contains(c) {
        Some(choose|i: int| is_first_index(s, c, i))
    } else {
        None
    }
}

pub proof fn lemma_first_index(s: Seq<char>, c: char, i: int)
    requires
        is_first_index(s, c, i),
    ensures
        first_index(s, c) == Some(i),
{
    assert(s.contains(c)) by {
        assert(s[i] == c);
    }
    let k = choose|k: int| is_first_index(s, c, k);
    assert(is_first_index(s, c, k));
    if k < i {
        assert(s[k] != c);
    }
    if i < k {
        assert(s[i] != c);
    }
}

pub fn find_char(s: &[char], c: char) -> (r: Option<usize>)
    ensures
        r matches Some(i) ==> first_index(s@, c) == Some(i as int) && is_first_index(s@, c, i as int),
        r is None ==> first_index(s@, c) is None,
{
    let mut i: usize = 0;
    while i < s.len()
        invariant
            i <= s@.len(),
            forall|j: int| 0 <= j < i ==> s@[j] != c,
        decreases s.len() - i,
    {
        if s[i] == c {
            proof {
                lemma_first_index(s@, c, i as int);
            }
            return Some(i);
        }
        i += 1;
    }
    assert(!s@.contains(c));
    None
}

/// The elements of `s` from index `from` on.
pub fn chars_skip(s: &[char], from: usize) -> (r: Vec<char>)
    requires
        from <= s@.len(),
    ensures
        r@ == s@.skip(from as int),
{
    let mut r: Vec<char> = Vec::new();
    let mut i: usize = from;
    while i < s.len()
        invariant
            from <= i <= s@.len(),
            r@ == s@.subrange(from as int, i as int),
        decreases s.len() - i,
    {
        r.push(s[i]);
        i += 1;
        assert(r@ =~= s@.subrange(from as int, i as int));
    }
    assert(r@ =~= s@.skip(from as int));
    r
}

/// The first `n` elements of `s`.
pub fn chars_take(s: &[char], n: usize) -> (r: Vec<char>)
    requires
        n <= s@.len(),
    ensures
        r@ == s@.take(n as int),
{
    let mut r: Vec<char> = Vec::new();
    let mut i: usize = 0;
    while i < n
        invariant
            n <= s@.len(),
            i <= n,
            r@ == s@.take(i as int),
        decreases n - i,
    {
        r.push(s[i]);
        i += 1;
        assert(r@ =~= s@.take(i as int));
    }
    r
}

} // verus!

verus! {

/// Parses an unsigned number of base 10 or 16 whose value may not exceed
/// `max` (`u32::from_str`, `u16::from_str`, `u8::from_str_radix`, ...).
pub fn parse_bounded(s: &[char], radix: u64, max: u64) -> (r: Option<u64>)
    requires
        radix == 10 || radix == 16,
    ensures
        r matches Some(v) ==> parse_unsigned(s@, radix as int, max as int) == Some(v as int),
        r is None ==> parse_unsigned(s@, radix as int, max as int) is None,
{
    match parse_u64_radix(s, radix) {
        Some(v) => {
            if v <= max {
                Some(v)
            } else {
                None
            }
        },
        None => None,
    }
}

} // verus!

verus! {

pub open spec fn digit_char(d: nat) -> char
    recommends
        d < 10,
{
    (('0' as nat) + d) as char
}

/// The decimal text of a natural number (`Display` for unsigned integers).
pub open spec fn decimal(n: nat) -> Seq<char>
    decreases n,
{
    if n < 10 {
        seq![digit_char(n)]
    } else {
        decimal(n / 10).push(digit_char(n % 10))
    }
}

pub fn digit_to_char(d: u64) -> (c: char)
    requires
        d < 10,
    ensures
        c == digit_char(d as nat),
{
    let b: u8 = (48 + d) as u8;
    b as char
}

pub fn decimal_chars(n: u64) -> (r: Vec<char>)
    ensures
        r@ == decimal(n as nat),
    decreases n,
{
    if n < 10 {
        let mut r: Vec<char> = Vec::new();
        r.push(digit_to_char(n));
        assert(r@ =~= seq![digit_char(n as nat)]);
        r
    } else {
        let mut r = decimal_chars(n / 10);
        r.push(digit_to_char(n % 10));
        r
    }
}

pub fn decimal_string(n: u64) -> (r: String)
    ensures
        r@ == decimal(n as nat),
{
    let c = decimal_chars(n);
    string_of(c.as_slice())
}

/// `a` followed by the characters of `b`.
pub fn concat_chars(a: &str, b: &[char]) -> (r: String)
    ensures
        r@ == a@ + b@,
{
    let t = string_of(b);
    concat(a, t.as_str())
}

} // verus!

verus! {

/// `str::eq_ignore_ascii_case`.
pub fn eq_ignore_ascii_case(a: &str, b: &str) -> (r: bool)
    ensures
        r == (lower(a@) == lower(b@)),
{
    let x = chars_of(a);
    let y = chars_of(b);
    let lx = lower_chars(&x);
    let ly = lower_chars(&y);
    chars_eq(lx.as_slice(), ly.as_slice())
}

} // verus!

verus! {

/// The trimmed pieces that are not blank, in order.
pub open spec fn trimmed_nonempty(ps: Seq<Seq<char>>) -> Seq<Seq<char>>
    decreases ps.len(),
{
    if ps.len() == 0 {
        ps
    } else {
        let prev = trimmed_nonempty(ps.drop_last());
        if trim(ps.last()).len() > 0 {
            prev.push(trim(ps.last()))
        } else {
            prev
        }
    }
}

/// The entries of a comma-separated list: trimmed, blank ones dropped.
pub open spec fn comma_items(s: Seq<char>) -> Seq<Seq<char>> {
    trimmed_nonempty(split_char(s, ','))
}

/// Trims every piece and drops the blank ones.
pub fn trimmed_nonempty_chars(parts: &Vec<Vec<char>>) -> (out: Vec<Vec<char>>)
    ensures
        seqs_of(out@) == trimmed_nonempty(seqs_of(parts@)),
{
    let ghost ps = seqs_of(parts@);
    let mut out: Vec<Vec<char>> = Vec::new();
    let mut i: usize = 0;
    proof {
        assert(ps.take(0) =~= Seq::<Seq<char>>::empty());
        assert(seqs_of(out@) =~= Seq::<Seq<char>>::empty());
    }
    while i < parts.len()
        invariant
            ps == seqs_of(parts@),
            i <= ps.len(),
            seqs_of(out@) == trimmed_nonempty(ps.take(i as int)),
        decreases parts.len() - i,
    {
        let t = trim_chars(parts[i].as_slice());
        proof {
            assert(ps.take(i + 1).drop_last() =~= ps.take(i as int));
            assert(ps.take(i + 1).last() == parts@[i as int]@);
        }
        if t.len() > 0 {
            let ghost o = seqs_of(out@);
            out.push(t);
            assert(seqs_of(out@) =~= o.push(t@));
        }
        i += 1;
    }
    proof {
        assert(ps.take(ps.len() as int) =~= ps);
    }
    out
}

pub fn comma_list(raw: &str) -> (r: Vec<String>)
    ensures
        strs_of(r@) == comma_items(raw@),
{
    let c = chars_of(raw);
    let parts = split_chars(c.as_slice(), ',');
    let out = trimmed_nonempty_chars(&parts);
    strings_of(&out)
}

} // verus!

verus! {

pub open spec fn is_first_infix(s: Seq<char>, p: Seq<char>, k: int) -> bool {
    &&& 0 <= k && k + p.len() <= s.len()
    &&& s.subrange(k, k + p.len()) == p
    &&& forall|m: int| 0 <= m < k ==> #[trigger] s.subrange(m, m + p.len()) != p
}

/// `s.split(p).next()`: the text before the first occurrence of `p`.
pub open spec fn before_infix(s: Seq<char>, p: Seq<char>) -> Seq<char> {
    if exists|k: int| is_first_infix(s, p, k) {
        s.take(choose|k: int| is_first_infix(s, p, k))
    } else {
        s
    }
}

pub proof fn lemma_first_infix(s: Seq<char>, p: Seq<char>, k: int)
    requires
        is_first_infix(s, p, k),
    ensures
        (choose|j: int| is_first_infix(s, p, j)) == k,
{
    let c = choose|j: int| is_first_infix(s, p, j);
    assert(is_first_infix(s, p, c));
    if c < k {
        assert(s.subrange(c, c + p.len()) != p);
    }
    if k < c {
        assert(s.subrange(k, k + p.len()) != p);
    }
}

pub fn chars_before_infix(s: &[char], p: &[char]) -> (r: Vec<char>)
    ensures
        r@ == before_infix(s@, p@),
{
    let slen = s.len();
    if p.len() > s.len() {
        proof {
            assert forall|k: int| !is_first_infix(s@, p@, k) by {}
        }
        return chars_take(s, s.len());
    }
    let last = s.len() - p.len();
    let mut k: usize = 0;
    loop
        invariant
            slen == s@.len(),
            p@.len() <= s@.len(),
            last == s@.len() - p@.len(),
            k <= last,
            forall|m: int| 0 <= m < k ==> #[trigger] s@.subrange(m, m + p@.len()) != p@,
        decreases last - k,
    {
        let mut i: usize = 0;
        let mut same = true;
        while i < p.len()
            invariant
                slen == s@.len(),
                p@.len() <= s@.len(),
                k <= last,
                last == s@.len() - p@.len(),
                i <= p@.len(),
                same == (forall|j: int| 0 <= j < i ==> s@[k + j] == p@[j]),
            decreases p.len() - i,
        {
            if s[k + i] != p[i] {
                same = false;
            }
            i += 1;
        }
        if same {
            assert(s@.subrange(k as int, k + p@.len()) =~= p@);
            proof {
                assert(is_first_infix(s@, p@, k as int));
                lemma_first_infix(s@, p@, k as int);
            }
            return chars_take(s, k);
        } else {
            let ghost w = choose|j: int| 0 <= j < p@.len() && s@[k + j] != p@[j];
            assert(s@.subrange(k as int, k + p@.len())[w] != p@[w]);
        }
        if k == last {
            proof {
                assert forall|j: int| !is_first_infix(s@, p@, j) by {
                    if 0 <= j && j + p@.len() <= s@.len() {
                        assert(s@.subrange(j, j + p@.len()) != p@);
                    }
                }
                assert(s@.take(s@.len() as int) =~= s@);
            }
            return chars_take(s, s.len());
        }
        k += 1;
    }
}

} // verus!

verus! {

/// Where `x` first occurs among words.
pub open spec fn position_of(f: Seq<Seq<char>>, x: Seq<char>) -> Option<int>
    decreases f.len(),
{
    if f.len() == 0 {
        None
    } else if f.last() == x && position_of(f.drop_last(), x) is None {
        Some(f.len() - 1)
    } else {
        position_of(f.drop_last(), x)
    }
}

proof fn lemma_position_extend(f: Seq<Seq<char>>, x: Seq<char>, k: int)
    requires
        0 < k <= f.len(),
        position_of(f.take(k), x) is Some,
    ensures
        position_of(f, x) == position_of(f.take(k), x),
    decreases f.len() - k,
{
    if k < f.len() {
        assert(f.take(k + 1).drop_last() =~= f.take(k));
        lemma_position_extend(f, x, k + 1);
    } else {
        assert(f.take(k) =~= f);
    }
}

proof fn lemma_position_found(f: Seq<Seq<char>>, x: Seq<char>, i: int)
    requires
        0 <= i < f.len(),
        f[i] == x,
        position_of(f.take(i), x) is None,
    ensures
        position_of(f, x) == Some(i),
{
    assert(f.take(i + 1).drop_last() =~= f.take(i));
    assert(position_of(f.take(i + 1), x) == Some(i));
    lemma_position_extend(f, x, i + 1);
}

/// The index of the first word equal to `x`.
pub fn find_word(f: &Vec<Vec<char>>, x: &[char]) -> (r: Option<usize>)
    ensures
        match r {
            Some(i) => position_of(seqs_of(f@), x@) == Some(i as int) && i < f@.len(),
            None => position_of(seqs_of(f@), x@) is None,
        },
{
    let mut i: usize = 0;
    proof {
        assert(seqs_of(f@).take(0) =~= Seq::<Seq<char>>::empty());
    }
    while i < f.len()
        invariant
            i <= f@.len(),
            position_of(seqs_of(f@).take(i as int), x@) is None,
        decreases f.len() - i,
    {
        proof {
            assert(seqs_of(f@).take(i + 1).drop_last() =~= seqs_of(f@).take(i as int));
            assert(seqs_of(f@).take(i + 1).last() == f@[i as int]@);
        }
        if chars_eq(f[i].as_slice(), x) {
            proof {
                lemma_position_found(seqs_of(f@), x@, i as int);
            }
            return Some(i);
        }
        i += 1;
    }
    proof {
        assert(seqs_of(f@).take(f@.len() as int) =~= seqs_of(f@));
    }
    None
}

/// The word after the first occurrence of `name`, if both exist.
pub open spec fn word_after(f: Seq<Seq<char>>, name: Seq<char>) -> Option<Seq<char>> {
    match position_of(f, name) {
        Some(i) => if i + 1 < f.len() {
            Some(f[i + 1])
        } else {
            None
        },
        None => None,
    }
}

pub fn find_word_after(f: &Vec<Vec<char>>, name: &[char]) -> (r: Option<Vec<char>>)
    ensures
        match r {
            Some(w) => word_after(seqs_of(f@), name@) == Some(w@),
            None => word_after(seqs_of(f@), name@) is None,
        },
{
    let n = f.len();
    match find_word(f, name) {
        Some(i) => {
            if i + 1 < n {
                proof {
                    assert(seqs_of(f@)[i + 1] == f@[i + 1]@);
                }
                let w = chars_take(f[i + 1].as_slice(), f[i + 1].len());
                proof {
                    assert(f@[i + 1]@.take(f@[i + 1]@.len() as int) =~= f@[i + 1]@);
                }
                Some(w)
            } else {
                None
            }
        },
        None => None,
    }
}

} // verus!
