//! Textual IP addresses: which strings are IPv4 or IPv6 addresses in the
//! notation that `IpAddr`'s parser accepts, and which are `u8` prefixes.
use vstd::prelude::*;

use crate::models::IpFamily;
use crate::text::{
    all_digits, dec_value, decimal_at, is_hex_digit, pieces, range_pieces, split, split_ranges,
};

verus! {

// ── IPv4 ────────────────────────────────────────────────────────────────────

/// One decimal octet: one to three digits, no leading zero, at most 255.
pub open spec fn is_dec_octet(p: Seq<char>) -> bool {
    &&& 1 <= p.len() <= 3
    &&& all_digits(p)
    &&& (p.len() == 1 || p[0] != '0')
    &&& dec_value(p) <= 255
}

/// Dotted-quad notation: four decimal octets separated by dots.
pub open spec fn is_ipv4_text(s: Seq<char>) -> bool {
    &&& split(s, '.').len() == 4
    &&& forall|k: int| 0 <= k < 4 ==> is_dec_octet(#[trigger] split(s, '.')[k])
}

// ── IPv6 ────────────────────────────────────────────────────────────────────

/// One group of one to four hexadecimal digits.
pub open spec fn is_hex_group(p: Seq<char>) -> bool {
    &&& 1 <= p.len() <= 4
    &&& forall|i: int| 0 <= i < p.len() ==> is_hex_digit(#[trigger] p[i])
}

pub open spec fn all_hex_groups(ps: Seq<Seq<char>>) -> bool {
    forall|k: int| 0 <= k < ps.len() ==> is_hex_group(#[trigger] ps[k])
}

/// Hexadecimal groups, of which the last may be an embedded IPv4 address.
pub open spec fn groups_ok(ps: Seq<Seq<char>>) -> bool {
    &&& forall|k: int| 0 <= k < ps.len() - 1 ==> is_hex_group(#[trigger] ps[k])
    &&& ps.len() > 0 ==> (is_hex_group(ps.last()) || is_ipv4_text(ps.last()))
}

/// The number of 16-bit groups that a list of pieces stands for: an embedded
/// IPv4 address stands for two.
pub open spec fn group_count(ps: Seq<Seq<char>>) -> int {
    if ps.len() > 0 && is_ipv4_text(ps.last()) {
        ps.len() + 1int
    } else {
        ps.len() as int
    }
}

pub open spec fn is_double_colon_at(s: Seq<char>, k: int) -> bool {
    0 <= k && k + 1 < s.len() && s[k] == ':' && s[k + 1] == ':'
}

pub open spec fn has_double_colon(s: Seq<char>) -> bool {
    exists|k: int| is_double_colon_at(s, k)
}

pub open spec fn is_first_double_colon(s: Seq<char>, k: int) -> bool {
    &&& is_double_colon_at(s, k)
    &&& forall|j: int| 0 <= j < k ==> !is_double_colon_at(s, j)
}

pub open spec fn first_double_colon(s: Seq<char>) -> int {
    choose|k: int| is_first_double_colon(s, k)
}

/// IPv6 notation: eight groups, or fewer around one `::` that stands for at
/// least one zero group; an IPv4 address may stand for the last two groups.
pub open spec fn is_ipv6_text(s: Seq<char>) -> bool {
    if has_double_colon(s) {
        let k = first_double_colon(s);
        let head = pieces(s.take(k), ':');
        let tail = pieces(s.skip(k + 2), ':');
        &&& all_hex_groups(head)
        &&& groups_ok(tail)
        &&& head.len() + group_count(tail) <= 7
    } else {
        let ps = split(s, ':');
        &&& groups_ok(ps)
        &&& group_count(ps) == 8
    }
}

/// The family of a textual IP address, if the text is one.
pub open spec fn ip_text_family(s: Seq<char>) -> Option<IpFamily> {
    if is_ipv4_text(s) {
        Some(IpFamily::V4)
    } else if is_ipv6_text(s) {
        Some(IpFamily::V6)
    } else {
        None
    }
}

// ── u8 ──────────────────────────────────────────────────────────────────────

/// The digits of a `u8` in text: one leading `+` is allowed before them.
pub open spec fn u8_digits(s: Seq<char>) -> Seq<char> {
    if s.len() > 1 && s[0] == '+' {
        s.drop_first()
    } else {
        s
    }
}

/// What `str::parse::<u8>` gives.
pub open spec fn parse_u8_text(s: Seq<char>) -> Option<u8> {
    let d = u8_digits(s);
    if d.len() > 0 && all_digits(d) && dec_value(d) <= 255 {
        Some(dec_value(d) as u8)
    } else {
        None
    }
}

// ── Lemmas ──────────────────────────────────────────────────────────────────

pub proof fn lemma_split_without_sep(s: Seq<char>, sep: char)
    requires
        forall|i: int| 0 <= i < s.len() ==> s[i] != sep,
    ensures
        split(s, sep) =~= seq![s],
    decreases s.len(),
{
    if s.len() > 0 {
        let init = s.drop_last();
        assert forall|i: int| 0 <= i < init.len() implies init[i] != sep by {
            assert(init[i] == s[i]);
        }
        lemma_split_without_sep(init, sep);
        assert(s.last() == s[s.len() - 1]);
        assert(s.last() != sep);
        assert(init.push(s.last()) =~= s);
        let sp = split(init, sep);
        assert(sp =~= seq![init]);
        assert(split(s, sep) == sp.update(sp.len() - 1, sp.last().push(s.last())));
        assert(sp.update(sp.len() - 1, sp.last().push(s.last())) =~= seq![s]);
    } else {
        assert(s =~= Seq::<char>::empty());
    }
}

pub proof fn lemma_hex_group_not_ipv4(p: Seq<char>)
    requires
        is_hex_group(p),
    ensures
        !is_ipv4_text(p),
{
    assert forall|i: int| 0 <= i < p.len() implies p[i] != '.' by {
        assert(is_hex_digit(p[i]));
    }
    lemma_split_without_sep(p, '.');
}

// ── Executable checks ───────────────────────────────────────────────────────

/// Whether `v[lo..hi]` is a decimal octet.
pub fn is_dec_octet_at(v: &Vec<char>, lo: usize, hi: usize) -> (r: bool)
    requires
        lo <= hi <= v.len(),
    ensures
        r == is_dec_octet(v@.subrange(lo as int, hi as int)),
{
    if hi - lo < 1 || hi - lo > 3 {
        return false;
    }
    if hi - lo > 1 && v[lo] == '0' {
        return false;
    }
    decimal_at(v, lo, hi, 255).is_some()
}

/// Whether `v[lo..hi]` is a hexadecimal group.
pub fn is_hex_group_at(v: &Vec<char>, lo: usize, hi: usize) -> (r: bool)
    requires
        lo <= hi <= v.len(),
    ensures
        r == is_hex_group(v@.subrange(lo as int, hi as int)),
{
    if hi - lo < 1 || hi - lo > 4 {
        return false;
    }
    let mut i = lo;
    while i < hi
        invariant
            lo <= i <= hi <= v.len(),
            forall|j: int| lo <= j < i ==> is_hex_digit(#[trigger] v@[j]),
        decreases hi - i,
    {
        let c = v[i];
        if !(('0' <= c && c <= '9') || ('a' <= c && c <= 'f') || ('A' <= c && c <= 'F')) {
            assert(v@.subrange(lo as int, hi as int)[i - lo] == c);
            return false;
        }
        i = i + 1;
    }
    assert forall|j: int| 0 <= j < hi - lo implies is_hex_digit(
        #[trigger] v@.subrange(lo as int, hi as int)[j],
    ) by {
        assert(v@.subrange(lo as int, hi as int)[j] == v@[lo + j]);
    }
    true
}

/// Whether `v[lo..hi]` is an IPv4 address in dotted-quad notation.
pub fn is_ipv4_at(v: &Vec<char>, lo: usize, hi: usize) -> (r: bool)
    requires
        lo <= hi <= v.len(),
    ensures
        r == is_ipv4_text(v@.subrange(lo as int, hi as int)),
{
    let rs = split_ranges(v, lo, hi, '.');
    let ghost ps = split(v@.subrange(lo as int, hi as int), '.');
    assert(range_pieces(v@, rs@).len() == rs.len());
    if rs.len() != 4 {
        return false;
    }
    let mut k: usize = 0;
    while k < 4
        invariant
            k <= 4,
            rs.len() == 4,
            hi <= v.len(),
            forall|j: int| 0 <= j < rs.len() ==> lo <= #[trigger] rs[j].0 <= rs[j].1 <= hi,
            range_pieces(v@, rs@) == ps,
            ps == split(v@.subrange(lo as int, hi as int), '.'),
            forall|j: int| 0 <= j < k ==> is_dec_octet(#[trigger] ps[j]),
        decreases 4 - k,
    {
        let (a, b) = rs[k];
        assert(ps[k as int] == v@.subrange(a as int, b as int));
        if !is_dec_octet_at(v, a, b) {
            assert(!is_dec_octet(split(v@.subrange(lo as int, hi as int), '.')[k as int]));
            return false;
        }
        k = k + 1;
    }
    true
}

/// The ranges of `pieces(v[lo..hi], sep)`.
fn pieces_ranges(v: &Vec<char>, lo: usize, hi: usize, sep: char) -> (rs: Vec<(usize, usize)>)
    requires
        lo <= hi <= v.len(),
    ensures
        forall|k: int| 0 <= k < rs.len() ==> lo <= #[trigger] rs[k].0 <= rs[k].1 <= hi,
        range_pieces(v@, rs@) == pieces(v@.subrange(lo as int, hi as int), sep),
{
    if lo == hi {
        let rs: Vec<(usize, usize)> = Vec::new();
        assert(range_pieces(v@, rs@) =~= Seq::<Seq<char>>::empty());
        rs
    } else {
        split_ranges(v, lo, hi, sep)
    }
}

/// Whether every range of `rs` is a hexadecimal group.
fn all_hex_groups_at(v: &Vec<char>, rs: &Vec<(usize, usize)>) -> (r: bool)
    requires
        forall|k: int| 0 <= k < rs.len() ==> #[trigger] rs[k].0 <= rs[k].1 <= v.len(),
    ensures
        r == all_hex_groups(range_pieces(v@, rs@)),
{
    let ghost ps = range_pieces(v@, rs@);
    let mut k: usize = 0;
    while k < rs.len()
        invariant
            k <= rs.len(),
            ps == range_pieces(v@, rs@),
            forall|j: int| 0 <= j < rs.len() ==> #[trigger] rs[j].0 <= rs[j].1 <= v.len(),
            forall|j: int| 0 <= j < k ==> is_hex_group(#[trigger] ps[j]),
        decreases rs.len() - k,
    {
        let (a, b) = rs[k];
        assert(ps[k as int] == v@.subrange(a as int, b as int));
        if !is_hex_group_at(v, a, b) {
            return false;
        }
        k = k + 1;
    }
    true
}

/// When the ranges of `rs` are hexadecimal groups of which the last may be
/// an IPv4 address, and stand for at most nine groups, the number of groups.
fn groups_at(v: &Vec<char>, rs: &Vec<(usize, usize)>) -> (r: Option<usize>)
    requires
        forall|k: int| 0 <= k < rs.len() ==> #[trigger] rs[k].0 <= rs[k].1 <= v.len(),
    ensures
        r == (if groups_ok(range_pieces(v@, rs@)) && group_count(range_pieces(v@, rs@)) <= 9 {
            Some(group_count(range_pieces(v@, rs@)) as usize)
        } else {
            None::<usize>
        }),
{
    let ghost ps = range_pieces(v@, rs@);
    let n = rs.len();
    assert(ps.len() == n);
    if n == 0 {
        return Some(0);
    }
    if n > 9 {
        return None;
    }
    let mut k: usize = 0;
    while k < n - 1
        invariant
            n == rs.len(),
            n >= 1,
            k <= n - 1,
            ps == range_pieces(v@, rs@),
            forall|j: int| 0 <= j < rs.len() ==> #[trigger] rs[j].0 <= rs[j].1 <= v.len(),
            forall|j: int| 0 <= j < k ==> is_hex_group(#[trigger] ps[j]),
        decreases n - 1 - k,
    {
        let (a, b) = rs[k];
        assert(ps[k as int] == v@.subrange(a as int, b as int));
        if !is_hex_group_at(v, a, b) {
            return None;
        }
        k = k + 1;
    }
    let (a, b) = rs[n - 1];
    assert(ps.last() == v@.subrange(a as int, b as int));
    if is_hex_group_at(v, a, b) {
        proof {
            lemma_hex_group_not_ipv4(ps.last());
        }
        Some(n)
    } else if is_ipv4_at(v, a, b) {
        if n > 8 {
            return None;
        }
        Some(n + 1)
    } else {
        None
    }
}

/// The first `::` in `v[lo..hi]`, as an index into `v`.
fn find_double_colon(v: &Vec<char>, lo: usize, hi: usize) -> (r: Option<usize>)
    requires
        lo <= hi <= v.len(),
    ensures
        r is None ==> !has_double_colon(v@.subrange(lo as int, hi as int)),
        r matches Some(k) ==> lo <= k && is_first_double_colon(
            v@.subrange(lo as int, hi as int),
            k - lo,
        ),
{
    let ghost s = v@.subrange(lo as int, hi as int);
    let mut i = lo;
    while i < hi && hi - i > 1
        invariant
            lo <= i <= hi <= v.len(),
            s == v@.subrange(lo as int, hi as int),
            forall|j: int| 0 <= j < i - lo ==> !is_double_colon_at(s, j),
        decreases hi - i,
    {
        if v[i] == ':' && v[i + 1] == ':' {
            assert(s[i - lo] == ':' && s[i - lo + 1] == ':');
            return Some(i);
        }
        assert(!is_double_colon_at(s, i - lo));
        i = i + 1;
    }
    assert forall|k: int| !is_double_colon_at(s, k) by {
        if 0 <= k < i - lo {
        }
    }
    None
}

/// Whether `v[lo..hi]` is an IPv6 address.
pub fn is_ipv6_at(v: &Vec<char>, lo: usize, hi: usize) -> (r: bool)
    requires
        lo <= hi <= v.len(),
    ensures
        r == is_ipv6_text(v@.subrange(lo as int, hi as int)),
{
    let ghost s = v@.subrange(lo as int, hi as int);
    match find_double_colon(v, lo, hi) {
        Some(k) => {
            proof {
                let k0 = first_double_colon(s);
                assert(has_double_colon(s));
                assert(is_first_double_colon(s, k0));
                if k0 < k - lo {
                    assert(!is_double_colon_at(s, k0));
                }
                if k - lo < k0 {
                    assert(!is_double_colon_at(s, k - lo));
                }
                assert(s.take(k - lo) =~= v@.subrange(lo as int, k as int));
                assert(s.skip(k - lo + 2) =~= v@.subrange(k + 2, hi as int));
            }
            let head = pieces_ranges(v, lo, k, ':');
            let tail = pieces_ranges(v, k + 2, hi, ':');
            assert(range_pieces(v@, head@).len() == head.len());
            if !all_hex_groups_at(v, &head) {
                return false;
            }
            assert forall|j: int| 0 <= j < tail.len() implies #[trigger] tail[j].0 <= tail[j].1
                <= v.len() by {
                assert(k + 2 <= tail[j].0 <= tail[j].1 <= hi);
            }
            match groups_at(v, &tail) {
                Some(n) => head.len() <= 7 && n <= 7 - head.len(),
                None => false,
            }
        },
        None => {
            let rs = split_ranges(v, lo, hi, ':');
            assert(!has_double_colon(s));
            match groups_at(v, &rs) {
                Some(n) => n == 8,
                None => false,
            }
        },
    }
}

/// The family of the textual IP address `v[lo..hi]`, if it is one.
pub fn ip_family_at(v: &Vec<char>, lo: usize, hi: usize) -> (r: Option<IpFamily>)
    requires
        lo <= hi <= v.len(),
    ensures
        r == ip_text_family(v@.subrange(lo as int, hi as int)),
{
    if is_ipv4_at(v, lo, hi) {
        Some(IpFamily::V4)
    } else if is_ipv6_at(v, lo, hi) {
        Some(IpFamily::V6)
    } else {
        None
    }
}

/// `str::parse::<u8>` on `v[lo..hi]`.
pub fn parse_u8_at(v: &Vec<char>, lo: usize, hi: usize) -> (r: Option<u8>)
    requires
        lo <= hi <= v.len(),
    ensures
        r == parse_u8_text(v@.subrange(lo as int, hi as int)),
{
    let ghost s = v@.subrange(lo as int, hi as int);
    let start = if hi - lo > 1 && v[lo] == '+' {
        assert(s.drop_first() =~= v@.subrange(lo + 1, hi as int));
        lo + 1
    } else {
        lo
    };
    if start == hi {
        return None;
    }
    match decimal_at(v, start, hi, 255) {
        Some(n) => Some(n as u8),
        None => None,
    }
}

} // verus!
