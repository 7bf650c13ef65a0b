//! Character-level building blocks shared by the parsers: character classes,
//! splitting, trimming and decimal numbers, each with a spec over `Seq<char>`.
use vstd::prelude::*;

verus! {

// ── Character classes ───────────────────────────────────────────────────────

pub open spec fn is_digit(c: char) -> bool {
    '0' <= c && c <= '9'
}

pub open spec fn is_hex_digit(c: char) -> bool {
    is_digit(c) || ('a' <= c && c <= 'f') || ('A' <= c && c <= 'F')
}

pub open spec fn is_ascii_alnum(c: char) -> bool {
    is_digit(c) || ('a' <= c && c <= 'z') || ('A' <= c && c <= 'Z')
}

/// Unicode `White_Space`, the set that `char::is_whitespace` tests.
pub open spec fn is_unicode_whitespace(c: char) -> bool {
    ||| ('\u{9}' <= c && c <= '\u{d}')
    ||| c == ' '
    ||| c == '\u{85}'
    ||| c == '\u{a0}'
    ||| c == '\u{1680}'
    ||| ('\u{2000}' <= c && c <= '\u{200a}')
    ||| c == '\u{2028}'
    ||| c == '\u{2029}'
    ||| c == '\u{202f}'
    ||| c == '\u{205f}'
    ||| c == '\u{3000}'
}

pub open spec fn ascii_lower(c: char) -> char {
    if 'A' <= c && c <= 'Z' {
        ((c as u32) + 32) as char
    } else {
        c
    }
}

pub open spec fn lower_seq(s: Seq<char>) -> Seq<char> {
    Seq::new(s.len(), |i: int| ascii_lower(s[i]))
}

pub open spec fn all_digits(s: Seq<char>) -> bool {
    forall|i: int| 0 <= i < s.len() ==> is_digit(#[trigger] s[i])
}

pub open spec fn digit_value(c: char) -> nat {
    ((c as int) - ('0' as int)) as nat
}

/// The number that a string of decimal digits denotes.
pub open spec fn dec_value(s: Seq<char>) -> nat
    decreases s.len(),
{
    if s.len() == 0 {
        0
    } else {
        dec_value(s.drop_last()) * 10 + digit_value(s.last())
    }
}

// ── Searching ───────────────────────────────────────────────────────────────

pub open spec fn has_char(s: Seq<char>, c: char) -> bool {
    exists|i: int| 0 <= i < s.len() && s[i] == c
}

/// Index of the first occurrence of `c`, when there is one.
pub open spec fn is_first_index(s: Seq<char>, c: char, k: int) -> bool {
    &&& 0 <= k < s.len()
    &&& s[k] == c
    &&& forall|j: int| 0 <= j < k ==> s[j] != c
}

pub open spec fn first_index(s: Seq<char>, c: char) -> int {
    choose|k: int| is_first_index(s, c, k)
}

/// Index of the last occurrence of `c`, when there is one.
pub open spec fn is_last_index(s: Seq<char>, c: char, k: int) -> bool {
    &&& 0 <= k < s.len()
    &&& s[k] == c
    &&& forall|j: int| k < j < s.len() ==> s[j] != c
}

pub open spec fn last_index(s: Seq<char>, c: char) -> int {
    choose|k: int| is_last_index(s, c, k)
}

pub proof fn lemma_first_index_unique(s: Seq<char>, c: char, k: int)
    requires
        is_first_index(s, c, k),
    ensures
        has_char(s, c),
        first_index(s, c) == k,
{
    let k2 = first_index(s, c);
    assert(is_first_index(s, c, k2));
    if k2 < k {
        assert(s[k2] != c);
    }
    if k < k2 {
        assert(s[k] != c);
    }
}

proof fn lemma_first_index_below(s: Seq<char>, c: char, w: int)
    requires
        0 <= w < s.len(),
        s[w] == c,
    ensures
        exists|k: int| is_first_index(s, c, k),
    decreases w,
{
    if forall|j: int| 0 <= j < w ==> s[j] != c {
        assert(is_first_index(s, c, w));
    } else {
        let j = choose|j: int| 0 <= j < w && s[j] == c;
        lemma_first_index_below(s, c, j);
    }
}

/// A character that occurs has a first occurrence.
pub proof fn lemma_first_index_exists(s: Seq<char>, c: char)
    requires
        has_char(s, c),
    ensures
        is_first_index(s, c, first_index(s, c)),
{
    let w = choose|i: int| 0 <= i < s.len() && s[i] == c;
    lemma_first_index_below(s, c, w);
}

pub proof fn lemma_last_index_unique(s: Seq<char>, c: char, k: int)
    requires
        is_last_index(s, c, k),
    ensures
        has_char(s, c),
        last_index(s, c) == k,
{
    let k2 = last_index(s, c);
    assert(is_last_index(s, c, k2));
    if k2 < k {
        assert(s[k] != c);
    }
    if k < k2 {
        assert(s[k2] != c);
    }
}

// ── Splitting ───────────────────────────────────────────────────────────────

/// `str::split` on one separator: the pieces between separators, always at
/// least one (the empty string splits into one empty piece).
pub open spec fn split(s: Seq<char>, sep: char) -> Seq<Seq<char>>
    decreases s.len(),
{
    if s.len() == 0 {
        seq![Seq::<char>::empty()]
    } else {
        let init = split(s.drop_last(), sep);
        if s.last() == sep {
            init.push(Seq::<char>::empty())
        } else {
            init.update(init.len() - 1, init.last().push(s.last()))
        }
    }
}

/// Pieces of a list written with separators, where the empty string is the
/// empty list.
pub open spec fn pieces(s: Seq<char>, sep: char) -> Seq<Seq<char>> {
    if s.len() == 0 {
        Seq::empty()
    } else {
        split(s, sep)
    }
}

pub proof fn lemma_split_nonempty(s: Seq<char>, sep: char)
    ensures
        split(s, sep).len() >= 1,
    decreases s.len(),
{
    if s.len() > 0 {
        lemma_split_nonempty(s.drop_last(), sep);
    }
}

/// The strings that index ranges of `v` denote.
pub open spec fn range_pieces(v: Seq<char>, rs: Seq<(usize, usize)>) -> Seq<Seq<char>> {
    Seq::new(rs.len(), |k: int| v.subrange(rs[k].0 as int, rs[k].1 as int))
}

/// The index ranges of the pieces that `split` gives of `v[lo..hi]`.
pub fn split_ranges(v: &Vec<char>, lo: usize, hi: usize, sep: char) -> (rs: Vec<(usize, usize)>)
    requires
        lo <= hi <= v.len(),
    ensures
        rs.len() >= 1,
        forall|k: int| 0 <= k < rs.len() ==> lo <= #[trigger] rs[k].0 <= rs[k].1 <= hi,
        range_pieces(v@, rs@) == split(v@.subrange(lo as int, hi as int), sep),
{
    let mut rs: Vec<(usize, usize)> = Vec::new();
    let mut start = lo;
    let mut i = lo;
    assert(v@.subrange(lo as int, lo as int) =~= Seq::<char>::empty());
    assert(range_pieces(v@, rs@) =~= Seq::<Seq<char>>::empty());
    assert(range_pieces(v@, rs@).push(v@.subrange(start as int, i as int)) =~= split(
        v@.subrange(lo as int, i as int),
        sep,
    ));
    while i < hi
        invariant
            lo <= start <= i <= hi <= v.len(),
            forall|k: int| 0 <= k < rs.len() ==> lo <= #[trigger] rs[k].0 <= rs[k].1 <= i,
            range_pieces(v@, rs@).push(v@.subrange(start as int, i as int)) == split(
                v@.subrange(lo as int, i as int),
                sep,
            ),
        decreases hi - i,
    {
        let ghost before = range_pieces(v@, rs@);
        let ghost cur = v@.subrange(lo as int, (i + 1) as int);
        assert(cur.drop_last() =~= v@.subrange(lo as int, i as int));
        assert(cur.last() == v@[i as int]);
        if v[i] == sep {
            rs.push((start, i));
            assert(range_pieces(v@, rs@) =~= before.push(v@.subrange(start as int, i as int)));
            start = i + 1;
            assert(v@.subrange(start as int, (i + 1) as int) =~= Seq::<char>::empty());
            assert(range_pieces(v@, rs@).push(v@.subrange(start as int, (i + 1) as int))
                =~= split(cur, sep));
        } else {
            assert(v@.subrange(start as int, (i + 1) as int) =~= v@.subrange(
                start as int,
                i as int,
            ).push(v@[i as int]));
            assert(range_pieces(v@, rs@).push(v@.subrange(start as int, (i + 1) as int))
                =~= split(cur, sep));
        }
        i = i + 1;
    }
    let ghost before = range_pieces(v@, rs@);
    rs.push((start, hi));
    assert(range_pieces(v@, rs@) =~= before.push(v@.subrange(start as int, hi as int)));
    rs
}

// ── Trimming ────────────────────────────────────────────────────────────────

/// The characters that a trim removes: white space, or the dot.
pub open spec fn trimmed_char(dots: bool, c: char) -> bool {
    if dots {
        c == '.'
    } else {
        is_unicode_whitespace(c)
    }
}

pub open spec fn trim_start(s: Seq<char>, dots: bool) -> Seq<char>
    decreases s.len(),
{
    if s.len() > 0 && trimmed_char(dots, s[0]) {
        trim_start(s.drop_first(), dots)
    } else {
        s
    }
}

pub open spec fn trim_end(s: Seq<char>, dots: bool) -> Seq<char>
    decreases s.len(),
{
    if s.len() > 0 && trimmed_char(dots, s.last()) {
        trim_end(s.drop_last(), dots)
    } else {
        s
    }
}

/// `str::trim` (white space) or `str::trim_matches('.')` (dots).
pub open spec fn trim(s: Seq<char>, dots: bool) -> Seq<char> {
    trim_end(trim_start(s, dots), dots)
}

/// The bounds of what a trim leaves of `v[lo..hi]`.
pub fn trim_range(v: &Vec<char>, lo: usize, hi: usize, dots: bool) -> (r: (usize, usize))
    requires
        lo <= hi <= v.len(),
    ensures
        lo <= r.0 <= r.1 <= hi,
        v@.subrange(r.0 as int, r.1 as int) == trim(v@.subrange(lo as int, hi as int), dots),
{
    let mut a = lo;
    while a < hi && is_trimmed_char(dots, v[a])
        invariant
            lo <= a <= hi <= v.len(),
            trim_start(v@.subrange(lo as int, hi as int), dots) == trim_start(
                v@.subrange(a as int, hi as int),
                dots,
            ),
        decreases hi - a,
    {
        assert(v@.subrange(a as int, hi as int).drop_first() =~= v@.subrange(
            (a + 1) as int,
            hi as int,
        ));
        a = a + 1;
    }
    let mut b = hi;
    while b > a && is_trimmed_char(dots, v[b - 1])
        invariant
            lo <= a <= b <= hi <= v.len(),
            trim_end(v@.subrange(a as int, hi as int), dots) == trim_end(
                v@.subrange(a as int, b as int),
                dots,
            ),
        decreases b - a,
    {
        assert(v@.subrange(a as int, b as int).drop_last() =~= v@.subrange(
            a as int,
            (b - 1) as int,
        ));
        b = b - 1;
    }
    (a, b)
}

/// Whether a trim removes `c`.
pub fn is_trimmed_char(dots: bool, c: char) -> (r: bool)
    ensures
        r == trimmed_char(dots, c),
{
    if dots {
        c == '.'
    } else {
        is_whitespace_char(c)
    }
}

/// `char::is_whitespace`.
pub fn is_whitespace_char(c: char) -> (r: bool)
    ensures
        r == is_unicode_whitespace(c),
{
    ('\u{9}' <= c && c <= '\u{d}') || c == ' ' || c == '\u{85}' || c == '\u{a0}' || c
        == '\u{1680}' || ('\u{2000}' <= c && c <= '\u{200a}') || c == '\u{2028}' || c
        == '\u{2029}' || c == '\u{202f}' || c == '\u{205f}' || c == '\u{3000}'
}

// ── Decimal numbers ─────────────────────────────────────────────────────────

pub proof fn lemma_dec_value_prefix_le(s: Seq<char>, k: int)
    requires
        0 <= k <= s.len(),
    ensures
        dec_value(s.take(k)) <= dec_value(s),
    decreases s.len(),
{
    if k < s.len() {
        assert(s.drop_last().take(k) =~= s.take(k));
        lemma_dec_value_prefix_le(s.drop_last(), k);
    } else {
        assert(s.take(k) =~= s);
    }
}

/// The value of the decimal digits `v[lo..hi]`, when they are all digits and
/// denote at most `cap`.
pub fn decimal_at(v: &Vec<char>, lo: usize, hi: usize, cap: u32) -> (r: Option<u32>)
    requires
        lo <= hi <= v.len(),
        cap <= 1_000_000,
    ensures
        r == (if all_digits(v@.subrange(lo as int, hi as int)) && dec_value(
            v@.subrange(lo as int, hi as int),
        ) <= cap {
            Some(dec_value(v@.subrange(lo as int, hi as int)) as u32)
        } else {
            None::<u32>
        }),
{
    let ghost s = v@.subrange(lo as int, hi as int);
    let mut val: u32 = 0;
    let mut i = lo;
    assert(s.take(0) =~= Seq::<char>::empty());
    while i < hi
        invariant
            lo <= i <= hi <= v.len(),
            s == v@.subrange(lo as int, hi as int),
            cap <= 1_000_000,
            val <= cap,
            all_digits(s.take(i - lo)),
            val == dec_value(s.take(i - lo)),
        decreases hi - i,
    {
        let c = v[i];
        assert(s[i - lo] == c);
        if !('0' <= c && c <= '9') {
            assert(!is_digit(s[i - lo]));
            return None;
        }
        let d = (c as u32) - ('0' as u32);
        assert(s.take(i - lo + 1).drop_last() =~= s.take(i - lo));
        assert(s.take(i - lo + 1).last() == c);
        assert(all_digits(s.take(i - lo + 1)));
        val = val * 10 + d;
        i = i + 1;
        if val > cap {
            proof {
                if all_digits(s) {
                    lemma_dec_value_prefix_le(s, i - lo);
                }
            }
            return None;
        }
    }
    assert(s.take(hi - lo) =~= s);
    Some(val)
}

// ── Building strings ────────────────────────────────────────────────────────

/// Calls `String::push`. Trusted: the contract claims that the string ends
/// with `c` afterwards and is otherwise unchanged, as the standard
/// library documents.
#[verifier::external_body]
pub(crate) fn push_char(s: &mut String, c: char)
    ensures
        final(s)@ == old(s)@.push(c),
{
    s.push(c);
}

/// The string `v[lo..hi]`, lower-cased in ASCII where `lower` holds.
pub fn string_of_range(v: &Vec<char>, lo: usize, hi: usize, lower: bool) -> (r: String)
    requires
        lo <= hi <= v.len(),
    ensures
        r@ == (if lower {
            lower_seq(v@.subrange(lo as int, hi as int))
        } else {
            v@.subrange(lo as int, hi as int)
        }),
{
    let mut r = String::new();
    let mut i = lo;
    while i < hi
        invariant
            lo <= i <= hi <= v.len(),
            r@ == (if lower {
                lower_seq(v@.subrange(lo as int, i as int))
            } else {
                v@.subrange(lo as int, i as int)
            }),
        decreases hi - i,
    {
        let c = v[i];
        let out = if lower && 'A' <= c && c <= 'Z' {
            (((c as u32) + 32) as u8) as char
        } else {
            c
        };
        push_char(&mut r, out);
        if lower {
            assert(lower_seq(v@.subrange(lo as int, (i + 1) as int)) =~= lower_seq(
                v@.subrange(lo as int, i as int),
            ).push(ascii_lower(c)));
        } else {
            assert(v@.subrange(lo as int, (i + 1) as int) =~= v@.subrange(
                lo as int,
                i as int,
            ).push(c));
        }
        i = i + 1;
    }
    r
}

/// A copy of a string slice as an owned string.
pub fn string_of(s: &str) -> (r: String)
    ensures
        r@ == s@,
{
    let v = chars_of(s);
    string_of_range(&v, 0, v.len(), false)
}

/// The characters of a string slice, in order.
pub fn chars_of(s: &str) -> (v: Vec<char>)
    ensures
        v@ == s@,
{
    let mut v: Vec<char> = Vec::new();
    for c in it: s.chars()
        invariant
            v@ == it.seq().take(it.index() as int),
            it.seq() == s@,
    {
        v.push(c);
    }
    v
}

/// Appends `t` to `s`.
pub fn append_str(s: &mut String, t: &str)
    ensures
        final(s)@ == old(s)@ + t@,
{
    s.append(t);
}

} // verus!

verus! {

/// The first occurrence of `c` in `v[lo..hi]`, as an index into `v`.
pub fn find_char(v: &Vec<char>, lo: usize, hi: usize, c: char) -> (r: Option<usize>)
    requires
        lo <= hi <= v.len(),
    ensures
        r is None ==> !has_char(v@.subrange(lo as int, hi as int), c),
        r matches Some(k) ==> lo <= k < hi && is_first_index(
            v@.subrange(lo as int, hi as int),
            c,
            k - lo,
        ),
{
    let ghost s = v@.subrange(lo as int, hi as int);
    let mut i = lo;
    while i < hi
        invariant
            lo <= i <= hi <= v.len(),
            s == v@.subrange(lo as int, hi as int),
            forall|j: int| 0 <= j < i - lo ==> s[j] != c,
        decreases hi - i,
    {
        if v[i] == c {
            assert(s[i - lo] == c);
            return Some(i);
        }
        assert(s[i - lo] != c);
        i = i + 1;
    }
    None
}

/// The last occurrence of `c` in `v[lo..hi]`, as an index into `v`.
pub fn rfind_char(v: &Vec<char>, lo: usize, hi: usize, c: char) -> (r: Option<usize>)
    requires
        lo <= hi <= v.len(),
    ensures
        r is None ==> !has_char(v@.subrange(lo as int, hi as int), c),
        r matches Some(k) ==> lo <= k < hi && is_last_index(
            v@.subrange(lo as int, hi as int),
            c,
            k - lo,
        ),
{
    let ghost s = v@.subrange(lo as int, hi as int);
    let mut i = hi;
    while i > lo
        invariant
            lo <= i <= hi <= v.len(),
            s == v@.subrange(lo as int, hi as int),
            forall|j: int| i - lo <= j < hi - lo ==> s[j] != c,
        decreases i - lo,
    {
        if v[i - 1] == c {
            assert(s[i - 1 - lo] == c);
            return Some(i - 1);
        }
        assert(s[i - 1 - lo] != c);
        i = i - 1;
    }
    None
}

} // verus!

verus! {

// ── Numbers as text ─────────────────────────────────────────────────────────

pub open spec fn digit_char(d: nat) -> char {
    ((('0' as u32) + d) as u32) as char
}

pub open spec fn hex_char(d: nat) -> char {
    if d < 10 {
        digit_char(d)
    } else {
        ((('a' as u32) + (d - 10)) as u32) as char
    }
}

/// A number in decimal, without leading zeros.
pub open spec fn dec_text(n: nat) -> Seq<char>
    decreases n,
{
    if n < 10 {
        seq![digit_char(n)]
    } else {
        dec_text(n / 10).push(digit_char(n % 10))
    }
}

/// A number in lower-case hexadecimal, without leading zeros.
pub open spec fn hex_text(n: nat) -> Seq<char>
    decreases n,
{
    if n < 16 {
        seq![hex_char(n)]
    } else {
        hex_text(n / 16).push(hex_char(n % 16))
    }
}

/// Appends `n` in decimal.
pub fn push_decimal(s: &mut String, n: u64)
    ensures
        final(s)@ == old(s)@ + dec_text(n as nat),
    decreases n,
{
    if n >= 10 {
        push_decimal(s, n / 10);
    }
    let d = (n % 10) as u8;
    let c = (48u8 + d) as char;
    push_char(s, c);
    assert(c == digit_char((n % 10) as nat));
    if n >= 10 {
        assert(old(s)@ + dec_text(n as nat) =~= old(s)@ + dec_text((n / 10) as nat) + seq![
            digit_char((n % 10) as nat),
        ]);
    } else {
        assert(old(s)@ + dec_text(n as nat) =~= old(s)@ + seq![digit_char((n % 10) as nat)]);
    }
}

/// Appends `n` in lower-case hexadecimal.
pub fn push_hex(s: &mut String, n: u64)
    ensures
        final(s)@ == old(s)@ + hex_text(n as nat),
    decreases n,
{
    if n >= 16 {
        push_hex(s, n / 16);
    }
    let d = (n % 16) as u8;
    let c = if d < 10 {
        (48u8 + d) as char
    } else {
        (97u8 + (d - 10)) as char
    };
    push_char(s, c);
    assert(c == hex_char((n % 16) as nat));
    if n >= 16 {
        assert(old(s)@ + hex_text(n as nat) =~= old(s)@ + hex_text((n / 16) as nat) + seq![
            hex_char((n % 16) as nat),
        ]);
    } else {
        assert(old(s)@ + hex_text(n as nat) =~= old(s)@ + seq![hex_char((n % 16) as nat)]);
    }
}

/// `n` in decimal.
pub fn decimal_string(n: u64) -> (r: String)
    ensures
        r@ == dec_text(n as nat),
{
    let mut s = String::new();
    push_decimal(&mut s, n);
    assert(Seq::<char>::empty() + dec_text(n as nat) =~= dec_text(n as nat));
    s
}

/// A string made of the given parts in order.
pub fn concat_strs(a: &str, b: &str) -> (r: String)
    ensures
        r@ == a@ + b@,
{
    let mut s = string_of(a);
    append_str(&mut s, b);
    s
}

} // verus!

verus! {

/// The texts of a list of strings.
pub open spec fn texts_of(v: Seq<String>) -> Seq<Seq<char>> {
    v.map_values(|s: String| s@)
}

/// The parts written one after another with `sep` between them.
pub open spec fn join(parts: Seq<Seq<char>>, sep: Seq<char>) -> Seq<char>
    decreases parts.len(),
{
    if parts.len() == 0 {
        Seq::empty()
    } else if parts.len() == 1 {
        parts[0]
    } else {
        join(parts.drop_last(), sep) + sep + parts.last()
    }
}

/// `parts.join(sep)`.
pub fn join_strings(parts: &Vec<String>, sep: &str) -> (r: String)
    ensures
        r@ == join(texts_of(parts@), sep@),
{
    let ghost ps = texts_of(parts@);
    let mut r = String::new();
    let mut i: usize = 0;
    while i < parts.len()
        invariant
            i <= parts.len(),
            ps == texts_of(parts@),
            r@ == join(ps.take(i as int), sep@),
        decreases parts.len() - i,
    {
        assert(ps.take(i + 1).drop_last() =~= ps.take(i as int));
        assert(ps.take(i + 1).last() == parts[i as int]@);
        if i > 0 {
            append_str(&mut r, sep);
        } else {
            assert(ps.take(0) =~= Seq::<Seq<char>>::empty());
            assert(r@ =~= Seq::<char>::empty());
        }
        append_str(&mut r, parts[i].as_str());
        if i == 0 {
            assert(r@ =~= join(ps.take(1), sep@));
        }
        i = i + 1;
    }
    assert(ps.take(parts.len() as int) =~= ps);
    r
}

} // verus!

verus! {

// ── UTF-8 length ────────────────────────────────────────────────────────────

pub proof fn lemma_encode_skip(s: Seq<char>, j: int)
    requires
        0 <= j < s.len(),
    ensures
        vstd::utf8::encode_utf8(s.skip(j)) == vstd::utf8::encode_scalar(s[j] as u32)
            + vstd::utf8::encode_utf8(s.skip(j + 1)),
{
    assert(s.skip(j).drop_first() =~= s.skip(j + 1));
    assert(s.skip(j)[0] == s[j]);
}

pub proof fn lemma_encode_skip_mono(s: Seq<char>, j: int, i: int)
    requires
        0 <= j <= i <= s.len(),
    ensures
        vstd::utf8::encode_utf8(s.skip(j)).len() >= vstd::utf8::encode_utf8(s.skip(i)).len(),
    decreases i - j,
{
    if j < i {
        lemma_encode_skip(s, j);
        lemma_encode_skip_mono(s, j + 1, i);
    }
}

/// Whether the UTF-8 encoding of `s` takes more than `cap` bytes.
pub fn utf8_len_exceeds(s: &str, cap: u64) -> (r: bool)
    requires
        cap < 0xffff_ffff,
    ensures
        r == (vstd::utf8::encode_utf8(s@).len() > cap),
{
    let v = chars_of(s);
    let mut i = v.len();
    let mut sum: u64 = 0;
    assert(v@.skip(v@.len() as int) =~= Seq::<char>::empty());
    while i > 0
        invariant
            i <= v.len(),
            v@ == s@,
            cap < 0xffff_ffff,
            sum <= cap,
            sum == vstd::utf8::encode_utf8(v@.skip(i as int)).len(),
        decreases i,
    {
        let c = v[i - 1];
        let code = c as u32;
        let w: u64 = if code <= 0x7f {
            1
        } else if code <= 0x7ff {
            2
        } else if code <= 0xffff {
            3
        } else {
            4
        };
        proof {
            vstd::utf8::char_is_scalar(c);
            lemma_encode_skip(v@, i - 1);
            assert(vstd::utf8::encode_scalar(c as u32).len() == w);
        }
        sum = sum + w;
        i = i - 1;
        if sum > cap {
            proof {
                lemma_encode_skip_mono(v@, 0, i as int);
                assert(v@.skip(0) =~= v@);
            }
            return true;
        }
    }
    assert(v@.skip(0) =~= v@);
    false
}

/// Whether the UTF-8 encoding of `s` is empty, which is when `s` is.
pub proof fn lemma_encode_empty(s: Seq<char>)
    ensures
        (vstd::utf8::encode_utf8(s).len() == 0) == (s.len() == 0),
{
    if s.len() > 0 {
        vstd::utf8::char_is_scalar(s[0]);
    }
}

} // verus!

verus! {

// ── Words ───────────────────────────────────────────────────────────────────

/// `str::split_whitespace`: the maximal runs of characters that are not
/// white space.
pub open spec fn ws_tokens(s: Seq<char>) -> Seq<Seq<char>>
    decreases s.len(),
{
    if s.len() == 0 {
        Seq::empty()
    } else {
        let t = ws_tokens(s.drop_last());
        let c = s.last();
        if is_unicode_whitespace(c) {
            t
        } else if s.len() >= 2 && !is_unicode_whitespace(s[s.len() - 2]) {
            t.update(t.len() - 1, t.last().push(c))
        } else {
            t.push(seq![c])
        }
    }
}

/// The ranges of the words of `v[lo..hi]`.
pub fn ws_token_ranges(v: &Vec<char>, lo: usize, hi: usize) -> (rs: Vec<(usize, usize)>)
    requires
        lo <= hi <= v.len(),
    ensures
        forall|k: int| 0 <= k < rs.len() ==> lo <= #[trigger] rs[k].0 <= rs[k].1 <= hi,
        range_pieces(v@, rs@) == ws_tokens(v@.subrange(lo as int, hi as int)),
{
    let mut rs: Vec<(usize, usize)> = Vec::new();
    let mut in_tok = false;
    let mut start = lo;
    let mut i = lo;
    assert(v@.subrange(lo as int, lo as int) =~= Seq::<char>::empty());
    assert(range_pieces(v@, rs@) =~= Seq::<Seq<char>>::empty());
    while i < hi
        invariant
            lo <= start <= i <= hi <= v.len(),
            forall|k: int| 0 <= k < rs.len() ==> lo <= #[trigger] rs[k].0 <= rs[k].1 <= i,
            in_tok == (i > lo && !is_unicode_whitespace(v@[i - 1])),
            in_tok ==> start < i,
            (if in_tok {
                range_pieces(v@, rs@).push(v@.subrange(start as int, i as int))
            } else {
                range_pieces(v@, rs@)
            }) == ws_tokens(v@.subrange(lo as int, i as int)),
        decreases hi - i,
    {
        let ghost cur = v@.subrange(lo as int, (i + 1) as int);
        let ghost before = range_pieces(v@, rs@);
        assert(cur.drop_last() =~= v@.subrange(lo as int, i as int));
        assert(cur.last() == v@[i as int]);
        let c = v[i];
        if is_whitespace_char(c) {
            if in_tok {
                let ghost old_rs = rs@;
                rs.push((start, i));
                assert(range_pieces(v@, rs@) =~= before.push(v@.subrange(start as int, i as int)));
                assert forall|k: int| 0 <= k < rs.len() implies lo <= #[trigger] rs[k].0 <= rs[k].1
                    <= i + 1 by {
                    if k < old_rs.len() {
                        assert(rs[k] == old_rs[k]);
                    }
                }
            }
            in_tok = false;
        } else {
            if in_tok {
                assert(cur[cur.len() - 2] == v@[i - 1]);
                assert(v@.subrange(start as int, (i + 1) as int) =~= v@.subrange(
                    start as int,
                    i as int,
                ).push(c));
                assert(before.push(v@.subrange(start as int, (i + 1) as int)) =~= before.push(
                    v@.subrange(start as int, i as int),
                ).update(before.len() as int, v@.subrange(start as int, i as int).push(c)));
            } else {
                if i > lo {
                    assert(cur[cur.len() - 2] == v@[i - 1]);
                }
                start = i;
                assert(v@.subrange(start as int, (i + 1) as int) =~= seq![c]);
            }
            in_tok = true;
        }
        i = i + 1;
    }
    if in_tok {
        let ghost before = range_pieces(v@, rs@);
        rs.push((start, hi));
        assert(range_pieces(v@, rs@) =~= before.push(v@.subrange(start as int, hi as int)));
    }
    rs
}

} // verus!

verus! {

/// Whether two strings hold the same characters.
pub fn str_eq(a: &str, b: &str) -> (r: bool)
    ensures
        r == (a@ == b@),
{
    let va = chars_of(a);
    let vb = chars_of(b);
    if va.len() != vb.len() {
        return false;
    }
    let mut i: usize = 0;
    while i < va.len()
        invariant
            va.len() == vb.len(),
            i <= va.len(),
            va@ == a@,
            vb@ == b@,
            forall|j: int| 0 <= j < i ==> va@[j] == vb@[j],
        decreases va.len() - i,
    {
        if va[i] != vb[i] {
            assert(a@[i as int] != b@[i as int]);
            return false;
        }
        i = i + 1;
    }
    assert(va@ =~= vb@);
    true
}

/// Whether `prefix` begins `s`.
pub fn starts_with_str(s: &str, prefix: &str) -> (r: bool)
    ensures
        r == prefix@.is_prefix_of(s@),
{
    let vs = chars_of(s);
    let vp = chars_of(prefix);
    if vp.len() > vs.len() {
        return false;
    }
    let mut i: usize = 0;
    while i < vp.len()
        invariant
            vp.len() <= vs.len(),
            i <= vp.len(),
            vs@ == s@,
            vp@ == prefix@,
            forall|j: int| 0 <= j < i ==> vp@[j] == vs@[j],
        decreases vp.len() - i,
    {
        if vp[i] != vs[i] {
            assert(vs@.subrange(0, vp@.len() as int)[i as int] != prefix@[i as int]);
            return false;
        }
        i = i + 1;
    }
    assert(vp@ =~= vs@.subrange(0, vp@.len() as int));
    true
}

/// Whether `suffix` ends `s`.
pub fn ends_with_str(s: &str, suffix: &str) -> (r: bool)
    ensures
        r == suffix@.is_suffix_of(s@),
{
    let vs = chars_of(s);
    let vp = chars_of(suffix);
    if vp.len() > vs.len() {
        return false;
    }
    let off = vs.len() - vp.len();
    let mut i: usize = 0;
    while i < vp.len()
        invariant
            vp.len() <= vs.len(),
            off == vs.len() - vp.len(),
            i <= vp.len(),
            vs@ == s@,
            vp@ == suffix@,
            forall|j: int| 0 <= j < i ==> vp@[j] == vs@[off + j],
        decreases vp.len() - i,
    {
        if vp[i] != vs[off + i] {
            assert(vs@.subrange(off as int, vs.len() as int)[i as int] != suffix@[i as int]);
            return false;
        }
        i = i + 1;
    }
    assert(vp@ =~= vs@.subrange(off as int, vs.len() as int));
    true
}

/// `t` occurs in `s` starting at position `i`.
pub open spec fn occurs_at(s: Seq<char>, t: Seq<char>, i: int) -> bool {
    &&& 0 <= i
    &&& i + t.len() <= s.len()
    &&& s.subrange(i, i + t.len()) == t
}

/// `t` occurs somewhere in `s`.
pub open spec fn has_infix(s: Seq<char>, t: Seq<char>) -> bool {
    exists|i: int| occurs_at(s, t, i)
}

fn matches_at(vs: &Vec<char>, vt: &Vec<char>, i: usize) -> (r: bool)
    requires
        i + vt.len() <= vs.len(),
    ensures
        r == occurs_at(vs@, vt@, i as int),
{
    let mut j: usize = 0;
    while j < vt.len()
        invariant
            i + vt.len() <= vs.len(),
            j <= vt.len(),
            forall|k: int| 0 <= k < j ==> vt@[k] == vs@[i + k],
        decreases vt.len() - j,
    {
        if vt[j] != vs[i + j] {
            assert(vs@.subrange(i as int, i + vt.len())[j as int] != vt@[j as int]);
            return false;
        }
        j = j + 1;
    }
    assert(vs@.subrange(i as int, i + vt.len()) =~= vt@);
    true
}

/// Whether `t` occurs in `s`.
pub fn contains_str(s: &str, t: &str) -> (r: bool)
    ensures
        r == has_infix(s@, t@),
{
    let vs = chars_of(s);
    let vt = chars_of(t);
    if vt.len() > vs.len() {
        assert forall|i: int| !occurs_at(s@, t@, i) by {}
        return false;
    }
    let last = vs.len() - vt.len();
    let mut i: usize = 0;
    loop
        invariant
            vt.len() <= vs.len(),
            last == vs.len() - vt.len(),
            vs@ == s@,
            vt@ == t@,
            i <= last,
            forall|k: int| 0 <= k < i ==> !occurs_at(s@, t@, k),
        ensures
            forall|k: int| 0 <= k <= last ==> !occurs_at(s@, t@, k),
        decreases last - i,
    {
        if matches_at(&vs, &vt, i) {
            assert(occurs_at(s@, t@, i as int));
            return true;
        }
        if i == last {
            break;
        }
        i = i + 1;
    }
    assert forall|k: int| !occurs_at(s@, t@, k) by {
        if 0 <= k && k + t@.len() <= s@.len() {
            assert(k <= last);
        }
    }
    false
}

/// `s` without leading and trailing whitespace.
pub fn trim_str(s: &str) -> (r: String)
    ensures
        r@ == trim(s@, false),
{
    let v = chars_of(s);
    let n = v.len();
    assert(v@.subrange(0, n as int) =~= s@);
    let (a, b) = trim_range(&v, 0, n, false);
    string_of_range(&v, a, b, false)
}

} // verus!
