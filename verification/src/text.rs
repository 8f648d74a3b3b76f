//! Character-level text helpers shared by the code generators: decimal
//! formatting, `u32` parsing, whitespace trimming and prefix tests, all
//! specified over `Seq<char>`.
use vstd::prelude::*;

verus! {

/// Unicode `White_Space` property, which is exactly what `char::is_whitespace` tests.
pub open spec fn is_ws(c: char) -> bool {
    ||| (0x09 <= c as u32 && c as u32 <= 0x0d)
    ||| c as u32 == 0x20
    ||| c as u32 == 0x85
    ||| c as u32 == 0xa0
    ||| c as u32 == 0x1680
    ||| (0x2000 <= c as u32 && c as u32 <= 0x200a)
    ||| c as u32 == 0x2028
    ||| c as u32 == 0x2029
    ||| c as u32 == 0x202f
    ||| c as u32 == 0x205f
    ||| c as u32 == 0x3000
}

/// `s` without its leading whitespace.
pub open spec fn trim_start(s: Seq<char>) -> Seq<char>
    decreases s.len(),
{
    if s.len() > 0 && is_ws(s[0]) {
        trim_start(s.drop_first())
    } else {
        s
    }
}

/// `s` without its trailing whitespace.
pub open spec fn trim_end(s: Seq<char>) -> Seq<char>
    decreases s.len(),
{
    if s.len() > 0 && is_ws(s.last()) {
        trim_end(s.drop_last())
    } else {
        s
    }
}

/// What `str::trim` gives back.
pub open spec fn trim(s: Seq<char>) -> Seq<char> {
    trim_end(trim_start(s))
}

pub open spec fn starts_with(s: Seq<char>, p: Seq<char>) -> bool {
    p.len() <= s.len() && s.subrange(0, p.len() as int) == p
}

pub open spec fn ends_with(s: Seq<char>, p: Seq<char>) -> bool {
    p.len() <= s.len() && s.subrange(s.len() - p.len(), s.len() as int) == p
}

pub open spec fn is_digit(c: char) -> bool {
    '0' <= c && c <= '9'
}

pub open spec fn digit_char(d: nat) -> char
    recommends
        d < 10,
{
    if d == 0 {
        '0'
    } else if d == 1 {
        '1'
    } else if d == 2 {
        '2'
    } else if d == 3 {
        '3'
    } else if d == 4 {
        '4'
    } else if d == 5 {
        '5'
    } else if d == 6 {
        '6'
    } else if d == 7 {
        '7'
    } else if d == 8 {
        '8'
    } else {
        '9'
    }
}

/// Decimal notation of `n`, as `Display` prints an unsigned integer.
pub open spec fn dec(n: nat) -> Seq<char>
    decreases n,
{
    if n < 10 {
        seq![digit_char(n)]
    } else {
        dec(n / 10).push(digit_char(n % 10))
    }
}

/// Decimal notation of a signed integer, as `Display` prints it.
pub open spec fn int_dec(n: int) -> Seq<char> {
    if n < 0 {
        seq!['-'] + dec((-n) as nat)
    } else {
        dec(n as nat)
    }
}

/// Index of the first occurrence of `pat` in `s` at or after `k`, or -1.
pub open spec fn find_from(s: Seq<char>, pat: Seq<char>, k: int) -> int
    decreases s.len() + 1 - k,
{
    if k < 0 || k + pat.len() > s.len() {
        -1
    } else if s.subrange(k, k + pat.len()) == pat {
        k
    } else {
        find_from(s, pat, k + 1)
    }
}

/// Value of a sequence of decimal digits.
pub open spec fn digits_value(s: Seq<char>) -> nat
    decreases s.len(),
{
    if s.len() == 0 {
        0
    } else {
        digits_value(s.drop_last()) * 10 + ((s.last() as u32 - '0' as u32) as nat)
    }
}

pub open spec fn all_digits(s: Seq<char>) -> bool {
    forall|i: int| 0 <= i < s.len() ==> is_digit(#[trigger] s[i])
}

/// What `str::parse::<u32>` accepts: an optional `+`, then one or more decimal
/// digits whose value fits in a `u32`.
pub open spec fn parse_u32(s: Seq<char>) -> Option<u32> {
    let d = if s.len() > 0 && s[0] == '+' {
        s.drop_first()
    } else {
        s
    };
    if d.len() > 0 && all_digits(d) && digits_value(d) <= u32::MAX {
        Some(digits_value(d) as u32)
    } else {
        None
    }
}

proof fn lemma_digits_value_prefix_le(s: Seq<char>, i: int)
    requires
        0 <= i <= s.len(),
    ensures
        digits_value(s.subrange(0, i)) <= digits_value(s),
    decreases s.len() - i,
{
    if i < s.len() {
        lemma_digits_value_prefix_le(s, i + 1);
        assert(s.subrange(0, i + 1).drop_last() =~= s.subrange(0, i));
    } else {
        assert(s.subrange(0, i) =~= s);
    }
}

/// Number of occurrences of `c` in `s`.
pub open spec fn count_char(s: Seq<char>, c: char) -> nat
    decreases s.len(),
{
    if s.len() == 0 {
        0
    } else {
        count_char(s.drop_last(), c) + (if s.last() == c {
            1nat
        } else {
            0nat
        })
    }
}

/// Index of the first occurrence of `c` in `s`, or -1.
pub open spec fn first_index(s: Seq<char>, c: char) -> int
    decreases s.len(),
{
    if s.len() == 0 {
        -1
    } else if first_index(s.drop_last(), c) >= 0 {
        first_index(s.drop_last(), c)
    } else if s.last() == c {
        s.len() - 1
    } else {
        -1
    }
}

pub proof fn lemma_first_index(s: Seq<char>, c: char)
    ensures
        -1 <= first_index(s, c) < s.len(),
        first_index(s, c) >= 0 ==> s[first_index(s, c)] == c,
        first_index(s, c) >= 0 ==> count_char(s, c) >= 1,
        first_index(s, c) < 0 ==> count_char(s, c) == 0,
    decreases s.len(),
{
    if s.len() > 0 {
        lemma_first_index(s.drop_last(), c);
    }
}

/// Lower-case form of a string as `str::to_lowercase` computes it (Unicode
/// case mapping).
pub uninterp spec fn lowercase(s: Seq<char>) -> Seq<char>;

/// Whether every character of `s` is ASCII.
pub open spec fn is_ascii_text(s: Seq<char>) -> bool {
    forall|i: int| 0 <= i < s.len() ==> (#[trigger] s[i] as u32) < 128
}

/// `c` with an ASCII capital letter turned into its small letter.
pub open spec fn ascii_lower_char(c: char) -> char {
    if 'A' <= c && c <= 'Z' {
        ((c as u32) + 32) as char
    } else {
        c
    }
}

/// `s` with every ASCII capital letter turned into its small letter.
pub open spec fn ascii_lower(s: Seq<char>) -> Seq<char> {
    Seq::new(s.len(), |i: int| ascii_lower_char(s[i]))
}

/// The lower-case form of `s`: on ASCII text, `A`..`Z` become `a`..`z`
/// and every other character stays; other text maps as `lowercase` does.
pub open spec fn lower_text(s: Seq<char>) -> Seq<char> {
    if is_ascii_text(s) {
        ascii_lower(s)
    } else {
        lowercase(s)
    }
}

/// `str::to_lowercase`: the result is the Unicode lower-case mapping of `s`,
/// which depends on `s` alone; on ASCII text it turns `A`..`Z` into
/// `a`..`z` and keeps every other character. The mapping of other
/// characters is left unstated.
#[verifier::external_body]
pub(crate) fn str_lowercase(s: &str) -> (r: String)
    ensures
        r@ == lowercase(s@),
        is_ascii_text(s@) ==> r@ == ascii_lower(s@),
{
    s.to_lowercase()
}

/// Counts `c` in `v[lo..hi]` and finds its first position there.
pub fn scan_char(v: &Vec<char>, lo: usize, hi: usize, c: char) -> (r: (usize, Option<usize>))
    requires
        lo <= hi <= v@.len(),
    ensures
        r.0 == count_char(v@.subrange(lo as int, hi as int), c),
        r.1 matches Some(p) ==> lo <= p < hi && p - lo == first_index(
            v@.subrange(lo as int, hi as int),
            c,
        ),
        r.1 is None ==> first_index(v@.subrange(lo as int, hi as int), c) == -1,
{
    let mut count: usize = 0;
    let mut pos: Option<usize> = None;
    let mut i = lo;
    while i < hi
        invariant
            lo <= i <= hi,
            hi <= v@.len(),
            count == count_char(v@.subrange(lo as int, i as int), c),
            count <= i - lo,
            pos matches Some(p) ==> lo <= p < i && p - lo == first_index(
                v@.subrange(lo as int, i as int),
                c,
            ),
            pos is None ==> first_index(v@.subrange(lo as int, i as int), c) == -1,
        decreases hi - i,
    {
        let ghost prev = v@.subrange(lo as int, i as int);
        if v[i] == c {
            count = count + 1;
            if pos.is_none() {
                pos = Some(i);
            }
        }
        i = i + 1;
        proof {
            assert(v@.subrange(lo as int, i as int).drop_last() =~= prev);
        }
    }
    (count, pos)
}

/// What `str::replace(from, to)` gives back for a non-empty `from`: every
/// match, found left to right without overlap, replaced by `to`.
pub open spec fn replace_all(s: Seq<char>, from: Seq<char>, to: Seq<char>) -> Seq<char>
    decreases s.len(),
{
    if from.len() == 0 || s.len() < from.len() {
        s
    } else if s.subrange(0, from.len() as int) == from {
        to + replace_all(s.subrange(from.len() as int, s.len() as int), from, to)
    } else {
        seq![s[0]] + replace_all(s.drop_first(), from, to)
    }
}

/// `str::replace` for a non-empty pattern.
pub fn str_replace(s: &str, from: &str, to: &str) -> (r: String)
    requires
        from@.len() > 0,
    ensures
        r@ == replace_all(s@, from@, to@),
{
    let v = chars_of(s);
    let n = v.len();
    let flen = from.unicode_len();
    let mut out = String::new();
    let mut i: usize = 0;
    proof {
        assert(v@.subrange(0, n as int) =~= v@);
        assert(Seq::<char>::empty() + v@ =~= v@);
    }
    while i < n
        invariant
            n == v@.len(),
            v@ == s@,
            flen == from@.len(),
            flen > 0,
            i <= n,
            replace_all(s@, from@, to@) == out@ + replace_all(
                v@.subrange(i as int, n as int),
                from@,
                to@,
            ),
        decreases n - i,
    {
        let ghost t = v@.subrange(i as int, n as int);
        let ghost o = out@;
        if flen <= n - i && range_eq(&v, i, i + flen, from) {
            out.append(to);
            i = i + flen;
            proof {
                assert(t.subrange(0, flen as int) =~= v@.subrange(i - flen, i as int));
                assert(t.subrange(flen as int, t.len() as int) =~= v@.subrange(i as int, n as int));
                assert(out@ + replace_all(v@.subrange(i as int, n as int), from@, to@) =~= o + (to@
                    + replace_all(v@.subrange(i as int, n as int), from@, to@)));
            }
        } else {
            let c = v[i];
            push_char(&mut out, c);
            i = i + 1;
            proof {
                assert(t.drop_first() =~= v@.subrange(i as int, n as int));
                if t.len() >= flen {
                    assert(t.subrange(0, flen as int) =~= v@.subrange(i - 1, i - 1 + flen));
                } else {
                    assert(replace_all(t.drop_first(), from@, to@) == t.drop_first());
                    assert(t =~= seq![c] + t.drop_first());
                }
                assert(out@ + replace_all(v@.subrange(i as int, n as int), from@, to@) =~= o + (seq![
                    c,
                ] + replace_all(v@.subrange(i as int, n as int), from@, to@)));
            }
        }
    }
    proof {
        assert(v@.subrange(n as int, n as int) =~= Seq::<char>::empty());
        assert(out@ + Seq::<char>::empty() =~= out@);
    }
    out
}

/// Appends one character (`String::push`).
#[verifier::external_body]
pub(crate) fn push_char(s: &mut String, c: char)
    ensures
        final(s)@ == old(s)@.push(c),
{
    s.push(c);
}

fn digit_of(d: u32) -> (c: char)
    requires
        d < 10,
    ensures
        c == digit_char(d as nat),
{
    if d == 0 {
        '0'
    } else if d == 1 {
        '1'
    } else if d == 2 {
        '2'
    } else if d == 3 {
        '3'
    } else if d == 4 {
        '4'
    } else if d == 5 {
        '5'
    } else if d == 6 {
        '6'
    } else if d == 7 {
        '7'
    } else if d == 8 {
        '8'
    } else {
        '9'
    }
}

/// Appends the decimal notation of `n`.
pub fn push_dec(s: &mut String, n: u64)
    ensures
        final(s)@ == old(s)@ + dec(n as nat),
    decreases n,
{
    if n >= 10 {
        push_dec(s, n / 10);
    }
    let d = digit_of((n % 10) as u32);
    push_char(s, d);
    proof {
        if n < 10 {
            assert(old(s)@.push(d) =~= old(s)@ + seq![d]);
        } else {
            assert(old(s)@ + dec(n as nat) =~= (old(s)@ + dec((n / 10) as nat)).push(d));
        }
    }
}

/// Appends the decimal notation of the signed integer `n`.
pub fn push_int(s: &mut String, n: i64)
    ensures
        final(s)@ == old(s)@ + int_dec(n as int),
{
    if n < 0 {
        push_char(s, '-');
        let m: u64 = if n == i64::MIN {
            0x8000_0000_0000_0000u64
        } else {
            (-n) as u64
        };
        push_dec(s, m);
        proof {
            assert(final(s)@ =~= old(s)@ + int_dec(n as int));
        }
    } else {
        push_dec(s, n as u64);
    }
}

/// Position of the first occurrence of `pat` in `s` (`str::find`).
pub fn str_find(s: &str, pat: &str) -> (r: Option<usize>)
    ensures
        r matches Some(k) ==> find_from(s@, pat@, 0) == k && k + pat@.len() <= s@.len(),
        r is None ==> find_from(s@, pat@, 0) == -1,
{
    let v = chars_of(s);
    let n = v.len();
    let plen = pat.unicode_len();
    if plen > n {
        return None;
    }
    let last = n - plen;
    let mut k: usize = 0;
    loop
        invariant
            n == s@.len(),
            v@ == s@,
            plen == pat@.len(),
            plen <= n,
            last == n - plen,
            k <= last,
            find_from(s@, pat@, 0) == find_from(s@, pat@, k as int),
        decreases last - k,
    {
        if range_eq(&v, k, k + plen, pat) {
            return Some(k);
        }
        if k == last {
            proof {
                assert(find_from(s@, pat@, k + 1) == -1);
            }
            return None;
        }
        k = k + 1;
    }
}

/// Decimal notation of `n` as a new string.
pub fn dec_string(n: u64) -> (r: String)
    ensures
        r@ == dec(n as nat),
{
    let mut r = String::new();
    push_dec(&mut r, n);
    proof {
        assert(Seq::<char>::empty() + dec(n as nat) =~= dec(n as nat));
    }
    r
}

/// The characters of `s`.
pub fn chars_of(s: &str) -> (v: Vec<char>)
    ensures
        v@ == s@,
{
    let n = s.unicode_len();
    let mut v: Vec<char> = Vec::new();
    let mut i: usize = 0;
    while i < n
        invariant
            n == s@.len(),
            i <= n,
            v@ == s@.subrange(0, i as int),
        decreases n - i,
    {
        let c = s.get_char(i);
        v.push(c);
        i = i + 1;
        proof {
            assert(v@ =~= s@.subrange(0, i as int));
        }
    }
    proof {
        assert(v@ =~= s@);
    }
    v
}

/// A string holding the characters of `v[from..to]`.
pub fn string_of_range(v: &Vec<char>, from: usize, to: usize) -> (r: String)
    requires
        from <= to <= v@.len(),
    ensures
        r@ == v@.subrange(from as int, to as int),
{
    let mut r = String::new();
    let mut i = from;
    while i < to
        invariant
            from <= i <= to,
            to <= v@.len(),
            r@ == v@.subrange(from as int, i as int),
        decreases to - i,
    {
        push_char(&mut r, v[i]);
        i = i + 1;
        proof {
            assert(r@ =~= v@.subrange(from as int, i as int));
        }
    }
    r
}

/// Whether the characters `v[from..to]` equal `lit`.
pub fn range_eq(v: &Vec<char>, from: usize, to: usize, lit: &str) -> (b: bool)
    requires
        from <= to <= v@.len(),
    ensures
        b == (v@.subrange(from as int, to as int) == lit@),
{
    let n = lit.unicode_len();
    if to - from != n {
        return false;
    }
    let mut i: usize = 0;
    while i < n
        invariant
            n == lit@.len(),
            to - from == n,
            from <= to <= v@.len(),
            i <= n,
            forall|k: int| 0 <= k < i ==> v@[from + k] == lit@[k],
        decreases n - i,
    {
        if v[from + i] != lit.get_char(i) {
            proof {
                assert(v@.subrange(from as int, to as int)[i as int] != lit@[i as int]);
            }
            return false;
        }
        i = i + 1;
    }
    proof {
        assert(v@.subrange(from as int, to as int) =~= lit@);
    }
    true
}

/// Whether `v` equals `lit`.
pub fn chars_eq(v: &Vec<char>, lit: &str) -> (b: bool)
    ensures
        b == (v@ == lit@),
{
    let r = range_eq(v, 0, v.len(), lit);
    proof {
        assert(v@.subrange(0, v@.len() as int) =~= v@);
    }
    r
}

/// Whether `s` equals `lit`.
pub fn str_eq(s: &str, lit: &str) -> (b: bool)
    ensures
        b == (s@ == lit@),
{
    let a = String::from_str(s);
    let b = String::from_str(lit);
    a == b
}

/// Whether `v` begins with `p`.
pub fn chars_start_with(v: &Vec<char>, p: &str) -> (b: bool)
    ensures
        b == starts_with(v@, p@),
{
    let n = p.unicode_len();
    if n > v.len() {
        return false;
    }
    range_eq(v, 0, n, p)
}

/// Whether `v` ends with `p`.
pub fn chars_end_with(v: &Vec<char>, p: &str) -> (b: bool)
    ensures
        b == ends_with(v@, p@),
{
    let n = p.unicode_len();
    if n > v.len() {
        return false;
    }
    range_eq(v, v.len() - n, v.len(), p)
}

/// Whether `s` begins with `p` (`str::starts_with`).
pub fn str_starts_with(s: &str, p: &str) -> (b: bool)
    ensures
        b == starts_with(s@, p@),
{
    let v = chars_of(s);
    chars_start_with(&v, p)
}

/// Whether `s` ends with `p` (`str::ends_with`).
pub fn str_ends_with(s: &str, p: &str) -> (b: bool)
    ensures
        b == ends_with(s@, p@),
{
    let v = chars_of(s);
    chars_end_with(&v, p)
}

fn is_ws_char(c: char) -> (b: bool)
    ensures
        b == is_ws(c),
{
    let u = c as u32;
    (0x09 <= u && u <= 0x0d) || u == 0x20 || u == 0x85 || u == 0xa0 || u == 0x1680 || (0x2000
        <= u && u <= 0x200a) || u == 0x2028 || u == 0x2029 || u == 0x202f || u == 0x205f || u
        == 0x3000
}

proof fn lemma_trim_start_skip(s: Seq<char>, i: int)
    requires
        0 <= i <= s.len(),
        forall|k: int| 0 <= k < i ==> is_ws(#[trigger] s[k]),
    ensures
        trim_start(s) == trim_start(s.subrange(i, s.len() as int)),
    decreases i,
{
    if i > 0 {
        assert(is_ws(s[0]));
        lemma_trim_start_skip(s.drop_first(), i - 1);
        assert(s.drop_first().subrange(i - 1, s.drop_first().len() as int) =~= s.subrange(
            i,
            s.len() as int,
        ));
    } else {
        assert(s.subrange(0, s.len() as int) =~= s);
    }
}

proof fn lemma_trim_end_cut(s: Seq<char>, j: int)
    requires
        0 <= j <= s.len(),
        forall|k: int| j <= k < s.len() ==> is_ws(#[trigger] s[k]),
    ensures
        trim_end(s) == trim_end(s.subrange(0, j)),
    decreases s.len() - j,
{
    if j < s.len() {
        assert(is_ws(s.last()));
        lemma_trim_end_cut(s.drop_last(), j);
        assert(s.drop_last().subrange(0, j) =~= s.subrange(0, j));
    } else {
        assert(s.subrange(0, j) =~= s);
    }
}

/// Bounds `(from, to)` such that `v[from..to]` is `trim(v)`.
pub fn trim_bounds(v: &Vec<char>, lo: usize, hi: usize) -> (r: (usize, usize))
    requires
        lo <= hi <= v@.len(),
    ensures
        lo <= r.0 <= r.1 <= hi,
        v@.subrange(r.0 as int, r.1 as int) == trim(v@.subrange(lo as int, hi as int)),
{
    let ghost s = v@.subrange(lo as int, hi as int);
    let mut i = lo;
    while i < hi && is_ws_char(v[i])
        invariant
            lo <= i <= hi,
            hi <= v@.len(),
            s == v@.subrange(lo as int, hi as int),
            forall|k: int| lo <= k < i ==> is_ws(#[trigger] v@[k]),
        decreases hi - i,
    {
        i = i + 1;
    }
    proof {
        assert forall|k: int| 0 <= k < i - lo implies is_ws(#[trigger] s[k]) by {
            assert(s[k] == v@[lo + k]);
        }
        lemma_trim_start_skip(s, i - lo);
        assert(s.subrange(i - lo, s.len() as int) =~= v@.subrange(i as int, hi as int));
        let t = v@.subrange(i as int, hi as int);
        if i < hi {
            assert(!is_ws(t[0]));
        }
        assert(trim_start(t) == t);
    }
    let mut j = hi;
    while j > i && is_ws_char(v[j - 1])
        invariant
            i <= j <= hi,
            hi <= v@.len(),
            forall|k: int| j <= k < hi ==> is_ws(#[trigger] v@[k]),
        decreases j - i,
    {
        j = j - 1;
    }
    proof {
        let t = v@.subrange(i as int, hi as int);
        assert forall|k: int| j - i <= k < t.len() implies is_ws(#[trigger] t[k]) by {
            assert(t[k] == v@[i + k]);
        }
        lemma_trim_end_cut(t, j - i);
        assert(t.subrange(0, j - i) =~= v@.subrange(i as int, j as int));
        let u = v@.subrange(i as int, j as int);
        if j > i {
            assert(!is_ws(u.last()));
        }
        assert(trim_end(u) == u);
    }
    (i, j)
}

/// `parse_u32(v[from..to])`.
pub fn parse_u32_range(v: &Vec<char>, from: usize, to: usize) -> (r: Option<u32>)
    requires
        from <= to <= v@.len(),
    ensures
        r == parse_u32(v@.subrange(from as int, to as int)),
{
    let ghost s = v@.subrange(from as int, to as int);
    let mut start = from;
    if from < to && v[from] == '+' {
        start = from + 1;
    }
    let ghost d = v@.subrange(start as int, to as int);
    proof {
        if s.len() > 0 && s[0] == '+' {
            assert(d =~= s.drop_first());
        } else {
            assert(d =~= s);
        }
    }
    if start == to {
        return None;
    }
    let mut acc: u64 = 0;
    let mut i = start;
    while i < to
        invariant
            from <= start <= i <= to,
            to <= v@.len(),
            d == v@.subrange(start as int, to as int),
            d.len() > 0,
            parse_u32(v@.subrange(from as int, to as int)) == (if all_digits(d) && digits_value(d)
                <= u32::MAX {
                Some(digits_value(d) as u32)
            } else {
                None
            }),
            acc as nat == digits_value(v@.subrange(start as int, i as int)),
            acc <= u32::MAX,
            all_digits(v@.subrange(start as int, i as int)),
        decreases to - i,
    {
        let c = v[i];
        if c < '0' || c > '9' {
            proof {
                assert(!is_digit(d[i - start]));
            }
            return None;
        }
        let ghost prev = v@.subrange(start as int, i as int);
        acc = acc * 10 + ((c as u32) - ('0' as u32)) as u64;
        i = i + 1;
        proof {
            assert(v@.subrange(start as int, i as int).drop_last() =~= prev);
            assert(all_digits(v@.subrange(start as int, i as int))) by {
                assert forall|k: int| 0 <= k < i - start implies is_digit(
                    #[trigger] v@.subrange(start as int, i as int)[k],
                ) by {
                    if k < i - start - 1 {
                        assert(v@.subrange(start as int, i as int)[k] == prev[k]);
                    }
                }
            }
        }
        if acc > 0xffff_ffff {
            proof {
                assert(v@.subrange(start as int, i as int) =~= d.subrange(0, i - start));
                lemma_digits_value_prefix_le(d, i - start);
            }
            return None;
        }
    }
    proof {
        assert(v@.subrange(start as int, i as int) =~= d);
    }
    Some(acc as u32)
}

} // verus!
