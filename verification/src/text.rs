//! Verified text utilities: case-insensitive matching, trimming, splitting,
//! substring removal, decimal integer parsing and rendering, and a recognizer
//! for the texts that parse as 64-bit floating-point numbers.

use vstd::prelude::*;

verus! {

pub open spec fn is_digit(c: char) -> bool {
    '0' <= c && c <= '9'
}

pub open spec fn all_digits(s: Seq<char>) -> bool {
    forall|i: int| 0 <= i < s.len() ==> is_digit(#[trigger] s[i])
}

/// One character of an all-lowercase pattern matches a subject character
/// exactly or as its ASCII-uppercase counterpart.
pub open spec fn char_matches_lower(subject: char, lower: char) -> bool {
    subject == lower || ('A' <= subject && subject <= 'Z' && lower as u32 == subject as u32 + 32)
}

/// The subject equals the all-lowercase pattern after ASCII lowercasing.
pub open spec fn matches_lowered(subject: Seq<char>, lower: Seq<char>) -> bool {
    subject.len() == lower.len() && forall|i: int|
        0 <= i < subject.len() ==> char_matches_lower(#[trigger] subject[i], lower[i])
}

/// Case-insensitive comparison of `subject` against an all-lowercase pattern.
pub fn eq_ignore_ascii_lower(subject: &str, lower: &str) -> (r: bool)
    ensures
        r == matches_lowered(subject@, lower@),
{
    let n: usize = subject.unicode_len();
    let m: usize = lower.unicode_len();
    if n != m {
        return false;
    }
    let mut i: usize = 0;
    while i < n
        invariant
            0 <= i <= n,
            n == subject@.len(),
            n == lower@.len(),
            forall|j: int| 0 <= j < i ==> char_matches_lower(#[trigger] subject@[j], lower@[j]),
        decreases n - i,
    {
        let sc = subject.get_char(i);
        let lc = lower.get_char(i);
        let ok = if sc == lc {
            true
        } else if 'A' <= sc && sc <= 'Z' {
            lc as u32 == sc as u32 + 32
        } else {
            false
        };
        if !ok {
            return false;
        }
        i = i + 1;
    }
    true
}

/// Character-for-character equality of two string slices.
pub fn str_eq(a: &str, b: &str) -> (r: bool)
    ensures
        r == (a@ == b@),
{
    let n: usize = a.unicode_len();
    let m: usize = b.unicode_len();
    if n != m {
        proof {
            assert(a@ != b@);
        }
        return false;
    }
    let mut i: usize = 0;
    while i < n
        invariant
            0 <= i <= n,
            n == a@.len(),
            n == b@.len(),
            forall|j: int| 0 <= j < i ==> a@[j] == b@[j],
        decreases n - i,
    {
        if a.get_char(i) != b.get_char(i) {
            return false;
        }
        i = i + 1;
    }
    proof {
        assert(a@ =~= b@);
    }
    true
}

/// Index of the first occurrence of `c` in `s`, or `s.len()` if absent.
pub open spec fn spec_find_char(s: Seq<char>, c: char) -> int
    decreases s.len(),
{
    if s.len() == 0 {
        0
    } else if s[0] == c {
        0
    } else {
        1 + spec_find_char(s.drop_first(), c)
    }
}

pub proof fn lemma_find_char(s: Seq<char>, c: char)
    ensures
        0 <= spec_find_char(s, c) <= s.len(),
        spec_find_char(s, c) < s.len() ==> s[spec_find_char(s, c)] == c,
        forall|j: int| 0 <= j < spec_find_char(s, c) ==> s[j] != c,
    decreases s.len(),
{
    if s.len() > 0 && s[0] != c {
        lemma_find_char(s.drop_first(), c);
        assert forall|j: int| 0 <= j < spec_find_char(s, c) implies s[j] != c by {
            if j > 0 {
                assert(s.drop_first()[j - 1] == s[j]);
            }
        }
    }
}

/// First occurrence of `c` at or after position `i`, or the length if absent.
pub fn find_char_from(s: &str, i: usize, c: char) -> (r: usize)
    requires
        i <= s@.len(),
    ensures
        r == i + spec_find_char(s@.skip(i as int), c),
        i <= r <= s@.len(),
        r < s@.len() ==> s@[r as int] == c,
        forall|j: int| i <= j < r ==> s@[j] != c,
{
    proof {
        lemma_find_char(s@.skip(i as int), c);
    }
    let n: usize = s.unicode_len();
    let mut k: usize = i;
    while k < n
        invariant
            i <= k <= n,
            n == s@.len(),
            forall|j: int| i <= j < k ==> s@[j] != c,
        decreases n - k,
    {
        if s.get_char(k) == c {
            proof {
                let t = s@.skip(i as int);
                assert(t[k - i] == c);
                lemma_find_first_is(t, c, k - i);
            }
            return k;
        }
        k = k + 1;
    }
    proof {
        let t = s@.skip(i as int);
        assert(spec_find_char(t, c) == t.len()) by {
            lemma_find_char(t, c);
            if spec_find_char(t, c) < t.len() {
                assert(s@[i + spec_find_char(t, c)] == c);
            }
        }
    }
    n
}

/// If `s[k] == c` and nothing before `k` is `c`, the first occurrence is `k`.
pub proof fn lemma_find_first_is(s: Seq<char>, c: char, k: int)
    requires
        0 <= k < s.len(),
        s[k] == c,
        forall|j: int| 0 <= j < k ==> s[j] != c,
    ensures
        spec_find_char(s, c) == k,
    decreases s.len(),
{
    if k > 0 {
        lemma_find_first_is(s.drop_first(), c, k - 1);
    }
}

pub open spec fn is_space(c: char) -> bool {
    c == ' ' || c == '\t' || c == '\n' || c == '\r'
}

/// Length of the run of leading whitespace.
pub open spec fn spec_trim_start(s: Seq<char>) -> int
    decreases s.len(),
{
    if s.len() == 0 {
        0
    } else if is_space(s[0]) {
        1 + spec_trim_start(s.drop_first())
    } else {
        0
    }
}

pub proof fn lemma_trim_start(s: Seq<char>)
    ensures
        0 <= spec_trim_start(s) <= s.len(),
        spec_trim_start(s) < s.len() ==> !is_space(s[spec_trim_start(s)]),
        forall|j: int| 0 <= j < spec_trim_start(s) ==> is_space(s[j]),
    decreases s.len(),
{
    if s.len() > 0 && is_space(s[0]) {
        lemma_trim_start(s.drop_first());
        assert forall|j: int| 0 <= j < spec_trim_start(s) implies is_space(s[j]) by {
            if j > 0 {
                assert(s.drop_first()[j - 1] == s[j]);
            }
        }
    }
}

/// `s` with leading and trailing whitespace removed.
pub open spec fn spec_trim(s: Seq<char>) -> Seq<char> {
    let a = spec_trim_start(s);
    let b = s.len() - spec_trim_start(s.reverse());
    if a < b {
        s.subrange(a, b)
    } else {
        Seq::empty()
    }
}

/// The leading-space run is exactly `a` when everything before `a` is
/// whitespace and position `a` (if inside the text) is not.
pub proof fn lemma_trim_start_is(s: Seq<char>, a: int)
    requires
        0 <= a <= s.len(),
        forall|j: int| 0 <= j < a ==> is_space(s[j]),
        a < s.len() ==> !is_space(s[a]),
    ensures
        spec_trim_start(s) == a,
    decreases s.len(),
{
    if s.len() > 0 && a > 0 {
        lemma_trim_start_is(s.drop_first(), a - 1);
    }
}

fn char_is_space(c: char) -> (r: bool)
    ensures
        r == is_space(c),
{
    c == ' ' || c == '\t' || c == '\n' || c == '\r'
}

/// Trims ASCII whitespace from both ends.
pub fn trim_str<'a>(s: &'a str) -> (r: &'a str)
    ensures
        r@ == spec_trim(s@),
{
    let n: usize = s.unicode_len();
    let mut a: usize = 0;
    while a < n && char_is_space(s.get_char(a))
        invariant
            0 <= a <= n,
            n == s@.len(),
            forall|j: int| 0 <= j < a ==> is_space(s@[j]),
        decreases n - a,
    {
        a = a + 1;
    }
    proof {
        lemma_trim_start_is(s@, a as int);
    }
    let mut b: usize = n;
    while b > a && char_is_space(s.get_char(b - 1))
        invariant
            a <= b <= n,
            n == s@.len(),
            forall|j: int| b <= j < n ==> is_space(s@[j]),
        decreases b,
    {
        b = b - 1;
    }
    proof {
        let rev = s@.reverse();
        if a == b {
            if a < n {
                assert(is_space(s@[a as int]));
                assert(false);
            }
            lemma_trim_start(rev);
            assert(spec_trim(s@) =~= Seq::<char>::empty());
        } else {
            assert(!is_space(s@[b - 1]));
            assert(forall|j: int|
                0 <= j < n - b ==> rev[j] == s@[n - 1 - j] && is_space(#[trigger] rev[j]));
            assert(n - b < rev.len() ==> !is_space(rev[n - (b as int)])) by {
                assert(rev[n - (b as int)] == s@[b - 1]);
            }
            lemma_trim_start_is(rev, n - (b as int));
            assert(s@.subrange(a as int, b as int) =~= spec_trim(s@));
        }
    }
    s.substring_char(a, b)
}

/// The pieces of `s` between occurrences of `c`, in order; an `s` without
/// `c` yields one piece, and separators at the ends yield empty pieces.
pub open spec fn spec_split(s: Seq<char>, c: char) -> Seq<Seq<char>>
    decreases s.len(),
{
    let k = spec_find_char(s, c);
    if 0 <= k < s.len() {
        seq![s.take(k)] + spec_split(s.skip(k + 1), c)
    } else {
        seq![s]
    }
}

/// The views of a sequence of owned strings.
pub open spec fn strs_view(v: Seq<String>) -> Seq<Seq<char>> {
    v.map_values(|x: String| x@)
}

/// Splits `s` at every occurrence of `c`.
pub fn split_char(s: &str, c: char) -> (r: Vec<String>)
    ensures
        strs_view(r@) == spec_split(s@, c),
        r@.len() == spec_split(s@, c).len(),
        forall|k: int| 0 <= k < r@.len() ==> #[trigger] r@[k]@ == spec_split(s@, c)[k],
{
    let n: usize = s.unicode_len();
    let mut out: Vec<String> = Vec::new();
    let mut pos: usize = 0;
    proof {
        assert(s@.skip(0) =~= s@);
        assert(strs_view(out@) + spec_split(s@, c) =~= spec_split(s@, c));
    }
    loop
        invariant
            0 <= pos <= n,
            n == s@.len(),
            spec_split(s@, c) == strs_view(out@) + spec_split(s@.skip(pos as int), c),
        decreases n - pos + 1,
    {
        let k = find_char_from(s, pos, c);
        let piece = s.substring_char(pos, k);
        let ghost rest = s@.skip(pos as int);
        proof {
            lemma_find_char(rest, c);
            assert(spec_find_char(rest, c) == k - pos);
            assert(rest.take(k - pos) =~= s@.subrange(pos as int, k as int));
        }
        out.push(piece.to_owned());
        proof {
            assert(strs_view(out@) =~= strs_view(out@.drop_last()).push(piece@));
        }
        if k == n {
            proof {
                assert(spec_split(rest, c) =~= seq![rest.take(k - pos)]);
                assert(spec_split(s@, c) =~= strs_view(out@));
                assert(forall|t: int|
                    0 <= t < out@.len() ==> #[trigger] out@[t]@ == strs_view(out@)[t]);
            }
            return out;
        }
        proof {
            assert(rest.skip(k - pos + 1) =~= s@.skip(k + 1));
            assert(spec_split(rest, c) =~= seq![rest.take(k - pos)] + spec_split(
                s@.skip(k + 1),
                c,
            ));
            assert(strs_view(out@) + spec_split(s@.skip(k + 1), c) =~= spec_split(s@, c));
        }
        pos = k + 1;
    }
}

/// `s` with every non-overlapping occurrence of `pat` removed, scanning from
/// the left.
pub open spec fn spec_strip_all(s: Seq<char>, pat: Seq<char>) -> Seq<char>
    decreases s.len(),
{
    if pat.len() == 0 || s.len() < pat.len() {
        s
    } else if s.take(pat.len() as int) == pat {
        spec_strip_all(s.skip(pat.len() as int), pat)
    } else {
        s.take(1) + spec_strip_all(s.skip(1), pat)
    }
}

/// Whether `pat` occurs in `s` starting at position `i`.
fn has_at(s: &str, n: usize, i: usize, pat: &str, m: usize) -> (r: bool)
    requires
        i <= n,
        n == s@.len(),
        m == pat@.len(),
    ensures
        r == (i + m <= n && s@.subrange(i as int, i + m) == pat@),
{
    if m > n - i {
        return false;
    }
    let mut j: usize = 0;
    while j < m
        invariant
            0 <= j <= m,
            i + m <= n,
            n == s@.len(),
            m == pat@.len(),
            forall|t: int| 0 <= t < j ==> s@[i + t] == pat@[t],
        decreases m - j,
    {
        if s.get_char(i + j) != pat.get_char(j) {
            proof {
                assert(s@.subrange(i as int, i + m)[j as int] == s@[i + j]);
            }
            return false;
        }
        j = j + 1;
    }
    proof {
        assert(s@.subrange(i as int, i + m) =~= pat@);
    }
    true
}

/// Removes every occurrence of `pat` from `s`, scanning from the left.
pub fn strip_all(s: &str, pat: &str) -> (r: String)
    requires
        pat@.len() >= 1,
    ensures
        r@ == spec_strip_all(s@, pat@),
{
    let n: usize = s.unicode_len();
    let m: usize = pat.unicode_len();
    let mut out = String::new();
    let mut i: usize = 0;
    proof {
        assert(s@.skip(0) =~= s@);
    }
    while i < n
        invariant
            0 <= i <= n,
            n == s@.len(),
            m == pat@.len(),
            m >= 1,
            spec_strip_all(s@, pat@) == out@ + spec_strip_all(s@.skip(i as int), pat@),
        decreases n - i,
    {
        let ghost rest = s@.skip(i as int);
        if has_at(s, n, i, pat, m) {
            proof {
                assert(rest.take(m as int) =~= s@.subrange(i as int, i + m));
                assert(rest.skip(m as int) =~= s@.skip(i + m));
            }
            i = i + m;
        } else {
            let piece = s.substring_char(i, i + 1);
            out.append(piece);
            proof {
                if rest.len() >= m {
                    assert(rest.take(m as int) =~= s@.subrange(i as int, i + m));
                }
                assert(rest.take(1) =~= s@.subrange(i as int, i + 1));
                assert(rest.skip(1) =~= s@.skip(i + 1));
                assert(out@ + spec_strip_all(s@.skip(i + 1), pat@) == spec_strip_all(
                    s@,
                    pat@,
                ));
            }
            i = i + 1;
        }
    }
    proof {
        assert(s@.skip(n as int) =~= Seq::<char>::empty());
        assert(out@ + Seq::<char>::empty() =~= out@);
    }
    out
}

/// `s` with every underscore replaced by a space.
pub open spec fn spec_underscores_to_spaces(s: Seq<char>) -> Seq<char> {
    s.map_values(|c: char| if c == '_' { ' ' } else { c })
}

/// Replaces every underscore with a space.
pub fn underscores_to_spaces(s: &str) -> (r: String)
    ensures
        r@ == spec_underscores_to_spaces(s@),
{
    let n: usize = s.unicode_len();
    let mut out = String::new();
    let mut i: usize = 0;
    while i < n
        invariant
            0 <= i <= n,
            n == s@.len(),
            out@ =~= spec_underscores_to_spaces(s@).take(i as int),
        decreases n - i,
    {
        if s.get_char(i) == '_' {
            out.append(" ");
        } else {
            let piece = s.substring_char(i, i + 1);
            out.append(piece);
        }
        proof {
            reveal_strlit(" ");
            let mv = spec_underscores_to_spaces(s@);
            assert(mv[i as int] == if s@[i as int] == '_' {
                ' '
            } else {
                s@[i as int]
            });
            assert(out@ =~= mv.take(i + 1));
        }
        i = i + 1;
    }
    proof {
        assert(spec_underscores_to_spaces(s@).take(n as int) =~= spec_underscores_to_spaces(
            s@,
        ));
    }
    out
}

/// Numeric value of a pure decimal digit string.
pub open spec fn dec_val(s: Seq<char>) -> int
    decreases s.len(),
{
    if s.len() == 0 {
        0
    } else {
        dec_val(s.drop_last()) * 10 + (s.last() as u32 - 48)
    }
}

pub proof fn lemma_dec_val_nonneg(s: Seq<char>)
    requires
        all_digits(s),
    ensures
        dec_val(s) >= 0,
    decreases s.len(),
{
    if s.len() > 0 {
        lemma_dec_val_nonneg(s.drop_last());
        assert(dec_val(s.drop_last()) * 10 >= 0) by (nonlinear_arith)
            requires
                dec_val(s.drop_last()) >= 0,
        ;
    }
}

/// The value that `str::parse::<i64>` accepts: an optional sign, then one or
/// more decimal digits, provided the value fits in the type.
pub open spec fn spec_parse_i64(s: Seq<char>) -> Option<i64> {
    let neg = s.len() > 0 && s[0] == '-';
    let ds = if s.len() > 0 && (s[0] == '+' || s[0] == '-') {
        s.skip(1)
    } else {
        s
    };
    if ds.len() == 0 || !all_digits(ds) {
        None
    } else {
        let v = if neg {
            -dec_val(ds)
        } else {
            dec_val(ds)
        };
        if i64::MIN <= v <= i64::MAX {
            Some(v as i64)
        } else {
            None
        }
    }
}

/// Parses a decimal integer exactly as `str::parse::<i64>` does.
pub fn parse_i64(s: &str) -> (r: Option<i64>)
    ensures
        r == spec_parse_i64(s@),
{
    let n: usize = s.unicode_len();
    if n == 0 {
        return None;
    }
    let c0 = s.get_char(0);
    let neg = c0 == '-';
    let start: usize = if c0 == '+' || c0 == '-' {
        1
    } else {
        0
    };
    let ghost ds = if c0 == '+' || c0 == '-' {
        s@.skip(1)
    } else {
        s@
    };
    if n == start {
        return None;
    }
    let mut acc: u128 = 0;
    let mut too_big = false;
    let mut i: usize = start;
    while i < n
        invariant
            start <= i <= n,
            n == s@.len(),
            start == 0 || start == 1,
            (start == 1) == (s@.len() > 0 && (s@[0] == '+' || s@[0] == '-')),
            n > start,
            ds =~= s@.skip(start as int),
            all_digits(ds.take(i - start)),
            !too_big ==> acc == dec_val(ds.take(i - start)) && acc <= u64::MAX,
            too_big ==> dec_val(ds.take(i - start)) > u64::MAX,
        decreases n - i,
    {
        let c = s.get_char(i);
        if !('0' <= c && c <= '9') {
            proof {
                assert(ds[i - start] == s@[i as int]);
                assert(!all_digits(ds));
            }
            return None;
        }
        let d: u128 = (c as u32 - 48) as u128;
        proof {
            assert(ds.take(i + 1 - start).drop_last() =~= ds.take(i - start));
            assert(ds.take(i + 1 - start).last() == s@[i as int]);
        }
        if too_big {
            proof {
                lemma_dec_val_nonneg(ds.take(i - start));
                assert(dec_val(ds.take(i + 1 - start)) > u64::MAX) by (nonlinear_arith)
                    requires
                        dec_val(ds.take(i + 1 - start)) == dec_val(ds.take(i - start)) * 10 + (
                        ds.take(i + 1 - start).last() as u32 - 48),
                        dec_val(ds.take(i - start)) > u64::MAX,
                        ds.take(i + 1 - start).last() as u32 >= 48,
                ;
            }
        } else {
            let next: u128 = acc * 10 + d;
            if next > u64::MAX as u128 {
                too_big = true;
            }
            acc = next;
        }
        i = i + 1;
    }
    proof {
        assert(ds.take(n - start) =~= ds);
    }
    if too_big {
        proof {
            if neg {
                assert(-dec_val(ds) < i64::MIN);
            }
        }
        return None;
    }
    if neg {
        if acc > 9223372036854775808u128 {
            return None;
        }
        if acc == 9223372036854775808u128 {
            return Some(i64::MIN);
        }
        return Some(-(acc as i64));
    }
    if acc > i64::MAX as u128 {
        return None;
    }
    Some(acc as i64)
}

pub open spec fn dec_digit(d: int) -> char {
    "0123456789"@[d]
}

/// The decimal rendering of a non-negative value.
pub open spec fn u64_dec(n: int) -> Seq<char>
    decreases n,
{
    if n < 10 {
        seq![dec_digit(n)]
    } else {
        u64_dec(n / 10).push(dec_digit(n % 10))
    }
}

/// The decimal rendering of a signed value, as `i64`'s `Display` writes it.
pub open spec fn i64_dec(n: int) -> Seq<char> {
    if n >= 0 {
        u64_dec(n)
    } else {
        "-"@ + u64_dec(-n)
    }
}

/// Appends the decimal rendering of `n`.
pub fn append_u64_dec(out: &mut String, n: u64)
    ensures
        final(out)@ == old(out)@ + u64_dec(n as int),
    decreases n,
{
    proof {
        reveal_strlit("0123456789");
    }
    let ds = "0123456789";
    if n < 10 {
        let piece = ds.substring_char(n as usize, n as usize + 1);
        proof {
            assert(piece@ =~= seq![dec_digit(n as int)]);
        }
        out.append(piece);
    } else {
        append_u64_dec(out, n / 10);
        let d = (n % 10) as usize;
        let piece = ds.substring_char(d, d + 1);
        proof {
            assert(piece@ =~= seq![dec_digit(n as int % 10)]);
        }
        out.append(piece);
        proof {
            assert(out@ =~= old(out)@ + u64_dec(n as int));
        }
    }
}

/// Appends the decimal rendering of `n`, with a leading minus where negative.
pub fn append_i64_dec(out: &mut String, n: i64)
    ensures
        final(out)@ == old(out)@ + i64_dec(n as int),
{
    if n >= 0 {
        append_u64_dec(out, n as u64);
    } else {
        out.append("-");
        let mag: u64 = if n == i64::MIN {
            9223372036854775808u64
        } else {
            (-n) as u64
        };
        append_u64_dec(out, mag);
        proof {
            assert(out@ =~= old(out)@ + i64_dec(n as int));
        }
    }
}

/// The mantissa of a decimal float text: digits with at most one point,
/// and at least one digit.
pub open spec fn is_mantissa(m: Seq<char>) -> bool {
    &&& m.len() > 0
    &&& forall|i: int| 0 <= i < m.len() ==> (is_digit(#[trigger] m[i]) || m[i] == '.')
    &&& forall|i: int, j: int|
        0 <= i < m.len() && 0 <= j < m.len() && #[trigger] m[i] == '.' && #[trigger] m[j] == '.'
            ==> i == j
    &&& exists|i: int| 0 <= i < m.len() && is_digit(#[trigger] m[i])
}

/// An exponent part: an optional sign, then one or more digits.
pub open spec fn is_exp_part(x: Seq<char>) -> bool {
    let d = if x.len() > 0 && (x[0] == '+' || x[0] == '-') {
        x.skip(1)
    } else {
        x
    };
    d.len() > 0 && all_digits(d)
}

/// Index of the first `e` or `E`, or the length if there is none.
pub open spec fn spec_find_exp(s: Seq<char>) -> int
    decreases s.len(),
{
    if s.len() == 0 {
        0
    } else if s[0] == 'e' || s[0] == 'E' {
        0
    } else {
        1 + spec_find_exp(s.drop_first())
    }
}

/// A number in decimal notation: a mantissa, optionally followed by an
/// exponent marker and an exponent part.
pub open spec fn is_number_text(b: Seq<char>) -> bool {
    let k = spec_find_exp(b);
    if k == b.len() {
        is_mantissa(b)
    } else {
        is_mantissa(b.take(k)) && is_exp_part(b.skip(k + 1))
    }
}

/// The texts accepted by `str::parse::<f64>`: an optional sign, then a
/// case-insensitive `inf`, `infinity` or `nan`, or a decimal number with an
/// optional exponent. Acceptance is purely syntactic; out-of-range values
/// round to infinity rather than failing.
pub open spec fn is_float_text(s: Seq<char>) -> bool {
    let b = if s.len() > 0 && (s[0] == '+' || s[0] == '-') {
        s.skip(1)
    } else {
        s
    };
    ||| matches_lowered(b, "inf"@)
    ||| matches_lowered(b, "infinity"@)
    ||| matches_lowered(b, "nan"@)
    ||| is_number_text(b)
}

/// Decides `is_float_text`, the acceptance of `str::parse::<f64>`.
pub fn check_float_text(s: &str) -> (r: bool)
    ensures
        r == is_float_text(s@),
{
    let n: usize = s.unicode_len();
    let start: usize = if n > 0 && {
        let c = s.get_char(0);
        c == '+' || c == '-'
    } {
        1
    } else {
        0
    };
    let ghost b = if start == 1 {
        s@.skip(1)
    } else {
        s@
    };
    proof {
        if start == 0 {
            assert(b =~= s@.skip(0));
        }
    }
    let rest = s.substring_char(start, n);
    if eq_ignore_ascii_lower(rest, "inf") || eq_ignore_ascii_lower(rest, "infinity")
        || eq_ignore_ascii_lower(rest, "nan") {
        return true;
    }
    check_number_text(rest)
}

/// Decides `is_number_text`.
fn check_number_text(b: &str) -> (r: bool)
    ensures
        r == is_number_text(b@),
{
    let n: usize = b.unicode_len();
    // Find the exponent marker, if any.
    let mut k: usize = 0;
    while k < n && !char_is_exp_marker(b.get_char(k))
        invariant
            0 <= k <= n,
            n == b@.len(),
            forall|j: int| 0 <= j < k ==> (b@[j] != 'e' && b@[j] != 'E'),
        decreases n - k,
    {
        k = k + 1;
    }
    proof {
        lemma_find_exp_is(b@, k as int);
    }
    let mant = b.substring_char(0, k);
    proof {
        assert(mant@ =~= b@.take(k as int));
        if k == n {
            assert(b@.take(k as int) =~= b@);
        }
    }
    if !check_mantissa(mant) {
        return false;
    }
    if k == n {
        return true;
    }
    let exp = b.substring_char(k + 1, n);
    proof {
        assert(exp@ =~= b@.skip(k + 1));
    }
    check_exp_part(exp)
}

fn char_is_exp_marker(c: char) -> (r: bool)
    ensures
        r == (c == 'e' || c == 'E'),
{
    c == 'e' || c == 'E'
}

proof fn lemma_find_exp_is(s: Seq<char>, k: int)
    requires
        0 <= k <= s.len(),
        forall|j: int| 0 <= j < k ==> (s[j] != 'e' && s[j] != 'E'),
        k < s.len() ==> (s[k] == 'e' || s[k] == 'E'),
    ensures
        spec_find_exp(s) == k,
    decreases s.len(),
{
    if s.len() > 0 && k > 0 {
        lemma_find_exp_is(s.drop_first(), k - 1);
    }
}

fn check_mantissa(m: &str) -> (r: bool)
    ensures
        r == is_mantissa(m@),
{
    let n: usize = m.unicode_len();
    if n == 0 {
        return false;
    }
    let mut i: usize = 0;
    let mut dot: Option<usize> = None;
    let mut saw_digit = false;
    while i < n
        invariant
            0 <= i <= n,
            n == m@.len(),
            forall|j: int| 0 <= j < i ==> (is_digit(#[trigger] m@[j]) || m@[j] == '.'),
            match dot {
                Some(d) => d < i && m@[d as int] == '.' && forall|j: int|
                    0 <= j < i && #[trigger] m@[j] == '.' ==> j == d,
                None => forall|j: int| 0 <= j < i ==> #[trigger] m@[j] != '.',
            },
            saw_digit == exists|j: int| 0 <= j < i && is_digit(#[trigger] m@[j]),
        decreases n - i,
    {
        let c = m.get_char(i);
        if '0' <= c && c <= '9' {
            saw_digit = true;
        } else if c == '.' {
            if dot.is_some() {
                return false;
            }
            dot = Some(i);
        } else {
            return false;
        }
        i = i + 1;
    }
    saw_digit
}

fn check_exp_part(x: &str) -> (r: bool)
    ensures
        r == is_exp_part(x@),
{
    let n: usize = x.unicode_len();
    let start: usize = if n > 0 && {
        let c = x.get_char(0);
        c == '+' || c == '-'
    } {
        1
    } else {
        0
    };
    let ghost d = if start == 1 {
        x@.skip(1)
    } else {
        x@
    };
    proof {
        if start == 0 {
            assert(d =~= x@.skip(0));
        }
    }
    if n == start {
        return false;
    }
    let mut i: usize = start;
    while i < n
        invariant
            start <= i <= n,
            n == x@.len(),
            start == 0 || start == 1,
            (start == 1) == (x@.len() > 0 && (x@[0] == '+' || x@[0] == '-')),
            d =~= x@.skip(start as int),
            all_digits(d.take(i - start)),
        decreases n - i,
    {
        let c = x.get_char(i);
        if !('0' <= c && c <= '9') {
            proof {
                assert(d[i - start] == x@[i as int]);
            }
            return false;
        }
        proof {
            assert(d.take(i + 1 - start) =~= d.take(i - start).push(x@[i as int]));
        }
        i = i + 1;
    }
    proof {
        assert(d.take(n - start) =~= d);
    }
    true
}

} // verus!
