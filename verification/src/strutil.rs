//! Verified helpers over `&str` and `String`: character search, region
//! comparison, whitespace trimming, decimal parsing and formatting, and line
//! splitting. The snippet parser and the ANSI splitter are built on these.

use vstd::prelude::*;

verus! {

/// The whitespace characters that can occur inside a code block info string.
pub open spec fn is_space(c: char) -> bool {
    c == ' ' || c == '\t'
}

/// Executable test for [`is_space`].
pub fn is_space_char(c: char) -> (r: bool)
    ensures
        r == is_space(c),
{
    c == ' ' || c == '\t'
}

/// True when the strings hold the same characters.
pub fn str_eq(a: &str, b: &str) -> (r: bool)
    ensures
        r == (a@ == b@),
{
    let a_len = a.unicode_len();
    let b_len = b.unicode_len();
    if a_len != b_len {
        return false;
    }
    let mut i: usize = 0;
    while i < a_len
        invariant
            i <= a_len,
            a_len == a@.len(),
            a_len == b@.len(),
            forall|j: int| 0 <= j < i ==> a@[j] == b@[j],
        decreases a_len - i,
    {
        if a.get_char(i) != b.get_char(i) {
            return false;
        }
        i += 1;
    }
    proof {
        assert(a@ =~= b@);
    }
    true
}

/// Index of the first occurrence of `c` in `s` at or after `from`, if any.
pub fn find_char(s: &str, from: usize, c: char) -> (r: Option<usize>)
    requires
        from <= s@.len(),
    ensures
        match r {
            Some(j) => from <= j < s@.len() && s@[j as int] == c && forall|k: int|
                from <= k < j ==> s@[k] != c,
            None => forall|k: int| from <= k < s@.len() ==> s@[k] != c,
        },
{
    let len = s.unicode_len();
    let mut i: usize = from;
    while i < len
        invariant
            from <= i <= len,
            len == s@.len(),
            forall|k: int| from <= k < i ==> s@[k] != c,
        decreases len - i,
    {
        if s.get_char(i) == c {
            return Some(i);
        }
        i += 1;
    }
    None
}

/// Index of the first occurrence of `c` within `[from, to)` of `s`, if any.
pub fn find_char_in(s: &str, from: usize, to: usize, c: char) -> (r: Option<usize>)
    requires
        from <= to <= s@.len(),
    ensures
        match r {
            Some(j) => from <= j < to && s@[j as int] == c && forall|k: int|
                from <= k < j ==> s@[k] != c,
            None => forall|k: int| from <= k < to ==> s@[k] != c,
        },
{
    let mut i: usize = from;
    while i < to
        invariant
            from <= i <= to <= s@.len(),
            forall|k: int| from <= k < i ==> s@[k] != c,
        decreases to - i,
    {
        if s.get_char(i) == c {
            return Some(i);
        }
        i += 1;
    }
    None
}

/// Index of the first character at or after `from` that is not a space.
pub fn skip_spaces(s: &str, from: usize) -> (r: usize)
    requires
        from <= s@.len(),
    ensures
        from <= r <= s@.len(),
        forall|k: int| from <= k < r ==> is_space(#[trigger] s@[k]),
        r < s@.len() ==> !is_space(s@[r as int]),
{
    let len = s.unicode_len();
    let mut i: usize = from;
    while i < len
        invariant
            from <= i <= len,
            len == s@.len(),
            forall|k: int| from <= k < i ==> is_space(#[trigger] s@[k]),
        decreases len - i,
    {
        if !is_space_char(s.get_char(i)) {
            return i;
        }
        i += 1;
    }
    len
}

/// True when `pat` occurs in `s` starting exactly at `at`.
pub fn region_matches(s: &str, at: usize, pat: &str) -> (r: bool)
    requires
        at <= s@.len(),
    ensures
        r == (at + pat@.len() <= s@.len() && s@.subrange(
            at as int,
            at + pat@.len(),
        ) == pat@),
{
    let s_len = s.unicode_len();
    let pat_len = pat.unicode_len();
    if pat_len > s_len - at {
        return false;
    }
    let mut i: usize = 0;
    while i < pat_len
        invariant
            i <= pat_len,
            pat_len == pat@.len(),
            s_len == s@.len(),
            at + pat_len <= s_len,
            forall|j: int| 0 <= j < i ==> s@[at + j] == pat@[j],
        decreases pat_len - i,
    {
        if s.get_char(at + i) != pat.get_char(i) {
            proof {
                let sub = s@.subrange(at as int, at + pat@.len());
                assert(sub[i as int] != pat@[i as int]);
            }
            return false;
        }
        i += 1;
    }
    proof {
        assert(s@.subrange(at as int, at + pat@.len()) =~= pat@);
    }
    true
}

/// Narrows `[lo, hi)` to the region left after stripping leading and
/// trailing whitespace. When the region is all whitespace the result is the
/// empty region `[hi, hi)`.
pub fn trim_region(s: &str, lo: usize, hi: usize) -> (r: (usize, usize))
    requires
        lo <= hi <= s@.len(),
    ensures
        lo <= r.0 <= r.1 <= hi,
        forall|k: int| lo <= k < r.0 ==> is_space(#[trigger] s@[k]),
        forall|k: int| r.1 <= k < hi ==> is_space(#[trigger] s@[k]),
        r.0 < r.1 ==> !is_space(s@[r.0 as int]) && !is_space(s@[r.1 - 1]),
        r.0 == r.1 ==> r.0 == hi,
{
    let start = first_non_space_in(s, lo, hi);
    if start == hi {
        return (hi, hi);
    }
    let mut end: usize = hi;
    while end > start
        invariant
            lo <= start <= end <= hi <= s@.len(),
            start < hi,
            !is_space(s@[start as int]),
            forall|k: int| lo <= k < start ==> is_space(#[trigger] s@[k]),
            forall|k: int| end <= k < hi ==> is_space(#[trigger] s@[k]),
        decreases end,
    {
        if !is_space_char(s.get_char(end - 1)) {
            return (start, end);
        }
        end -= 1;
    }
    proof {
        assert(is_space(s@[start as int]));
    }
    (start, end)
}

/// Index of the first non-whitespace character in `[lo, hi)`, or `hi`.
pub fn first_non_space_in(s: &str, lo: usize, hi: usize) -> (r: usize)
    requires
        lo <= hi <= s@.len(),
    ensures
        lo <= r <= hi,
        forall|k: int| lo <= k < r ==> is_space(#[trigger] s@[k]),
        r < hi ==> !is_space(s@[r as int]),
{
    let mut i: usize = lo;
    while i < hi
        invariant
            lo <= i <= hi <= s@.len(),
            forall|k: int| lo <= k < i ==> is_space(#[trigger] s@[k]),
        decreases hi - i,
    {
        if !is_space_char(s.get_char(i)) {
            return i;
        }
        i += 1;
    }
    hi
}

/// Index of the first occurrence of `c` in `s`, or `s.len()` when absent.
pub open spec fn find_in(s: Seq<char>, c: char) -> int {
    match s.index_of_first(c) {
        Some(i) => i,
        None => s.len() as int,
    }
}

/// Connects a first-occurrence characterization to [`find_in`].
pub proof fn lemma_find_in(s: Seq<char>, c: char, j: int)
    requires
        0 <= j <= s.len(),
        forall|k: int| 0 <= k < j ==> s[k] != c,
        j < s.len() ==> s[j] == c,
    ensures
        find_in(s, c) == j,
{
    s.index_of_first_ensures(c);
}

/// Number of leading whitespace characters of `s`.
pub open spec fn leading_spaces(s: Seq<char>) -> int
    decreases s.len(),
{
    if s.len() > 0 && is_space(s[0]) {
        1 + leading_spaces(s.skip(1))
    } else {
        0
    }
}

/// Connects a first-non-space characterization to [`leading_spaces`].
pub proof fn lemma_leading_spaces(s: Seq<char>, a: int)
    requires
        0 <= a <= s.len(),
        forall|k: int| 0 <= k < a ==> is_space(#[trigger] s[k]),
        a < s.len() ==> !is_space(s[a]),
    ensures
        leading_spaces(s) == a,
    decreases a,
{
    if a == 0 {
    } else {
        assert(is_space(s[0]));
        lemma_leading_spaces(s.skip(1), a - 1);
    }
}

/// `s` with leading whitespace removed.
pub open spec fn trim_front(s: Seq<char>) -> Seq<char>
    decreases s.len(),
{
    if s.len() > 0 && is_space(s[0]) {
        trim_front(s.skip(1))
    } else {
        s
    }
}

/// `s` with trailing whitespace removed.
pub open spec fn trim_back(s: Seq<char>) -> Seq<char>
    decreases s.len(),
{
    if s.len() > 0 && is_space(s.last()) {
        trim_back(s.drop_last())
    } else {
        s
    }
}

/// `s` with leading and trailing whitespace removed.
pub open spec fn spec_trim(s: Seq<char>) -> Seq<char> {
    trim_back(trim_front(s))
}

proof fn lemma_trim_front_at(s: Seq<char>, a: int)
    requires
        0 <= a <= s.len(),
        forall|k: int| 0 <= k < a ==> is_space(#[trigger] s[k]),
        a < s.len() ==> !is_space(s[a]),
    ensures
        trim_front(s) == s.skip(a),
    decreases a,
{
    if a == 0 {
        assert(s.skip(0) =~= s);
    } else {
        assert(is_space(s[0]));
        lemma_trim_front_at(s.skip(1), a - 1);
        assert(s.skip(1).skip(a - 1) =~= s.skip(a));
    }
}

proof fn lemma_trim_back_at(s: Seq<char>, b: int)
    requires
        0 <= b <= s.len(),
        forall|k: int| b <= k < s.len() ==> is_space(#[trigger] s[k]),
        b > 0 ==> !is_space(s[b - 1]),
    ensures
        trim_back(s) == s.take(b),
    decreases s.len() - b,
{
    if b == s.len() {
        if s.len() > 0 && is_space(s.last()) {
            assert(!is_space(s[b - 1]));
            assert(false);
        }
        assert(s.take(b) =~= s);
    } else {
        assert(is_space(s.last()));
        lemma_trim_back_at(s.drop_last(), b);
        assert(s.drop_last().take(b) =~= s.take(b));
    }
}

/// Connects the characterization produced by [`trim_region`] to
/// [`spec_trim`] of the region.
pub proof fn lemma_trim_region(s: Seq<char>, a: int, b: int)
    requires
        0 <= a <= b <= s.len(),
        forall|k: int| 0 <= k < a ==> is_space(#[trigger] s[k]),
        forall|k: int| b <= k < s.len() ==> is_space(#[trigger] s[k]),
        a < b ==> !is_space(s[a]) && !is_space(s[b - 1]),
        a == b ==> a == s.len(),
    ensures
        spec_trim(s) == s.subrange(a, b),
{
    if a == b {
        lemma_trim_front_at(s, a);
        assert(trim_front(s) =~= s.subrange(a, b));
        assert(spec_trim(s) =~= s.subrange(a, b));
    } else {
        lemma_trim_front_at(s, a);
        let t = s.skip(a);
        lemma_trim_back_at(t, b - a);
        assert(t.take(b - a) =~= s.subrange(a, b));
    }
}

/// Numeric value of a decimal digit character.
pub open spec fn digit_value(c: char) -> int {
    c as int - '0' as int
}

/// True when `c` is a decimal digit.
pub open spec fn is_digit(c: char) -> bool {
    '0' as int <= c as int <= '9' as int
}

/// Value of a sequence of decimal digits, most significant first.
pub open spec fn digits_value(s: Seq<char>) -> int
    decreases s.len(),
{
    if s.len() == 0 {
        0
    } else {
        digits_value(s.drop_last()) * 10 + digit_value(s.last())
    }
}

/// True when every character of `s` is a decimal digit.
pub open spec fn all_digits(s: Seq<char>) -> bool {
    forall|k: int| 0 <= k < s.len() ==> is_digit(#[trigger] s[k])
}

/// The value of a digit string grows (weakly) with every appended digit.
proof fn lemma_digits_value_monotone(s: Seq<char>, i: int)
    requires
        0 <= i <= s.len(),
        all_digits(s),
    ensures
        digits_value(s.take(i)) <= digits_value(s),
        digits_value(s) >= 0,
    decreases s.len(),
{
    if s.len() == 0 {
    } else {
        lemma_digits_value_monotone(s.drop_last(), if i < s.len() { i } else { i - 1 });
        if i < s.len() {
            assert(s.take(i) =~= s.drop_last().take(i));
        } else {
            assert(s.take(i) =~= s);
        }
    }
}

/// Parses the region `[lo, hi)` of `s` as a decimal number that fits in
/// `u16`. `None` exactly when the region is empty, holds a non-digit, or
/// encodes a value over `u16::MAX`.
pub fn parse_u16_region(s: &str, lo: usize, hi: usize) -> (r: Option<u16>)
    requires
        lo <= hi <= s@.len(),
    ensures
        ({
            let region = s@.subrange(lo as int, hi as int);
            match r {
                Some(v) => lo < hi && all_digits(region) && v == digits_value(region)
                    && digits_value(region) <= u16::MAX,
                None => lo == hi || !all_digits(region) || digits_value(region) > u16::MAX,
            }
        }),
{
    let ghost region = s@.subrange(lo as int, hi as int);
    if lo == hi {
        return None;
    }
    let mut value: u32 = 0;
    let mut i: usize = lo;
    while i < hi
        invariant
            lo <= i <= hi <= s@.len(),
            region == s@.subrange(lo as int, hi as int),
            all_digits(region.take(i - lo)),
            value == digits_value(region.take(i - lo)),
            value <= u16::MAX,
        decreases hi - i,
    {
        let c = s.get_char(i);
        let code = c as u32;
        if code < 48 || code > 57 {
            proof {
                assert(region[i - lo] == c);
                assert(!is_digit(region[i - lo]));
            }
            return None;
        }
        let d = code - 48;
        proof {
            assert(region.take(i + 1 - lo).drop_last() =~= region.take(i - lo));
            assert(region.take(i + 1 - lo).last() == c);
        }
        value = value * 10 + d;
        if value > 65535 {
            proof {
                if all_digits(region) {
                    lemma_digits_value_monotone(region, i + 1 - lo);
                    assert(digits_value(region) > u16::MAX);
                }
            }
            return None;
        }
        i += 1;
    }
    proof {
        assert(region.take(hi - lo) =~= region);
    }
    Some(value as u16)
}

/// Parses the region `[lo, hi)` as decimal digits, capping the value at
/// `cap`. `None` exactly when the region is empty or holds a non-digit.
pub fn parse_capped_region(s: &str, lo: usize, hi: usize, cap: u16) -> (r: Option<u16>)
    requires
        lo <= hi <= s@.len(),
    ensures
        ({
            let region = s@.subrange(lo as int, hi as int);
            match r {
                Some(v) => lo < hi && all_digits(region) && v == if digits_value(region) > cap {
                    cap as int
                } else {
                    digits_value(region)
                },
                None => lo == hi || !all_digits(region),
            }
        }),
{
    let ghost region = s@.subrange(lo as int, hi as int);
    if lo == hi {
        return None;
    }
    let mut value: u32 = 0;
    let mut i: usize = lo;
    while i < hi
        invariant
            lo <= i <= hi <= s@.len(),
            region == s@.subrange(lo as int, hi as int),
            all_digits(region.take(i - lo)),
            value <= cap,
            value == if digits_value(region.take(i - lo)) > cap {
                cap as int
            } else {
                digits_value(region.take(i - lo))
            },
        decreases hi - i,
    {
        let c = s.get_char(i);
        let code = c as u32;
        if code < 48 || code > 57 {
            proof {
                assert(region[i - lo] == c);
                assert(!is_digit(region[i - lo]));
            }
            return None;
        }
        let d = code - 48;
        proof {
            assert(region.take(i + 1 - lo).drop_last() =~= region.take(i - lo));
            assert(region.take(i + 1 - lo).last() == c);
            lemma_digits_value_nonneg(region.take(i - lo));
        }
        let next = value * 10 + d;
        if next > cap as u32 {
            value = cap as u32;
        } else {
            value = next;
        }
        i += 1;
    }
    proof {
        assert(region.take(hi - lo) =~= region);
    }
    Some(value as u16)
}

/// The value of a digit string is never negative.
pub proof fn lemma_digits_value_nonneg(s: Seq<char>)
    requires
        all_digits(s),
    ensures
        digits_value(s) >= 0,
    decreases s.len(),
{
    if s.len() > 0 {
        lemma_digits_value_nonneg(s.drop_last());
    }
}

/// The decimal digit character for a value below ten.
pub open spec fn digit_char(d: int) -> char {
    if d == 0 {
        '0'
    } else if d == 1 {
        '1'
    } else if d == 2 {
        '2'
    } else if d == 3 {
        '3'
    } else if d == 4 {
        '4'
    } else if d == 5 {
        '5'
    } else if d == 6 {
        '6'
    } else if d == 7 {
        '7'
    } else if d == 8 {
        '8'
    } else {
        '9'
    }
}

/// The decimal representation of `n`, most significant digit first.
pub open spec fn decimal_digits(n: int) -> Seq<char>
    decreases n,
{
    if n < 10 {
        seq![digit_char(n)]
    } else {
        decimal_digits(n / 10) + seq![digit_char(n % 10)]
    }
}

/// One decimal digit as a string slice.
fn digit_str(d: usize) -> (r: &'static str)
    requires
        d < 10,
    ensures
        r@ =~= seq![digit_char(d as int)],
{
    proof {
        reveal_strlit("0");
        reveal_strlit("1");
        reveal_strlit("2");
        reveal_strlit("3");
        reveal_strlit("4");
        reveal_strlit("5");
        reveal_strlit("6");
        reveal_strlit("7");
        reveal_strlit("8");
        reveal_strlit("9");
    }
    match d {
        0 => "0",
        1 => "1",
        2 => "2",
        3 => "3",
        4 => "4",
        5 => "5",
        6 => "6",
        7 => "7",
        8 => "8",
        _ => "9",
    }
}

/// Formats `n` in decimal.
pub fn decimal_string(n: usize) -> (r: String)
    ensures
        r@ == decimal_digits(n as int),
    decreases n,
{
    if n < 10 {
        digit_str(n).to_owned()
    } else {
        let mut s = decimal_string(n / 10);
        s.append(digit_str(n % 10));
        proof {
            assert(s@ =~= decimal_digits(n as int));
        }
        s
    }
}

/// The decimal representation of `n` has at most `n + 1` digits.
proof fn lemma_decimal_len_le(n: int)
    requires
        n >= 0,
    ensures
        decimal_digits(n).len() <= n + 1,
    decreases n,
{
    if n >= 10 {
        lemma_decimal_len_le(n / 10);
    }
}

/// Number of digits in the decimal representation of `n`.
pub fn decimal_width(n: usize) -> (r: usize)
    ensures
        r == decimal_digits(n as int).len(),
        r >= 1,
    decreases n,
{
    if n < 10 {
        1
    } else {
        let rest = decimal_width(n / 10);
        proof {
            lemma_decimal_len_le(n as int / 10);
            assert(decimal_digits(n as int).len() == decimal_digits(n as int / 10).len() + 1);
        }
        rest + 1
    }
}

/// A string of `n` spaces.
pub fn spaces(n: usize) -> (r: String)
    ensures
        r@ =~= Seq::new(n as nat, |i: int| ' '),
{
    let mut s = String::new();
    let mut i: usize = 0;
    while i < n
        invariant
            i <= n,
            s@ =~= Seq::new(i as nat, |j: int| ' '),
        decreases n - i,
    {
        proof {
            reveal_strlit(" ");
        }
        s.append(" ");
        i += 1;
        proof {
            assert(s@ =~= Seq::new(i as nat, |j: int| ' '));
        }
    }
    s
}

/// `p` repeated `n` times.
pub open spec fn spec_repeat(p: Seq<char>, n: int) -> Seq<char>
    decreases n,
{
    if n <= 0 {
        Seq::empty()
    } else {
        spec_repeat(p, n - 1) + p
    }
}

/// A string made of `n` copies of `pat`.
pub fn repeat_str(pat: &str, n: usize) -> (r: String)
    ensures
        r@ == spec_repeat(pat@, n as int),
{
    let mut s = String::new();
    let mut i: usize = 0;
    proof {
        assert(s@ =~= spec_repeat(pat@, 0));
    }
    while i < n
        invariant
            i <= n,
            s@ == spec_repeat(pat@, i as int),
        decreases n - i,
    {
        s.append(pat);
        i += 1;
    }
    s
}

/// `l` with one trailing carriage return removed.
pub open spec fn strip_cr(l: Seq<char>) -> Seq<char> {
    if l.len() > 0 && l.last() == '\r' {
        l.drop_last()
    } else {
        l
    }
}

/// The lines of `s`: split at every line feed, each line with a trailing
/// carriage return removed, a final line ending optional.
pub open spec fn spec_lines(s: Seq<char>) -> Seq<Seq<char>>
    decreases s.len(),
{
    if s.len() == 0 {
        Seq::empty()
    } else {
        let j = find_in(s, '\n');
        if 0 <= j < s.len() {
            seq![strip_cr(s.take(j))] + spec_lines(s.skip(j + 1))
        } else {
            seq![strip_cr(s)]
        }
    }
}

/// A string never has more lines than characters.
pub proof fn lemma_spec_lines_count(s: Seq<char>)
    ensures
        spec_lines(s).len() <= s.len(),
    decreases s.len(),
{
    if s.len() > 0 {
        let j = find_in(s, '\n');
        if 0 <= j < s.len() {
            lemma_spec_lines_count(s.skip(j + 1));
        }
    }
}

/// Splits a string into its lines.
pub fn split_str_lines(s: &str) -> (r: Vec<String>)
    ensures
        r@.map_values(|x: String| x@) == spec_lines(s@),
        r@.len() <= s@.len(),
{
    let len = s.unicode_len();
    let mut out: Vec<String> = Vec::new();
    let mut pos: usize = 0;
    proof {
        assert(s@.skip(0) =~= s@);
        if spec_lines(s@).len() > 0 {
            let m = spec_lines(s@);
            assert(out@.map_values(|x: String| x@) + m =~= m);
        } else {
            assert(out@.map_values(|x: String| x@) + spec_lines(s@) =~= spec_lines(s@));
        }
        lemma_spec_lines_count(s@);
    }
    loop
        invariant
            pos <= len,
            len == s@.len(),
            spec_lines(s@) == out@.map_values(|x: String| x@) + spec_lines(s@.skip(pos as int)),
            out@.len() + spec_lines(s@.skip(pos as int)).len() == spec_lines(s@).len(),
        decreases len - pos,
    {
        if pos == len {
            proof {
                assert(spec_lines(s@.skip(pos as int)) =~= Seq::<Seq<char>>::empty());
                assert(out@.map_values(|x: String| x@) + Seq::<Seq<char>>::empty()
                    =~= out@.map_values(|x: String| x@));
                lemma_spec_lines_count(s@);
            }
            return out;
        }
        let ghost remaining = s@.skip(pos as int);
        let (j, more) = match find_char(s, pos, '\n') {
            Some(j) => (j, true),
            None => (len, false),
        };
        proof {
            assert forall|k: int| 0 <= k < j - pos implies remaining[k] != '\n' by {
                assert(remaining[k] == s@[pos + k]);
            }
            if more {
                assert(remaining[j - pos] == s@[j as int]);
            }
            lemma_find_in(remaining, '\n', j - pos);
        }
        let lend = if j > pos && s.get_char(j - 1) == '\r' {
            j - 1
        } else {
            j
        };
        let line = s.substring_char(pos, lend).to_owned();
        proof {
            let raw = if more {
                remaining.take(j - pos)
            } else {
                remaining
            };
            assert(remaining.take(j - pos) =~= s@.subrange(pos as int, j as int));
            if !more {
                assert(remaining =~= s@.subrange(pos as int, j as int));
            }
            if j > pos && s@[j - 1] == '\r' {
                assert(raw.len() > 0 && raw.last() == '\r');
                assert(strip_cr(raw) =~= s@.subrange(pos as int, lend as int));
            } else {
                assert(strip_cr(raw) =~= s@.subrange(pos as int, lend as int));
            }
            assert(line@ == strip_cr(raw));
        }
        let ghost previous = out@.map_values(|x: String| x@);
        out.push(line);
        proof {
            assert(out@.map_values(|x: String| x@) =~= previous.push(line@));
        }
        if more {
            proof {
                let rem2 = s@.skip(j + 1);
                assert(remaining.skip(j + 1 - pos) =~= rem2);
                assert(previous + (seq![line@] + spec_lines(rem2)) =~= previous.push(line@)
                    + spec_lines(rem2));
            }
            pos = j + 1;
        } else {
            proof {
                assert(spec_lines(s@.skip(len as int)) =~= Seq::<Seq<char>>::empty());
                assert(previous + seq![line@] =~= previous.push(line@)
                    + Seq::<Seq<char>>::empty());
            }
            pos = len;
        }
    }
}

/// Appends the single character at index `i` of `s` to `out`.
pub fn push_char_of(out: &mut String, s: &str, i: usize)
    requires
        i < s@.len(),
        s@.len() <= usize::MAX,
    ensures
        final(out)@ == old(out)@ + seq![s@[i as int]],
{
    let piece = s.substring_char(i, i + 1);
    out.append(piece);
    proof {
        assert(old(out)@ + piece@ =~= old(out)@ + seq![s@[i as int]]);
    }
}

} // verus!
