//! Character-level scanning primitives shared by the extractors: the
//! whitespace and digit classes, substring search, and decimal digit runs.

use vstd::prelude::*;

verus! {

/// The whitespace characters that the extractors treat as blank.
pub open spec fn is_space(c: char) -> bool {
    c == ' ' || c == '\t' || c == '\n' || c == '\r'
}

/// Decimal digit class.
pub open spec fn is_digit(c: char) -> bool {
    '0' <= c && c <= '9'
}

/// Numeric value of one decimal digit.
pub open spec fn digit_val(c: char) -> int {
    c as int - '0' as int
}

/// Value of a digit run, most significant digit first.
pub open spec fn digits_val(s: Seq<char>) -> int
    decreases s.len(),
{
    if s.len() == 0 {
        0
    } else {
        digits_val(s.drop_last()) * 10 + digit_val(s.last())
    }
}

/// `pat` occurs in `s` at position `i`.
pub open spec fn match_at(s: Seq<char>, pat: Seq<char>, i: int) -> bool {
    0 <= i && i + pat.len() <= s.len() && s.subrange(i, i + pat.len() as int) == pat
}

/// `pat` occurs somewhere in `s`.
pub open spec fn contains_seq(s: Seq<char>, pat: Seq<char>) -> bool {
    exists|i: int| match_at(s, pat, i)
}

/// End of the whitespace run that starts at `i`: the first position at or
/// after `i` holding a non-space character, or the length of `s`.
pub open spec fn ws_end(s: Seq<char>, i: int) -> int
    decreases s.len() - i,
{
    if i < 0 || i >= s.len() {
        s.len() as int
    } else if is_space(s[i]) {
        ws_end(s, i + 1)
    } else {
        i
    }
}

/// End of the digit run that starts at `i`: the first position at or after
/// `i` holding a non-digit character, or the length of `s`.
pub open spec fn digits_end(s: Seq<char>, i: int) -> int
    decreases s.len() - i,
{
    if i < 0 || i >= s.len() {
        s.len() as int
    } else if is_digit(s[i]) {
        digits_end(s, i + 1)
    } else {
        i
    }
}

/// First digit position at or after `i`, or the length of `s`.
pub open spec fn digit_pos(s: Seq<char>, i: int) -> int
    decreases s.len() - i,
{
    if i < 0 || i >= s.len() {
        s.len() as int
    } else if is_digit(s[i]) {
        i
    } else {
        digit_pos(s, i + 1)
    }
}

/// First occurrence of `c` at or after `i`, or the length of `s`.
pub open spec fn char_pos(s: Seq<char>, c: char, i: int) -> int
    decreases s.len() - i,
{
    if i < 0 || i >= s.len() {
        s.len() as int
    } else if s[i] == c {
        i
    } else {
        char_pos(s, c, i + 1)
    }
}

/// Last occurrence of `c` in `s`, or minus one.
pub open spec fn char_rpos(s: Seq<char>, c: char) -> int
    decreases s.len(),
{
    if s.len() == 0 {
        -1
    } else if s.last() == c {
        s.len() - 1
    } else {
        char_rpos(s.drop_last(), c)
    }
}

/// Length of `s` with trailing whitespace removed.
pub open spec fn rstrip_len(s: Seq<char>) -> int
    decreases s.len(),
{
    if s.len() == 0 {
        0
    } else if is_space(s.last()) {
        rstrip_len(s.drop_last())
    } else {
        s.len() as int
    }
}

/// `s` with leading and trailing whitespace removed.
pub open spec fn trim_spec(s: Seq<char>) -> Seq<char> {
    let a = ws_end(s, 0);
    let b = rstrip_len(s);
    if a <= b {
        s.subrange(a, b)
    } else {
        Seq::empty()
    }
}

/// Executable digit test.
pub fn digit_char(c: char) -> (r: bool)
    ensures
        r == is_digit(c),
{
    '0' <= c && c <= '9'
}

/// Executable whitespace test.
pub fn space_char(c: char) -> (r: bool)
    ensures
        r == is_space(c),
{
    c == ' ' || c == '\t' || c == '\n' || c == '\r'
}

/// The characters of a string slice, in order.
pub fn chars_of(s: &str) -> (v: Vec<char>)
    ensures
        v@ == s@,
{
    let n = s.unicode_len();
    let mut v: Vec<char> = Vec::new();
    let mut i: usize = 0;
    while i < n
        invariant
            n == s@.len(),
            i <= n,
            v@ == s@.subrange(0, i as int),
        decreases n - i,
    {
        v.push(s.get_char(i));
        assert(v@ =~= s@.subrange(0, i + 1 as int));
        i = i + 1;
    }
    assert(v@ =~= s@);
    v
}

/// Whether `pat` occurs in `s` at position `i`.
pub fn matches_at(s: &Vec<char>, pat: &Vec<char>, i: usize) -> (r: bool)
    requires
        i + pat@.len() <= s@.len(),
    ensures
        r == match_at(s@, pat@, i as int),
{
    let n = s.len();
    let m = pat.len();
    let mut j: usize = 0;
    while j < m
        invariant
            n == s@.len(),
            m == pat@.len(),
            i + m <= n,
            j <= m,
            forall|k: int| 0 <= k < j ==> s@[i + k] == pat@[k],
        decreases m - j,
    {
        if s[i + j] != pat[j] {
            assert(s@.subrange(i as int, i + m as int)[j as int] != pat@[j as int]);
            return false;
        }
        j = j + 1;
    }
    assert(s@.subrange(i as int, i + m as int) =~= pat@);
    true
}

/// First occurrence of `pat` in `s`, if any.
pub fn find_sub(s: &Vec<char>, pat: &Vec<char>) -> (r: Option<usize>)
    ensures
        match r {
            Some(i) => match_at(s@, pat@, i as int) && forall|j: int|
                0 <= j < i ==> !match_at(s@, pat@, j),
            None => !contains_seq(s@, pat@),
        },
{
    if pat.len() > s.len() {
        assert(forall|j: int| !match_at(s@, pat@, j));
        return None;
    }
    if pat.len() == 0 {
        assert(s@.subrange(0, 0) =~= pat@);
        return Some(0);
    }
    let n = s.len();
    let m = pat.len();
    let last = n - m;
    let mut i: usize = 0;
    while i <= last
        invariant
            n == s@.len(),
            m == pat@.len(),
            1 <= m <= n,
            last == n - m,
            i <= last + 1,
            forall|j: int| 0 <= j < i ==> !match_at(s@, pat@, j),
        decreases last + 1 - i,
    {
        if matches_at(s, pat, i) {
            return Some(i);
        }
        i = i + 1;
    }
    assert(forall|j: int| i <= j ==> !match_at(s@, pat@, j));
    None
}

/// A digit run never ends before it starts.
pub proof fn lemma_digits_end_lb(s: Seq<char>, i: int)
    requires
        0 <= i <= s.len(),
    ensures
        i <= digits_end(s, i) <= s.len(),
    decreases s.len() - i,
{
    if i < s.len() && is_digit(s[i]) {
        lemma_digits_end_lb(s, i + 1);
    }
}

/// The first digit position lies between the start and the end of the
/// text.
pub proof fn lemma_digit_pos_lb(s: Seq<char>, i: int)
    requires
        0 <= i <= s.len(),
    ensures
        i <= digit_pos(s, i) <= s.len(),
    decreases s.len() - i,
{
    if i < s.len() && !is_digit(s[i]) {
        lemma_digit_pos_lb(s, i + 1);
    }
}

/// Everything between a position and the end of its digit run is a digit.
pub proof fn lemma_digits_end_digits(s: Seq<char>, i: int)
    requires
        0 <= i <= s.len(),
    ensures
        forall|k: int| i <= k < digits_end(s, i) ==> is_digit(#[trigger] s[k]),
    decreases s.len() - i,
{
    if i < s.len() && is_digit(s[i]) {
        lemma_digits_end_digits(s, i + 1);
        lemma_digits_end_lb(s, i + 1);
    }
}

/// A digit run is worth at least as much as its first portion: extending a
/// run of digits on the right never decreases its value.
pub proof fn lemma_digits_val_extend(s: Seq<char>, d: char)
    requires
        forall|k: int| 0 <= k < s.len() ==> is_digit(s[k]),
        is_digit(d),
    ensures
        digits_val(s.push(d)) == digits_val(s) * 10 + digit_val(d),
        digits_val(s.push(d)) >= digits_val(s),
{
    assert(s.push(d).drop_last() =~= s);
    assert(s.push(d).last() == d);
    lemma_digits_val_nonneg(s);
}

/// The value of a digit run is non-negative.
pub proof fn lemma_digits_val_nonneg(s: Seq<char>)
    requires
        forall|k: int| 0 <= k < s.len() ==> is_digit(s[k]),
    ensures
        digits_val(s) >= 0,
    decreases s.len(),
{
    if s.len() > 0 {
        lemma_digits_val_nonneg(s.drop_last());
    }
}

/// Character-for-character equality of two strings.
pub fn str_eq(a: &str, b: &str) -> (r: bool)
    ensures
        r == (a@ == b@),
{
    let x = chars_of(a);
    let y = chars_of(b);
    let n = x.len();
    if n != y.len() {
        assert(a@.len() != b@.len());
        return false;
    }
    let mut i: usize = 0;
    while i < n
        invariant
            n == x@.len() == y@.len(),
            x@ == a@,
            y@ == b@,
            i <= n,
            forall|k: int| 0 <= k < i ==> x@[k] == y@[k],
        decreases n - i,
    {
        if x[i] != y[i] {
            return false;
        }
        i = i + 1;
    }
    assert(a@ =~= b@);
    true
}

/// Relies on `String::push`: appends exactly one character.
#[verifier::external_body]
pub fn push_char(s: &mut String, c: char)
    ensures
        final(s)@ == old(s)@.push(c),
{
    s.push(c);
}

/// The characters of `v` as an owned string.
pub fn string_from_chars(v: &Vec<char>) -> (s: String)
    ensures
        s@ == v@,
{
    let n = v.len();
    let mut s = String::new();
    let mut i: usize = 0;
    while i < n
        invariant
            n == v@.len(),
            i <= n,
            s@ == v@.subrange(0, i as int),
        decreases n - i,
    {
        push_char(&mut s, v[i]);
        assert(s@ =~= v@.subrange(0, i + 1 as int));
        i = i + 1;
    }
    assert(s@ =~= v@);
    s
}

/// The copy of `v` between `a` and `b`.
pub fn sub_vec(v: &Vec<char>, a: usize, b: usize) -> (r: Vec<char>)
    requires
        a <= b <= v@.len(),
    ensures
        r@ == v@.subrange(a as int, b as int),
{
    let mut r: Vec<char> = Vec::new();
    let mut i: usize = a;
    while i < b
        invariant
            a <= i <= b <= v@.len(),
            r@ == v@.subrange(a as int, i as int),
        decreases b - i,
    {
        r.push(v[i]);
        assert(r@ =~= v@.subrange(a as int, i + 1 as int));
        i = i + 1;
    }
    r
}

/// First non-space position at or after `i`.
pub fn skip_ws(s: &Vec<char>, i: usize) -> (j: usize)
    requires
        i <= s@.len(),
    ensures
        j == ws_end(s@, i as int),
        i <= j <= s@.len(),
{
    let n = s.len();
    let mut j: usize = i;
    while j < n && space_char(s[j])
        invariant
            i <= j <= n,
            n == s@.len(),
            ws_end(s@, i as int) == ws_end(s@, j as int),
        decreases n - j,
    {
        j = j + 1;
    }
    j
}

/// First digit position at or after `i`.
pub fn find_digit(s: &Vec<char>, i: usize) -> (j: usize)
    requires
        i <= s@.len(),
    ensures
        j == digit_pos(s@, i as int),
        i <= j <= s@.len(),
        j < s@.len() ==> is_digit(s@[j as int]),
{
    let n = s.len();
    let mut j: usize = i;
    while j < n && !digit_char(s[j])
        invariant
            i <= j <= n,
            n == s@.len(),
            digit_pos(s@, i as int) == digit_pos(s@, j as int),
        decreases n - j,
    {
        j = j + 1;
    }
    j
}

/// The maximal digit run starting at `i`: its end, and its value when the
/// run is non-empty and fits in `u32`.
pub fn scan_digits(s: &Vec<char>, i: usize) -> (r: (Option<u32>, usize))
    requires
        i <= s@.len(),
    ensures
        i <= r.1 <= s@.len(),
        r.1 == digits_end(s@, i as int),
        forall|k: int| i <= k < r.1 ==> is_digit(s@[k]),
        match r.0 {
            Some(v) => r.1 > i && v == digits_val(s@.subrange(i as int, r.1 as int)) && digits_val(
                s@.subrange(i as int, r.1 as int),
            ) <= u32::MAX,
            None => r.1 == i || digits_val(s@.subrange(i as int, r.1 as int)) > u32::MAX,
        },
{
    let n = s.len();
    let mut j: usize = i;
    let mut val: u64 = 0;
    let mut over = false;
    while j < n && digit_char(s[j])
        invariant
            i <= j <= n,
            n == s@.len(),
            digits_end(s@, i as int) == digits_end(s@, j as int),
            forall|k: int| i <= k < j ==> is_digit(s@[k]),
            !over ==> val == digits_val(s@.subrange(i as int, j as int)) && val <= u32::MAX,
            over ==> digits_val(s@.subrange(i as int, j as int)) > u32::MAX,
        decreases n - j,
    {
        let d: u64 = (s[j] as u32 as u64) - ('0' as u32 as u64);
        proof {
            let run = s@.subrange(i as int, j as int);
            let run2 = s@.subrange(i as int, j + 1 as int);
            assert(run2 =~= run.push(s@[j as int]));
            lemma_digits_val_extend(run, s@[j as int]);
        }
        if !over {
            if val * 10 + d > 0xffff_ffffu64 {
                over = true;
            } else {
                val = val * 10 + d;
            }
        }
        j = j + 1;
    }
    let run_val = if over {
        None
    } else if j > i {
        Some(val as u32)
    } else {
        None
    };
    (run_val, j)
}

/// First occurrence of `c` at or after `i`.
pub fn find_char(s: &Vec<char>, c: char, i: usize) -> (j: usize)
    requires
        i <= s@.len(),
    ensures
        j == char_pos(s@, c, i as int),
        i <= j <= s@.len(),
        j < s@.len() ==> s@[j as int] == c,
{
    let n = s.len();
    let mut j: usize = i;
    while j < n && s[j] != c
        invariant
            i <= j <= n,
            n == s@.len(),
            char_pos(s@, c, i as int) == char_pos(s@, c, j as int),
        decreases n - j,
    {
        j = j + 1;
    }
    j
}

/// Last occurrence of `c` in `s`: its position plus one, or zero when `c`
/// does not occur.
pub fn rfind_char(s: &Vec<char>, c: char) -> (j: usize)
    ensures
        j == char_rpos(s@, c) + 1,
        j <= s@.len(),
        j > 0 ==> s@[j - 1] == c,
{
    let n = s.len();
    let mut j: usize = n;
    proof {
        assert(s@.subrange(0, n as int) =~= s@);
    }
    while j > 0 && s[j - 1] != c
        invariant
            j <= n,
            n == s@.len(),
            char_rpos(s@, c) == char_rpos(s@.subrange(0, j as int), c),
        decreases j,
    {
        proof {
            let cur = s@.subrange(0, j as int);
            assert(cur.drop_last() =~= s@.subrange(0, j - 1 as int));
        }
        j = j - 1;
    }
    proof {
        let cur = s@.subrange(0, j as int);
        if j > 0 {
            assert(cur.last() == s@[j - 1]);
            assert(char_rpos(cur, c) == j - 1);
        }
    }
    j
}

/// `v` with leading and trailing whitespace removed.
pub fn trim_chars(v: &Vec<char>) -> (r: Vec<char>)
    ensures
        r@ == trim_spec(v@),
{
    let n = v.len();
    let mut b: usize = n;
    proof {
        assert(v@.subrange(0, n as int) =~= v@);
    }
    while b > 0 && space_char(v[b - 1])
        invariant
            b <= n,
            n == v@.len(),
            rstrip_len(v@) == rstrip_len(v@.subrange(0, b as int)),
        decreases b,
    {
        proof {
            let cur = v@.subrange(0, b as int);
            assert(cur.drop_last() =~= v@.subrange(0, b - 1 as int));
        }
        b = b - 1;
    }
    proof {
        let cur = v@.subrange(0, b as int);
        if b > 0 {
            assert(rstrip_len(cur) == b);
        }
        assert(b == rstrip_len(v@));
    }
    let a = skip_ws(v, 0);
    if a <= b {
        sub_vec(v, a, b)
    } else {
        Vec::new()
    }
}

/// Relies on `char::to_uppercase`: the Unicode uppercase mapping of a
/// character depends on the character alone.
pub uninterp spec fn upper_of(c: char) -> Seq<char>;

/// Relies on `char::to_uppercase`: the uppercase mapping of one character,
/// collected into a string.
#[verifier::external_body]
fn char_upper(c: char) -> (r: String)
    ensures
        r@ == upper_of(c),
{
    c.to_uppercase().collect::<String>()
}

/// `s` with its first character uppercased; the empty string stays empty.
pub fn capitalize(s: String) -> (r: String)
    ensures
        s@.len() == 0 ==> r@ == Seq::<char>::empty(),
        s@.len() > 0 ==> r@ == upper_of(s@[0]) + s@.skip(1),
{
    let v = chars_of(s.as_str());
    if v.len() == 0 {
        return String::new();
    }
    let mut out = char_upper(v[0]);
    let rest = sub_vec(&v, 1, v.len());
    let rest_str = string_from_chars(&rest);
    out.append(rest_str.as_str());
    proof {
        assert(rest@ =~= s@.skip(1));
    }
    out
}

} // verus!
