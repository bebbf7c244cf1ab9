//! Normalization of extracted chapter text: control characters become
//! spaces, HTML entities are decoded, and whitespace runs collapse to
//! single spaces with nothing left at either end.

use vstd::prelude::*;
use crate::textscan::{
    is_space, chars_of, matches_at, sub_vec, skip_ws, string_from_chars, ws_end,
};

verus! {

/// Control characters that become plain spaces before collapsing.
pub open spec fn blank_ctl(s: Seq<char>) -> Seq<char> {
    s.map(|i: int, c: char| if c == '\n' || c == '\t' || c == '\r' { ' ' } else { c })
}

/// `s` with every occurrence of `pat` replaced by `rep`, left to right and
/// without overlap, as string replacement does it.
pub open spec fn replace_all(s: Seq<char>, pat: Seq<char>, rep: Seq<char>) -> Seq<char>
    decreases s.len(),
{
    if pat.len() == 0 || s.len() < pat.len() {
        s
    } else if s.subrange(0, pat.len() as int) == pat {
        rep + replace_all(s.skip(pat.len() as int), pat, rep)
    } else {
        seq![s[0]] + replace_all(s.skip(1), pat, rep)
    }
}

/// End of the word that starts at `i`: the first space at or after `i`, or
/// the length of `s`.
pub open spec fn word_end(s: Seq<char>, i: int) -> int
    decreases s.len() - i,
{
    if i < 0 || i >= s.len() {
        s.len() as int
    } else if is_space(s[i]) {
        i
    } else {
        word_end(s, i + 1)
    }
}

/// A whitespace run ends no earlier than it starts.
pub proof fn lemma_ws_end_lb(s: Seq<char>, i: int)
    requires
        0 <= i <= s.len(),
    ensures
        i <= ws_end(s, i) <= s.len(),
    decreases s.len() - i,
{
    if i < s.len() && is_space(s[i]) {
        lemma_ws_end_lb(s, i + 1);
    }
}

/// A word ends no earlier than it starts.
pub proof fn lemma_word_end_lb(s: Seq<char>, i: int)
    requires
        0 <= i <= s.len(),
    ensures
        i <= word_end(s, i) <= s.len(),
    decreases s.len() - i,
{
    if i < s.len() && !is_space(s[i]) {
        lemma_word_end_lb(s, i + 1);
    }
}

/// The words of `s` from position `i` on, joined by single spaces: what
/// splitting on whitespace and joining again leaves.
pub open spec fn collapse_from(s: Seq<char>, i: int) -> Seq<char>
    decreases s.len() - i,
    when 0 <= i <= s.len()
    via collapse_from_decreases
{
    if i >= s.len() {
        Seq::empty()
    } else {
        let a = ws_end(s, i);
        if a >= s.len() {
            Seq::empty()
        } else {
            let e = word_end(s, a);
            let rest = collapse_from(s, e);
            if rest.len() == 0 {
                s.subrange(a, e)
            } else {
                s.subrange(a, e) + seq![' '] + rest
            }
        }
    }
}

#[via_fn]
proof fn collapse_from_decreases(s: Seq<char>, i: int) {
    if i < s.len() {
        lemma_ws_end_lb(s, i);
        let a = ws_end(s, i);
        if a < s.len() {
            assert(!is_space(s[a])) by {
                lemma_ws_end_not_space(s, i);
            }
            lemma_word_end_lb(s, a + 1);
        }
    }
}

/// The position a whitespace run ends at holds a non-space character, when
/// it is inside the text.
pub proof fn lemma_ws_end_not_space(s: Seq<char>, i: int)
    requires
        0 <= i <= s.len(),
        ws_end(s, i) < s.len(),
    ensures
        !is_space(s[ws_end(s, i)]),
    decreases s.len() - i,
{
    if i < s.len() && is_space(s[i]) {
        lemma_ws_end_not_space(s, i + 1);
    }
}

/// Control characters become spaces.
pub fn blank_ctl_chars(v: &Vec<char>) -> (r: Vec<char>)
    ensures
        r@ == blank_ctl(v@),
{
    let n = v.len();
    let mut r: Vec<char> = Vec::new();
    let mut i: usize = 0;
    while i < n
        invariant
            n == v@.len(),
            i <= n,
            r@ == blank_ctl(v@).subrange(0, i as int),
        decreases n - i,
    {
        let c = v[i];
        if c == '\n' || c == '\t' || c == '\r' {
            r.push(' ');
        } else {
            r.push(c);
        }
        assert(r@ =~= blank_ctl(v@).subrange(0, i + 1 as int));
        i = i + 1;
    }
    assert(r@ =~= blank_ctl(v@));
    r
}

/// Every occurrence of `pat` replaced by `rep`, left to right.
pub fn replace_all_chars(v: &Vec<char>, pat: &Vec<char>, rep: &Vec<char>) -> (r: Vec<char>)
    requires
        pat@.len() > 0,
    ensures
        r@ == replace_all(v@, pat@, rep@),
{
    let n = v.len();
    let plen = pat.len();
    let mut r: Vec<char> = Vec::new();
    let mut i: usize = 0;
    proof {
        assert(v@.skip(0) =~= v@);
    }
    while i < n
        invariant
            n == v@.len(),
            plen == pat@.len(),
            0 < plen,
            i <= n,
            replace_all(v@, pat@, rep@) == r@ + replace_all(v@.skip(i as int), pat@, rep@),
        decreases n - i,
    {
        let ghost tail = v@.skip(i as int);
        if plen <= n - i && matches_at(v, pat, i) {
            proof {
                assert(tail.subrange(0, plen as int) =~= v@.subrange(i as int, i + plen));
                assert(tail.skip(plen as int) =~= v@.skip(i + plen));
            }
            let ghost r0 = r@;
            let mut k: usize = 0;
            while k < rep.len()
                invariant
                    k <= rep@.len(),
                    r@ == r0 + rep@.subrange(0, k as int),
                decreases rep@.len() - k,
            {
                r.push(rep[k]);
                assert(r@ =~= r0 + rep@.subrange(0, k + 1 as int));
                k = k + 1;
            }
            proof {
                assert(rep@.subrange(0, rep@.len() as int) =~= rep@);
                assert(r0 + rep@ + replace_all(v@.skip(i + plen), pat@, rep@) =~= r0 + (rep@
                    + replace_all(v@.skip(i + plen), pat@, rep@)));
            }
            i = i + plen;
        } else {
            proof {
                if plen <= n - i {
                    assert(tail.subrange(0, plen as int) =~= v@.subrange(i as int, i + plen));
                }
                assert(tail.skip(1) =~= v@.skip(i + 1));
                assert(tail[0] == v@[i as int]);
            }
            let ghost r0 = r@;
            r.push(v[i]);
            proof {
                assert(r@ =~= r0 + seq![v@[i as int]]);
                assert(r0 + seq![v@[i as int]] + replace_all(v@.skip(i + 1), pat@, rep@) =~= r0 + (
                seq![v@[i as int]] + replace_all(v@.skip(i + 1), pat@, rep@)));
            }
            i = i + 1;
        }
    }
    proof {
        assert(v@.skip(i as int) =~= Seq::<char>::empty());
        assert(replace_all(Seq::<char>::empty(), pat@, rep@) =~= Seq::<char>::empty());
        assert(r@ =~= r@ + Seq::<char>::empty());
    }
    r
}

/// First space at or after `i`.
fn find_word_end(s: &Vec<char>, i: usize) -> (j: usize)
    requires
        i <= s@.len(),
    ensures
        j == word_end(s@, i as int),
        i <= j <= s@.len(),
{
    let n = s.len();
    let mut j: usize = i;
    while j < n && !crate::textscan::space_char(s[j])
        invariant
            i <= j <= n,
            n == s@.len(),
            word_end(s@, i as int) == word_end(s@, j as int),
        decreases n - j,
    {
        j = j + 1;
    }
    j
}

/// Whitespace runs collapsed to single spaces, with none left at either
/// end.
pub fn collapse_ws_chars(v: &Vec<char>) -> (r: Vec<char>)
    ensures
        r@ == collapse_from(v@, 0),
{
    let n = v.len();
    let mut out: Vec<char> = Vec::new();
    let mut i: usize = 0;
    while i < n
        invariant
            n == v@.len(),
            i <= n,
            out@.len() == 0 ==> collapse_from(v@, 0) == collapse_from(v@, i as int),
            out@.len() > 0 ==> collapse_from(v@, 0) == (if collapse_from(v@, i as int).len() == 0 {
                out@
            } else {
                out@ + seq![' '] + collapse_from(v@, i as int)
            }),
        decreases n - i,
    {
        let j = skip_ws(v, i);
        if j >= n {
            proof {
                assert(collapse_from(v@, i as int) =~= Seq::<char>::empty());
            }
            i = n;
        } else {
            let k = find_word_end(v, j);
            proof {
                lemma_ws_end_not_space(v@, i as int);
                lemma_word_end_lb(v@, j + 1);
            }
            let word = sub_vec(v, j, k);
            let ghost out0 = out@;
            let ghost rest = collapse_from(v@, k as int);
            if out.len() > 0 {
                out.push(' ');
            }
            let m = word.len();
            let mut t: usize = 0;
            let ghost out1 = out@;
            while t < m
                invariant
                    t <= m,
                    m == word@.len(),
                    out@ == out1 + word@.subrange(0, t as int),
                decreases m - t,
            {
                out.push(word[t]);
                assert(out@ =~= out1 + word@.subrange(0, t + 1 as int));
                t = t + 1;
            }
            proof {
                assert(word@.subrange(0, m as int) =~= word@);
                let piece = v@.subrange(j as int, k as int);
                assert(collapse_from(v@, i as int) == (if rest.len() == 0 {
                    piece
                } else {
                    piece + seq![' '] + rest
                }));
                if out0.len() == 0 {
                    assert(out@ =~= piece);
                    if rest.len() != 0 {
                        assert(collapse_from(v@, 0) =~= out@ + seq![' '] + rest);
                    } else {
                        assert(collapse_from(v@, 0) =~= out@);
                    }
                } else {
                    assert(out@ =~= out0 + seq![' '] + piece);
                    if rest.len() != 0 {
                        assert(out0 + seq![' '] + (piece + seq![' '] + rest) =~= out@ + seq![' ']
                            + rest);
                        assert(collapse_from(v@, 0) =~= out@ + seq![' '] + rest);
                    } else {
                        assert(out0 + seq![' '] + piece =~= out@);
                        assert(collapse_from(v@, 0) =~= out@);
                    }
                }
            }
            i = k;
        }
    }
    proof {
        assert(collapse_from(v@, i as int) =~= Seq::<char>::empty());
    }
    out
}

/// The full normalization of one extracted paragraph: control characters
/// blanked, the six HTML entities decoded in their fixed order, whitespace
/// collapsed.
pub open spec fn clean_spec(s: Seq<char>) -> Seq<char> {
    let s1 = blank_ctl(s);
    let s2 = replace_all(s1, "&nbsp;"@, " "@);
    let s3 = replace_all(s2, "&quot;"@, "\""@);
    let s4 = replace_all(s3, "&apos;"@, "'"@);
    let s5 = replace_all(s4, "&amp;"@, "&"@);
    let s6 = replace_all(s5, "&lt;"@, "<"@);
    let s7 = replace_all(s6, "&gt;"@, ">"@);
    collapse_from(s7, 0)
}

/// Normalizes one extracted paragraph.
pub fn clean_paragraph(text: &String) -> (r: String)
    ensures
        r@ == clean_spec(text@),
{
    proof {
        reveal_strlit("&nbsp;");
        reveal_strlit("&quot;");
        reveal_strlit("&apos;");
        reveal_strlit("&amp;");
        reveal_strlit("&lt;");
        reveal_strlit("&gt;");
    }
    let v = chars_of(text.as_str());
    let s1 = blank_ctl_chars(&v);
    let s2 = replace_all_chars(&s1, &chars_of("&nbsp;"), &chars_of(" "));
    let s3 = replace_all_chars(&s2, &chars_of("&quot;"), &chars_of("\""));
    let s4 = replace_all_chars(&s3, &chars_of("&apos;"), &chars_of("'"));
    let s5 = replace_all_chars(&s4, &chars_of("&amp;"), &chars_of("&"));
    let s6 = replace_all_chars(&s5, &chars_of("&lt;"), &chars_of("<"));
    let s7 = replace_all_chars(&s6, &chars_of("&gt;"), &chars_of(">"));
    let out = collapse_ws_chars(&s7);
    string_from_chars(&out)
}

/// The normalized paragraphs that are kept: blank ones drop out, order is
/// kept.
pub open spec fn cleaned_list(ss: Seq<Seq<char>>) -> Seq<Seq<char>>
    decreases ss.len(),
{
    if ss.len() == 0 {
        Seq::empty()
    } else {
        let head = clean_spec(ss[0]);
        if head.len() == 0 {
            cleaned_list(ss.drop_first())
        } else {
            seq![head] + cleaned_list(ss.drop_first())
        }
    }
}

/// Normalizes every extracted paragraph and keeps the non-empty ones, in
/// order.
pub fn clean_paragraphs(texts: &Vec<String>) -> (r: Vec<String>)
    ensures
        r.deep_view() == cleaned_list(texts.deep_view()),
{
    let n = texts.len();
    let mut r: Vec<String> = Vec::new();
    let mut i: usize = 0;
    proof {
        assert(texts.deep_view().skip(0) =~= texts.deep_view());
        assert(r.deep_view() =~= Seq::<Seq<char>>::empty());
    }
    while i < n
        invariant
            n == texts@.len(),
            texts.deep_view().len() == n,
            i <= n,
            cleaned_list(texts.deep_view()) == r.deep_view() + cleaned_list(
                texts.deep_view().skip(i as int),
            ),
        decreases n - i,
    {
        proof {
            let ss = texts.deep_view().skip(i as int);
            assert(ss[0] == texts@[i as int]@);
            assert(ss.drop_first() =~= texts.deep_view().skip(i + 1));
        }
        let cleaned = clean_paragraph(&texts[i]);
        let ghost prev = r.deep_view();
        if cleaned.as_str().unicode_len() > 0 {
            r.push(cleaned);
            proof {
                assert(r.deep_view() =~= prev + seq![clean_spec(texts@[i as int]@)]);
                assert(prev + seq![clean_spec(texts@[i as int]@)] + cleaned_list(
                    texts.deep_view().skip(i + 1),
                ) =~= prev + (seq![clean_spec(texts@[i as int]@)] + cleaned_list(
                    texts.deep_view().skip(i + 1),
                )));
            }
        }
        i = i + 1;
    }
    proof {
        assert(cleaned_list(texts.deep_view().skip(i as int)) =~= Seq::<Seq<char>>::empty());
        assert(r.deep_view() =~= r.deep_view() + Seq::<Seq<char>>::empty());
    }
    r
}

} // verus!
