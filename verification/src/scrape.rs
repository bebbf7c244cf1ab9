//! The extraction rules of the crawler: how a listing page announces its
//! page count, how a detail page announces its title and declared chapter
//! count, and how the title is turned into a content-addressed image path.

use vstd::prelude::*;
use vstd::string::StringSliceAdditionalSpecFns;
use crate::htmldoc::ElementInfo;
use crate::textscan::{
    is_digit, digit_val, digits_val, match_at, contains_seq, ws_end, digits_end, digit_pos,
    trim_spec, chars_of, matches_at, find_sub, skip_ws, scan_digits, find_digit, trim_chars,
    sub_vec, string_from_chars, str_eq, char_pos, char_rpos, find_char, rfind_char,
    lemma_digits_val_extend, lemma_digits_val_nonneg,
};

verus! {

/// The key that the embedded script block uses to announce the number of
/// listing pages.
pub open spec fn pages_count_marker() -> Seq<char> {
    "\"pages_count\""@
}

/// The marker of the embedded data script.
pub open spec fn data_marker() -> Seq<char> {
    "window.__DATA__"@
}

/// The page count announced immediately after an occurrence of the
/// page-count key at `i`: optional whitespace, a colon, optional whitespace,
/// then a non-empty digit run that fits in `u32`.
pub open spec fn pages_count_at(s: Seq<char>, i: int) -> Option<u32> {
    let j = ws_end(s, i + pages_count_marker().len());
    if j < s.len() && s[j] == ':' {
        let m = ws_end(s, j + 1);
        let e = digits_end(s, m);
        if e > m && digits_val(s.subrange(m, e)) <= u32::MAX {
            Some(digits_val(s.subrange(m, e)) as u32)
        } else {
            None
        }
    } else {
        None
    }
}

/// The whole page-count pattern matches at `i`: the key, optional
/// whitespace, a colon, optional whitespace, then at least one digit.
pub open spec fn pages_pattern_at(s: Seq<char>, i: int) -> bool {
    let j = ws_end(s, i + pages_count_marker().len());
    &&& match_at(s, pages_count_marker(), i)
    &&& j < s.len() && s[j] == ':'
    &&& digits_end(s, ws_end(s, j + 1)) > ws_end(s, j + 1)
}

/// The scan commits at the first position where the whole pattern matches:
/// the count there is taken if its digits fit in `u32`, and otherwise the
/// script yields nothing — a later occurrence is never consulted.
pub open spec fn scan_pages_count(s: Seq<char>, i: int) -> Option<u32>
    decreases s.len() - i,
{
    if i < 0 || i >= s.len() || i + pages_count_marker().len() > s.len() {
        None
    } else if pages_pattern_at(s, i) {
        pages_count_at(s, i)
    } else {
        scan_pages_count(s, i + 1)
    }
}

/// The page count a script block announces: only a block holding the data
/// marker is consulted, and the first well-formed page-count entry wins.
pub open spec fn script_page_count(s: Seq<char>) -> Option<u32> {
    if contains_seq(s, data_marker()) {
        scan_pages_count(s, 0)
    } else {
        None
    }
}

/// The page count of the first script block that announces one.
pub open spec fn first_script_page_count(ss: Seq<Seq<char>>) -> Option<u32>
    decreases ss.len(),
{
    if ss.len() == 0 {
        None
    } else if script_page_count(ss[0]) is Some {
        script_page_count(ss[0])
    } else {
        first_script_page_count(ss.drop_first())
    }
}

/// The fallback read from the last pagination anchor: its trimmed text, when
/// it is a non-empty digit run that fits in `u32`; otherwise one.
pub open spec fn pager_text_count(s: Seq<char>) -> u32 {
    let t = trim_spec(s);
    if t.len() > 0 && digits_end(t, 0) == t.len() && digits_val(t) <= u32::MAX {
        digits_val(t) as u32
    } else {
        1
    }
}

/// Total page count of a listing: the first script announcement wins, then
/// the pagination anchor, then one.
pub open spec fn page_count_spec(scripts: Seq<Seq<char>>, pager: Option<Seq<char>>) -> u32 {
    match first_script_page_count(scripts) {
        Some(v) => v,
        None => match pager {
            Some(p) => pager_text_count(p),
            None => 1,
        },
    }
}

/// The page count announced by one script block.
pub fn page_count_of_script(text: &String) -> (r: Option<u32>)
    ensures
        r == script_page_count(text@),
{
    let s = chars_of(text.as_str());
    let marker = chars_of("window.__DATA__");
    let found = find_sub(&s, &marker);
    match found {
        None => {
            assert(!contains_seq(s@, data_marker()));
            return None;
        },
        Some(at) => {
            assert(match_at(s@, data_marker(), at as int));
            assert(contains_seq(s@, data_marker()));
        },
    }
    let key = chars_of("\"pages_count\"");
    let n = s.len();
    let klen = key.len();
    assert(klen == 13) by {
        reveal_strlit("\"pages_count\"");
    }
    if n < klen {
        assert(scan_pages_count(s@, 0) is None);
        return None;
    }
    let last = n - klen;
    let mut i: usize = 0;
    while i <= last
        invariant
            n == s@.len(),
            klen == pages_count_marker().len(),
            klen == 13,
            last == n - klen,
            key@ == pages_count_marker(),
            s@ == text@,
            contains_seq(s@, data_marker()),
            i <= last + 1,
            scan_pages_count(s@, 0) == scan_pages_count(s@, i as int),
        decreases last + 1 - i,
    {
        if matches_at(&s, &key, i) {
            let j = skip_ws(&s, i + klen);
            if j < n && s[j] == ':' {
                let m = skip_ws(&s, j + 1);
                let (val, e) = scan_digits(&s, m);
                if e > m {
                    assert(pages_pattern_at(s@, i as int));
                    match val {
                        Some(v) => {
                            assert(pages_count_at(s@, i as int) == Some(v));
                            assert(scan_pages_count(s@, i as int) == Some(v));
                            return Some(v);
                        },
                        None => {
                            // The count overflows: this script is abandoned.
                            assert(pages_count_at(s@, i as int) is None);
                            assert(scan_pages_count(s@, i as int) is None);
                            return None;
                        },
                    }
                } else {
                    assert(!pages_pattern_at(s@, i as int));
                }
            } else {
                assert(!pages_pattern_at(s@, i as int));
            }
        }
        proof {
            assert(scan_pages_count(s@, i as int) == scan_pages_count(s@, i + 1));
        }
        i = i + 1;
    }
    assert(scan_pages_count(s@, i as int) is None);
    None
}

/// The trimmed text of the pagination anchor as a page count, with the
/// documented fallback of one.
pub fn page_count_of_pager_text(text: &String) -> (r: u32)
    ensures
        r == pager_text_count(text@),
{
    let s = chars_of(text.as_str());
    let t = trim_chars(&s);
    if t.len() == 0 {
        return 1;
    }
    let (val, e) = scan_digits(&t, 0);
    if e != t.len() {
        return 1;
    }
    match val {
        Some(v) => {
            proof {
                assert(t@.subrange(0, e as int) =~= t@);
            }
            v
        },
        None => {
            proof {
                assert(t@.subrange(0, e as int) =~= t@);
            }
            1
        },
    }
}

/// Total page count of a listing, decided from the script blocks and the
/// optional last pagination anchor.
pub fn page_count_from_signals(scripts: &Vec<String>, pager: &Option<String>) -> (r: u32)
    ensures
        r == page_count_spec(scripts.deep_view(), pager.deep_view()),
{
    let n = scripts.len();
    let mut i: usize = 0;
    proof {
        assert(scripts.deep_view().skip(0) =~= scripts.deep_view());
    }
    while i < n
        invariant
            n == scripts@.len(),
            i <= n,
            scripts.deep_view().len() == n,
            first_script_page_count(scripts.deep_view()) == first_script_page_count(
                scripts.deep_view().skip(i as int),
            ),
        decreases n - i,
    {
        let r = page_count_of_script(&scripts[i]);
        proof {
            let ss = scripts.deep_view().skip(i as int);
            assert(ss[0] == scripts@[i as int]@);
            assert(ss.drop_first() =~= scripts.deep_view().skip(i + 1));
        }
        if let Some(v) = r {
            return v;
        }
        i = i + 1;
    }
    proof {
        assert(scripts.deep_view().skip(i as int).len() == 0);
        assert(first_script_page_count(scripts.deep_view()) is None);
    }
    match pager {
        Some(p) => page_count_of_pager_text(p),
        None => 1,
    }
}

/// The characters at which a headline heading is truncated.
pub open spec fn is_title_delim(c: char) -> bool {
    c == '\u{2022}' || c == '|'
}

/// First truncation delimiter at or after `i`, or the length of `s`.
pub open spec fn delim_pos(s: Seq<char>, i: int) -> int
    decreases s.len() - i,
{
    if i < 0 || i >= s.len() {
        s.len() as int
    } else if is_title_delim(s[i]) {
        i
    } else {
        delim_pos(s, i + 1)
    }
}

/// The title one matched heading yields: its trimmed text; a headline
/// heading (an `h1` carrying `itemprop="headline"`) is first truncated at
/// the earliest delimiter and trimmed again.
pub open spec fn effective_title(src: ElementInfo) -> Seq<char> {
    let t = trim_spec(src.text@);
    if src.tag@ == "h1"@ && (src.attr_value matches Some(a) && a@ == "headline"@) {
        trim_spec(t.subrange(0, delim_pos(t, 0)))
    } else {
        t
    }
}

/// The title of a detail page: the first non-empty candidate in priority
/// order, or the sentinel.
pub open spec fn pick_title(srcs: Seq<ElementInfo>) -> Seq<char>
    decreases srcs.len(),
{
    if srcs.len() == 0 {
        "None"@
    } else if effective_title(srcs[0]).len() > 0 {
        effective_title(srcs[0])
    } else {
        pick_title(srcs.drop_first())
    }
}

/// A title is never blank: a candidate is taken only when non-empty, and
/// the sentinel has four characters.
pub proof fn lemma_pick_title_nonempty(srcs: Seq<ElementInfo>)
    ensures
        pick_title(srcs).len() > 0,
    decreases srcs.len(),
{
    if srcs.len() == 0 {
        assert("None"@.len() == 4) by {
            reveal_strlit("None");
        }
    } else if effective_title(srcs[0]).len() == 0 {
        lemma_pick_title_nonempty(srcs.drop_first());
    }
}

/// First truncation delimiter at or after `i`.
fn find_delim(s: &Vec<char>, i: usize) -> (j: usize)
    requires
        i <= s@.len(),
    ensures
        j == delim_pos(s@, i as int),
        i <= j <= s@.len(),
{
    let n = s.len();
    let mut j: usize = i;
    while j < n && !(s[j] == '\u{2022}' || s[j] == '|')
        invariant
            i <= j <= n,
            n == s@.len(),
            delim_pos(s@, i as int) == delim_pos(s@, j as int),
        decreases n - j,
    {
        j = j + 1;
    }
    j
}

/// The title one matched heading yields.
fn effective_title_of(src: &ElementInfo) -> (r: Vec<char>)
    ensures
        r@ == effective_title(*src),
{
    let chars = chars_of(src.text.as_str());
    let t = trim_chars(&chars);
    let headline = match &src.attr_value {
        Some(a) => str_eq(src.tag.as_str(), "h1") && str_eq(a.as_str(), "headline"),
        None => false,
    };
    if headline {
        let cut = find_delim(&t, 0);
        let head = sub_vec(&t, 0, cut);
        trim_chars(&head)
    } else {
        t
    }
}

/// The title of a detail page, decided from the matched headings in
/// priority order; the sentinel `"None"` stands in when every candidate is
/// blank.
pub fn title_from_sources(srcs: &Vec<ElementInfo>) -> (t: String)
    ensures
        t@ == pick_title(srcs@),
        t@.len() > 0,
{
    let n = srcs.len();
    let mut i: usize = 0;
    proof {
        assert(srcs@.skip(0) =~= srcs@);
        lemma_pick_title_nonempty(srcs@);
    }
    while i < n
        invariant
            n == srcs@.len(),
            i <= n,
            pick_title(srcs@) == pick_title(srcs@.skip(i as int)),
        decreases n - i,
    {
        let cand = effective_title_of(&srcs[i]);
        proof {
            assert(srcs@.skip(i as int)[0] == srcs@[i as int]);
            assert(srcs@.skip(i as int).drop_first() =~= srcs@.skip(i + 1));
        }
        if cand.len() > 0 {
            return string_from_chars(&cand);
        }
        i = i + 1;
    }
    let t = String::from_str("None");
    t
}

/// The chapter count one metadata text yields: its trimmed text must be
/// non-empty and mention chapters, and its first digit run must fit in
/// `i32`; otherwise the text yields nothing.
pub open spec fn chapters_of_text(s: Seq<char>) -> Option<i32> {
    let t = trim_spec(s);
    if t.len() > 0 && contains_seq(t, "chapters"@) {
        let p = digit_pos(t, 0);
        if p < t.len() {
            let e = digits_end(t, p);
            if digits_val(t.subrange(p, e)) <= i32::MAX {
                Some(digits_val(t.subrange(p, e)) as i32)
            } else {
                None
            }
        } else {
            None
        }
    } else {
        None
    }
}

/// The declared chapter count of a detail page: the first metadata text
/// that yields one, or zero.
pub open spec fn chapters_count_spec(texts: Seq<Seq<char>>) -> i32
    decreases texts.len(),
{
    if texts.len() == 0 {
        0
    } else {
        match chapters_of_text(texts[0]) {
            Some(v) => v,
            None => chapters_count_spec(texts.drop_first()),
        }
    }
}

/// A declared chapter count is never negative: it is read from a digit
/// run, and the fallback is zero.
pub proof fn lemma_chapters_of_text_nonneg(s: Seq<char>)
    ensures
        chapters_of_text(s) matches Some(v) ==> v >= 0,
{
    let t = trim_spec(s);
    if t.len() > 0 && contains_seq(t, "chapters"@) {
        let p = digit_pos(t, 0);
        crate::textscan::lemma_digit_pos_lb(t, 0);
        if p < t.len() {
            let e = digits_end(t, p);
            crate::textscan::lemma_digits_end_lb(t, p);
            crate::textscan::lemma_digits_end_digits(t, p);
            let run = t.subrange(p, e);
            assert forall|k: int| 0 <= k < run.len() implies is_digit(#[trigger] run[k]) by {
                assert(run[k] == t[p + k]);
            }
            lemma_digits_val_nonneg(run);
        }
    }
}

/// The fold over the metadata texts is never negative either.
pub proof fn lemma_chapters_count_nonneg(texts: Seq<Seq<char>>)
    ensures
        chapters_count_spec(texts) >= 0,
    decreases texts.len(),
{
    if texts.len() > 0 {
        lemma_chapters_of_text_nonneg(texts[0]);
        if chapters_of_text(texts[0]) is None {
            lemma_chapters_count_nonneg(texts.drop_first());
        }
    }
}

/// The chapter count one metadata text yields.
fn chapters_of_text_fn(text: &String) -> (r: Option<i32>)
    ensures
        r == chapters_of_text(text@),
{
    let s = chars_of(text.as_str());
    let t = trim_chars(&s);
    if t.len() == 0 {
        return None;
    }
    let word = chars_of("chapters");
    if find_sub(&t, &word).is_none() {
        return None;
    }
    let p = find_digit(&t, 0);
    if p >= t.len() {
        return None;
    }
    let (val, e) = scan_digits(&t, p);
    match val {
        Some(v) => {
            if v <= 0x7fff_ffffu32 {
                Some(v as i32)
            } else {
                None
            }
        },
        None => {
            proof {
                crate::textscan::lemma_digits_end_lb(t@, p + 1);
                assert(digits_end(t@, p as int) == digits_end(t@, p + 1));
                assert(e > p);
            }
            None
        },
    }
}

/// The declared chapter count, decided from the metadata texts in priority
/// order, with the documented fallback of zero.
pub fn total_chapters_from_texts(texts: &Vec<String>) -> (r: i32)
    ensures
        r == chapters_count_spec(texts.deep_view()),
        r >= 0,
{
    let n = texts.len();
    let mut i: usize = 0;
    proof {
        assert(texts.deep_view().skip(0) =~= texts.deep_view());
        lemma_chapters_count_nonneg(texts.deep_view());
    }
    while i < n
        invariant
            n == texts@.len(),
            texts.deep_view().len() == n,
            i <= n,
            chapters_count_spec(texts.deep_view()) == chapters_count_spec(
                texts.deep_view().skip(i as int),
            ),
        decreases n - i,
    {
        let r = chapters_of_text_fn(&texts[i]);
        proof {
            let ss = texts.deep_view().skip(i as int);
            assert(ss[0] == texts@[i as int]@);
            assert(ss.drop_first() =~= texts.deep_view().skip(i + 1));
            lemma_chapters_of_text_nonneg(texts@[i as int]@);
        }
        if let Some(v) = r {
            return v;
        }
        i = i + 1;
    }
    proof {
        assert(texts.deep_view().skip(i as int).len() == 0);
    }
    0
}

/// Relies on `crc32fast::hash`: the checksum is a function of the bytes
/// alone, so the same title always hashes to the same value.
pub uninterp spec fn crc32_of(b: Seq<u8>) -> u32;

/// Relies on `crc32fast::hash`: computes the CRC32 checksum of the bytes.
#[verifier::external_body]
fn crc32_bytes(b: &[u8]) -> (r: u32)
    ensures
        r == crc32_of(b@),
{
    crc32fast::hash(b)
}

/// The character of one decimal digit value.
pub open spec fn digit_char_of(d: int) -> char {
    if d == 0 {
        '0'
    } else if d == 1 {
        '1'
    } else if d == 2 {
        '2'
    } else if d == 3 {
        '3'
    } else if d == 4 {
        '4'
    } else if d == 5 {
        '5'
    } else if d == 6 {
        '6'
    } else if d == 7 {
        '7'
    } else if d == 8 {
        '8'
    } else {
        '9'
    }
}

/// The decimal digits of `h`, most significant first, without leading
/// zeroes.
pub open spec fn dec_digits(h: int) -> Seq<char>
    decreases h,
{
    if h < 10 {
        seq![digit_char_of(h)]
    } else {
        dec_digits(h / 10).push(digit_char_of(h % 10))
    }
}

/// The storage path of a cover image whose title hashes to `h`.
pub open spec fn img_path_spec(h: u32) -> Seq<char> {
    "imgs/"@ + dec_digits(h as int) + ".avif"@
}

/// The character of one decimal digit value.
fn digit_to_char(d: u32) -> (c: char)
    requires
        d < 10,
    ensures
        c == digit_char_of(d as int),
{
    if d == 0 {
        '0'
    } else if d == 1 {
        '1'
    } else if d == 2 {
        '2'
    } else if d == 3 {
        '3'
    } else if d == 4 {
        '4'
    } else if d == 5 {
        '5'
    } else if d == 6 {
        '6'
    } else if d == 7 {
        '7'
    } else if d == 8 {
        '8'
    } else {
        '9'
    }
}

/// The decimal digits of `h`, most significant first.
fn u32_to_dec(h: u32) -> (v: Vec<char>)
    ensures
        v@ == dec_digits(h as int),
    decreases h,
{
    if h < 10 {
        let mut v: Vec<char> = Vec::new();
        v.push(digit_to_char(h));
        assert(v@ =~= seq![digit_char_of(h as int)]);
        v
    } else {
        let mut v = u32_to_dec(h / 10);
        v.push(digit_to_char(h % 10));
        v
    }
}

/// Every character of a decimal rendering is a digit, and reading the
/// rendering back yields the number.
pub proof fn lemma_dec_digits_val(h: int)
    requires
        0 <= h,
    ensures
        forall|k: int| 0 <= k < dec_digits(h).len() ==> is_digit(dec_digits(h)[k]),
        digits_val(dec_digits(h)) == h,
    decreases h,
{
    if h < 10 {
        let s = dec_digits(h);
        assert(s.len() == 1);
        assert(s.last() == digit_char_of(h));
        assert(s.drop_last() =~= Seq::<char>::empty());
        assert(digits_val(Seq::<char>::empty()) == 0);
        assert(digits_val(s) == digit_val(digit_char_of(h)));
    } else {
        lemma_dec_digits_val(h / 10);
        lemma_digits_val_extend(dec_digits(h / 10), digit_char_of(h % 10));
        assert(digit_val(digit_char_of(h % 10)) == h % 10);
        assert(digits_val(dec_digits(h)) == (h / 10) * 10 + h % 10);
        assert((h / 10) * 10 + h % 10 == h) by {
            vstd::arithmetic::div_mod::lemma_fundamental_div_mod(h, 10);
        }
    }
}

/// Distinct numbers render as distinct digit strings.
pub proof fn lemma_dec_digits_injective(h1: int, h2: int)
    requires
        0 <= h1,
        0 <= h2,
        h1 != h2,
    ensures
        dec_digits(h1) != dec_digits(h2),
{
    lemma_dec_digits_val(h1);
    lemma_dec_digits_val(h2);
}

/// Distinct title hashes map to distinct image paths: the path is the hash
/// rendered in decimal between a fixed prefix and suffix.
pub proof fn lemma_img_path_injective(h1: u32, h2: u32)
    requires
        h1 != h2,
    ensures
        img_path_spec(h1) != img_path_spec(h2),
{
    lemma_dec_digits_injective(h1 as int, h2 as int);
    let p = "imgs/"@;
    let s = ".avif"@;
    let d1 = dec_digits(h1 as int);
    let d2 = dec_digits(h2 as int);
    if img_path_spec(h1) == img_path_spec(h2) {
        assert((p + d1 + s).len() == (p + d2 + s).len());
        assert(d1.len() == d2.len());
        assert forall|k: int| 0 <= k < d1.len() implies d1[k] == d2[k] by {
            assert((p + d1 + s)[p.len() + k] == d1[k]);
            assert((p + d2 + s)[p.len() + k] == d2[k]);
        }
        assert(d1 =~= d2);
    }
}

/// A parsed detail page, ready for persistence: the cover image bytes, the
/// content-addressed path the image will be stored at, the title, the
/// declared chapter count, and the fetched chapters.
pub struct RanobesData {
    pub img: Vec<u8>,
    pub img_path: String,
    pub title: String,
    pub total_chapters: i32,
    pub chapters: Vec<RanobesChapters>,
}

impl RanobesData {
    /// Bundles the extracted fields of one detail page.
    pub fn new(
        img: Vec<u8>,
        img_path: String,
        title: String,
        total_chapters: i32,
        chapters: Vec<RanobesChapters>,
    ) -> (r: Self)
        ensures
            r.img == img,
            r.img_path == img_path,
            r.title == title,
            r.total_chapters == total_chapters,
            r.chapters == chapters,
    {
        Self { img, img_path, title, total_chapters, chapters }
    }
}

/// One fetched chapter: its title and its compressed content.
pub struct RanobesChapters {
    pub title: String,
    pub content: Vec<u8>,
}

impl RanobesChapters {
    /// Bundles one chapter.
    pub fn new(title: String, content: Vec<u8>) -> (r: Self)
        ensures
            r.title == title,
            r.content == content,
    {
        Self { title, content }
    }
}

/// The crawler's extraction rules, stated over already-fetched documents.
pub struct Ranobes {}

impl Ranobes {
    /// The storage path of the cover image for `title`: the CRC32 checksum
    /// of the title's bytes, rendered in decimal inside a fixed directory
    /// and extension pattern. The same title always maps to the same path.
    pub fn hash_title_and_add_imgs_avif(title: &str) -> (r: String)
        ensures
            r@ == img_path_spec(crc32_of(title.spec_bytes())),
    {
        let h = crc32_bytes(title.as_bytes());
        let digits = u32_to_dec(h);
        let mut path = String::from_str("imgs/");
        let mut i: usize = 0;
        let n = digits.len();
        while i < n
            invariant
                n == digits@.len(),
                i <= n,
                path@ == "imgs/"@ + digits@.subrange(0, i as int),
            decreases n - i,
        {
            crate::textscan::push_char(&mut path, digits[i]);
            assert(path@ =~= "imgs/"@ + digits@.subrange(0, i + 1 as int));
            i = i + 1;
        }
        assert(digits@.subrange(0, n as int) =~= digits@);
        path.append(".avif");
        path
    }

    /// Total page count of a listing document: the embedded script signal,
    /// then the last pagination anchor, then one (see
    /// [`page_count_from_signals`]).
    pub fn get_page_count(doc: &scraper::Html) -> u32 {
        let scripts = match crate::htmldoc::parse_selector("script") {
            Some(sel) => crate::htmldoc::select_texts(doc, &sel),
            None => Vec::new(),
        };
        let pager = match crate::htmldoc::parse_selector(".pages > a:nth-last-of-type(1)") {
            Some(sel) => {
                let texts = crate::htmldoc::select_texts(doc, &sel);
                if texts.len() > 0 {
                    Some(texts[0].clone())
                } else {
                    None
                }
            },
            None => None,
        };
        page_count_from_signals(&scripts, &pager)
    }

    /// The title of a detail document: the first non-empty heading among
    /// the prioritized selectors, with the headline trimming rule (see
    /// [`title_from_sources`]); never blank, the sentinel standing in.
    pub fn get_title(doc: &scraper::Html) -> (r: String)
        ensures
            r@.len() > 0,
    {
        let mut sources: Vec<ElementInfo> = Vec::new();
        if let Some(sel) = crate::htmldoc::parse_selector("h1.title") {
            let mut infos = crate::htmldoc::select_element_infos(doc, &sel, "itemprop");
            if infos.len() > 0 {
                let first = infos.remove(0);
                sources.push(first);
            }
        }
        if let Some(sel) = crate::htmldoc::parse_selector("h1.title span") {
            let mut infos = crate::htmldoc::select_element_infos(doc, &sel, "itemprop");
            if infos.len() > 0 {
                let first = infos.remove(0);
                sources.push(first);
            }
        }
        title_from_sources(&sources)
    }

    /// The declared chapter count of a detail document: the first metadata
    /// text that yields one, or zero (see [`total_chapters_from_texts`]);
    /// never negative.
    pub fn get_total_chapters(doc: &scraper::Html) -> (r: i32)
        ensures
            r >= 0,
    {
        let mut texts: Vec<String> = Vec::new();
        if let Some(sel) = crate::htmldoc::parse_selector(".r-fullstory-spec li:nth-child(8) span")
             {
            let mut found = crate::htmldoc::select_texts(doc, &sel);
            if found.len() > 0 {
                let first = found.remove(0);
                texts.push(first);
            }
        }
        if let Some(sel) = crate::htmldoc::parse_selector(".r-fullstory-spec li:nth-child(9) span")
             {
            let mut found = crate::htmldoc::select_texts(doc, &sel);
            if found.len() > 0 {
                let first = found.remove(0);
                texts.push(first);
            }
        }
        total_chapters_from_texts(&texts)
    }

    /// The item links of one listing document, in document order: the
    /// `href` of every article heading anchor that has one (see
    /// [`links_from_hrefs`]).
    pub fn extract_article_links(doc: &scraper::Html) -> Vec<String> {
        match crate::htmldoc::parse_selector("article.block > div > h2 a") {
            Some(sel) => {
                let hrefs = crate::htmldoc::select_attr_values(doc, &sel, "href");
                links_from_hrefs(&hrefs)
            },
            None => Vec::new(),
        }
    }

    /// The chapter links a secondary listing document embeds in its data
    /// scripts, in document order (see [`chapter_links_from_scripts`]).
    pub fn extract_chapter_links(doc: &scraper::Html) -> Vec<String> {
        match crate::htmldoc::parse_selector("script") {
            Some(sel) => {
                let scripts = crate::htmldoc::select_texts(doc, &sel);
                chapter_links_from_scripts(&scripts)
            },
            None => Vec::new(),
        }
    }

    /// The advisory anti-bot report for one fetched document: whether the
    /// block marker is present, with the challenge token and checkbox
    /// control name read from the markup (see [`classify_challenge`]).
    pub fn detect_challenge(doc: &scraper::Html) -> ChallengeState {
        let blocked = match crate::htmldoc::parse_selector(".offpage") {
            Some(sel) => crate::htmldoc::select_texts(doc, &sel).len() > 0,
            None => false,
        };
        let token = match crate::htmldoc::parse_selector("#cf-chl-widget-xuhap_response") {
            Some(sel) => {
                let mut vals = crate::htmldoc::select_attr_values(doc, &sel, "value");
                if vals.len() > 0 {
                    vals.remove(0)
                } else {
                    None
                }
            },
            None => None,
        };
        let checkbox_name = match crate::htmldoc::parse_selector(".cb-lb > input[type='checkbox']")
             {
            Some(sel) => {
                let mut vals = crate::htmldoc::select_attr_values(doc, &sel, "name");
                if vals.len() > 0 {
                    vals.remove(0)
                } else {
                    None
                }
            },
            None => None,
        };
        classify_challenge(blocked, token, checkbox_name)
    }
}

/// Relies on `serde_json::from_str`: parses the text as JSON and converts
/// the array under `array_key` into, per element, the string under
/// `link_key` when there is one. The result is a function of the three
/// texts alone.
pub uninterp spec fn json_links_of(s: Seq<char>, array_key: Seq<char>, link_key: Seq<char>) -> Option<
    Seq<Option<Seq<char>>>,
>;

/// Relies on `serde_json::from_str`: parses the embedded JSON object and
/// hands out the link entries of its array, one per array element.
#[verifier::external_body]
fn json_links(s: &str, array_key: &str, link_key: &str) -> (r: Option<Vec<Option<String>>>)
    ensures
        r.deep_view() == json_links_of(s@, array_key@, link_key@),
{
    let parsed: serde_json::Value = serde_json::from_str(s).ok()?;
    let arr = parsed.get(array_key)?.as_array()?;
    Some(
        arr.iter().map(
            |el| el.get(link_key).and_then(|l| l.as_str()).map(|l| l.to_string()),
        ).collect(),
    )
}

/// The chapter links one script block yields: a block holding the data
/// marker is cut from its first opening brace to its last closing brace,
/// parsed as JSON, and each entry of its chapter array that carries a link
/// contributes that link, in array order.
pub open spec fn data_script_links(s: Seq<char>) -> Seq<Seq<char>> {
    if contains_seq(s, data_marker()) {
        let a = char_pos(s, '{', 0);
        let b = char_rpos(s, '}');
        if a < s.len() && 0 <= b && a <= b {
            match json_links_of(s.subrange(a, b + 1), "chapters"@, "link"@) {
                Some(m) => somes_of(m),
                None => Seq::empty(),
            }
        } else {
            Seq::empty()
        }
    } else {
        Seq::empty()
    }
}

/// The chapter links of all script blocks, in block order.
pub open spec fn all_data_links(ss: Seq<Seq<char>>) -> Seq<Seq<char>>
    decreases ss.len(),
{
    if ss.len() == 0 {
        Seq::empty()
    } else {
        data_script_links(ss[0]) + all_data_links(ss.drop_first())
    }
}

/// The chapter links one script block yields.
pub fn links_from_data_script(script: &String) -> (r: Vec<String>)
    ensures
        r.deep_view() == data_script_links(script@),
{
    let s = chars_of(script.as_str());
    let marker = chars_of("window.__DATA__");
    let found = find_sub(&s, &marker);
    match found {
        None => {
            assert(!contains_seq(s@, data_marker()));
            let empty: Vec<String> = Vec::new();
            assert(empty.deep_view() =~= Seq::<Seq<char>>::empty());
            return empty;
        },
        Some(at) => {
            assert(match_at(s@, data_marker(), at as int));
            assert(contains_seq(s@, data_marker()));
        },
    }
    let a = find_char(&s, '{', 0);
    let b = rfind_char(&s, '}');
    if a >= s.len() || b == 0 || a > b - 1 {
        let empty: Vec<String> = Vec::new();
        assert(empty.deep_view() =~= Seq::<Seq<char>>::empty());
        return empty;
    }
    let body = sub_vec(&s, a, b);
    let body_str = string_from_chars(&body);
    match json_links(body_str.as_str(), "chapters", "link") {
        Some(entries) => links_from_hrefs(&entries),
        None => {
            let empty: Vec<String> = Vec::new();
            assert(empty.deep_view() =~= Seq::<Seq<char>>::empty());
            empty
        },
    }
}

/// The chapter links of all script blocks, in block order then array
/// order.
pub fn chapter_links_from_scripts(scripts: &Vec<String>) -> (r: Vec<String>)
    ensures
        r.deep_view() == all_data_links(scripts.deep_view()),
{
    let n = scripts.len();
    let mut r: Vec<String> = Vec::new();
    let mut i: usize = 0;
    proof {
        assert(scripts.deep_view().skip(0) =~= scripts.deep_view());
        assert(r.deep_view() =~= Seq::<Seq<char>>::empty());
    }
    while i < n
        invariant
            n == scripts@.len(),
            scripts.deep_view().len() == n,
            i <= n,
            all_data_links(scripts.deep_view()) == r.deep_view() + all_data_links(
                scripts.deep_view().skip(i as int),
            ),
        decreases n - i,
    {
        proof {
            let ss = scripts.deep_view().skip(i as int);
            assert(ss[0] == scripts@[i as int]@);
            assert(ss.drop_first() =~= scripts.deep_view().skip(i + 1));
        }
        let ghost prev = r.deep_view();
        let mut part = links_from_data_script(&scripts[i]);
        let ghost part_links = part.deep_view();
        r.append(&mut part);
        proof {
            assert(r.deep_view() =~= prev + part_links);
            assert(prev + part_links + all_data_links(scripts.deep_view().skip(i + 1)) =~= prev + (
            part_links + all_data_links(scripts.deep_view().skip(i + 1))));
        }
        i = i + 1;
    }
    proof {
        assert(all_data_links(scripts.deep_view().skip(i as int)) =~= Seq::<Seq<char>>::empty());
        assert(r.deep_view() =~= r.deep_view() + Seq::<Seq<char>>::empty());
    }
    r
}

/// What the anti-bot detector reports of one fetched document.
pub enum ChallengeState {
    /// No challenge marker was found; the page holds real content.
    Clear,
    /// A challenge page was served, with whatever token and checkbox
    /// control name could be read from its markup.
    Present { token: Option<String>, checkbox_name: Option<String> },
}

/// Folds the raw detector readings into the advisory challenge report: a
/// blocked page is reported with exactly the token and checkbox name that
/// were read, and an unblocked page reports nothing.
pub fn classify_challenge(blocked: bool, token: Option<String>, checkbox_name: Option<String>) -> (r:
    ChallengeState)
    ensures
        blocked ==> r == (ChallengeState::Present { token, checkbox_name }),
        !blocked ==> r == ChallengeState::Clear,
{
    if blocked {
        ChallengeState::Present { token, checkbox_name }
    } else {
        ChallengeState::Clear
    }
}

/// The present attribute values, in order.
pub open spec fn somes_of(s: Seq<Option<Seq<char>>>) -> Seq<Seq<char>>
    decreases s.len(),
{
    if s.len() == 0 {
        Seq::empty()
    } else {
        match s[0] {
            Some(v) => seq![v] + somes_of(s.drop_first()),
            None => somes_of(s.drop_first()),
        }
    }
}

/// Keeps the anchors that carry a link, in document order.
pub fn links_from_hrefs(hrefs: &Vec<Option<String>>) -> (r: Vec<String>)
    ensures
        r.deep_view() == somes_of(hrefs.deep_view()),
{
    let n = hrefs.len();
    let mut r: Vec<String> = Vec::new();
    let mut i: usize = 0;
    proof {
        assert(hrefs.deep_view().skip(0) =~= hrefs.deep_view());
        assert(r.deep_view() =~= Seq::<Seq<char>>::empty());
    }
    while i < n
        invariant
            n == hrefs@.len(),
            hrefs.deep_view().len() == n,
            i <= n,
            somes_of(hrefs.deep_view()) == r.deep_view() + somes_of(
                hrefs.deep_view().skip(i as int),
            ),
        decreases n - i,
    {
        proof {
            let hs = hrefs.deep_view().skip(i as int);
            assert(hs[0] == hrefs.deep_view()[i as int]);
            assert(hs.drop_first() =~= hrefs.deep_view().skip(i + 1));
        }
        let ghost prev = r.deep_view();
        match &hrefs[i] {
            Some(link) => {
                let owned: String = link.clone();
                r.push(owned);
                proof {
                    assert(hrefs.deep_view()[i as int] matches Some(v) && v == link@);
                    assert(r.deep_view() =~= prev + seq![link@]);
                    assert(prev + seq![link@] + somes_of(hrefs.deep_view().skip(i + 1)) =~= prev
                        + (seq![link@] + somes_of(hrefs.deep_view().skip(i + 1))));
                }
            },
            None => {
                proof {
                    assert(hrefs.deep_view()[i as int] is None);
                }
            },
        }
        i = i + 1;
    }
    proof {
        assert(somes_of(hrefs.deep_view().skip(i as int)) =~= Seq::<Seq<char>>::empty());
        assert(r.deep_view() =~= r.deep_view() + Seq::<Seq<char>>::empty());
    }
    r
}

} // verus!
