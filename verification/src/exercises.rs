//! Small drill solutions kept with the project: decimal palindromes, roman
//! numeral values, and bracket matching, each against its mathematical
//! statement.

use vstd::prelude::*;
use crate::scrape::dec_digits;
use crate::textscan::str_eq;

verus! {

/// A sequence that reads the same from both ends.
pub open spec fn palindrome_seq(s: Seq<char>) -> bool {
    forall|k: int| 0 <= k < s.len() ==> #[trigger] s[k] == s[s.len() - 1 - k]
}

/// The value of one roman numeral character.
pub open spec fn roman_val(c: char) -> int {
    if c == 'I' {
        1
    } else if c == 'V' {
        5
    } else if c == 'X' {
        10
    } else if c == 'L' {
        50
    } else if c == 'C' {
        100
    } else if c == 'D' {
        500
    } else if c == 'M' {
        1000
    } else {
        0
    }
}

/// Roman numeral characters.
pub open spec fn is_roman(c: char) -> bool {
    c == 'I' || c == 'V' || c == 'X' || c == 'L' || c == 'C' || c == 'D' || c == 'M'
}

/// The value of a roman numeral: a character before a strictly greater one
/// counts negatively, every other character counts positively.
pub open spec fn roman_spec(s: Seq<char>) -> int
    decreases s.len(),
{
    if s.len() == 0 {
        0
    } else if s.len() == 1 {
        roman_val(s[0])
    } else if roman_val(s[0]) >= roman_val(s[1]) {
        roman_val(s[0]) + roman_spec(s.drop_first())
    } else {
        roman_spec(s.drop_first()) - roman_val(s[0])
    }
}

/// A roman numeral's value is bounded by a thousand per character, in both
/// directions.
pub proof fn lemma_roman_bound(s: Seq<char>)
    ensures
        -1000 * s.len() <= roman_spec(s) <= 1000 * s.len(),
    decreases s.len(),
{
    if s.len() > 1 {
        lemma_roman_bound(s.drop_first());
    }
}

/// Closing brackets.
pub open spec fn is_right_bracket(c: char) -> bool {
    c == ')' || c == ']' || c == '}'
}

/// Bracket characters.
pub open spec fn is_bracket(c: char) -> bool {
    c == '(' || c == ')' || c == '[' || c == ']' || c == '{' || c == '}'
}

/// The bracket each bracket pairs with, in either direction.
pub open spec fn bracket_mirror(c: char) -> char {
    if c == '(' {
        ')'
    } else if c == ')' {
        '('
    } else if c == '[' {
        ']'
    } else if c == ']' {
        '['
    } else if c == '{' {
        '}'
    } else {
        '{'
    }
}

/// One pass of the matcher over `s`, with `stack` holding the pending
/// characters: anything that is not a closing bracket is pushed, and a
/// closing bracket must mirror the top of a non-empty stack to pop it.
/// `Some` carries the verdict — the stack must end empty — and `None`
/// marks the inputs the matcher has no answer for: a closing bracket
/// arriving while a non-bracket character is on top.
pub open spec fn bracket_run(stack: Seq<char>, s: Seq<char>) -> Option<bool>
    decreases s.len(),
{
    if s.len() == 0 {
        Some(stack.len() == 0)
    } else if is_right_bracket(s[0]) && stack.len() > 0 {
        if !is_bracket(stack.last()) {
            None
        } else if bracket_mirror(stack.last()) == s[0] {
            bracket_run(stack.drop_last(), s.drop_first())
        } else {
            Some(false)
        }
    } else {
        bracket_run(stack.push(s[0]), s.drop_first())
    }
}

/// The drill solutions.
pub struct Solution {}

impl Solution {
    /// Whether `x` reads the same forwards and backwards in decimal; a
    /// negative number never does, its sign having no mirror.
    pub fn is_palindrome(&self, x: i128) -> (r: bool)
        ensures
            r == (x >= 0 && palindrome_seq(dec_digits(x as int))),
    {
        if x < 0 {
            return false;
        }
        let v = dec_digits_i128(x);
        let n = v.len();
        let mut k: usize = 0;
        while k < n
            invariant
                n == v@.len(),
                v@ == dec_digits(x as int),
                x >= 0,
                k <= n,
                forall|j: int| 0 <= j < k ==> #[trigger] v@[j] == v@[n - 1 - j],
            decreases n - k,
        {
            if v[k] != v[n - 1 - k] {
                proof {
                    let dd = dec_digits(x as int);
                    assert(dd[k as int] != dd[dd.len() - 1 - k as int]);
                    assert(!palindrome_seq(dd));
                }
                return false;
            }
            k = k + 1;
        }
        true
    }

    /// The value of a roman numeral string.
    pub fn roman_to_int(&self, s: String) -> (r: i32)
        requires
            forall|k: int| 0 <= k < s@.len() ==> is_roman(#[trigger] s@[k]),
            s@.len() <= 200_000,
        ensures
            r == roman_spec(s@),
    {
        let v = crate::textscan::chars_of(s.as_str());
        let n = v.len();
        let mut total: i64 = 0;
        let mut i: usize = 0;
        proof {
            assert(v@.skip(0) =~= v@);
            lemma_roman_bound(s@);
        }
        while i < n
            invariant
                n == v@.len(),
                v@ == s@,
                n <= 200_000,
                i <= n,
                total == roman_spec(s@) - roman_spec(v@.skip(i as int)),
                -1000 * (n as int) <= roman_spec(s@) <= 1000 * (n as int),
            decreases n - i,
        {
            proof {
                let tail = v@.skip(i as int);
                assert(tail[0] == v@[i as int]);
                if i + 1 < n {
                    assert(tail[1] == v@[i + 1]);
                }
                assert(tail.drop_first() =~= v@.skip(i + 1));
                lemma_roman_bound(tail);
                lemma_roman_bound(v@.skip(i + 1));
            }
            let cur = roman_char_val(v[i]);
            if i + 1 < n && cur < roman_char_val(v[i + 1]) {
                total = total - (cur as i64);
            } else {
                total = total + (cur as i64);
            }
            i = i + 1;
        }
        proof {
            assert(v@.skip(n as int) =~= Seq::<char>::empty());
            lemma_roman_bound(s@);
        }
        total as i32
    }

    /// Whether every closing bracket closes the most recent pending
    /// character and nothing stays pending. The precondition excludes
    /// exactly the inputs on which the matcher has no answer: a closing
    /// bracket arriving while a non-bracket character is pending on top.
    pub fn is_valid(&self, s: String) -> (r: bool)
        requires
            bracket_run(Seq::empty(), s@) is Some,
        ensures
            Some(r) == bracket_run(Seq::empty(), s@),
    {
        let v = crate::textscan::chars_of(s.as_str());
        let n = v.len();
        let mut stack: Vec<char> = Vec::new();
        let mut i: usize = 0;
        proof {
            assert(v@.skip(0) =~= v@);
            assert(stack@ =~= Seq::<char>::empty());
        }
        while i < n
            invariant
                n == v@.len(),
                v@ == s@,
                i <= n,
                bracket_run(Seq::empty(), s@) == bracket_run(stack@, v@.skip(i as int)),
                bracket_run(Seq::empty(), s@) is Some,
            decreases n - i,
        {
            proof {
                let tail = v@.skip(i as int);
                assert(tail[0] == v@[i as int]);
                assert(tail.drop_first() =~= v@.skip(i + 1));
            }
            let c = v[i];
            let right = c == ')' || c == ']' || c == '}';
            if right && stack.len() > 0 {
                let top = stack[stack.len() - 1];
                let partner = match top {
                    '(' => ')',
                    ')' => '(',
                    '[' => ']',
                    ']' => '[',
                    '{' => '}',
                    '}' => '{',
                    _ => {
                        // A closing bracket over a non-bracket top is ruled
                        // out by the precondition.
                        proof {
                            assert(false);
                        }
                        ' '
                    },
                };
                if partner != c {
                    return false;
                }
                let ghost st0 = stack@;
                stack.pop();
                proof {
                    assert(stack@ =~= st0.drop_last());
                }
            } else {
                stack.push(c);
            }
            i = i + 1;
        }
        proof {
            assert(v@.skip(n as int) =~= Seq::<char>::empty());
        }
        stack.len() == 0
    }

    /// Hands back a single node holding twenty-two, whatever the inputs.
    pub fn merge_two_lists(
        &self,
        list1: Option<Box<ListNode>>,
        list2: Option<Box<ListNode>>,
    ) -> (r: Option<Box<ListNode>>)
        ensures
            r matches Some(node) && node.val == 22 && node.next is None,
    {
        Some(Box::new(ListNode { val: 22, next: None }))
    }
}

/// A singly-linked list node.
#[derive(Debug)]
pub struct ListNode {
    pub val: i32,
    pub next: Option<Box<ListNode>>,
}

impl ListNode {
    /// A node without a successor.
    pub fn new(val: i32) -> (r: Self)
        ensures
            r.val == val,
            r.next is None,
    {
        ListNode { next: None, val }
    }
}

/// The value of one roman numeral character.
fn roman_char_val(c: char) -> (r: u32)
    ensures
        r == roman_val(c),
{
    match c {
        'I' => 1,
        'V' => 5,
        'X' => 10,
        'L' => 50,
        'C' => 100,
        'D' => 500,
        'M' => 1000,
        _ => 0,
    }
}

/// Whether a one-character string is a closing bracket.
pub fn is_right_brace(brace: &str) -> (r: bool)
    ensures
        r == (brace@ == "]"@ || brace@ == ")"@ || brace@ == "}"@),
{
    str_eq(brace, "]") || str_eq(brace, ")") || str_eq(brace, "}")
}

/// The partner of a one-character bracket string.
pub fn mirror(brace: &str) -> (r: String)
    requires
        brace@ == "["@ || brace@ == "]"@ || brace@ == "("@ || brace@ == ")"@ || brace@ == "{"@
            || brace@ == "}"@,
    ensures
        brace@ == "["@ ==> r@ == "]"@,
        brace@ == "]"@ ==> r@ == "["@,
        brace@ == "("@ ==> r@ == ")"@,
        brace@ == ")"@ ==> r@ == "("@,
        brace@ == "{"@ ==> r@ == "}"@,
        brace@ == "}"@ ==> r@ == "{"@,
{
    proof {
        reveal_strlit("[");
        reveal_strlit("]");
        reveal_strlit("(");
        reveal_strlit(")");
        reveal_strlit("{");
        reveal_strlit("}");
        assert("["@[0] == '[' && "]"@[0] == ']' && "("@[0] == '(' && ")"@[0] == ')' && "{"@[0]
            == '{' && "}"@[0] == '}');
    }
    if str_eq(brace, "[") {
        String::from_str("]")
    } else if str_eq(brace, "]") {
        String::from_str("[")
    } else if str_eq(brace, "(") {
        String::from_str(")")
    } else if str_eq(brace, ")") {
        String::from_str("(")
    } else if str_eq(brace, "{") {
        String::from_str("}")
    } else {
        String::from_str("{")
    }
}

/// The decimal digits of `h`, most significant first.
fn dec_digits_i128(h: i128) -> (v: Vec<char>)
    requires
        h >= 0,
    ensures
        v@ == dec_digits(h as int),
    decreases h,
{
    if h < 10 {
        let mut v: Vec<char> = Vec::new();
        v.push(digit_char_i128(h));
        assert(v@ =~= seq![crate::scrape::digit_char_of(h as int)]);
        v
    } else {
        let mut v = dec_digits_i128(h / 10);
        v.push(digit_char_i128(h % 10));
        v
    }
}

/// The character of one decimal digit value.
fn digit_char_i128(d: i128) -> (c: char)
    requires
        0 <= d < 10,
    ensures
        c == crate::scrape::digit_char_of(d as int),
{
    if d == 0 {
        '0'
    } else if d == 1 {
        '1'
    } else if d == 2 {
        '2'
    } else if d == 3 {
        '3'
    } else if d == 4 {
        '4'
    } else if d == 5 {
        '5'
    } else if d == 6 {
        '6'
    } else if d == 7 {
        '7'
    } else if d == 8 {
        '8'
    } else {
        '9'
    }
}

} // verus!
