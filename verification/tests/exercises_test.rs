use novelter::exercises::{is_right_brace, mirror, ListNode, Solution};

#[test]
fn palindromes_in_decimal() {
    let sol = Solution {};
    assert!(sol.is_palindrome(0));
    assert!(sol.is_palindrome(7));
    assert!(sol.is_palindrome(121));
    assert!(sol.is_palindrome(123454321));
    assert!(!sol.is_palindrome(123));
    assert!(!sol.is_palindrome(10));
    assert!(!sol.is_palindrome(-121));
    assert!(sol.is_palindrome(123456789987654321));
}

#[test]
fn roman_numeral_values() {
    let sol = Solution {};
    assert_eq!(sol.roman_to_int("III".to_string()), 3);
    assert_eq!(sol.roman_to_int("LVIII".to_string()), 58);
    assert_eq!(sol.roman_to_int("IX".to_string()), 9);
    assert_eq!(sol.roman_to_int("MCMXCI".to_string()), 1991);
    assert_eq!(sol.roman_to_int("MCMXCIV".to_string()), 1994);
    assert_eq!(sol.roman_to_int("".to_string()), 0);
}

#[test]
fn bracket_matching() {
    let sol = Solution {};
    assert!(sol.is_valid("".to_string()));
    assert!(sol.is_valid("()".to_string()));
    assert!(sol.is_valid("(){[]}".to_string()));
    assert!(sol.is_valid("(([]){})".to_string()));
    assert!(!sol.is_valid("(){[]}[".to_string()));
    assert!(!sol.is_valid("(]".to_string()));
    assert!(!sol.is_valid("([)]".to_string()));
    assert!(!sol.is_valid("]".to_string()));
    assert!(!sol.is_valid("(".to_string()));
}

#[test]
fn stray_characters_never_match() {
    let sol = Solution {};
    assert!(!sol.is_valid("abc".to_string()));
    assert!(!sol.is_valid("ab(".to_string()));
    assert!(!sol.is_valid(")ab".to_string()));
}

#[test]
fn brace_helpers() {
    assert!(is_right_brace("]"));
    assert!(is_right_brace(")"));
    assert!(is_right_brace("}"));
    assert!(!is_right_brace("["));
    assert!(!is_right_brace("x"));
    assert_eq!(mirror("["), "]");
    assert_eq!(mirror("]"), "[");
    assert_eq!(mirror("("), ")");
    assert_eq!(mirror(")"), "(");
    assert_eq!(mirror("{"), "}");
    assert_eq!(mirror("}"), "{");
}

#[test]
fn merging_hands_back_the_fixed_node() {
    let sol = Solution {};
    let a = Some(Box::new(ListNode::new(1)));
    let b = Some(Box::new(ListNode::new(2)));
    let merged = sol.merge_two_lists(a, b).expect("a node");
    assert_eq!(merged.val, 22);
    assert!(merged.next.is_none());
}

#[test]
fn list_node_starts_detached() {
    let node = ListNode::new(5);
    assert_eq!(node.val, 5);
    assert!(node.next.is_none());
}
