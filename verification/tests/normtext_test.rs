use novelter::normtext::{clean_paragraph, clean_paragraphs};
use novelter::textscan::capitalize;

fn s(text: &str) -> String {
    text.to_string()
}

#[test]
fn cleaning_collapses_whitespace() {
    assert_eq!(clean_paragraph(&s("  Hello \n\t world \r ")), "Hello world");
    assert_eq!(clean_paragraph(&s("one  two   three")), "one two three");
    assert_eq!(clean_paragraph(&s("")), "");
    assert_eq!(clean_paragraph(&s(" \n\t ")), "");
}

#[test]
fn cleaning_decodes_entities() {
    assert_eq!(clean_paragraph(&s("a&nbsp;b")), "a b");
    assert_eq!(clean_paragraph(&s("&quot;x&quot; &apos;y&apos;")), "\"x\" 'y'");
    assert_eq!(clean_paragraph(&s("1 &lt; 2 &amp;&amp; 3 &gt; 2")), "1 < 2 && 3 > 2");
}

#[test]
fn entity_passes_run_in_order() {
    // The ampersand pass runs before the angle-bracket passes, so a
    // doubly-encoded bracket decodes twice, as sequential replacement does.
    assert_eq!(clean_paragraph(&s("&amp;lt;")), "<");
    // The space pass for the non-breaking entity runs first of all.
    assert_eq!(clean_paragraph(&s("&amp;nbsp;")), "&nbsp;");
}

#[test]
fn blank_paragraphs_drop_out_in_order() {
    let texts = vec![s("  one "), s(" \n "), s("&nbsp;"), s("two  three")];
    assert_eq!(clean_paragraphs(&texts), vec![s("one"), s("two three")]);
}

#[test]
fn capitalize_uppercases_the_first_character() {
    assert_eq!(capitalize(s("hello")), "Hello");
    assert_eq!(capitalize(s("Hello")), "Hello");
    assert_eq!(capitalize(s("")), "");
    assert_eq!(capitalize(s("ßeta")), "SSeta");
    assert_eq!(capitalize(s("über alles")), "Über alles");
}
