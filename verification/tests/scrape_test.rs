use novelter::htmldoc::ElementInfo;
use novelter::scrape::{
    chapter_links_from_scripts, classify_challenge, page_count_from_signals,
    page_count_of_pager_text, page_count_of_script, title_from_sources, total_chapters_from_texts,
    ChallengeState, Ranobes,
};

fn s(text: &str) -> String {
    text.to_string()
}

#[test]
fn script_page_count_reads_the_signal() {
    let script = s("var x = 1; window.__DATA__ = {\"news\": 0, \"pages_count\": 37, \"k\": 2};");
    assert_eq!(page_count_of_script(&script), Some(37));
}

#[test]
fn script_page_count_allows_spacing() {
    let script = s("window.__DATA__ {\"pages_count\"  :   8}");
    assert_eq!(page_count_of_script(&script), Some(8));
}

#[test]
fn script_without_data_marker_is_ignored() {
    let script = s("{\"pages_count\": 5}");
    assert_eq!(page_count_of_script(&script), None);
}

#[test]
fn script_with_marker_but_no_count_yields_nothing() {
    let script = s("window.__DATA__ = {\"pages\": 5}");
    assert_eq!(page_count_of_script(&script), None);
}

#[test]
fn overflowing_count_abandons_the_script() {
    // The scan commits at the first full pattern match; a count too large
    // for u32 yields nothing, and a later occurrence in the same script is
    // never consulted.
    let script = s("window.__DATA__ {\"pages_count\": 99999999999, \"pages_count\": 5}");
    assert_eq!(page_count_of_script(&script), None);
    // A later script block still gets its turn.
    let good = s("window.__DATA__ {\"pages_count\": 5}");
    assert_eq!(page_count_from_signals(&vec![script, good], &None), 5);
}

#[test]
fn keys_without_a_following_count_are_skipped_over() {
    // An occurrence of the key that the rest of the pattern does not follow
    // is passed over in favour of a later complete one.
    let script = s("window.__DATA__ {\"pages_count\": none, \"pages_count\": 4}");
    assert_eq!(page_count_of_script(&script), Some(4));
}

#[test]
fn pager_text_parses_or_falls_back() {
    assert_eq!(page_count_of_pager_text(&s("  12  ")), 12);
    assert_eq!(page_count_of_pager_text(&s("last")), 1);
    assert_eq!(page_count_of_pager_text(&s("")), 1);
    assert_eq!(page_count_of_pager_text(&s("1 2")), 1);
}

#[test]
fn page_count_prefers_script_then_pager_then_one() {
    let script = s("window.__DATA__ = {\"pages_count\": 3}");
    let plain = s("no signal here");
    assert_eq!(page_count_from_signals(&vec![plain.clone(), script], &Some(s("9"))), 3);
    assert_eq!(page_count_from_signals(&vec![plain.clone()], &Some(s("9"))), 9);
    assert_eq!(page_count_from_signals(&vec![plain], &None), 1);
    assert_eq!(page_count_from_signals(&vec![], &None), 1);
}

#[test]
fn title_truncates_headline_at_delimiter() {
    let sources = vec![ElementInfo {
        text: s("  Sword of Dawn • Chapter 3 | extra  "),
        tag: s("h1"),
        attr_value: Some(s("headline")),
    }];
    assert_eq!(title_from_sources(&sources), "Sword of Dawn");
}

#[test]
fn title_keeps_delimiters_outside_headlines() {
    let sources = vec![ElementInfo {
        text: s(" Sword • Dawn "),
        tag: s("span"),
        attr_value: None,
    }];
    assert_eq!(title_from_sources(&sources), "Sword • Dawn");
}

#[test]
fn title_falls_through_blank_candidates() {
    let sources = vec![
        ElementInfo { text: s("   "), tag: s("h1"), attr_value: None },
        ElementInfo { text: s("Second Choice"), tag: s("span"), attr_value: None },
    ];
    assert_eq!(title_from_sources(&sources), "Second Choice");
}

#[test]
fn title_sentinel_when_nothing_matches() {
    assert_eq!(title_from_sources(&vec![]), "None");
}

#[test]
fn chapter_count_needs_the_word_and_a_number() {
    assert_eq!(total_chapters_from_texts(&vec![s("  1208 chapters available ")]), 1208);
    assert_eq!(total_chapters_from_texts(&vec![s("ongoing"), s("42 chapters")]), 42);
    assert_eq!(total_chapters_from_texts(&vec![s("many chapters")]), 0);
    assert_eq!(total_chapters_from_texts(&vec![s("1208 items")]), 0);
    assert_eq!(total_chapters_from_texts(&vec![]), 0);
}

#[test]
fn image_path_is_the_checksum_of_the_title() {
    let title = "Sword of Dawn";
    let path = Ranobes::hash_title_and_add_imgs_avif(title);
    let expected = format!("imgs/{}.avif", crc32fast::hash(title.as_bytes()));
    assert_eq!(path, expected);
}

#[test]
fn image_path_is_deterministic_and_separates_titles() {
    let a1 = Ranobes::hash_title_and_add_imgs_avif("Alpha");
    let a2 = Ranobes::hash_title_and_add_imgs_avif("Alpha");
    let b = Ranobes::hash_title_and_add_imgs_avif("Beta");
    assert_eq!(a1, a2);
    assert_ne!(a1, b);
    assert!(a1.starts_with("imgs/"));
    assert!(a1.ends_with(".avif"));
}

#[test]
fn chapter_links_come_from_the_data_script() {
    let script = s(
        "window.__DATA__ = {\"chapters\": [ {\"link\": \"u1\"}, {\"title\": \"no link\"}, {\"link\": \"u2\"} ]}",
    );
    let other = s("console.log(1)");
    let links = chapter_links_from_scripts(&vec![other, script]);
    assert_eq!(links, vec!["u1".to_string(), "u2".to_string()]);
}

#[test]
fn chapter_links_empty_without_braces_or_array() {
    assert_eq!(chapter_links_from_scripts(&vec![s("window.__DATA__ nothing")]), Vec::<String>::new());
    assert_eq!(
        chapter_links_from_scripts(&vec![s("window.__DATA__ = {\"chapters\": 3}")]),
        Vec::<String>::new()
    );
}

#[test]
fn challenge_report_carries_the_markup_readings() {
    match classify_challenge(true, Some(s("tok")), None) {
        ChallengeState::Present { token, checkbox_name } => {
            assert_eq!(token, Some(s("tok")));
            assert_eq!(checkbox_name, None);
        },
        ChallengeState::Clear => panic!("blocked page must report a challenge"),
    }
    assert!(matches!(classify_challenge(false, Some(s("tok")), None), ChallengeState::Clear));
}
