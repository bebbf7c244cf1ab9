use novelter::htmldoc::parse_fragment_doc;
use novelter::scrape::{ChallengeState, Ranobes};

#[test]
fn page_count_comes_from_the_embedded_script() {
    let doc = parse_fragment_doc(
        "<html><head><script>window.__DATA__ = {\"pages_count\": 12};</script></head>\
         <body><div class=\"pages\"><a>1</a><a>99</a></div></body></html>",
    );
    assert_eq!(Ranobes::get_page_count(&doc), 12);
}

#[test]
fn page_count_falls_back_to_the_last_pagination_anchor() {
    let doc = parse_fragment_doc(
        "<html><body><div class=\"pages\"><a>1</a><a>2</a><a>7</a></div></body></html>",
    );
    assert_eq!(Ranobes::get_page_count(&doc), 7);
}

#[test]
fn page_count_defaults_to_one() {
    let doc = parse_fragment_doc("<html><body><p>nothing here</p></body></html>");
    assert_eq!(Ranobes::get_page_count(&doc), 1);
}

#[test]
fn title_honours_the_headline_trimming_rule() {
    let doc = parse_fragment_doc(
        "<html><body><h1 class=\"title\" itemprop=\"headline\"> Sword of Dawn • Book 1 </h1></body></html>",
    );
    assert_eq!(Ranobes::get_title(&doc), "Sword of Dawn");
}

#[test]
fn title_reads_the_span_when_the_heading_is_blank() {
    let doc = parse_fragment_doc(
        "<html><body><h1 class=\"title\"><span> Spanned Name </span></h1></body></html>",
    );
    // The heading's own text is its span's text here, so the first
    // selector already yields it.
    assert_eq!(Ranobes::get_title(&doc), "Spanned Name");
}

#[test]
fn title_sentinel_without_headings() {
    let doc = parse_fragment_doc("<html><body><p>plain</p></body></html>");
    assert_eq!(Ranobes::get_title(&doc), "None");
}

#[test]
fn declared_chapter_count_comes_from_the_spec_list() {
    let mut items = String::new();
    for _ in 0..7 {
        items.push_str("<li>x</li>");
    }
    items.push_str("<li><span> 345 chapters </span></li>");
    let html = format!(
        "<html><body><ul class=\"r-fullstory-spec\">{}</ul></body></html>",
        items
    );
    let doc = parse_fragment_doc(&html);
    assert_eq!(Ranobes::get_total_chapters(&doc), 345);
}

#[test]
fn declared_chapter_count_defaults_to_zero() {
    let doc = parse_fragment_doc("<html><body><p>no metadata</p></body></html>");
    assert_eq!(Ranobes::get_total_chapters(&doc), 0);
}

#[test]
fn article_links_keep_document_order() {
    let doc = parse_fragment_doc(
        "<html><body>\
         <article class=\"block\"><div><h2><a href=\"u1\">one</a></h2></div></article>\
         <article class=\"block\"><div><h2><a>no link</a></h2></div></article>\
         <article class=\"block\"><div><h2><a href=\"u2\">two</a></h2></div></article>\
         </body></html>",
    );
    assert_eq!(Ranobes::extract_article_links(&doc), vec!["u1".to_string(), "u2".to_string()]);
}

#[test]
fn chapter_links_come_from_the_document_scripts() {
    let doc = parse_fragment_doc(
        "<html><head><script>window.__DATA__ = {\"chapters\": [{\"link\": \"c1\"}, {\"link\": \"c2\"}]};</script></head></html>",
    );
    assert_eq!(Ranobes::extract_chapter_links(&doc), vec!["c1".to_string(), "c2".to_string()]);
}

#[test]
fn challenge_detection_reads_the_markup() {
    let doc = parse_fragment_doc(
        "<html><body><div class=\"offpage\">checking</div>\
         <input id=\"cf-chl-widget-xuhap_response\" value=\"tok123\">\
         <label class=\"cb-lb\"><input type=\"checkbox\" name=\"confirm\"></label>\
         </body></html>",
    );
    match Ranobes::detect_challenge(&doc) {
        ChallengeState::Present { token, checkbox_name } => {
            assert_eq!(token.as_deref(), Some("tok123"));
            assert_eq!(checkbox_name.as_deref(), Some("confirm"));
        }
        ChallengeState::Clear => panic!("block marker was present"),
    }

    let clean = parse_fragment_doc("<html><body><p>content</p></body></html>");
    assert!(matches!(Ranobes::detect_challenge(&clean), ChallengeState::Clear));
}
