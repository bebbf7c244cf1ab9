//! Thin trusted boundary around the HTML parser: parsed documents and
//! compiled selectors are opaque values, and every query hands back plain
//! strings for the verified extractors to work on.

use vstd::prelude::*;

verus! {

#[verifier::external_type_specification]
#[verifier::external_body]
pub struct ExHtml(scraper::Html);

#[verifier::external_type_specification]
#[verifier::external_body]
pub struct ExSelector(scraper::Selector);

/// What one matched element offers the extractors: its concatenated text,
/// its tag name, and the value of one requested attribute.
pub struct ElementInfo {
    pub text: String,
    pub tag: String,
    pub attr_value: Option<String>,
}

/// Relies on `scraper::Html::parse_fragment`: parses any string into a
/// document fragment without failing.
#[verifier::external_body]
pub fn parse_fragment_doc(body: &str) -> scraper::Html {
    scraper::Html::parse_fragment(body)
}

/// Relies on `scraper::Selector::parse`: compiles a CSS selector group, or
/// reports that the selector text is invalid.
#[verifier::external_body]
pub fn parse_selector(selector: &str) -> Option<scraper::Selector> {
    match scraper::Selector::parse(selector) {
        Ok(sel) => Some(sel),
        Err(_) => None,
    }
}

/// Relies on `scraper::Html::select`: yields the matching elements in
/// document order; each is converted to its concatenated text.
#[verifier::external_body]
pub fn select_texts(doc: &scraper::Html, sel: &scraper::Selector) -> Vec<String> {
    doc.select(sel).map(|el| el.text().collect::<String>()).collect()
}

/// Relies on `scraper::Html::select`: yields the matching elements in
/// document order; each is converted to the value of the named attribute.
#[verifier::external_body]
pub fn select_attr_values(doc: &scraper::Html, sel: &scraper::Selector, attr: &str) -> Vec<
    Option<String>,
> {
    doc.select(sel).map(|el| el.value().attr(attr).map(|v| v.to_string())).collect()
}

/// Relies on `scraper::Html::select`: yields the matching elements in
/// document order; each is converted to its text, tag name and the value of
/// the named attribute.
#[verifier::external_body]
pub fn select_element_infos(doc: &scraper::Html, sel: &scraper::Selector, attr: &str) -> Vec<
    ElementInfo,
> {
    doc.select(sel).map(
        |el|
            ElementInfo {
                text: el.text().collect::<String>(),
                tag: el.value().name().to_string(),
                attr_value: el.value().attr(attr).map(|v| v.to_string()),
            },
    ).collect()
}

} // verus!
