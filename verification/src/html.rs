//! HTML work done by scraper behind trusted wrappers: canonicalising a
//! fragment by a parse-and-serialise pass, and running a CSS selector over a
//! document.
use crate::strutil::is_space_char;
use vstd::prelude::*;

verus! {

/// What the parse-and-serialise pass of [`normalize_fragment`] yields for the
/// given fragment text.
pub uninterp spec fn dom_normalize(s: Seq<char>) -> Seq<char>;

/// Holds when `s` is a fixed point of the parse-and-serialise pass, so that
/// renormalising it changes nothing. Not every output of the pass is one —
/// markup that the parser and the serialiser treat asymmetrically (raw-text
/// elements, for one) can keep changing — so this is established by running
/// the pass and comparing, never assumed of it.
pub open spec fn is_canonical_fragment(s: Seq<char>) -> bool {
    dom_normalize(s) == s
}

/// What [`select_in_document`] yields: for each element matched by the
/// selector in the parsed document, in document order, the value of the asked
/// attribute (when the element has it) and the element's inner HTML. `None`
/// when the selector text is invalid.
pub uninterp spec fn html_select(page: Seq<char>, selector: Seq<char>, attr: Seq<char>) -> Option<
    Seq<(Option<Seq<char>>, Seq<char>)>,
>;

/// The view of an optional owned string.
pub open spec fn opt_str_view(o: Option<String>) -> Option<Seq<char>> {
    match o {
        Some(s) => Some(s@),
        None => None,
    }
}

/// The view of a selected element pair.
pub open spec fn pair_view(p: (Option<String>, String)) -> (Option<Seq<char>>, Seq<char>) {
    (opt_str_view(p.0), p.1@)
}

/// Relies on `scraper::Html::parse_fragment` and `Html::html`: the result is
/// a function of the input characters alone; the serialisation is trimmed,
/// so an empty input stays empty and the ends are never whitespace.
#[verifier::external_body]
pub fn normalize_fragment(s: &str) -> (r: String)
    ensures
        r@ == dom_normalize(s@),
        s@.len() == 0 ==> r@.len() == 0,
        r@.len() > 0 ==> !is_space_char(r@[0]) && !is_space_char(r@[r@.len() - 1]),
{
    let parsed = scraper::Html::parse_fragment(s);
    let serialised = parsed.html();
    let inner = serialised
        .strip_prefix("<html>")
        .and_then(|x| x.strip_suffix("</html>"))
        .unwrap_or(&serialised);
    inner.trim().to_string()
}

/// Relies on `scraper::Selector::parse`, `Html::parse_document` and
/// `Html::select`: the matched elements, their attributes and their inner
/// HTML are a function of the document, selector and attribute texts alone.
#[verifier::external_body]
pub fn select_in_document(page: &str, selector: &str, attr: &str) -> (r: Option<
    Vec<(Option<String>, String)>,
>)
    ensures
        match r {
            Some(v) => html_select(page@, selector@, attr@) == Some(
                v@.map_values(|p: (Option<String>, String)| pair_view(p)),
            ),
            None => html_select(page@, selector@, attr@) is None,
        },
{
    let sel = match scraper::Selector::parse(selector) {
        Ok(sel) => sel,
        Err(_) => {
            return None;
        },
    };
    let doc = scraper::Html::parse_document(page);
    Some(
        doc.select(&sel).map(
            |el| (el.attr(attr).map(|a| a.to_string()), el.inner_html()),
        ).collect(),
    )
}

} // verus!

verus! {

/// What [`select_two_in_document`] yields: for each matched element, in
/// document order, the values of the two asked attributes and the element's
/// inner HTML. `None` when the selector text is invalid.
pub uninterp spec fn html_select2(
    page: Seq<char>,
    selector: Seq<char>,
    attr1: Seq<char>,
    attr2: Seq<char>,
) -> Option<Seq<(Option<Seq<char>>, Option<Seq<char>>, Seq<char>)>>;

/// The view of a two-attribute selected element.
pub open spec fn triple_view(p: (Option<String>, Option<String>, String)) -> (
    Option<Seq<char>>,
    Option<Seq<char>>,
    Seq<char>,
) {
    (opt_str_view(p.0), opt_str_view(p.1), p.2@)
}

/// Relies on `scraper::Selector::parse`, `Html::parse_document` and
/// `Html::select`, like [`select_in_document`], reading two attributes of
/// each matched element in one pass.
#[verifier::external_body]
pub fn select_two_in_document(page: &str, selector: &str, attr1: &str, attr2: &str) -> (r: Option<
    Vec<(Option<String>, Option<String>, String)>,
>)
    ensures
        match r {
            Some(v) => html_select2(page@, selector@, attr1@, attr2@) == Some(
                v@.map_values(|p: (Option<String>, Option<String>, String)| triple_view(p)),
            ),
            None => html_select2(page@, selector@, attr1@, attr2@) is None,
        },
{
    let sel = scraper::Selector::parse(selector).ok()?;
    let doc = scraper::Html::parse_document(page);
    Some(
        doc.select(&sel).map(
            |el| (
                el.attr(attr1).map(|a| a.to_string()),
                el.attr(attr2).map(|a| a.to_string()),
                el.inner_html(),
            ),
        ).collect(),
    )
}

/// The first matched element's inner HTML, when the selector matches.
pub open spec fn first_inner(page: Seq<char>, sel: Seq<char>) -> Option<Seq<char>> {
    match html_select(page, sel, ""@) {
        Some(v) => if v.len() > 0 {
            Some(v[0].1)
        } else {
            None
        },
        None => None,
    }
}

/// The first matched element's given attribute, when the selector matches
/// and the element has it.
pub open spec fn first_attr(page: Seq<char>, sel: Seq<char>, attr: Seq<char>) -> Option<Seq<char>> {
    match html_select(page, sel, attr) {
        Some(v) => if v.len() > 0 {
            v[0].0
        } else {
            None
        },
        None => None,
    }
}

/// The inner HTML of the first element the selector matches.
pub fn select_first_inner(page: &str, sel: &str) -> (r: Option<String>)
    ensures
        match r {
            Some(t) => first_inner(page@, sel@) == Some(t@),
            None => first_inner(page@, sel@) is None,
        },
{
    match select_in_document(page, sel, "") {
        None => None,
        Some(v) => {
            if v.len() > 0 {
                let mut v = v;
                let p = v.remove(0);
                proof {
                    assert(v@.len() + 1 > 0);
                }
                Some(p.1)
            } else {
                None
            }
        },
    }
}

/// The given attribute of the first element the selector matches.
pub fn select_first_attr(page: &str, sel: &str, attr: &str) -> (r: Option<String>)
    ensures
        match r {
            Some(t) => first_attr(page@, sel@, attr@) == Some(t@),
            None => first_attr(page@, sel@, attr@) is None,
        },
{
    match select_in_document(page, sel, attr) {
        None => None,
        Some(v) => {
            if v.len() > 0 {
                let mut v = v;
                let p = v.remove(0);
                p.0
            } else {
                None
            }
        },
    }
}

} // verus!
