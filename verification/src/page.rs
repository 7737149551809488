//! The address of a thing and what its page tells of it.
//!
//! The page itself is fetched elsewhere. Reading the address and the HTML is
//! left to the `url` and `scraper` crates; what is made of the answer is
//! decided here.

use vstd::prelude::*;
use vstd::string::StringExecFns;
use crate::relation::lemma_filter_none;
use crate::relation::lemma_filter_step;
use crate::SomeError;
use crate::tag::opt_view;
use crate::text::texts;

verus! {

/// The error type of the `url` crate, carried through unopened.
#[verifier::external_type_specification]
#[verifier::external_body]
pub struct ExUrlParseError(url::ParseError);

/// Whether the `url` crate reads `text` as an absolute URL.
pub uninterp spec fn url_parses(text: Seq<char>) -> bool;

/// The text of each element that the `scraper` crate finds in the HTML
/// `body` for a CSS selector, in the order of the document. Nothing is found
/// for a text that is no selector.
pub uninterp spec fn selected_texts(body: Seq<char>, selector: Seq<char>) -> Seq<Seq<char>>;

/// The value of an attribute, where there is one, of each element that the
/// `scraper` crate finds in the HTML `body` for a CSS selector, in the order
/// of the document. Nothing is found for a text that is no selector.
pub uninterp spec fn selected_attrs(
    body: Seq<char>,
    selector: Seq<char>,
    attr: Seq<char>,
) -> Seq<Option<Seq<char>>>;

/// The titles of a page.
pub open spec fn page_titles(body: Seq<char>) -> Seq<Seq<char>> {
    selected_texts(body, "title"@)
}

/// The descriptions of a page, each with its content if it has one.
pub open spec fn page_descriptions(body: Seq<char>) -> Seq<Option<Seq<char>>> {
    selected_attrs(body, "meta[name=\"description\"]"@, "content"@)
}

/// Calls `url::Url::parse` and drops the URL. The contract only names the
/// outcome: the same text is always read or always refused.
#[verifier::external_body]
fn parse_url(text: &str) -> (res: Result<(), url::ParseError>)
    ensures
        res.is_ok() == url_parses(text@),
{
    url::Url::parse(text).map(|_| ())
}

/// Calls `scraper::Html::parse_document` on `body`, selects with
/// `scraper::Selector::parse` of the given selector and collects the text of
/// each element found. The contract only names the outcome.
#[verifier::external_body]
fn select_texts(body: &str, selector: &str) -> (res: Vec<String>)
    ensures
        texts(res@) == selected_texts(body@, selector@),
{
    let document = scraper::Html::parse_document(body);
    match scraper::Selector::parse(selector) {
        Ok(selector) => document.select(&selector).map(|e| e.text().collect::<String>()).collect(),
        Err(_) => Vec::new(),
    }
}

/// Calls `scraper::Html::parse_document` on `body`, selects with
/// `scraper::Selector::parse` of the given selector and takes the given
/// attribute of each element found. The contract only names the outcome.
#[verifier::external_body]
fn select_attrs(body: &str, selector: &str, attr: &str) -> (res: Vec<Option<String>>)
    ensures
        res@.len() == selected_attrs(body@, selector@, attr@).len(),
        forall|i: int|
            0 <= i < res@.len() ==> opt_view(res@[i]) == selected_attrs(
                body@,
                selector@,
                attr@,
            )[i],
{
    let document = scraper::Html::parse_document(body);
    match scraper::Selector::parse(selector) {
        Ok(selector) => document
            .select(&selector)
            .map(|e| e.value().attr(attr).map(|text| text.to_string()))
            .collect(),
        Err(_) => Vec::new(),
    }
}

/// Checks that a text is an absolute URL.
pub fn validate_url(input: &str) -> (res: Result<(), SomeError>)
    ensures
        url_parses(input@) ==> res.is_ok(),
        !url_parses(input@) ==> res matches Err(SomeError::Url(_)),
{
    match parse_url(input) {
        Ok(()) => Ok(()),
        Err(e) => Err(SomeError::Url(e)),
    }
}

/// What a page tells of a thing.
#[derive(Debug, PartialEq, Eq)]
pub struct Page {
    pub titles: Vec<String>,
    pub summaries: Vec<String>,
}

/// The values that are present.
pub open spec fn present() -> spec_fn(Option<Seq<char>>) -> bool {
    |value: Option<Seq<char>>| value.is_some()
}

/// The summaries of a page: the descriptions that have a content.
pub open spec fn page_summaries(body: Seq<char>) -> Seq<Seq<char>> {
    page_descriptions(body).filter(present()).map_values(|value: Option<Seq<char>>| value.unwrap())
}

/// What the answer to a request for the page of `input` tells: the titles
/// and summaries of the body where the status is 200, and a bad URL
/// otherwise.
pub fn read_page(input: &str, status: u16, body: &str) -> (res: Result<Page, SomeError>)
    ensures
        status != 200 ==> (res matches Err(SomeError::BadUrl(url)) && url@ == input@),
        status == 200 ==> (res matches Ok(page) && texts(page.titles@) == page_titles(body@)
            && texts(page.summaries@) == page_summaries(body@)),
{
    if status != 200 {
        return Err(SomeError::BadUrl(input.to_owned()));
    }
    let found = select_attrs(body, "meta[name=\"description\"]", "content");
    let ghost all = page_descriptions(body@);
    let mut summaries: Vec<String> = Vec::new();
    let mut i: usize = 0;
    proof {
        lemma_filter_none(all, present());
        assert(texts(summaries@) =~= all.take(0).filter(present()).map_values(
            |value: Option<Seq<char>>| value.unwrap(),
        ));
    }
    while i < found.len()
        invariant
            i <= found@.len(),
            found@.len() == all.len(),
            forall|k: int| 0 <= k < found@.len() ==> opt_view(found@[k]) == all[k],
            texts(summaries@) == all.take(i as int).filter(present()).map_values(
                |value: Option<Seq<char>>| value.unwrap(),
            ),
        decreases found@.len() - i,
    {
        let ghost before = texts(summaries@);
        proof {
            lemma_filter_step(all, present(), i as int);
        }
        match &found[i] {
            Some(text) => {
                summaries.push(text.clone());
                assert(texts(summaries@) =~= before.push(text@));
                assert(texts(summaries@) =~= all.take(i + 1).filter(present()).map_values(
                    |value: Option<Seq<char>>| value.unwrap(),
                ));
            },
            None => {},
        }
        i += 1;
    }
    assert(all.take(i as int) =~= all);
    Ok(Page { titles: select_texts(body, "title"), summaries })
}

/// The lines that tell what was found: one for each text, `label` in front.
pub open spec fn found_lines(label: Seq<char>, list: Seq<Seq<char>>) -> Seq<Seq<char>> {
    Seq::new(list.len(), |i: int| label + list[i])
}

/// The lines that tell what a page holds: its titles, then its summaries.
pub fn page_lines(page: &Page) -> (res: Vec<String>)
    ensures
        texts(res@) == found_lines("Found a title: "@, texts(page.titles@)) + found_lines(
            "Found a summary: "@,
            texts(page.summaries@),
        ),
{
    let mut out: Vec<String> = Vec::new();
    let mut i: usize = 0;
    while i < page.titles.len()
        invariant
            i <= page.titles@.len(),
            out@.len() == i,
            forall|k: int| 0 <= k < i ==> out@[k]@ == "Found a title: "@ + page.titles@[k]@,
        decreases page.titles@.len() - i,
    {
        let mut line = "Found a title: ".to_owned();
        line.append(page.titles[i].as_str());
        out.push(line);
        i += 1;
    }
    let n = page.titles.len();
    let mut m: usize = 0;
    while m < page.summaries.len()
        invariant
            m <= page.summaries@.len(),
            n == page.titles@.len(),
            out@.len() == n + m,
            forall|k: int| 0 <= k < n ==> out@[k]@ == "Found a title: "@ + page.titles@[k]@,
            forall|k: int|
                0 <= k < m ==> out@[n + k]@ == "Found a summary: "@ + page.summaries@[k]@,
        decreases page.summaries@.len() - m,
    {
        let mut line = "Found a summary: ".to_owned();
        line.append(page.summaries[m].as_str());
        out.push(line);
        m += 1;
    }
    assert(texts(out@) =~= found_lines("Found a title: "@, texts(page.titles@)) + found_lines(
        "Found a summary: "@,
        texts(page.summaries@),
    ));
    out
}

} // verus!
