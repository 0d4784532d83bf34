//! What a watch page holds, as far as the metadata needs it.
//!
//! The markup itself is read by the `scraper` crate. This module asks it two
//! kinds of question, by selector, and keeps the answers as plain text.

use vstd::prelude::*;
use vstd::string::*;
use vstd::utf8::encode_utf8;

verus! {

/// The longest document, in bytes, that is handed to the markup parser.
///
/// The parser gathers text in buffers that grow to the next power of two
/// and cannot pass 2^31 bytes. One byte of a document adds at most three
/// bytes to a buffer, so a document of 2^29 bytes stays within that, with
/// room to spare.
pub const MAX_DOCUMENT_BYTES: usize = 0x2000_0000;

/// Selects the elements that carry the title of the page.
pub const TITLE_SELECTOR: &'static str = "meta[name='title']";

/// Selects every script block, wherever in the document it stands.
pub const SCRIPT_SELECTOR: &'static str = "script";

/// Selects the elements that carry the canonical address of the page.
pub const URL_SELECTOR: &'static str = "meta[property='og:url']";

/// The attribute that holds the value of a `meta` element.
pub const CONTENT_ATTRIBUTE: &'static str = "content";

/// For each element of `document` that `selector` matches, in the order in
/// which `scraper` yields them, the value of `attribute` if the element has
/// it. `None` where `scraper` refuses the selector.
pub uninterp spec fn html_attribute_values(
    document: Seq<char>,
    selector: Seq<char>,
    attribute: Seq<char>,
) -> Option<Seq<Option<Seq<char>>>>;

/// For each element of `document` that `selector` matches, in the order in
/// which `scraper` yields them, the text nodes below it, in the order of its
/// `text` iterator. `None` where `scraper` refuses the selector.
pub uninterp spec fn html_text_nodes(document: Seq<char>, selector: Seq<char>) -> Option<
    Seq<Seq<Seq<char>>>,
>;

/// Parses `document` with `scraper::Html::parse_document` and `selector`
/// with `scraper::Selector::parse`, walks `Html::select` and reads
/// `Element::attr` of each match.
///
/// The parser panics when one of its buffers would pass 2^31 bytes: it
/// rounds each buffer up to a power of two in 32 bits. The text of an
/// attribute or of a run of text is gathered in one buffer, and a NUL byte
/// goes into it as a replacement character of three bytes. A document of
/// more than `MAX_DOCUMENT_BYTES` bytes is therefore not admitted.
///
/// Not proved: that the result is the one that `html_attribute_values`
/// names, which says no more than that these calls depend on the three
/// texts alone.
#[verifier::external_body]
fn attribute_values(document: &str, selector: &str, attribute: &str) -> (r: Option<
    Vec<Option<String>>,
>)
    requires
        document.spec_bytes().len() <= MAX_DOCUMENT_BYTES,
    ensures
        r.deep_view() == html_attribute_values(document@, selector@, attribute@),
{
    let selector = scraper::Selector::parse(selector).ok()?;
    let html = scraper::Html::parse_document(document);
    Some(html.select(&selector).map(|e| e.value().attr(attribute).map(str::to_string)).collect())
}

/// Parses `document` with `scraper::Html::parse_document` and `selector`
/// with `scraper::Selector::parse`, walks `Html::select` and reads
/// `ElementRef::text` of each match.
///
/// A document of more than `MAX_DOCUMENT_BYTES` bytes is not admitted,
/// for the reason given at `attribute_values`.
///
/// Not proved: that the result is the one that `html_text_nodes` names,
/// which says no more than that these calls depend on the two texts alone.
#[verifier::external_body]
fn text_nodes(document: &str, selector: &str) -> (r: Option<Vec<Vec<String>>>)
    requires
        document.spec_bytes().len() <= MAX_DOCUMENT_BYTES,
    ensures
        r.deep_view() == html_text_nodes(document@, selector@),
{
    let selector = scraper::Selector::parse(selector).ok()?;
    let html = scraper::Html::parse_document(document);
    Some(html.select(&selector).map(|e| e.text().map(str::to_string).collect()).collect())
}

/// Why a document gave no page.
#[derive(Clone, Copy, Debug, PartialEq, Eq)]
pub enum PageError {
    /// The document is longer than the markup parser takes.
    TooLong,
    /// A selector of this library was refused: a fault of the library
    /// itself, not of the document.
    InvalidSelector,
}

/// What the metadata is read from.
#[derive(Clone, Debug, PartialEq, Eq)]
pub struct Page {
    /// The `content` of each element that carries a title, where it has one.
    pub titles: Vec<Option<String>>,
    /// The text nodes of each script block of the document.
    pub scripts: Vec<Vec<String>>,
    /// The `content` of each element that carries a canonical address,
    /// where it has one.
    pub canonical_urls: Vec<Option<String>>,
}

/// A page with its texts seen as sequences of characters.
pub ghost struct PageView {
    pub titles: Seq<Option<Seq<char>>>,
    pub scripts: Seq<Seq<Seq<char>>>,
    pub canonical_urls: Seq<Option<Seq<char>>>,
}

impl View for Page {
    type V = PageView;

    open spec fn view(&self) -> PageView {
        PageView {
            titles: self.titles.deep_view(),
            scripts: self.scripts.deep_view(),
            canonical_urls: self.canonical_urls.deep_view(),
        }
    }
}

/// The page that a document holds, or `None` where one of the three
/// selectors is refused.
pub open spec fn page_of(document: Seq<char>) -> Option<PageView> {
    match (
        html_attribute_values(document, TITLE_SELECTOR@, CONTENT_ATTRIBUTE@),
        html_text_nodes(document, SCRIPT_SELECTOR@),
        html_attribute_values(document, URL_SELECTOR@, CONTENT_ATTRIBUTE@),
    ) {
        (Some(titles), Some(scripts), Some(canonical_urls)) => Some(
            PageView { titles, scripts, canonical_urls },
        ),
        _ => None,
    }
}

/// A document that is short enough for the markup parser: its encoding
/// takes no more than `MAX_DOCUMENT_BYTES` bytes.
pub open spec fn fits_parser(document: Seq<char>) -> bool {
    encode_utf8(document).len() <= MAX_DOCUMENT_BYTES
}

/// What reading a document gives: the page it holds, or why it gives none.
/// The length is looked at first.
pub open spec fn read_outcome(document: Seq<char>) -> Result<PageView, PageError> {
    if !fits_parser(document) {
        Err(PageError::TooLong)
    } else {
        match page_of(document) {
            Some(page) => Ok(page),
            None => Err(PageError::InvalidSelector),
        }
    }
}

impl Page {
    /// Reads a page out of a document, which may break off anywhere.
    pub fn read(document: &str) -> (r: Result<Page, PageError>)
        ensures
            match r {
                Ok(page) => read_outcome(document@) == Ok::<PageView, PageError>(page@),
                Err(e) => read_outcome(document@) == Err::<PageView, PageError>(e),
            },
    {
        if document.as_bytes().len() > MAX_DOCUMENT_BYTES {
            return Err(PageError::TooLong);
        }
        let titles = match attribute_values(document, TITLE_SELECTOR, CONTENT_ATTRIBUTE) {
            Some(values) => values,
            None => {
                return Err(PageError::InvalidSelector);
            },
        };
        let scripts = match text_nodes(document, SCRIPT_SELECTOR) {
            Some(texts) => texts,
            None => {
                return Err(PageError::InvalidSelector);
            },
        };
        let canonical_urls = match attribute_values(document, URL_SELECTOR, CONTENT_ATTRIBUTE) {
            Some(values) => values,
            None => {
                return Err(PageError::InvalidSelector);
            },
        };
        Ok(Page { titles, scripts, canonical_urls })
    }
}

} // verus!
