//! The text of a PDF document, page by page.
//!
//! Parsing and text extraction are `lopdf`'s. Its reader works on a thread
//! pool and walks hash maps, so nothing is assumed of the document that it
//! makes of some bytes. What a document once read holds, its pages and
//! their text, is the same however often it is asked, and has a name here.

use vstd::prelude::*;
use vstd::string::StringExecFns;

verus! {

/// Makes `lopdf::Document` known as a type; nothing is assumed of its
/// values.
#[verifier::external_type_specification]
#[verifier::external_body]
pub struct ExPdfDocument(lopdf::Document);

/// Calls `lopdf::Document::load_mem`; `None` where it returns an error.
/// Nothing is assumed of the document.
#[verifier::external_body]
pub(crate) fn load_pdf(data: &[u8]) -> (doc: Option<lopdf::Document>) {
    lopdf::Document::load_mem(data).ok()
}

/// The numbers of the pages that a document holds, in page order.
pub uninterp spec fn pdf_page_numbers_of(doc: lopdf::Document) -> Seq<u32>;

/// The pages of a document whose text can be extracted, by number, each with
/// that text.
pub uninterp spec fn pdf_readable_pages(doc: lopdf::Document) -> Map<u32, Seq<char>>;

/// Calls `lopdf::Document::get_pages` and hands out the page numbers, in the
/// order of its map. Trusted: they are the numbers named by
/// `pdf_page_numbers_of`.
#[verifier::external_body]
pub(crate) fn pdf_page_numbers(doc: &lopdf::Document) -> (pages: Vec<u32>)
    ensures
        pages@ == pdf_page_numbers_of(*doc),
{
    doc.get_pages().into_keys().collect()
}

/// Calls `lopdf::Document::extract_text` for one page; `None` where it
/// returns an error. Trusted: the page is among those named by
/// `pdf_readable_pages` exactly where there is a text, and the text is the
/// one named there.
#[verifier::external_body]
pub(crate) fn pdf_page_text(doc: &lopdf::Document, page: u32) -> (text: Option<String>)
    ensures
        match text {
            Some(t) => pdf_readable_pages(*doc).contains_key(page) && pdf_readable_pages(
                *doc,
            )[page] == t@,
            None => !pdf_readable_pages(*doc).contains_key(page),
        },
{
    doc.extract_text(&[page]).ok()
}

/// The text of page `page` of a document; `None` where it cannot be
/// extracted.
pub open spec fn page_text_of(doc: lopdf::Document, page: u32) -> Option<Seq<char>> {
    if pdf_readable_pages(doc).contains_key(page) {
        Some(pdf_readable_pages(doc)[page])
    } else {
        None
    }
}

/// A text that may be missing, by its characters.
pub open spec fn text_view(text: Option<String>) -> Option<Seq<char>> {
    match text {
        Some(t) => Some(t@),
        None => None,
    }
}

/// Some texts that may be missing, by their characters.
pub open spec fn text_views(texts: Seq<Option<String>>) -> Seq<Option<Seq<char>>> {
    Seq::new(texts.len(), |i: int| text_view(texts[i]))
}

/// The pages of a document in page order, each with its text or with nothing
/// where the text cannot be extracted.
pub open spec fn document_pages(doc: lopdf::Document) -> Seq<Option<Seq<char>>> {
    Seq::new(
        pdf_page_numbers_of(doc).len(),
        |i: int| page_text_of(doc, pdf_page_numbers_of(doc)[i]),
    )
}

/// The text of a document whose pages gave `pages`: the text of each page
/// that could be read, followed by a line feed. Pages that failed are
/// skipped.
pub open spec fn joined_text(pages: Seq<Option<Seq<char>>>) -> Seq<char>
    decreases pages.len(),
{
    if pages.len() == 0 {
        Seq::empty()
    } else {
        joined_text(pages.drop_last()) + match pages.last() {
            Some(t) => t.push('\n'),
            None => Seq::empty(),
        }
    }
}

/// Computes `joined_text`.
pub fn join_pages(pages: &Vec<Option<String>>) -> (text: String)
    ensures
        text@ == joined_text(text_views(pages@)),
{
    let ghost all = text_views(pages@);
    let mut out = String::new();
    let mut i: usize = 0;
    while i < pages.len()
        invariant
            i <= pages.len(),
            all == text_views(pages@),
            out@ == joined_text(all.take(i as int)),
        decreases pages.len() - i,
    {
        assert(all.take(i + 1).drop_last() =~= all.take(i as int));
        assert(all.take(i + 1).last() == text_view(pages[i as int]));
        match &pages[i] {
            Some(t) => {
                out.append(t.as_str());
                proof {
                    reveal_strlit("\n");
                }
                out.append("\n");
            },
            None => {},
        }
        i += 1;
    }
    assert(all.take(pages.len() as int) =~= all);
    out
}

/// Asks for the text of every page of `doc`, in page order: one entry for
/// each page number of the document, holding the text of that page or
/// nothing where the page cannot be read.
pub(crate) fn page_texts(doc: &lopdf::Document) -> (texts: Vec<Option<String>>)
    ensures
        text_views(texts@) == document_pages(*doc),
{
    let numbers = pdf_page_numbers(doc);
    let mut texts: Vec<Option<String>> = Vec::new();
    let mut i: usize = 0;
    while i < numbers.len()
        invariant
            i <= numbers.len(),
            texts.len() == i,
            numbers@ == pdf_page_numbers_of(*doc),
            forall|k: int|
                0 <= k < i ==> text_view(#[trigger] texts[k]) == page_text_of(*doc, numbers[k]),
        decreases numbers.len() - i,
    {
        texts.push(pdf_page_text(doc, numbers[i]));
        i += 1;
    }
    assert(text_views(texts@) =~= document_pages(*doc));
    texts
}

/// The text of a document that was read: the text of its pages in page
/// order, each followed by a line feed, without the pages that cannot be
/// read.
pub(crate) fn document_text(doc: &lopdf::Document) -> (text: String)
    ensures
        text@ == joined_text(document_pages(*doc)),
{
    let pages = page_texts(doc);
    join_pages(&pages)
}

} // verus!
