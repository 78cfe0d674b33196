//! Document metadata as the remote service describes it, and the names that
//! follow from it: the metadata endpoint, each page's image locator, the
//! scratch directory and its files.

use vstd::prelude::*;
use crate::decimal::{append_decimal, decimal_string, decimal_text};

verus! {

/// One locator per resolution of a page image.
#[derive(Debug, Clone, PartialEq, Eq)]
pub struct PageSubData {
    pub thumb: String,
    pub small: String,
    pub medium: String,
    pub large: String,
}

/// One page: its 1-based number, its image paths and their query strings.
#[derive(Debug, Clone, PartialEq, Eq)]
pub struct PageData {
    pub nr: u64,
    pub images: PageSubData,
    pub qss: PageSubData,
}

/// A document: identity, page size, URL prefix and pages in remote order.
#[derive(Debug, Clone, PartialEq, Eq)]
pub struct DocumentData {
    pub id: u64,
    pub title: String,
    pub url_title: String,
    pub width: u64,
    pub height: u64,
    pub url: String,
    pub base_path: String,
    pub pages: Vec<PageData>,
}

/// The body of a metadata response.
#[derive(Debug, Clone, PartialEq, Eq)]
pub struct JsonResponse {
    document: DocumentData,
}

/// The mathematical content of a `PageSubData`.
pub struct PageSubView {
    pub thumb: Seq<char>,
    pub small: Seq<char>,
    pub medium: Seq<char>,
    pub large: Seq<char>,
}

/// The mathematical content of a `PageData`.
pub struct PageView {
    pub nr: u64,
    pub images: PageSubView,
    pub qss: PageSubView,
}

/// The mathematical content of a `DocumentData`.
pub struct DocumentView {
    pub id: u64,
    pub title: Seq<char>,
    pub url_title: Seq<char>,
    pub width: u64,
    pub height: u64,
    pub url: Seq<char>,
    pub base_path: Seq<char>,
    pub pages: Seq<PageView>,
}

impl View for PageSubData {
    type V = PageSubView;

    open spec fn view(&self) -> PageSubView {
        PageSubView {
            thumb: self.thumb@,
            small: self.small@,
            medium: self.medium@,
            large: self.large@,
        }
    }
}

impl View for PageData {
    type V = PageView;

    open spec fn view(&self) -> PageView {
        PageView { nr: self.nr, images: self.images@, qss: self.qss@ }
    }
}

impl View for DocumentData {
    type V = DocumentView;

    open spec fn view(&self) -> DocumentView {
        DocumentView {
            id: self.id,
            title: self.title@,
            url_title: self.url_title@,
            width: self.width,
            height: self.height,
            url: self.url@,
            base_path: self.base_path@,
            pages: self.pages@.map_values(|page: PageData| page@),
        }
    }
}

impl View for JsonResponse {
    type V = DocumentView;

    closed spec fn view(&self) -> DocumentView {
        self.document@
    }
}

/// Whether the pages carry the numbers 1, 2, 3, ... in this order.
pub open spec fn densely_numbered(document: DocumentView) -> bool {
    forall|i: int| 0 <= i < document.pages.len() ==> (#[trigger] document.pages[i]).nr == i + 1
}

/// The address of the metadata endpoint for document `id`.
pub open spec fn metadata_url_text(id: u64) -> Seq<char> {
    "https://www.yumpu.com/en/document/json2/"@ + decimal_text(id as nat)
}

/// The name of the scratch directory of document `id`.
pub open spec fn scratch_dir_text(id: u64) -> Seq<char> {
    decimal_text(id as nat)
}

/// The name of the scratch file that holds page `nr`.
pub open spec fn page_file_text(nr: u64) -> Seq<char> {
    decimal_text(nr as nat) + ".jpg"@
}

/// The address of the large image of `page` below `base_path`.
pub open spec fn page_image_text(base_path: Seq<char>, page: PageView) -> Seq<char> {
    base_path + page.images.large + "?"@ + page.qss.large
}

/// The client identification that every request declares.
pub open spec fn user_agent_text() -> Seq<char> {
    "reqwest-rs/0.11.11"@
}

/// The address of the metadata endpoint for document `id`.
pub fn metadata_url(id: u64) -> (url: String)
    ensures
        url@ == metadata_url_text(id),
{
    let mut url = String::from_str("https://www.yumpu.com/en/document/json2/");
    append_decimal(&mut url, id);
    url
}

/// The client identification that every request declares.
pub fn user_agent() -> (agent: &'static str)
    ensures
        agent@ == user_agent_text(),
{
    "reqwest-rs/0.11.11"
}

/// The name of the scratch directory of document `id`.
pub fn scratch_dir_name(id: u64) -> (name: String)
    ensures
        name@ == scratch_dir_text(id),
{
    decimal_string(id)
}

/// The name of the scratch file that holds page `nr`.
pub fn page_file_name(nr: u64) -> (name: String)
    ensures
        name@ == page_file_text(nr),
{
    let mut name = decimal_string(nr);
    name.append(".jpg");
    name
}

impl PageData {
    /// The address of this page's large image below `base_path`.
    pub fn image_url(&self, base_path: &str) -> (url: String)
        ensures
            url@ == page_image_text(base_path@, self@),
    {
        let mut url = String::from_str(base_path);
        url.append(self.images.large.as_str());
        url.append("?");
        url.append(self.qss.large.as_str());
        url
    }

    /// The name of the scratch file that holds this page.
    pub fn file_name(&self) -> (name: String)
        ensures
            name@ == page_file_text(self.nr),
    {
        page_file_name(self.nr)
    }
}

impl DocumentData {
    /// The number of pages that the document describes.
    pub fn page_count(&self) -> (count: usize)
        ensures
            count == self@.pages.len(),
    {
        self.pages.len()
    }
}

impl JsonResponse {
    /// A response that describes `document`.
    pub fn new(document: DocumentData) -> (response: JsonResponse)
        ensures
            response@ == document@,
            response.into_document_spec() == document,
    {
        JsonResponse { document }
    }

    /// The document that the response describes.
    pub closed spec fn into_document_spec(self) -> DocumentData {
        self.document
    }

    /// Takes the document out of the response.
    #[verifier::when_used_as_spec(into_document_spec)]
    pub fn into_document(self) -> (document: DocumentData)
        ensures
            document == self.into_document_spec(),
            document@ == self@,
    {
        self.document
    }

    /// The document that the response describes.
    pub fn document(&self) -> (document: &DocumentData)
        ensures
            document@ == self@,
    {
        &self.document
    }
}

/// Scratch files of different pages have different names.
pub proof fn lemma_page_file_text_injective(a: u64, b: u64)
    requires
        page_file_text(a) == page_file_text(b),
    ensures
        a == b,
{
    let x = decimal_text(a as nat);
    let y = decimal_text(b as nat);
    let suffix = ".jpg"@;
    assert(x.len() == y.len()) by {
        assert((x + suffix).len() == x.len() + suffix.len());
        assert((y + suffix).len() == y.len() + suffix.len());
    }
    assert(x =~= y) by {
        assert forall|i: int| 0 <= i < x.len() implies x[i] == y[i] by {
            assert((x + suffix)[i] == x[i]);
            assert((y + suffix)[i] == y[i]);
        }
    }
    crate::decimal::lemma_decimal_text_injective(a as nat, b as nat);
}

} // verus!
