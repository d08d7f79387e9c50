//! Text as it was extracted from a document, page by page.

pub mod pdftotext;
pub mod sweco_xlsx;
pub mod table;

use vstd::prelude::*;

verus! {

/// The corners of a box on a page, each coordinate as it is written.
#[derive(Debug, Clone)]
pub struct BBox {
    pub x_min: String,
    pub y_min: String,
    pub x_max: String,
    pub y_max: String,
}

/// A box by its contents.
pub struct BBoxView {
    pub x_min: Seq<char>,
    pub y_min: Seq<char>,
    pub x_max: Seq<char>,
    pub y_max: Seq<char>,
}

impl View for BBox {
    type V = BBoxView;

    open spec fn view(&self) -> BBoxView {
        BBoxView { x_min: self.x_min@, y_min: self.y_min@, x_max: self.x_max@, y_max: self.y_max@ }
    }
}

/// One line of text with its place in the document.
#[derive(Debug, Clone)]
pub struct LineSpan {
    pub page_number: usize,
    pub line_index: usize,
    pub text: String,
    pub bbox: BBox,
}

/// A line with its place by its contents.
pub struct LineSpanView {
    pub page_number: usize,
    pub line_index: usize,
    pub text: Seq<char>,
    pub bbox: BBoxView,
}

impl View for LineSpan {
    type V = LineSpanView;

    open spec fn view(&self) -> LineSpanView {
        LineSpanView {
            page_number: self.page_number,
            line_index: self.line_index,
            text: self.text@,
            bbox: self.bbox@,
        }
    }
}

/// The contents of each line with its place.
pub open spec fn span_views(v: Seq<LineSpan>) -> Seq<LineSpanView> {
    v.map_values(|s: LineSpan| s@)
}

/// The text of one page.
#[derive(Debug, Clone)]
pub struct PageContent {
    pub page_number: usize,
    pub lines: Vec<String>,
    pub line_spans: Vec<LineSpan>,
}

/// A page by its contents.
pub struct PageView {
    pub page_number: usize,
    pub lines: Seq<Seq<char>>,
    pub line_spans: Seq<LineSpanView>,
}

impl View for PageContent {
    type V = PageView;

    open spec fn view(&self) -> PageView {
        PageView {
            page_number: self.page_number,
            lines: crate::text::texts(self.lines@),
            line_spans: span_views(self.line_spans@),
        }
    }
}

/// The contents of each page.
pub open spec fn page_views(v: Seq<PageContent>) -> Seq<PageView> {
    v.map_values(|p: PageContent| p@)
}

/// Whether a byte is ASCII whitespace: a space, a tab, a line feed, a
/// form feed or a carriage return.
pub open spec fn is_ascii_space(b: u8) -> bool {
    b == 0x20 || b == 0x09 || b == 0x0a || b == 0x0c || b == 0x0d
}

/// The position of the first byte at or after `from` that is no ASCII
/// whitespace.
pub open spec fn first_visible(bytes: Seq<u8>, from: int) -> Option<int>
    decreases bytes.len() - from,
{
    if from < 0 || from >= bytes.len() {
        None
    } else if !is_ascii_space(bytes[from]) {
        Some(from)
    } else {
        first_visible(bytes, from + 1)
    }
}

/// Whether a file looks like JSON: its first byte that is no whitespace
/// opens an array or an object.
pub open spec fn opens_json(bytes: Seq<u8>) -> bool {
    match first_visible(bytes, 0) {
        Some(at) => bytes[at] == 0x5b || bytes[at] == 0x7b,
        None => false,
    }
}

/// Whether a file looks like JSON.
pub fn looks_like_json(bytes: &[u8]) -> (r: bool)
    ensures
        r == opens_json(bytes@),
{
    let mut i: usize = 0;
    while i < bytes.len()
        invariant
            i <= bytes.len(),
            first_visible(bytes@, 0) == first_visible(bytes@, i as int),
        decreases bytes.len() - i,
    {
        let b = bytes[i];
        if !(b == 0x20 || b == 0x09 || b == 0x0a || b == 0x0c || b == 0x0d) {
            return b == 0x5b || b == 0x7b;
        }
        i += 1;
    }
    false
}

} // verus!
