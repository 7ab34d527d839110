//! The document model that the renderer consumes: sections hold page series,
//! page series hold pages, pages hold a content tree.
//!
//! Every geometry field is an independently optional fixed-point value in
//! milli units (see `fixed`); a missing field takes its documented fallback
//! (offsets 0, image width/height 100 units). Titles are carried as character
//! vectors so that name derivation is ordinary verified code.

use vstd::prelude::*;
use crate::fixed::COORD_LIMIT;

verus! {

/// One 2-D point of a stroke path. The first point of a path is absolute;
/// every later point is a delta against its predecessor.
pub struct InkPoint {
    pub x: i64,
    pub y: i64,
}

/// An ordered polyline, delta-coded after its first point, with an optional
/// packed little-endian base-256 RGB color.
pub struct InkStroke {
    pub path: Vec<InkPoint>,
    pub color: Option<u32>,
}

/// A freehand drawing: ordered strokes plus an optional offset of the whole
/// drawing (in milli units).
pub struct Ink {
    pub ink_strokes: Vec<InkStroke>,
    pub offset_horizontal: Option<i64>,
    pub offset_vertical: Option<i64>,
}

/// A picture: optional raw bytes and four independently optional layout
/// fields (milli units).
pub struct Image {
    pub data: Option<Vec<u8>>,
    pub layout_max_width: Option<i64>,
    pub layout_max_height: Option<i64>,
    pub offset_horizontal: Option<i64>,
    pub offset_vertical: Option<i64>,
}

/// Content of an outline element. Rich text, tables and embedded files are
/// intentionally rendered as nothing.
pub enum Content {
    RichText,
    Image(Image),
    EmbeddedFile,
    Table,
    Ink(Ink),
    Unknown,
}

/// A positioned leaf of the outline tree: its own contents, plus optional
/// table-like children that the renderer drops.
pub struct OutlineElement {
    pub contents: Vec<Content>,
    pub children: Vec<OutlineElement>,
}

/// A node of the outline tree: either a leaf element or a nested group.
pub enum OutlineItem {
    Element(OutlineElement),
    Group(Vec<OutlineItem>),
}

/// A group of positioned content elements with an optional offset (milli
/// units) applied to every image it contains.
pub struct Outline {
    pub offset_horizontal: Option<i64>,
    pub offset_vertical: Option<i64>,
    pub items: Vec<OutlineItem>,
}

/// Top-level content of a page.
pub enum PageContent {
    Outline(Outline),
    Image(Image),
    EmbeddedFile,
    Ink(Ink),
    Unknown,
}

/// One page: an optional title and ordered content.
pub struct Page {
    pub title: Option<Vec<char>>,
    pub contents: Vec<PageContent>,
}

/// An ordered run of pages.
pub struct PageSeries {
    pub pages: Vec<Page>,
}

/// A parsed source document: ordered page series.
pub struct Section {
    pub page_series: Vec<PageSeries>,
}

/// An optional coordinate is well formed when its value, if present, is
/// within the fixed-point coordinate bound.
pub open spec fn wf_opt_coord(o: Option<i64>) -> bool {
    match o {
        Some(v) => -COORD_LIMIT <= v <= COORD_LIMIT,
        None => true,
    }
}

pub open spec fn wf_point(p: InkPoint) -> bool {
    &&& -COORD_LIMIT <= p.x <= COORD_LIMIT
    &&& -COORD_LIMIT <= p.y <= COORD_LIMIT
}

pub open spec fn wf_stroke(s: InkStroke) -> bool {
    forall|i: int| 0 <= i < s.path@.len() ==> wf_point(#[trigger] s.path@[i])
}

pub open spec fn wf_ink(k: Ink) -> bool {
    &&& wf_opt_coord(k.offset_horizontal)
    &&& wf_opt_coord(k.offset_vertical)
    &&& forall|i: int| 0 <= i < k.ink_strokes@.len() ==> wf_stroke(#[trigger] k.ink_strokes@[i])
}

pub open spec fn wf_image(m: Image) -> bool {
    &&& match m.data {
        Some(d) => d@.len() <= 0x4000_0000_0000_0000,
        None => true,
    }
    &&& wf_opt_coord(m.layout_max_width)
    &&& wf_opt_coord(m.layout_max_height)
    &&& wf_opt_coord(m.offset_horizontal)
    &&& wf_opt_coord(m.offset_vertical)
}

pub open spec fn wf_content(c: Content) -> bool {
    match c {
        Content::Image(m) => wf_image(m),
        Content::Ink(k) => wf_ink(k),
        _ => true,
    }
}

/// Well-formedness of an element covers only its own contents: the
/// table-like children are never rendered.
pub open spec fn wf_element(e: OutlineElement) -> bool {
    forall|i: int| 0 <= i < e.contents@.len() ==> wf_content(#[trigger] e.contents@[i])
}

pub open spec fn wf_item(t: OutlineItem) -> bool
    decreases t,
{
    match t {
        OutlineItem::Element(e) => wf_element(e),
        OutlineItem::Group(g) => forall|i: int| 0 <= i < g@.len() ==> wf_item(#[trigger] g@[i]),
    }
}

pub open spec fn wf_outline(o: Outline) -> bool {
    &&& wf_opt_coord(o.offset_horizontal)
    &&& wf_opt_coord(o.offset_vertical)
    &&& forall|i: int| 0 <= i < o.items@.len() ==> wf_item(#[trigger] o.items@[i])
}

pub open spec fn wf_page_content(c: PageContent) -> bool {
    match c {
        PageContent::Outline(o) => wf_outline(o),
        PageContent::Image(m) => wf_image(m),
        PageContent::Ink(k) => wf_ink(k),
        _ => true,
    }
}

pub open spec fn wf_page(p: Page) -> bool {
    forall|i: int| 0 <= i < p.contents@.len() ==> wf_page_content(#[trigger] p.contents@[i])
}

pub open spec fn wf_page_series(s: PageSeries) -> bool {
    forall|i: int| 0 <= i < s.pages@.len() ==> wf_page(#[trigger] s.pages@[i])
}

pub open spec fn wf_section(s: Section) -> bool {
    forall|i: int| 0 <= i < s.page_series@.len() ==> wf_page_series(#[trigger] s.page_series@[i])
}

} // verus!
