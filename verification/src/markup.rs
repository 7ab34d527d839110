//! The exact markup the renderer emits, as specification functions over the
//! document model: stroke and image blocks, page blocks, and the document
//! envelope of the consumer format.

use vstd::prelude::*;
use crate::text::{fmt_fx, hex_seq};
use crate::bridge::base64_of;
use crate::config::RenderConfig;
use crate::geom::{
    stroke_coords, spec_stroke_width, image_geom, ink_offset_term, flatten_items, outline_off,
    page_width, page_height,
};
use crate::config::spec_ink_scaling_factor;
use crate::model::{InkStroke, Ink, Image, Content, OutlineElement, Outline, PageContent, Page};

verus! {

/// The color attribute text: lowercase hex of the packed little-endian
/// base-256 RGB triple with an opaque alpha, each channel printed without
/// zero padding; an absent color is the literal word `black`.
pub open spec fn color_seq(c: Option<u32>) -> Seq<char> {
    match c {
        None => "black"@,
        Some(v) => seq!['#'] + hex_seq((v as int) % 256) + hex_seq(((v as int) / 256) % 256)
            + hex_seq(((v as int) / 256 / 256) % 256) + seq!['f', 'f'],
    }
}

/// One emitted coordinate pair: the two values, each followed by a space.
pub open spec fn pair_text(p: (int, int)) -> Seq<char> {
    fmt_fx(p.0) + seq![' '] + fmt_fx(p.1) + seq![' ']
}

pub open spec fn coords_text(cs: Seq<(int, int)>) -> Seq<char>
    decreases cs.len(),
{
    if cs.len() == 0 {
        Seq::<char>::empty()
    } else {
        pair_text(cs[0]) + coords_text(cs.drop_first())
    }
}

/// The coordinate list of one more pair is the list so far plus that pair's
/// text.
pub proof fn lemma_coords_text_snoc(s: Seq<(int, int)>, p: (int, int))
    ensures
        coords_text(s.push(p)) == coords_text(s) + pair_text(p),
    decreases s.len(),
{
    if s.len() == 0 {
        assert(s.push(p).drop_first() =~= Seq::<(int, int)>::empty());
        assert(coords_text(s.push(p)) == pair_text(p) + coords_text(Seq::<(int, int)>::empty()));
        assert(pair_text(p) + Seq::<char>::empty() =~= pair_text(p));
        assert(coords_text(s) + pair_text(p) =~= pair_text(p));
    } else {
        assert(s.push(p).drop_first() =~= s.drop_first().push(p));
        assert(s.push(p)[0] == s[0]);
        lemma_coords_text_snoc(s.drop_first(), p);
        assert(pair_text(s[0]) + (coords_text(s.drop_first()) + pair_text(p)) =~= (pair_text(s[0])
            + coords_text(s.drop_first())) + pair_text(p));
    }
}

/// One stroke block: the fixed pen tool, the color, the width, and the
/// whitespace-separated coordinate list.
pub open spec fn stroke_text(color: Option<u32>, width: int, cs: Seq<(int, int)>) -> Seq<char> {
    "<stroke tool=\"pen\" color=\""@ + color_seq(color) + "\" width=\""@ + fmt_fx(width)
        + "\">"@ + coords_text(cs) + "</stroke>\n"@
}

pub open spec fn strokes_text(
    strokes: Seq<InkStroke>,
    offx: int,
    offy: int,
    kf: int,
    width: int,
) -> Seq<char>
    decreases strokes.len(),
{
    if strokes.len() == 0 {
        Seq::<char>::empty()
    } else {
        let head = if strokes[0].path@.len() >= 2 {
            stroke_text(strokes[0].color, width, stroke_coords(strokes[0].path@, offx, offy, kf))
        } else {
            Seq::<char>::empty()
        };
        head + strokes_text(strokes.drop_first(), offx, offy, kf, width)
    }
}

/// Everything an ink drawing renders to: one stroke block per stroke with at
/// least two points, in order.
pub open spec fn ink_text(k: Ink, c: RenderConfig) -> Seq<char> {
    strokes_text(
        k.ink_strokes@,
        ink_offset_term(k.offset_horizontal),
        ink_offset_term(k.offset_vertical),
        spec_ink_scaling_factor(c),
        spec_stroke_width(c),
    )
}

/// The bytes an image encodes: its raw data, or nothing when absent.
pub open spec fn image_bytes(m: Image) -> Seq<u8> {
    match m.data {
        Some(d) => d@,
        None => Seq::<u8>::empty(),
    }
}

/// One image block: the bounding box attributes and the inline encoded
/// payload.
pub open spec fn image_text(m: Image, out_off: (int, int), c: RenderConfig) -> Seq<char> {
    let g = image_geom(m, out_off, c);
    "<image left=\""@ + fmt_fx(g.0) + "\" top=\""@ + fmt_fx(g.1) + "\" right=\""@ + fmt_fx(g.2)
        + "\" bottom=\""@ + fmt_fx(g.3) + "\">"@ + base64_of(image_bytes(m)) + "</image>\n"@
}

/// Outline content renders by kind; rich text, tables, embedded files and
/// unknown kinds render as nothing.
pub open spec fn content_text(ct: Content, out_off: (int, int), c: RenderConfig) -> Seq<char> {
    match ct {
        Content::Image(m) => image_text(m, out_off, c),
        Content::Ink(k) => ink_text(k, c),
        _ => Seq::<char>::empty(),
    }
}

pub open spec fn contents_text(cs: Seq<Content>, out_off: (int, int), c: RenderConfig) -> Seq<
    char,
>
    decreases cs.len(),
{
    if cs.len() == 0 {
        Seq::<char>::empty()
    } else {
        content_text(cs[0], out_off, c) + contents_text(cs.drop_first(), out_off, c)
    }
}

/// A flattened element renders its own contents; its table-like children
/// are dropped.
pub open spec fn elems_text(es: Seq<OutlineElement>, out_off: (int, int), c: RenderConfig) -> Seq<
    char,
>
    decreases es.len(),
{
    if es.len() == 0 {
        Seq::<char>::empty()
    } else {
        contents_text(es[0].contents@, out_off, c) + elems_text(es.drop_first(), out_off, c)
    }
}

/// An outline renders its depth-first flattened elements in order, each
/// under the outline's offset.
pub open spec fn outline_text(o: Outline, c: RenderConfig) -> Seq<char> {
    elems_text(flatten_items(o.items@), outline_off(o), c)
}

pub open spec fn page_content_text(pc: PageContent, c: RenderConfig) -> Seq<char> {
    match pc {
        PageContent::Outline(o) => outline_text(o, c),
        PageContent::Image(m) => image_text(m, (0, 0), c),
        PageContent::Ink(k) => ink_text(k, c),
        _ => Seq::<char>::empty(),
    }
}

pub open spec fn page_contents_text(cs: Seq<PageContent>, c: RenderConfig) -> Seq<char>
    decreases cs.len(),
{
    if cs.len() == 0 {
        Seq::<char>::empty()
    } else {
        page_content_text(cs[0], c) + page_contents_text(cs.drop_first(), c)
    }
}

/// One page block: the opening tag with the tracker-derived width and
/// height, the fixed solid background, one layer holding the rendered
/// content in order, and the closing tags.
pub open spec fn page_text(p: Page, c: RenderConfig) -> Seq<char> {
    "<page width=\""@ + fmt_fx(page_width(p, c)) + "\" height=\""@ + fmt_fx(page_height(p, c))
        + "\">\n        <background type=\"solid\" color=\"#ffffffff\" style=\"graph\"/>\n        <layer>\n"@
        + page_contents_text(p.contents@, c) + "</layer>\n</page>\n"@
}

/// The fixed document envelope around the concatenated page blocks.
pub open spec fn document_text(pages: Seq<char>) -> Seq<char> {
    "<?xml version=\"1.0\" standalone=\"no\"?>\n        <xournal creator=\"Xournal++ 1.1.3\" fileversion=\"4\">\n        <title>Xournal++ document - see https://github.com/xournalpp/xournalpp</title>\n"@
        + pages + "</xournal>"@
}

} // verus!
