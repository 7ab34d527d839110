//! The geometry of rendered content, as specification functions: delta-coded
//! stroke paths decoded into absolute output-space coordinates, image
//! bounding boxes, the flattening of nested outline groups, and the ordered
//! sequences of x and y values that the per-page size tracker observes.

use vstd::prelude::*;
use crate::fixed::{fx_mul_s, COORD_LIMIT};
use crate::config::{
    RenderConfig, INK_OFFSET_FACTOR, INK_BASE_WIDTH, spec_outline_offset_factor,
    spec_image_offset_factor, spec_image_scaling_factor, spec_ink_scaling_factor,
};
use crate::model::{InkPoint, InkStroke, Ink, Image, Content, OutlineElement, OutlineItem,
    Outline, PageContent, Page, wf_item, wf_element};

verus! {

/// The value of an optional coordinate, with fallback 0.
pub open spec fn opt0(o: Option<i64>) -> int {
    match o {
        Some(v) => v as int,
        None => 0,
    }
}

/// The value of an optional coordinate, with an explicit fallback.
pub open spec fn opt_or(o: Option<i64>, d: int) -> int {
    match o {
        Some(v) => v as int,
        None => d,
    }
}

/// The offset an enclosing outline hands to an image renderer; outside an
/// outline there is none, which acts as a zero offset.
pub open spec fn out_off_of(o: Option<(i64, i64)>) -> (int, int) {
    match o {
        Some(p) => (p.0 as int, p.1 as int),
        None => (0, 0),
    }
}

pub open spec fn wf_out_off(o: Option<(i64, i64)>) -> bool {
    match o {
        Some(p) => -COORD_LIMIT <= p.0 <= COORD_LIMIT && -COORD_LIMIT <= p.1 <= COORD_LIMIT,
        None => true,
    }
}

pub open spec fn max2(a: int, b: int) -> int {
    if a >= b {
        a
    } else {
        b
    }
}

/// Left fold of running maxima: what a size tracker holds after observing
/// every element of `s` in order, having started at `acc`.
pub open spec fn seq_max(s: Seq<int>, acc: int) -> int
    decreases s.len(),
{
    if s.len() == 0 {
        acc
    } else {
        seq_max(s.drop_first(), max2(acc, s[0]))
    }
}

pub proof fn lemma_seq_max_ge_acc(s: Seq<int>, acc: int)
    ensures
        acc <= seq_max(s, acc),
    decreases s.len(),
{
    if s.len() > 0 {
        lemma_seq_max_ge_acc(s.drop_first(), max2(acc, s[0]));
    }
}

/// The tracked maximum dominates every observed value.
pub proof fn lemma_seq_max_ge_elem(s: Seq<int>, acc: int, i: int)
    requires
        0 <= i < s.len(),
    ensures
        s[i] <= seq_max(s, acc),
    decreases s.len(),
{
    if i == 0 {
        lemma_seq_max_ge_acc(s.drop_first(), max2(acc, s[0]));
    } else {
        lemma_seq_max_ge_elem(s.drop_first(), max2(acc, s[0]), i - 1);
        assert(s.drop_first()[i - 1] == s[i]);
    }
}

/// Observing a concatenation is observing the two halves in order.
pub proof fn lemma_seq_max_concat(a: Seq<int>, b: Seq<int>, acc: int)
    ensures
        seq_max(a + b, acc) == seq_max(b, seq_max(a, acc)),
    decreases a.len(),
{
    if a.len() == 0 {
        assert(a + b =~= b);
    } else {
        assert((a + b).drop_first() =~= a.drop_first() + b);
        lemma_seq_max_concat(a.drop_first(), b, max2(acc, a[0]));
    }
}

/// Observing one more value tops the fold up with that value.
pub proof fn lemma_seq_max_snoc(s: Seq<int>, v: int, acc: int)
    ensures
        seq_max(s.push(v), acc) == max2(seq_max(s, acc), v),
{
    assert(s.push(v) =~= s + seq![v]);
    lemma_seq_max_concat(s, seq![v], acc);
    let m = seq_max(s, acc);
    assert(seq![v].drop_first() =~= Seq::<int>::empty());
    assert(seq_max(Seq::<int>::empty(), max2(m, v)) == max2(m, v));
    assert(seq_max(seq![v], m) == max2(m, v));
}

/// Cumulative sum of the x components of `path[0 ..= i]`: the absolute
/// first point plus every delta up to index `i`.
pub open spec fn psum_x(path: Seq<InkPoint>, i: int) -> int
    decreases i,
{
    if i <= 0 {
        path[0].x as int
    } else {
        psum_x(path, i - 1) + path[i].x as int
    }
}

/// Cumulative sum of the y components of `path[0 ..= i]`.
pub open spec fn psum_y(path: Seq<InkPoint>, i: int) -> int
    decreases i,
{
    if i <= 0 {
        path[0].y as int
    } else {
        psum_y(path, i - 1) + path[i].y as int
    }
}

pub proof fn lemma_psum_bound(path: Seq<InkPoint>, i: int)
    requires
        0 <= i < path.len(),
        forall|j: int| 0 <= j < path.len() ==> crate::model::wf_point(#[trigger] path[j]),
    ensures
        -(i + 1) * COORD_LIMIT <= psum_x(path, i) <= (i + 1) * COORD_LIMIT,
        -(i + 1) * COORD_LIMIT <= psum_y(path, i) <= (i + 1) * COORD_LIMIT,
    decreases i,
{
    if i > 0 {
        lemma_psum_bound(path, i - 1);
        assert((i + 1) * COORD_LIMIT == i * COORD_LIMIT + COORD_LIMIT) by (nonlinear_arith);
        assert(-(i + 1) * COORD_LIMIT == -(i * COORD_LIMIT) - COORD_LIMIT) by (nonlinear_arith);
    }
}

/// The offset term added once to the running sum of an ink drawing: the
/// drawing's own offset times the fixed ink offset factor.
pub open spec fn ink_offset_term(off: Option<i64>) -> int {
    fx_mul_s(opt0(off), INK_OFFSET_FACTOR as int)
}

/// The coordinate pair emitted for point `i` of a stroke: the offset term
/// plus the cumulative sum, scaled by the ink scaling factor.
pub open spec fn stroke_coord(
    path: Seq<InkPoint>,
    offx: int,
    offy: int,
    kf: int,
    i: int,
) -> (int, int) {
    (fx_mul_s(offx + psum_x(path, i), kf), fx_mul_s(offy + psum_y(path, i), kf))
}

/// Every coordinate pair a stroke emits, in order. A stroke with two or
/// three points duplicates its final pair once; one with four or more does
/// not. (Strokes with fewer than two points are dropped upstream.)
pub open spec fn stroke_coords(path: Seq<InkPoint>, offx: int, offy: int, kf: int) -> Seq<
    (int, int),
> {
    let base = Seq::new(path.len(), |i: int| stroke_coord(path, offx, offy, kf, i));
    if path.len() < 4 {
        base.push(base.last())
    } else {
        base
    }
}

/// The stroke width: the fixed base width times the configured factor.
pub open spec fn spec_stroke_width(c: RenderConfig) -> int {
    fx_mul_s(INK_BASE_WIDTH as int, c.ink_width_factor as int)
}

/// The bounding box `(left, top, right, bottom)` of an image, given the
/// enclosing outline's offset (zero outside an outline).
pub open spec fn image_geom(m: Image, out_off: (int, int), c: RenderConfig) -> (int, int, int, int) {
    let l = fx_mul_s(opt0(m.offset_horizontal), spec_image_offset_factor(c)) + fx_mul_s(
        out_off.0,
        spec_outline_offset_factor(c),
    );
    let t = fx_mul_s(opt0(m.offset_vertical), spec_image_offset_factor(c)) + fx_mul_s(
        out_off.1,
        spec_outline_offset_factor(c),
    );
    let w = fx_mul_s(opt_or(m.layout_max_width, 100_000), spec_image_scaling_factor(c));
    let h = fx_mul_s(opt_or(m.layout_max_height, 100_000), spec_image_scaling_factor(c));
    (l, t, l + w, t + h)
}

/// Depth-first flattening of an outline item: a leaf element stands alone,
/// a group contributes its flattened items in order.
pub open spec fn flatten_item(t: OutlineItem) -> Seq<OutlineElement>
    decreases t,
{
    match t {
        OutlineItem::Element(e) => seq![e],
        OutlineItem::Group(g) => flatten_items(g@),
    }
}

/// Depth-first flattening of an item list, preserving document order.
pub open spec fn flatten_items(items: Seq<OutlineItem>) -> Seq<OutlineElement>
    decreases items,
{
    if items.len() == 0 {
        Seq::empty()
    } else {
        flatten_item(items[0]) + flatten_items(items.drop_first())
    }
}

/// Flattening one more item appends that item's flattened elements.
pub proof fn lemma_flatten_snoc(s: Seq<OutlineItem>, t: OutlineItem)
    ensures
        flatten_items(s.push(t)) == flatten_items(s) + flatten_item(t),
    decreases s.len(),
{
    if s.len() == 0 {
        assert(s.push(t).drop_first() =~= Seq::<OutlineItem>::empty());
        assert(s.push(t)[0] == t);
        assert(flatten_items(s.push(t)) == flatten_item(t) + flatten_items(
            Seq::<OutlineItem>::empty()));
        assert(flatten_item(t) + Seq::<OutlineElement>::empty() =~= flatten_item(t));
        assert(flatten_items(s) + flatten_item(t) =~= flatten_item(t));
    } else {
        assert(s.push(t).drop_first() =~= s.drop_first().push(t));
        assert(s.push(t)[0] == s[0]);
        lemma_flatten_snoc(s.drop_first(), t);
        assert(flatten_item(s[0]) + (flatten_items(s.drop_first()) + flatten_item(t)) =~= (
        flatten_item(s[0]) + flatten_items(s.drop_first())) + flatten_item(t));
    }
}

/// Every element flattened out of a well-formed item is well formed.
pub proof fn lemma_flatten_item_wf(t: OutlineItem)
    requires
        wf_item(t),
    ensures
        forall|j: int| 0 <= j < flatten_item(t).len() ==> wf_element(#[trigger] flatten_item(
            t,
        )[j]),
    decreases t,
{
    match t {
        OutlineItem::Element(e) => {
            assert(flatten_item(t) =~= seq![e]);
            assert forall|j: int| 0 <= j < flatten_item(t).len() implies wf_element(
                #[trigger] flatten_item(t)[j],
            ) by {
                assert(wf_element(e));
                assert(flatten_item(t)[j] == e);
            }
        },
        OutlineItem::Group(g) => {
            lemma_flatten_wf(g@);
            assert forall|j: int| 0 <= j < flatten_item(t).len() implies wf_element(
                #[trigger] flatten_item(t)[j],
            ) by {
                assert(flatten_item(t) == flatten_items(g@));
                assert(wf_element(flatten_items(g@)[j]));
            }
        },
    }
}

/// Every element flattened out of a well-formed item list is well formed.
pub proof fn lemma_flatten_wf(items: Seq<OutlineItem>)
    requires
        forall|i: int| 0 <= i < items.len() ==> wf_item(#[trigger] items[i]),
    ensures
        forall|j: int| 0 <= j < flatten_items(items).len() ==> wf_element(
            #[trigger] flatten_items(items)[j],
        ),
    decreases items,
{
    if items.len() > 0 {
        lemma_flatten_item_wf(items[0]);
        lemma_flatten_wf(items.drop_first());
        assert forall|j: int| 0 <= j < flatten_items(items).len() implies wf_element(
            #[trigger] flatten_items(items)[j],
        ) by {
            let head = flatten_item(items[0]);
            let rest = flatten_items(items.drop_first());
            if j < head.len() {
                assert(flatten_items(items)[j] == head[j]);
            } else {
                assert(flatten_items(items)[j] == rest[j - head.len()]);
            }
        }
    }
}

/// The x values a stroke reports to the size tracker, in order.
pub open spec fn coords_xs(cs: Seq<(int, int)>) -> Seq<int> {
    cs.map_values(|p: (int, int)| p.0)
}

pub open spec fn coords_ys(cs: Seq<(int, int)>) -> Seq<int> {
    cs.map_values(|p: (int, int)| p.1)
}

/// The x values an ink drawing's strokes report, in order; strokes with
/// fewer than two points report nothing.
pub open spec fn strokes_xs(strokes: Seq<InkStroke>, offx: int, offy: int, kf: int) -> Seq<int>
    decreases strokes.len(),
{
    if strokes.len() == 0 {
        Seq::empty()
    } else {
        let head = if strokes[0].path@.len() >= 2 {
            coords_xs(stroke_coords(strokes[0].path@, offx, offy, kf))
        } else {
            Seq::empty()
        };
        head + strokes_xs(strokes.drop_first(), offx, offy, kf)
    }
}

pub open spec fn strokes_ys(strokes: Seq<InkStroke>, offx: int, offy: int, kf: int) -> Seq<int>
    decreases strokes.len(),
{
    if strokes.len() == 0 {
        Seq::empty()
    } else {
        let head = if strokes[0].path@.len() >= 2 {
            coords_ys(stroke_coords(strokes[0].path@, offx, offy, kf))
        } else {
            Seq::empty()
        };
        head + strokes_ys(strokes.drop_first(), offx, offy, kf)
    }
}

pub open spec fn ink_xs(k: Ink, c: RenderConfig) -> Seq<int> {
    strokes_xs(
        k.ink_strokes@,
        ink_offset_term(k.offset_horizontal),
        ink_offset_term(k.offset_vertical),
        spec_ink_scaling_factor(c),
    )
}

pub open spec fn ink_ys(k: Ink, c: RenderConfig) -> Seq<int> {
    strokes_ys(
        k.ink_strokes@,
        ink_offset_term(k.offset_horizontal),
        ink_offset_term(k.offset_vertical),
        spec_ink_scaling_factor(c),
    )
}

/// The x values an image reports: left, then right.
pub open spec fn image_xs(m: Image, out_off: (int, int), c: RenderConfig) -> Seq<int> {
    let g = image_geom(m, out_off, c);
    seq![g.0, g.2]
}

/// The y values an image reports: top, then bottom.
pub open spec fn image_ys(m: Image, out_off: (int, int), c: RenderConfig) -> Seq<int> {
    let g = image_geom(m, out_off, c);
    seq![g.1, g.3]
}

pub open spec fn content_xs(ct: Content, out_off: (int, int), c: RenderConfig) -> Seq<int> {
    match ct {
        Content::Image(m) => image_xs(m, out_off, c),
        Content::Ink(k) => ink_xs(k, c),
        _ => Seq::empty(),
    }
}

pub open spec fn content_ys(ct: Content, out_off: (int, int), c: RenderConfig) -> Seq<int> {
    match ct {
        Content::Image(m) => image_ys(m, out_off, c),
        Content::Ink(k) => ink_ys(k, c),
        _ => Seq::empty(),
    }
}

pub open spec fn contents_xs(cs: Seq<Content>, out_off: (int, int), c: RenderConfig) -> Seq<int>
    decreases cs.len(),
{
    if cs.len() == 0 {
        Seq::empty()
    } else {
        content_xs(cs[0], out_off, c) + contents_xs(cs.drop_first(), out_off, c)
    }
}

pub open spec fn contents_ys(cs: Seq<Content>, out_off: (int, int), c: RenderConfig) -> Seq<int>
    decreases cs.len(),
{
    if cs.len() == 0 {
        Seq::empty()
    } else {
        content_ys(cs[0], out_off, c) + contents_ys(cs.drop_first(), out_off, c)
    }
}

pub open spec fn elems_xs(es: Seq<OutlineElement>, out_off: (int, int), c: RenderConfig) -> Seq<
    int,
>
    decreases es.len(),
{
    if es.len() == 0 {
        Seq::empty()
    } else {
        contents_xs(es[0].contents@, out_off, c) + elems_xs(es.drop_first(), out_off, c)
    }
}

pub open spec fn elems_ys(es: Seq<OutlineElement>, out_off: (int, int), c: RenderConfig) -> Seq<
    int,
>
    decreases es.len(),
{
    if es.len() == 0 {
        Seq::empty()
    } else {
        contents_ys(es[0].contents@, out_off, c) + elems_ys(es.drop_first(), out_off, c)
    }
}

/// The offset an outline applies to the images it contains.
pub open spec fn outline_off(o: Outline) -> (int, int) {
    (opt0(o.offset_horizontal), opt0(o.offset_vertical))
}

pub open spec fn outline_xs(o: Outline, c: RenderConfig) -> Seq<int> {
    elems_xs(flatten_items(o.items@), outline_off(o), c)
}

pub open spec fn outline_ys(o: Outline, c: RenderConfig) -> Seq<int> {
    elems_ys(flatten_items(o.items@), outline_off(o), c)
}

pub open spec fn page_content_xs(pc: PageContent, c: RenderConfig) -> Seq<int> {
    match pc {
        PageContent::Outline(o) => outline_xs(o, c),
        PageContent::Image(m) => image_xs(m, (0, 0), c),
        PageContent::Ink(k) => ink_xs(k, c),
        _ => Seq::empty(),
    }
}

pub open spec fn page_content_ys(pc: PageContent, c: RenderConfig) -> Seq<int> {
    match pc {
        PageContent::Outline(o) => outline_ys(o, c),
        PageContent::Image(m) => image_ys(m, (0, 0), c),
        PageContent::Ink(k) => ink_ys(k, c),
        _ => Seq::empty(),
    }
}

pub open spec fn page_contents_xs(cs: Seq<PageContent>, c: RenderConfig) -> Seq<int>
    decreases cs.len(),
{
    if cs.len() == 0 {
        Seq::empty()
    } else {
        page_content_xs(cs[0], c) + page_contents_xs(cs.drop_first(), c)
    }
}

pub open spec fn page_contents_ys(cs: Seq<PageContent>, c: RenderConfig) -> Seq<int>
    decreases cs.len(),
{
    if cs.len() == 0 {
        Seq::empty()
    } else {
        page_content_ys(cs[0], c) + page_contents_ys(cs.drop_first(), c)
    }
}

/// Every x value a page's content reports to its size tracker, in order.
pub open spec fn page_xs(p: Page, c: RenderConfig) -> Seq<int> {
    page_contents_xs(p.contents@, c)
}

pub open spec fn page_ys(p: Page, c: RenderConfig) -> Seq<int> {
    page_contents_ys(p.contents@, c)
}

/// The reported canvas width of a page: the tracked maximum of every x
/// value, starting from the configured minimum, plus the padding.
pub open spec fn page_width(p: Page, c: RenderConfig) -> int {
    seq_max(page_xs(p, c), c.min_page_width as int) + c.page_padding
}

pub open spec fn page_height(p: Page, c: RenderConfig) -> int {
    seq_max(page_ys(p, c), c.min_page_height as int) + c.page_padding
}

} // verus!
