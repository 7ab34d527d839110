//! Properties of the rendering pipeline, stated and proved against the
//! specification functions that the executable functions' contracts use.

use vstd::prelude::*;
use crate::fixed::fx_mul_s;
use crate::model::InkPoint;
use crate::config::RenderConfig;
use crate::geom::{
    psum_x, psum_y, stroke_coords, stroke_coord, seq_max, page_xs, page_ys, page_width,
    page_height, lemma_seq_max_ge_elem, lemma_seq_max_ge_acc, lemma_seq_max_concat,
};

verus! {

/// For every stroke, the coordinate pair emitted for point `i` equals the
/// scaling factor applied to the offset term — applied exactly once — plus
/// the cumulative sum of the path entries through index `i` (the absolute
/// first point and every delta after it).
pub proof fn lemma_stroke_coord_is_scaled_cumsum(
    path: Seq<InkPoint>,
    offx: int,
    offy: int,
    kf: int,
    i: int,
)
    requires
        0 <= i < path.len(),
    ensures
        stroke_coords(path, offx, offy, kf)[i] == (
            fx_mul_s(offx + psum_x(path, i), kf),
            fx_mul_s(offy + psum_y(path, i), kf),
        ),
{
    let base = Seq::new(path.len(), |j: int| stroke_coord(path, offx, offy, kf, j));
    assert(base[i] == stroke_coord(path, offx, offy, kf, i));
    if path.len() < 4 {
        assert(stroke_coords(path, offx, offy, kf)[i] == base[i]);
    }
}

/// A stroke of two or three points emits one extra coordinate pair, a
/// duplicate of its final pair; a stroke of four or more points emits
/// exactly one pair per point.
pub proof fn lemma_stroke_pair_count(path: Seq<InkPoint>, offx: int, offy: int, kf: int)
    requires
        path.len() >= 2,
    ensures
        path.len() < 4 ==> stroke_coords(path, offx, offy, kf).len() == path.len() + 1,
        path.len() < 4 ==> stroke_coords(path, offx, offy, kf).last() == stroke_coords(
            path,
            offx,
            offy,
            kf,
        )[path.len() - 1],
        path.len() >= 4 ==> stroke_coords(path, offx, offy, kf).len() == path.len(),
{
    let base = Seq::new(path.len(), |j: int| stroke_coord(path, offx, offy, kf, j));
    if path.len() < 4 {
        assert(stroke_coords(path, offx, offy, kf) == base.push(base.last()));
    }
}

/// Every x value a page's content reports lies within the final reported
/// canvas width minus the padding, and every y value within the height
/// minus the padding.
pub proof fn lemma_observed_within_canvas(p: crate::model::Page, c: RenderConfig, i: int, j: int)
    requires
        0 <= i < page_xs(p, c).len(),
        0 <= j < page_ys(p, c).len(),
    ensures
        page_xs(p, c)[i] <= page_width(p, c) - c.page_padding,
        page_ys(p, c)[j] <= page_height(p, c) - c.page_padding,
{
    lemma_seq_max_ge_elem(page_xs(p, c), c.min_page_width as int, i);
    lemma_seq_max_ge_elem(page_ys(p, c), c.min_page_height as int, j);
}

/// The tracked maximum never decreases as more values are observed: the
/// fold over any prefix of the observations is dominated by the fold over
/// any longer prefix.
pub proof fn lemma_tracked_max_monotone(s: Seq<int>, acc: int, i: int, j: int)
    requires
        0 <= i <= j <= s.len(),
    ensures
        seq_max(s.subrange(0, i), acc) <= seq_max(s.subrange(0, j), acc),
{
    let a = s.subrange(0, i);
    let b = s.subrange(i, j);
    assert(s.subrange(0, j) =~= a + b);
    lemma_seq_max_concat(a, b, acc);
    lemma_seq_max_ge_acc(b, seq_max(a, acc));
}

} // verus!
