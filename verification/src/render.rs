//! The verified rendering pipeline: each content kind is rendered to its
//! exact markup while the size tracker observes every emitted coordinate.

use vstd::prelude::*;
use crate::fixed::{fx_mul, lemma_fx_mul_s_abs, COORD_LIMIT, ACC_LIMIT, OBS_LIMIT};
use crate::config::{RenderConfig, INK_OFFSET_FACTOR, INK_BASE_WIDTH};
use crate::model::{Image, Ink, Content, OutlineElement, OutlineItem, Outline, PageContent, Page,
    wf_image, wf_ink, wf_content, wf_element, wf_outline, wf_page_content, wf_page};
use crate::size::SizeWatcher;
use crate::geom::{
    out_off_of, wf_out_off, max2, seq_max, image_xs, image_ys, image_geom,
    lemma_seq_max_concat,
};
use crate::text::{push_fx, push_hex, fmt_fx};
use crate::bridge::base64_encode;
use crate::markup::{image_text, ink_text, stroke_text, strokes_text, coords_text, pair_text,
    color_seq, lemma_coords_text_snoc};
use crate::geom::{
    psum_x, psum_y, lemma_psum_bound, stroke_coord, stroke_coords, ink_offset_term,
    spec_stroke_width, ink_xs, ink_ys, strokes_xs, strokes_ys, coords_xs, coords_ys,
    lemma_seq_max_snoc, flatten_item, flatten_items, lemma_flatten_snoc, lemma_flatten_wf,
    outline_off, outline_xs, outline_ys, content_xs, content_ys, contents_xs, contents_ys,
    elems_xs, elems_ys, page_content_xs, page_content_ys, page_contents_xs, page_contents_ys,
    page_xs, page_ys, page_width, page_height,
};
use crate::markup::{content_text, contents_text, elems_text, outline_text, page_content_text,
    page_contents_text, page_text};

verus! {

/// Rich text is intentionally rendered as nothing.
pub fn render_rich_text(size_watcher: &mut SizeWatcher) -> (r: String)
    ensures
        r@ == Seq::<char>::empty(),
        *final(size_watcher) == *old(size_watcher),
{
    String::new()
}

/// Tables are intentionally rendered as nothing.
pub fn render_table(size_watcher: &mut SizeWatcher) -> (r: String)
    ensures
        r@ == Seq::<char>::empty(),
        *final(size_watcher) == *old(size_watcher),
{
    String::new()
}

/// Embedded files are intentionally rendered as nothing.
pub fn render_embedded_file(size_watcher: &mut SizeWatcher) -> (r: String)
    ensures
        r@ == Seq::<char>::empty(),
        *final(size_watcher) == *old(size_watcher),
{
    String::new()
}

/// Computes an image's bounding box `(left, top, width, height)` from its
/// own offset, the enclosing outline's offset and the configured factors.
fn image_box(
    image: &Image,
    outline_offset: Option<(i64, i64)>,
    cfg: &RenderConfig,
) -> (r: (i128, i128, i128, i128))
    requires
        wf_image(*image),
        wf_out_off(outline_offset),
        cfg.wf(),
    ensures
        r.0 == image_geom(*image, out_off_of(outline_offset), *cfg).0,
        r.1 == image_geom(*image, out_off_of(outline_offset), *cfg).1,
        r.0 + r.2 == image_geom(*image, out_off_of(outline_offset), *cfg).2,
        r.1 + r.3 == image_geom(*image, out_off_of(outline_offset), *cfg).3,
        -OBS_LIMIT <= r.0 <= OBS_LIMIT,
        -OBS_LIMIT <= r.1 <= OBS_LIMIT,
        -OBS_LIMIT <= r.0 + r.2 <= OBS_LIMIT,
        -OBS_LIMIT <= r.1 + r.3 <= OBS_LIMIT,
{
    let ooff: (i64, i64) = match outline_offset {
        Some(p) => p,
        None => (0, 0),
    };
    let img_off_h: i64 = match image.offset_horizontal {
        Some(v) => v,
        None => 0,
    };
    let img_off_v: i64 = match image.offset_vertical {
        Some(v) => v,
        None => 0,
    };
    let w_raw: i64 = match image.layout_max_width {
        Some(v) => v,
        None => 100_000,
    };
    let h_raw: i64 = match image.layout_max_height {
        Some(v) => v,
        None => 100_000,
    };
    let iof = cfg.image_offset_factor();
    let oof = cfg.outline_offset_factor();
    let isf = cfg.image_scaling_factor();
    proof {
        lemma_fx_mul_s_abs(img_off_h as int, iof as int, COORD_LIMIT as int, COORD_LIMIT as int);
        lemma_fx_mul_s_abs(img_off_v as int, iof as int, COORD_LIMIT as int, COORD_LIMIT as int);
        lemma_fx_mul_s_abs(ooff.0 as int, oof as int, COORD_LIMIT as int, COORD_LIMIT as int);
        lemma_fx_mul_s_abs(ooff.1 as int, oof as int, COORD_LIMIT as int, COORD_LIMIT as int);
        lemma_fx_mul_s_abs(w_raw as int, isf as int, COORD_LIMIT as int, COORD_LIMIT as int);
        lemma_fx_mul_s_abs(h_raw as int, isf as int, COORD_LIMIT as int, COORD_LIMIT as int);
    }
    let l: i128 = fx_mul(img_off_h as i128, iof as i128) + fx_mul(ooff.0 as i128, oof as i128);
    let t: i128 = fx_mul(img_off_v as i128, iof as i128) + fx_mul(ooff.1 as i128, oof as i128);
    let w: i128 = fx_mul(w_raw as i128, isf as i128);
    let h: i128 = fx_mul(h_raw as i128, isf as i128);
    (l, t, w, h)
}

/// Renders one image block: base64-encodes the raw bytes (absent bytes give
/// an empty payload) and computes the bounding box from the image's own
/// offset, the enclosing outline's offset and the configured factors. Every
/// box coordinate is reported to the size tracker before being written.
#[verifier::spinoff_prover]
#[verifier::rlimit(100)]
pub fn render_image(
    image: &Image,
    outline_offset: Option<(i64, i64)>,
    cfg: &RenderConfig,
    size_watcher: &mut SizeWatcher,
) -> (r: String)
    requires
        wf_image(*image),
        wf_out_off(outline_offset),
        cfg.wf(),
        old(size_watcher).wf(),
    ensures
        r@ == image_text(*image, out_off_of(outline_offset), *cfg),
        final(size_watcher).size_x == seq_max(
            image_xs(*image, out_off_of(outline_offset), *cfg),
            old(size_watcher).size_x as int,
        ),
        final(size_watcher).size_y == seq_max(
            image_ys(*image, out_off_of(outline_offset), *cfg),
            old(size_watcher).size_y as int,
        ),
        final(size_watcher).wf(),
{
    let b64: String = match &image.data {
        Some(d) => base64_encode(d),
        None => {
            let empty: Vec<u8> = Vec::new();
            base64_encode(&empty)
        },
    };
    let box_: (i128, i128, i128, i128) = image_box(image, outline_offset, cfg);
    let l = box_.0;
    let t = box_.1;
    let w = box_.2;
    let h = box_.3;
    let ghost g = image_geom(*image, out_off_of(outline_offset), *cfg);
    let mut s = String::new();
    s.append("<image left=\"");
    proof {
        assert(s@ =~= "<image left=\""@);
    }
    let lv = size_watcher.check_x(l);
    push_fx(&mut s, lv);
    s.append("\" top=\"");
    let tv = size_watcher.check_y(t);
    push_fx(&mut s, tv);
    s.append("\" right=\"");
    let rv = size_watcher.check_x(l + w);
    push_fx(&mut s, rv);
    s.append("\" bottom=\"");
    let bv = size_watcher.check_y(t + h);
    push_fx(&mut s, bv);
    s.append("\">");
    s.append(b64.as_str());
    s.append("</image>\n");
    proof {
        let xs = image_xs(*image, out_off_of(outline_offset), *cfg);
        let ys = image_ys(*image, out_off_of(outline_offset), *cfg);
        let ax = old(size_watcher).size_x as int;
        let ay = old(size_watcher).size_y as int;
        assert(seq_max(xs, ax) == max2(max2(ax, g.0), g.2)) by {
            assert(xs.drop_first() =~= seq![g.2]);
            assert(xs.drop_first().drop_first() =~= Seq::<int>::empty());
        }
        assert(seq_max(ys, ay) == max2(max2(ay, g.1), g.3)) by {
            assert(ys.drop_first() =~= seq![g.3]);
            assert(ys.drop_first().drop_first() =~= Seq::<int>::empty());
        }
        assert(s@ == image_text(*image, out_off_of(outline_offset), *cfg));
    }
    s
}

/// Magnitude bound on the ink offset term: `COORD_LIMIT * INK_OFFSET_FACTOR
/// / 1000`.
pub const INK_OFF_BOUND: i128 = 1_270_000_000_000;

/// The running cumulative sum of an in-bound stroke path, shifted by an
/// in-bound offset term, stays within the accumulator range.
proof fn lemma_cum_in_range(path: Seq<crate::model::InkPoint>, i: int, off: int)
    requires
        0 <= i < path.len(),
        path.len() <= usize::MAX,
        forall|j: int| 0 <= j < path.len() ==> crate::model::wf_point(#[trigger] path[j]),
        -INK_OFF_BOUND <= off <= INK_OFF_BOUND,
    ensures
        -ACC_LIMIT < off + psum_x(path, i) < ACC_LIMIT,
        -ACC_LIMIT < off + psum_y(path, i) < ACC_LIMIT,
{
    lemma_psum_bound(path, i);
    assert((i + 1) * (COORD_LIMIT as int) <= (usize::MAX as int) * (COORD_LIMIT as int))
        by (nonlinear_arith)
        requires
            0 <= i + 1 <= usize::MAX as int,
    ;
}

/// Appends the color attribute text for an optional packed color.
fn push_color(s: &mut String, color: Option<u32>)
    ensures
        final(s)@ == old(s)@ + color_seq(color),
{
    match color {
        Some(v) => {
            s.push('#');
            push_hex(s, v % 256);
            push_hex(s, (v / 256) % 256);
            push_hex(s, (v / 256 / 256) % 256);
            s.push('f');
            s.push('f');
            proof {
                assert(s@ =~= old(s)@ + color_seq(color));
            }
        },
        None => {
            s.append("black");
        },
    }
}

/// Reports one coordinate pair to the size tracker and appends its text.
fn emit_pair(s: &mut String, size_watcher: &mut SizeWatcher, x: i128, y: i128)
    requires
        old(size_watcher).wf(),
        -OBS_LIMIT <= x <= OBS_LIMIT,
        -OBS_LIMIT <= y <= OBS_LIMIT,
    ensures
        final(s)@ == old(s)@ + pair_text((x as int, y as int)),
        final(size_watcher).size_x == max2(old(size_watcher).size_x as int, x as int),
        final(size_watcher).size_y == max2(old(size_watcher).size_y as int, y as int),
        final(size_watcher).wf(),
{
    push_fx(s, size_watcher.check_x(x));
    s.push(' ');
    push_fx(s, size_watcher.check_y(y));
    s.push(' ');
    proof {
        assert(s@ =~= old(s)@ + pair_text((x as int, y as int)));
    }
}

/// Renders one stroke block: the fixed pen tool, the color, the width, and
/// the decoded coordinate list. The offset terms are already part of the
/// running sum's start, so they apply exactly once; every emitted value is
/// reported to the size tracker. A stroke of two or three points repeats
/// its final coordinate pair once.
#[verifier::spinoff_prover]
#[verifier::rlimit(100)]
#[verifier::loop_isolation(false)]
fn render_stroke(
    stroke: &crate::model::InkStroke,
    offx: i128,
    offy: i128,
    kf: i64,
    width: i128,
    size_watcher: &mut SizeWatcher,
) -> (r: String)
    requires
        crate::model::wf_stroke(*stroke),
        stroke.path@.len() >= 2,
        -INK_OFF_BOUND <= offx <= INK_OFF_BOUND,
        -INK_OFF_BOUND <= offy <= INK_OFF_BOUND,
        0 <= kf <= COORD_LIMIT,
        -OBS_LIMIT <= width <= OBS_LIMIT,
        old(size_watcher).wf(),
    ensures
        r@ == stroke_text(
            stroke.color,
            width as int,
            stroke_coords(stroke.path@, offx as int, offy as int, kf as int),
        ),
        final(size_watcher).size_x == seq_max(
            coords_xs(stroke_coords(stroke.path@, offx as int, offy as int, kf as int)),
            old(size_watcher).size_x as int,
        ),
        final(size_watcher).size_y == seq_max(
            coords_ys(stroke_coords(stroke.path@, offx as int, offy as int, kf as int)),
            old(size_watcher).size_y as int,
        ),
        final(size_watcher).wf(),
{
    let n = stroke.path.len();
    let ghost pathg = stroke.path@;
    let ghost offxg = offx as int;
    let ghost offyg = offy as int;
    let ghost kfg = kf as int;
    let ghost base = Seq::new(pathg.len(), |i: int| stroke_coord(pathg, offxg, offyg, kfg, i));
    let ghost coords = stroke_coords(pathg, offxg, offyg, kfg);
    let ghost sx0 = old(size_watcher).size_x as int;
    let ghost sy0 = old(size_watcher).size_y as int;
    let mut out = String::new();
    out.append("<stroke tool=\"pen\" color=\"");
    proof {
        assert(out@ =~= "<stroke tool=\"pen\" color=\""@);
    }
    push_color(&mut out, stroke.color);
    out.append("\" width=\"");
    push_fx(&mut out, width);
    out.append("\">");
    let ghost headerg = "<stroke tool=\"pen\" color=\""@ + color_seq(stroke.color)
        + "\" width=\""@ + fmt_fx(width as int) + "\">"@;
    proof {
        assert(out@ == headerg);
    }
    let p0 = &stroke.path[0];
    let mut cx: i128 = offx + p0.x as i128;
    let mut cy: i128 = offy + p0.y as i128;
    proof {
        lemma_cum_in_range(pathg, 0, offxg);
        lemma_cum_in_range(pathg, 0, offyg);
        lemma_fx_mul_s_abs(cx as int, kfg, ACC_LIMIT as int, COORD_LIMIT as int);
        lemma_fx_mul_s_abs(cy as int, kfg, ACC_LIMIT as int, COORD_LIMIT as int);
    }
    let ex0 = fx_mul(cx, kf as i128);
    let ey0 = fx_mul(cy, kf as i128);
    emit_pair(&mut out, size_watcher, ex0, ey0);
    proof {
        assert(base[0] == (ex0 as int, ey0 as int));
        assert(base.subrange(0, 1) =~= seq![base[0]]);
        assert(coords_xs(base.subrange(0, 1)) =~= seq![base[0].0]);
        assert(coords_ys(base.subrange(0, 1)) =~= seq![base[0].1]);
        assert(base.subrange(0, 1).drop_first() =~= Seq::<(int, int)>::empty());
        assert(pair_text(base[0]) + Seq::<char>::empty() =~= pair_text(base[0]));
        assert(coords_text(Seq::<(int, int)>::empty()) == Seq::<char>::empty());
        assert(coords_text(base.subrange(0, 1).drop_first()) == Seq::<char>::empty());
        assert(coords_text(base.subrange(0, 1)) == pair_text(base[0]));
        assert(seq![base[0].0].drop_first() =~= Seq::<int>::empty());
        assert(seq![base[0].1].drop_first() =~= Seq::<int>::empty());
        assert(seq_max(Seq::<int>::empty(), max2(sx0, base[0].0)) == max2(sx0, base[0].0));
        assert(seq_max(Seq::<int>::empty(), max2(sy0, base[0].1)) == max2(sy0, base[0].1));
        assert(seq_max(coords_xs(base.subrange(0, 1)), sx0) == max2(sx0, base[0].0));
        assert(seq_max(coords_ys(base.subrange(0, 1)), sy0) == max2(sy0, base[0].1));
    }
    let mut pi: usize = 1;
    while pi < n
        invariant
            1 <= pi <= n,
            size_watcher.wf(),
            cx == offxg + psum_x(pathg, pi as int - 1),
            cy == offyg + psum_y(pathg, pi as int - 1),
            out@ == headerg + coords_text(base.subrange(0, pi as int)),
            size_watcher.size_x as int == seq_max(coords_xs(base.subrange(0, pi as int)), sx0),
            size_watcher.size_y as int == seq_max(coords_ys(base.subrange(0, pi as int)), sy0),
        decreases n - pi,
    {
        proof {
            lemma_cum_in_range(pathg, pi as int - 1, offxg);
            lemma_cum_in_range(pathg, pi as int - 1, offyg);
            assert(crate::model::wf_point(pathg[pi as int]));
        }
        let p = &stroke.path[pi];
        cx = cx + p.x as i128;
        cy = cy + p.y as i128;
        proof {
            lemma_cum_in_range(pathg, pi as int, offxg);
            lemma_cum_in_range(pathg, pi as int, offyg);
            lemma_fx_mul_s_abs(cx as int, kfg, ACC_LIMIT as int, COORD_LIMIT as int);
            lemma_fx_mul_s_abs(cy as int, kfg, ACC_LIMIT as int, COORD_LIMIT as int);
        }
        let ex = fx_mul(cx, kf as i128);
        let ey = fx_mul(cy, kf as i128);
        let ghost ct = coords_text(base.subrange(0, pi as int));
        emit_pair(&mut out, size_watcher, ex, ey);
        proof {
            let pr = base[pi as int];
            assert(pr == (ex as int, ey as int));
            assert(base.subrange(0, pi as int + 1) =~= base.subrange(0, pi as int).push(pr));
            lemma_coords_text_snoc(base.subrange(0, pi as int), pr);
            vstd::seq_lib::lemma_concat_associative(headerg, ct, pair_text(pr));
            assert(coords_xs(base.subrange(0, pi as int + 1)) =~= coords_xs(base.subrange(0,
                pi as int)).push(pr.0));
            assert(coords_ys(base.subrange(0, pi as int + 1)) =~= coords_ys(base.subrange(0,
                pi as int)).push(pr.1));
            lemma_seq_max_snoc(coords_xs(base.subrange(0, pi as int)), pr.0, sx0);
            lemma_seq_max_snoc(coords_ys(base.subrange(0, pi as int)), pr.1, sy0);
        }
        pi = pi + 1;
    }
    proof {
        assert(base.subrange(0, n as int) =~= base);
    }
    if n < 4 {
        proof {
            lemma_cum_in_range(pathg, n as int - 1, offxg);
            lemma_cum_in_range(pathg, n as int - 1, offyg);
            lemma_fx_mul_s_abs(cx as int, kfg, ACC_LIMIT as int, COORD_LIMIT as int);
            lemma_fx_mul_s_abs(cy as int, kfg, ACC_LIMIT as int, COORD_LIMIT as int);
        }
        let ex = fx_mul(cx, kf as i128);
        let ey = fx_mul(cy, kf as i128);
        let ghost ct = coords_text(base);
        emit_pair(&mut out, size_watcher, ex, ey);
        proof {
            let pr = base.last();
            assert(pr == (ex as int, ey as int));
            assert(coords =~= base.push(pr));
            lemma_coords_text_snoc(base, pr);
            vstd::seq_lib::lemma_concat_associative(headerg, ct, pair_text(pr));
            assert(coords_xs(coords) =~= coords_xs(base).push(pr.0));
            assert(coords_ys(coords) =~= coords_ys(base).push(pr.1));
            lemma_seq_max_snoc(coords_xs(base), pr.0, sx0);
            lemma_seq_max_snoc(coords_ys(base), pr.1, sy0);
        }
    } else {
        proof {
            assert(coords =~= base);
        }
    }
    let ghost body = headerg + coords_text(coords);
    proof {
        assert(out@ == body);
    }
    out.append("</stroke>\n");
    proof {
        assert(stroke_text(stroke.color, width as int, coords) == body + "</stroke>\n"@);
    }
    out
}

/// Renders one ink drawing: one stroke block per stroke with at least two
/// points, in document order; shorter strokes are dropped.
#[verifier::spinoff_prover]
#[verifier::rlimit(100)]
#[verifier::loop_isolation(false)]
pub fn render_ink(ink: &Ink, cfg: &RenderConfig, size_watcher: &mut SizeWatcher) -> (r: String)
    requires
        wf_ink(*ink),
        cfg.wf(),
        old(size_watcher).wf(),
    ensures
        r@ == ink_text(*ink, *cfg),
        final(size_watcher).size_x == seq_max(
            ink_xs(*ink, *cfg),
            old(size_watcher).size_x as int,
        ),
        final(size_watcher).size_y == seq_max(
            ink_ys(*ink, *cfg),
            old(size_watcher).size_y as int,
        ),
        final(size_watcher).wf(),
{
    let ghost strokes = ink.ink_strokes@;
    if ink.ink_strokes.len() == 0 {
        return String::new();
    }
    let off_h: i64 = match ink.offset_horizontal {
        Some(v) => v,
        None => 0,
    };
    let off_v: i64 = match ink.offset_vertical {
        Some(v) => v,
        None => 0,
    };
    proof {
        lemma_fx_mul_s_abs(off_h as int, INK_OFFSET_FACTOR as int, COORD_LIMIT as int,
            INK_OFFSET_FACTOR as int);
        lemma_fx_mul_s_abs(off_v as int, INK_OFFSET_FACTOR as int, COORD_LIMIT as int,
            INK_OFFSET_FACTOR as int);
        lemma_fx_mul_s_abs(INK_BASE_WIDTH as int, cfg.ink_width_factor as int,
            INK_BASE_WIDTH as int, COORD_LIMIT as int);
    }
    let offx: i128 = fx_mul(off_h as i128, INK_OFFSET_FACTOR as i128);
    let offy: i128 = fx_mul(off_v as i128, INK_OFFSET_FACTOR as i128);
    let kf: i64 = cfg.ink_scaling_factor();
    let width: i128 = fx_mul(INK_BASE_WIDTH as i128, cfg.ink_width_factor as i128);
    let ghost offxg = offx as int;
    let ghost offyg = offy as int;
    let ghost kfg = kf as int;
    let ghost widthg = width as int;
    proof {
        assert(offxg == ink_offset_term(ink.offset_horizontal));
        assert(offyg == ink_offset_term(ink.offset_vertical));
        assert(widthg == spec_stroke_width(*cfg));
        assert(strokes.subrange(0, strokes.len() as int) =~= strokes);
    }
    let ghost target_text = strokes_text(strokes, offxg, offyg, kfg, widthg);
    let ghost target_x = seq_max(
        strokes_xs(strokes, offxg, offyg, kfg),
        old(size_watcher).size_x as int,
    );
    let ghost target_y = seq_max(
        strokes_ys(strokes, offxg, offyg, kfg),
        old(size_watcher).size_y as int,
    );
    let mut out = String::new();
    let mut si: usize = 0;
    while si < ink.ink_strokes.len()
        invariant
            si <= strokes.len(),
            size_watcher.wf(),
            out@ + strokes_text(strokes.subrange(si as int, strokes.len() as int), offxg, offyg,
                kfg, widthg) == target_text,
            seq_max(strokes_xs(strokes.subrange(si as int, strokes.len() as int), offxg, offyg,
                kfg), size_watcher.size_x as int) == target_x,
            seq_max(strokes_ys(strokes.subrange(si as int, strokes.len() as int), offxg, offyg,
                kfg), size_watcher.size_y as int) == target_y,
        decreases strokes.len() - si,
    {
        let ghost suf = strokes.subrange(si as int, strokes.len() as int);
        let ghost nextsuf = strokes.subrange(si as int + 1, strokes.len() as int);
        let ghost sx0 = size_watcher.size_x as int;
        let ghost sy0 = size_watcher.size_y as int;
        proof {
            assert(suf.drop_first() =~= nextsuf);
            assert(suf[0] == strokes[si as int]);
            assert(crate::model::wf_stroke(strokes[si as int]));
        }
        let stroke = &ink.ink_strokes[si];
        let n = stroke.path.len();
        if n >= 2 {
            let ghost out_before = out@;
            let piece = render_stroke(stroke, offx, offy, kf, width, size_watcher);
            out.append(piece.as_str());
            proof {
                let coords = stroke_coords(stroke.path@, offxg, offyg, kfg);
                assert(strokes_text(suf, offxg, offyg, kfg, widthg) == stroke_text(stroke.color,
                    widthg, coords) + strokes_text(nextsuf, offxg, offyg, kfg, widthg));
                assert(out@ + strokes_text(nextsuf, offxg, offyg, kfg, widthg) =~= out_before
                    + strokes_text(suf, offxg, offyg, kfg, widthg));
                let headx = coords_xs(coords);
                let heady = coords_ys(coords);
                assert(strokes_xs(suf, offxg, offyg, kfg) == headx + strokes_xs(nextsuf, offxg,
                    offyg, kfg));
                lemma_seq_max_concat(headx, strokes_xs(nextsuf, offxg, offyg, kfg), sx0);
                assert(strokes_ys(suf, offxg, offyg, kfg) == heady + strokes_ys(nextsuf, offxg,
                    offyg, kfg));
                lemma_seq_max_concat(heady, strokes_ys(nextsuf, offxg, offyg, kfg), sy0);
            }
        } else {
            proof {
                assert(strokes_text(suf, offxg, offyg, kfg, widthg) == Seq::<char>::empty()
                    + strokes_text(nextsuf, offxg, offyg, kfg, widthg));
                assert(Seq::<char>::empty() + strokes_text(nextsuf, offxg, offyg, kfg, widthg)
                    =~= strokes_text(nextsuf, offxg, offyg, kfg, widthg));
                assert(strokes_xs(suf, offxg, offyg, kfg) =~= strokes_xs(nextsuf, offxg, offyg,
                    kfg));
                assert(strokes_ys(suf, offxg, offyg, kfg) =~= strokes_ys(nextsuf, offxg, offyg,
                    kfg));
            }
        }
        si = si + 1;
    }
    proof {
        let emptysuf = strokes.subrange(strokes.len() as int, strokes.len() as int);
        assert(emptysuf =~= Seq::<crate::model::InkStroke>::empty());
        assert(strokes_text(emptysuf, offxg, offyg, kfg, widthg) == Seq::<char>::empty());
        assert(out@ + Seq::<char>::empty() =~= out@);
        assert(out@ == target_text);
    }
    out
}

/// Collapses a nested outline item tree into its flat, ordered leaf
/// sequence: depth-first into groups before advancing to the next sibling,
/// preserving document order.
#[verifier::loop_isolation(false)]
pub fn flatten_outline_items<'a>(items: &'a Vec<OutlineItem>) -> (r: Vec<&'a OutlineElement>)
    ensures
        r@.len() == flatten_items(items@).len(),
        forall|j: int| 0 <= j < r@.len() ==> *r@[j] == flatten_items(items@)[j],
    decreases items@,
{
    let mut r: Vec<&'a OutlineElement> = Vec::new();
    proof {
        assert(items@.subrange(0, 0) =~= Seq::<OutlineItem>::empty());
    }
    let mut i: usize = 0;
    while i < items.len()
        invariant
            i <= items@.len(),
            r@.len() == flatten_items(items@.subrange(0, i as int)).len(),
            forall|j: int| 0 <= j < r@.len() ==> *r@[j] == flatten_items(
                items@.subrange(0, i as int),
            )[j],
        decreases items@.len() - i,
    {
        let ghost prefix = items@.subrange(0, i as int);
        match &items[i] {
            OutlineItem::Element(e) => {
                r.push(e);
                proof {
                    assert(flatten_item(items@[i as int]) =~= seq![*e]);
                }
            },
            OutlineItem::Group(g) => {
                proof {
                    assert(decreases_to!(items@ => items@[i as int]));
                    assert(decreases_to!(items@[i as int] => g@));
                }
                let mut sub = flatten_outline_items(g);
                let ghost subview = sub@;
                r.append(&mut sub);
                proof {
                    assert(flatten_item(items@[i as int]) == flatten_items(g@));
                    assert(subview.len() == flatten_items(g@).len());
                }
            },
        }
        proof {
            assert(items@.subrange(0, i as int + 1) =~= prefix.push(items@[i as int]));
            lemma_flatten_snoc(prefix, items@[i as int]);
            assert forall|j: int| 0 <= j < r@.len() implies *r@[j] == flatten_items(
                items@.subrange(0, i as int + 1),
            )[j] by {
                let whole = flatten_items(prefix) + flatten_item(items@[i as int]);
                assert(flatten_items(items@.subrange(0, i as int + 1)) == whole);
                if j < flatten_items(prefix).len() {
                    assert(whole[j] == flatten_items(prefix)[j]);
                } else {
                    assert(whole[j] == flatten_item(items@[i as int])[j - flatten_items(
                        prefix,
                    ).len()]);
                }
            }
        }
        i = i + 1;
    }
    proof {
        assert(items@.subrange(0, items@.len() as int) =~= items@);
    }
    r
}

/// Renders one content node of an outline element, under the enclosing
/// outline's offset. Unsupported kinds render as nothing and never abort
/// the page.
pub fn render_outline_content(
    content: &Content,
    outline_offset: Option<(i64, i64)>,
    cfg: &RenderConfig,
    size_watcher: &mut SizeWatcher,
) -> (r: String)
    requires
        wf_content(*content),
        wf_out_off(outline_offset),
        cfg.wf(),
        old(size_watcher).wf(),
    ensures
        r@ == content_text(*content, out_off_of(outline_offset), *cfg),
        final(size_watcher).size_x == seq_max(
            content_xs(*content, out_off_of(outline_offset), *cfg),
            old(size_watcher).size_x as int,
        ),
        final(size_watcher).size_y == seq_max(
            content_ys(*content, out_off_of(outline_offset), *cfg),
            old(size_watcher).size_y as int,
        ),
        final(size_watcher).wf(),
{
    let r: String = match content {
        Content::RichText => render_rich_text(size_watcher),
        Content::Image(image) => render_image(image, outline_offset, cfg, size_watcher),
        Content::EmbeddedFile => render_embedded_file(size_watcher),
        Content::Table => render_table(size_watcher),
        Content::Ink(ink) => render_ink(ink, cfg, size_watcher),
        Content::Unknown => String::new(),
    };
    r
}

/// Renders one outline: flattens its item tree, then renders each leaf
/// element's contents in order under the outline's offset. Table-like
/// children of an element are dropped; only the element's own content is
/// rendered.
#[verifier::spinoff_prover]
#[verifier::rlimit(100)]
#[verifier::loop_isolation(false)]
pub fn render_outline(outline: &Outline, cfg: &RenderConfig, size_watcher: &mut SizeWatcher) -> (r:
    String)
    requires
        wf_outline(*outline),
        cfg.wf(),
        old(size_watcher).wf(),
    ensures
        r@ == outline_text(*outline, *cfg),
        final(size_watcher).size_x == seq_max(
            outline_xs(*outline, *cfg),
            old(size_watcher).size_x as int,
        ),
        final(size_watcher).size_y == seq_max(
            outline_ys(*outline, *cfg),
            old(size_watcher).size_y as int,
        ),
        final(size_watcher).wf(),
{
    let off_h: i64 = match outline.offset_horizontal {
        Some(v) => v,
        None => 0,
    };
    let off_v: i64 = match outline.offset_vertical {
        Some(v) => v,
        None => 0,
    };
    let outline_offset: Option<(i64, i64)> = Some((off_h, off_v));
    let ghost offg = outline_off(*outline);
    proof {
        assert(offg == out_off_of(outline_offset));
        lemma_flatten_wf(outline.items@);
    }
    let elems = flatten_outline_items(&outline.items);
    let ghost es = flatten_items(outline.items@);
    let ghost target_text = elems_text(es, offg, *cfg);
    let ghost target_x = seq_max(elems_xs(es, offg, *cfg), old(size_watcher).size_x as int);
    let ghost target_y = seq_max(elems_ys(es, offg, *cfg), old(size_watcher).size_y as int);
    proof {
        assert(es.subrange(0, es.len() as int) =~= es);
    }
    let mut contents = String::new();
    let mut ei: usize = 0;
    while ei < elems.len()
        invariant
            ei <= es.len(),
            elems@.len() == es.len(),
            size_watcher.wf(),
            contents@ + elems_text(es.subrange(ei as int, es.len() as int), offg, *cfg)
                == target_text,
            seq_max(elems_xs(es.subrange(ei as int, es.len() as int), offg, *cfg),
                size_watcher.size_x as int) == target_x,
            seq_max(elems_ys(es.subrange(ei as int, es.len() as int), offg, *cfg),
                size_watcher.size_y as int) == target_y,
        decreases es.len() - ei,
    {
        let ghost esuf = es.subrange(ei as int, es.len() as int);
        let ghost enextsuf = es.subrange(ei as int + 1, es.len() as int);
        let ghost esx0 = size_watcher.size_x as int;
        let ghost esy0 = size_watcher.size_y as int;
        proof {
            assert(esuf.drop_first() =~= enextsuf);
            assert(esuf[0] == es[ei as int]);
            assert(wf_element(es[ei as int]));
        }
        let element = elems[ei];
        let ghost cs = element.contents@;
        let ghost ctarget_text = contents_text(cs, offg, *cfg);
        let ghost ctarget_x = seq_max(contents_xs(cs, offg, *cfg), esx0);
        let ghost ctarget_y = seq_max(contents_ys(cs, offg, *cfg), esy0);
        let ghost c0 = contents@;
        proof {
            assert(cs.subrange(0, cs.len() as int) =~= cs);
        }
        let mut ci: usize = 0;
        while ci < element.contents.len()
            invariant
                ci <= cs.len(),
                size_watcher.wf(),
                contents@ + (contents_text(cs.subrange(ci as int, cs.len() as int), offg, *cfg))
                    == c0 + ctarget_text,
                seq_max(contents_xs(cs.subrange(ci as int, cs.len() as int), offg, *cfg),
                    size_watcher.size_x as int) == ctarget_x,
                seq_max(contents_ys(cs.subrange(ci as int, cs.len() as int), offg, *cfg),
                    size_watcher.size_y as int) == ctarget_y,
            decreases cs.len() - ci,
        {
            let ghost csuf = cs.subrange(ci as int, cs.len() as int);
            let ghost cnextsuf = cs.subrange(ci as int + 1, cs.len() as int);
            let ghost csx0 = size_watcher.size_x as int;
            let ghost csy0 = size_watcher.size_y as int;
            proof {
                assert(csuf.drop_first() =~= cnextsuf);
                assert(csuf[0] == cs[ci as int]);
                assert(wf_content(cs[ci as int]));
            }
            let ghost before = contents@;
            let piece = render_outline_content(&element.contents[ci], outline_offset, cfg,
                size_watcher);
            contents.append(piece.as_str());
            proof {
                let head = content_text(cs[ci as int], offg, *cfg);
                assert(contents_text(csuf, offg, *cfg) == head + contents_text(cnextsuf, offg,
                    *cfg));
                assert(contents@ + contents_text(cnextsuf, offg, *cfg) =~= before
                    + contents_text(csuf, offg, *cfg));
                let headx = content_xs(cs[ci as int], offg, *cfg);
                let heady = content_ys(cs[ci as int], offg, *cfg);
                assert(contents_xs(csuf, offg, *cfg) == headx + contents_xs(cnextsuf, offg,
                    *cfg));
                lemma_seq_max_concat(headx, contents_xs(cnextsuf, offg, *cfg), csx0);
                assert(contents_ys(csuf, offg, *cfg) == heady + contents_ys(cnextsuf, offg,
                    *cfg));
                lemma_seq_max_concat(heady, contents_ys(cnextsuf, offg, *cfg), csy0);
            }
            ci = ci + 1;
        }
        proof {
            let cempty = cs.subrange(cs.len() as int, cs.len() as int);
            assert(cempty =~= Seq::<Content>::empty());
            assert(contents@ + Seq::<char>::empty() =~= contents@);
            assert(contents@ == c0 + ctarget_text);
            assert(elems_text(esuf, offg, *cfg) == ctarget_text + elems_text(enextsuf, offg,
                *cfg));
            assert(contents@ + elems_text(enextsuf, offg, *cfg) =~= c0 + elems_text(esuf, offg,
                *cfg));
            assert(elems_xs(esuf, offg, *cfg) == contents_xs(cs, offg, *cfg) + elems_xs(enextsuf,
                offg, *cfg));
            lemma_seq_max_concat(contents_xs(cs, offg, *cfg), elems_xs(enextsuf, offg, *cfg),
                esx0);
            assert(elems_ys(esuf, offg, *cfg) == contents_ys(cs, offg, *cfg) + elems_ys(enextsuf,
                offg, *cfg));
            lemma_seq_max_concat(contents_ys(cs, offg, *cfg), elems_ys(enextsuf, offg, *cfg),
                esy0);
        }
        ei = ei + 1;
    }
    proof {
        let eempty = es.subrange(es.len() as int, es.len() as int);
        assert(eempty =~= Seq::<OutlineElement>::empty());
        assert(contents@ + Seq::<char>::empty() =~= contents@);
        assert(contents@ == target_text);
    }
    contents
}

/// Renders one top-level page content node. Unknown kinds render as
/// nothing and never abort the page.
pub fn render_page_content(
    content: &PageContent,
    cfg: &RenderConfig,
    size_watcher: &mut SizeWatcher,
) -> (r: String)
    requires
        wf_page_content(*content),
        cfg.wf(),
        old(size_watcher).wf(),
    ensures
        r@ == page_content_text(*content, *cfg),
        final(size_watcher).size_x == seq_max(
            page_content_xs(*content, *cfg),
            old(size_watcher).size_x as int,
        ),
        final(size_watcher).size_y == seq_max(
            page_content_ys(*content, *cfg),
            old(size_watcher).size_y as int,
        ),
        final(size_watcher).wf(),
{
    let r: String = match content {
        PageContent::Outline(outline) => render_outline(outline, cfg, size_watcher),
        PageContent::Image(image) => render_image(image, None, cfg, size_watcher),
        PageContent::EmbeddedFile => render_embedded_file(size_watcher),
        PageContent::Ink(ink) => render_ink(ink, cfg, size_watcher),
        PageContent::Unknown => String::new(),
    };
    r
}

/// Renders one page: a fresh size tracker observes every emitted
/// coordinate while the contents render in order, then the page block is
/// assembled with the tracker-derived canvas size (plus padding), the
/// fixed solid background and one layer.
#[verifier::spinoff_prover]
#[verifier::rlimit(100)]
#[verifier::loop_isolation(false)]
pub fn render_page(page: &Page, cfg: &RenderConfig) -> (r: String)
    requires
        wf_page(*page),
        cfg.wf(),
    ensures
        r@ == page_text(*page, *cfg),
{
    let mut size_watcher = SizeWatcher::new(cfg);
    let ghost cs = page.contents@;
    let ghost target_text = page_contents_text(cs, *cfg);
    let ghost target_x = seq_max(page_xs(*page, *cfg), cfg.min_page_width as int);
    let ghost target_y = seq_max(page_ys(*page, *cfg), cfg.min_page_height as int);
    proof {
        assert(cs.subrange(0, cs.len() as int) =~= cs);
    }
    let mut page_content = String::new();
    let mut ci: usize = 0;
    while ci < page.contents.len()
        invariant
            ci <= cs.len(),
            size_watcher.wf(),
            page_content@ + page_contents_text(cs.subrange(ci as int, cs.len() as int), *cfg)
                == target_text,
            seq_max(page_contents_xs(cs.subrange(ci as int, cs.len() as int), *cfg),
                size_watcher.size_x as int) == target_x,
            seq_max(page_contents_ys(cs.subrange(ci as int, cs.len() as int), *cfg),
                size_watcher.size_y as int) == target_y,
        decreases cs.len() - ci,
    {
        let ghost csuf = cs.subrange(ci as int, cs.len() as int);
        let ghost cnextsuf = cs.subrange(ci as int + 1, cs.len() as int);
        let ghost sx0 = size_watcher.size_x as int;
        let ghost sy0 = size_watcher.size_y as int;
        proof {
            assert(csuf.drop_first() =~= cnextsuf);
            assert(csuf[0] == cs[ci as int]);
            assert(wf_page_content(cs[ci as int]));
        }
        let ghost before = page_content@;
        let piece = render_page_content(&page.contents[ci], cfg, &mut size_watcher);
        page_content.append(piece.as_str());
        proof {
            let head = page_content_text(cs[ci as int], *cfg);
            assert(page_contents_text(csuf, *cfg) == head + page_contents_text(cnextsuf, *cfg));
            assert(page_content@ + page_contents_text(cnextsuf, *cfg) =~= before
                + page_contents_text(csuf, *cfg));
            let headx = page_content_xs(cs[ci as int], *cfg);
            let heady = page_content_ys(cs[ci as int], *cfg);
            assert(page_contents_xs(csuf, *cfg) == headx + page_contents_xs(cnextsuf, *cfg));
            lemma_seq_max_concat(headx, page_contents_xs(cnextsuf, *cfg), sx0);
            assert(page_contents_ys(csuf, *cfg) == heady + page_contents_ys(cnextsuf, *cfg));
            lemma_seq_max_concat(heady, page_contents_ys(cnextsuf, *cfg), sy0);
        }
        ci = ci + 1;
    }
    proof {
        let cempty = cs.subrange(cs.len() as int, cs.len() as int);
        assert(cempty =~= Seq::<PageContent>::empty());
        assert(page_content@ + Seq::<char>::empty() =~= page_content@);
        assert(page_content@ == target_text);
        assert(size_watcher.size_x as int == target_x);
        assert(size_watcher.size_y as int == target_y);
    }
    let mut page_output = String::new();
    page_output.append("<page width=\"");
    proof {
        assert(page_output@ =~= "<page width=\""@);
    }
    push_fx(&mut page_output, size_watcher.size_x + cfg.page_padding as i128);
    page_output.append("\" height=\"");
    push_fx(&mut page_output, size_watcher.size_y + cfg.page_padding as i128);
    page_output.append(
        "\">\n        <background type=\"solid\" color=\"#ffffffff\" style=\"graph\"/>\n        <layer>\n",
    );
    page_output.append(page_content.as_str());
    page_output.append("</layer>\n</page>\n");
    proof {
        assert(page_width(*page, *cfg) == target_x + cfg.page_padding);
        assert(page_height(*page, *cfg) == target_y + cfg.page_padding);
        assert(page_output@ == page_text(*page, *cfg));
    }
    page_output
}

} // verus!
