use one2xopp::config::RenderConfig;
use one2xopp::model::{
    Content, Image, Ink, InkPoint, InkStroke, Outline, OutlineElement, OutlineItem, Page,
    PageContent,
};
use one2xopp::render::{
    flatten_outline_items, render_image, render_ink, render_outline, render_page,
    render_page_content,
};
use one2xopp::size::SizeWatcher;

fn cfg() -> RenderConfig {
    RenderConfig::default()
}

fn stroke(points: Vec<(i64, i64)>, color: Option<u32>) -> InkStroke {
    InkStroke {
        path: points.into_iter().map(|(x, y)| InkPoint { x, y }).collect(),
        color,
    }
}

fn plain_ink(strokes: Vec<InkStroke>) -> Ink {
    Ink {
        ink_strokes: strokes,
        offset_horizontal: None,
        offset_vertical: None,
    }
}

#[test]
fn color_white_packs_to_ffffffff() {
    let c = cfg();
    let mut w = SizeWatcher::new(&c);
    let ink = plain_ink(vec![stroke(vec![(0, 0), (1000, 1000)], Some(16_777_215))]);
    let out = render_ink(&ink, &c, &mut w);
    assert_eq!(
        out,
        "<stroke tool=\"pen\" color=\"#ffffffff\" width=\"1.41\">0 0 0.016 0.016 0.016 0.016 </stroke>\n"
    );
}

#[test]
fn color_red_packs_without_zero_padding() {
    let c = cfg();
    let mut w = SizeWatcher::new(&c);
    let ink = plain_ink(vec![stroke(vec![(0, 0), (1000, 1000)], Some(255))]);
    let out = render_ink(&ink, &c, &mut w);
    assert!(out.contains("color=\"#ff00ff\""), "got: {out}");
}

#[test]
fn absent_color_renders_black() {
    let c = cfg();
    let mut w = SizeWatcher::new(&c);
    let ink = plain_ink(vec![stroke(vec![(0, 0), (1000, 1000)], None)]);
    let out = render_ink(&ink, &c, &mut w);
    assert!(out.contains("color=\"black\""), "got: {out}");
}

fn count_pairs(stroke_block: &str) -> usize {
    let open = stroke_block.find('>').unwrap();
    let close = stroke_block.find("</stroke>").unwrap();
    let coords = &stroke_block[open + 1..close];
    let nums: Vec<&str> = coords.split_whitespace().collect();
    assert!(nums.len() % 2 == 0);
    nums.len() / 2
}

#[test]
fn short_strokes_duplicate_final_pair_once() {
    let c = cfg();
    let mut w = SizeWatcher::new(&c);
    let two = render_ink(
        &plain_ink(vec![stroke(vec![(0, 0), (1000, 0)], None)]),
        &c,
        &mut w,
    );
    assert_eq!(count_pairs(&two), 3);
    let three = render_ink(
        &plain_ink(vec![stroke(vec![(0, 0), (1000, 0), (0, 1000)], None)]),
        &c,
        &mut w,
    );
    assert_eq!(count_pairs(&three), 4);
    // the duplicated trailing pair is literally the final pair repeated
    assert!(two.ends_with("0.016 0 0.016 0 </stroke>\n"), "got: {two}");
}

#[test]
fn four_point_stroke_emits_one_pair_per_point() {
    let c = cfg();
    let mut w = SizeWatcher::new(&c);
    let four = render_ink(
        &plain_ink(vec![stroke(
            vec![(0, 0), (1000, 0), (0, 1000), (1000, 1000)],
            None,
        )]),
        &c,
        &mut w,
    );
    assert_eq!(count_pairs(&four), 4);
}

#[test]
fn stroke_coordinates_are_scaled_cumulative_sums_with_offset_once() {
    // offset 1 unit, ink offset factor 1270 => offset term 1270 units;
    // scaled by 0.016 => 20.32. A zero delta must repeat the same value:
    // the offset enters the running sum exactly once.
    let c = cfg();
    let mut w = SizeWatcher::new(&c);
    let ink = Ink {
        ink_strokes: vec![stroke(vec![(0, 0), (0, 0), (0, 0), (0, 0)], None)],
        offset_horizontal: Some(1000),
        offset_vertical: None,
    };
    let out = render_ink(&ink, &c, &mut w);
    assert!(
        out.contains(">20.32 0 20.32 0 20.32 0 20.32 0 </stroke>"),
        "got: {out}"
    );
}

#[test]
fn negative_deltas_format_with_sign() {
    let c = cfg();
    let mut w = SizeWatcher::new(&c);
    let out = render_ink(
        &plain_ink(vec![stroke(
            vec![(0, 0), (-1000, -1000), (0, 0), (0, 0)],
            None,
        )]),
        &c,
        &mut w,
    );
    assert!(out.contains("-0.016 -0.016 "), "got: {out}");
}

#[test]
fn strokes_with_fewer_than_two_points_are_dropped() {
    let c = cfg();
    let mut w = SizeWatcher::new(&c);
    let out = render_ink(
        &plain_ink(vec![
            stroke(vec![], None),
            stroke(vec![(5000, 5000)], None),
        ]),
        &c,
        &mut w,
    );
    assert_eq!(out, "");
    let empty = render_ink(&plain_ink(vec![]), &c, &mut w);
    assert_eq!(empty, "");
}

#[test]
fn image_encodes_bytes_and_bounding_box() {
    let c = cfg();
    let mut w = SizeWatcher::new(&c);
    let image = Image {
        data: Some(vec![77, 97, 110]),
        layout_max_width: Some(10_000),
        layout_max_height: Some(10_000),
        offset_horizontal: Some(0),
        offset_vertical: Some(0),
    };
    let out = render_image(&image, None, &c, &mut w);
    assert_eq!(
        out,
        "<image left=\"0\" top=\"0\" right=\"200\" bottom=\"200\">TWFu</image>\n"
    );
}

#[test]
fn image_without_data_encodes_empty_payload() {
    let c = cfg();
    let mut w = SizeWatcher::new(&c);
    let image = Image {
        data: None,
        layout_max_width: None,
        layout_max_height: None,
        offset_horizontal: None,
        offset_vertical: None,
    };
    // absent width/height fall back to 100 units, scaled by 20.
    let out = render_image(&image, None, &c, &mut w);
    assert_eq!(
        out,
        "<image left=\"0\" top=\"0\" right=\"2000\" bottom=\"2000\"></image>\n"
    );
}

#[test]
fn base64_payload_of_three_zero_bytes() {
    let c = cfg();
    let mut w = SizeWatcher::new(&c);
    let image = Image {
        data: Some(vec![0, 0, 0]),
        layout_max_width: Some(1000),
        layout_max_height: Some(1000),
        offset_horizontal: Some(0),
        offset_vertical: Some(0),
    };
    let out = render_image(&image, None, &c, &mut w);
    assert!(out.contains(">AAAA</image>"), "got: {out}");
}

fn element_with_rich_texts(n: usize) -> OutlineElement {
    OutlineElement {
        contents: (0..n).map(|_| Content::RichText).collect(),
        children: vec![],
    }
}

#[test]
fn nested_groups_flatten_in_document_order() {
    // Group [ A, Group [ B ], C ]  =>  [A, B, C]
    let a = element_with_rich_texts(1);
    let b = element_with_rich_texts(2);
    let c = element_with_rich_texts(3);
    let items = vec![OutlineItem::Group(vec![
        OutlineItem::Element(a),
        OutlineItem::Group(vec![OutlineItem::Element(b)]),
        OutlineItem::Element(c),
    ])];
    let flat = flatten_outline_items(&items);
    let sizes: Vec<usize> = flat.iter().map(|e| e.contents.len()).collect();
    assert_eq!(sizes, vec![1, 2, 3]);
}

#[test]
fn outline_offset_applies_to_contained_images() {
    // end-to-end scenario: outline at offset (1,1), one element whose
    // content is a 10x10 image at offset (0,0).
    let c = cfg();
    let page = Page {
        title: None,
        contents: vec![PageContent::Outline(Outline {
            offset_horizontal: Some(1000),
            offset_vertical: Some(1000),
            items: vec![OutlineItem::Element(OutlineElement {
                contents: vec![Content::Image(Image {
                    data: None,
                    layout_max_width: Some(10_000),
                    layout_max_height: Some(10_000),
                    offset_horizontal: Some(0),
                    offset_vertical: Some(0),
                })],
                children: vec![],
            })],
        })],
    };
    let out = render_page(&page, &c);
    // left/top = 1 * outline offset factor (20); right - left = 10 * image
    // scaling factor (20) = 200.
    assert!(
        out.contains("<image left=\"20\" top=\"20\" right=\"220\" bottom=\"220\">"),
        "got: {out}"
    );
    assert!(out.starts_with("<page width=\"625.276\" height=\"871.89\">"), "got: {out}");
}

#[test]
fn page_canvas_grows_with_content_plus_padding() {
    let c = cfg();
    let page = Page {
        title: None,
        contents: vec![PageContent::Image(Image {
            data: None,
            layout_max_width: Some(50_000),
            layout_max_height: Some(1000),
            offset_horizontal: Some(0),
            offset_vertical: Some(0),
        })],
    };
    // right = 50 * 20 = 1000 units > min width; width = 1000 + 30 padding.
    let out = render_page(&page, &c);
    assert!(out.starts_with("<page width=\"1030\" height=\"871.89\">"), "got: {out}");
}

#[test]
fn empty_page_uses_minimum_canvas() {
    let c = cfg();
    let page = Page {
        title: None,
        contents: vec![],
    };
    let out = render_page(&page, &c);
    assert_eq!(
        out,
        "<page width=\"625.276\" height=\"871.89\">\n        <background type=\"solid\" color=\"#ffffffff\" style=\"graph\"/>\n        <layer>\n</layer>\n</page>\n"
    );
}

#[test]
fn rendering_twice_is_identical() {
    let c = cfg();
    let page = Page {
        title: None,
        contents: vec![
            PageContent::Ink(Ink {
                ink_strokes: vec![stroke(vec![(0, 0), (2000, 3000)], Some(255))],
                offset_horizontal: Some(500),
                offset_vertical: Some(-500),
            }),
            PageContent::Unknown,
            PageContent::EmbeddedFile,
        ],
    };
    let first = render_page(&page, &c);
    let second = render_page(&page, &c);
    assert_eq!(first, second);
}

#[test]
fn unsupported_content_renders_empty_but_does_not_abort() {
    let c = cfg();
    let mut w = SizeWatcher::new(&c);
    let out = render_page_content(&PageContent::Unknown, &c, &mut w);
    assert_eq!(out, "");
    let page = Page {
        title: None,
        contents: vec![
            PageContent::Unknown,
            PageContent::Ink(plain_ink(vec![stroke(vec![(0, 0), (1000, 0)], None)])),
        ],
    };
    let out = render_page(&page, &c);
    assert!(out.contains("<stroke"), "got: {out}");
}

#[test]
fn elements_with_children_still_render_their_own_content() {
    let c = cfg();
    let mut w = SizeWatcher::new(&c);
    let outline = Outline {
        offset_horizontal: None,
        offset_vertical: None,
        items: vec![OutlineItem::Element(OutlineElement {
            contents: vec![Content::Ink(plain_ink(vec![stroke(
                vec![(0, 0), (1000, 0)],
                None,
            )]))],
            children: vec![element_with_rich_texts(1)],
        })],
    };
    let out = render_outline(&outline, &c, &mut w);
    assert!(out.contains("<stroke"), "got: {out}");
}

#[test]
fn size_watcher_returns_input_and_never_shrinks() {
    let c = cfg();
    let mut w = SizeWatcher::new(&c);
    assert_eq!(w.size_x, 595_276);
    assert_eq!(w.size_y, 841_890);
    assert_eq!(w.check_x(1_000_000), 1_000_000);
    assert_eq!(w.size_x, 1_000_000);
    assert_eq!(w.check_x(5), 5);
    assert_eq!(w.size_x, 1_000_000);
    assert_eq!(w.check_y(-7), -7);
    assert_eq!(w.size_y, 841_890);
}

#[test]
fn fixed_point_fractions_drop_trailing_zeros() {
    // 31.25 units * 0.016 = 0.5 units: printed as "0.5", not "0.500".
    let c = cfg();
    let mut w = SizeWatcher::new(&c);
    let out = render_ink(
        &plain_ink(vec![stroke(vec![(31_250, 0), (0, 0), (0, 0), (0, 0)], None)]),
        &c,
        &mut w,
    );
    assert!(out.contains(">0.5 0 "), "got: {out}");
}

#[test]
fn doubled_scale_doubles_image_boxes() {
    let c = RenderConfig {
        scale: 2000,
        ..RenderConfig::default()
    };
    let mut w = SizeWatcher::new(&c);
    let image = Image {
        data: None,
        layout_max_width: Some(10_000),
        layout_max_height: Some(10_000),
        offset_horizontal: Some(0),
        offset_vertical: Some(0),
    };
    let out = render_image(&image, None, &c, &mut w);
    assert_eq!(
        out,
        "<image left=\"0\" top=\"0\" right=\"400\" bottom=\"400\"></image>\n"
    );
}

#[test]
fn config_factors_match_documented_formulas() {
    let c = cfg();
    assert_eq!(c.outline_offset_factor(), 20_000);
    assert_eq!(c.image_scaling_factor(), 20_000);
    assert_eq!(c.image_offset_factor(), 20_000);
    assert_eq!(c.ink_scaling_factor(), 16);
    assert_eq!(c.ink_offset_factor(), 1_270_000);
    let double = RenderConfig {
        scale: 2000,
        ..RenderConfig::default()
    };
    assert_eq!(double.image_scaling_factor(), 40_000);
    assert_eq!(double.ink_scaling_factor(), 32);
}

#[test]
fn coordinates_at_the_model_bound_render_exactly() {
    // the largest coordinate the model admits: one billion milli.
    let c = cfg();
    let mut w = SizeWatcher::new(&c);
    let out = render_ink(
        &plain_ink(vec![stroke(
            vec![(1_000_000_000, -1_000_000_000), (0, 0), (0, 0), (0, 0)],
            None,
        )]),
        &c,
        &mut w,
    );
    // 1e9 milli * 0.016 = 16,000,000 milli = 16000 units.
    assert!(out.contains(">16000 -16000 "), "got: {out}");
    assert_eq!(w.size_x, 16_000_000);
}
