//! The layout engine end to end: measuring, composing and rendering a
//! small chart against hand-computed expectations.

use barh::boxes::ChartBoxes;
use barh::cmd::DrawCmd;
use barh::config::{Config, Error, HorAxis, Item};
use barh::font::{FontData, FontMetrics};
use barh::geom::Rect;
use barh::main_layout::MainLayout;
use barh::num::Dec;

fn dec(m: u64, e: u32) -> Dec {
    Dec::new(false, m, e).unwrap()
}

fn item(name: &str, m: u64, e: u32) -> Item {
    Item { name: name.to_string(), value: dec(m, e), color: "#3260cd".to_string() }
}

fn font_data() -> FontData {
    FontData { family: "Stub".to_string(), size: 10, path: "stub.ttf".to_string() }
}

fn stub_metrics() -> FontMetrics {
    // height() is 13, so bars are 18 high with a border inset of 3
    FontMetrics::new("Stub".to_string(), 10, 16).unwrap()
}

fn boxf(w: u32, h: u32) -> Rect {
    Rect { x: 0, y: 0, w, h }
}

fn two_item_config() -> Config {
    Config {
        title: None,
        items: vec![item("alpha", 10, 0), item("beta", 40, 0)],
        debug: false,
        items_font: font_data(),
        hor_axis: None,
    }
}

fn two_item_boxes() -> ChartBoxes {
    ChartBoxes {
        tick_boxes: vec![boxf(20, 8); 5],
        zero_box: boxf(10, 8),
        max_box: boxf(30, 8),
        annotation_boxes: vec![boxf(15, 8); 2],
        name_boxes: vec![boxf(40, 8), boxf(25, 8)],
        title_box: None,
        haxis_title_box: None,
    }
}

#[test]
fn canvas_size_matches_hand_computation() {
    let c = two_item_config();
    let boxes = two_item_boxes();
    let fm = stub_metrics();
    assert!(c.valid());
    assert!(boxes.valid(&c));
    let mut ml = MainLayout::new(c);
    ml.required_texts().unwrap();
    ml.calc_layout(&fm, &boxes).unwrap();
    // plot: 30 * 15 = 450 wide; name column: 40 + 4 = 44
    assert_eq!(ml.width(), 494);
    // bars: 2*18 + 3*9 = 63, plus margins 8 above and 16 below
    assert_eq!(ml.height(), 87);
    assert_eq!(ml.bars_lay.lay.size.w, 450);
    assert_eq!(ml.bars_lay.lay.size.h, 87);
    assert_eq!(ml.vaxis_lay.lay.size.w, 44);
    assert_eq!(ml.vaxis_lay.lay.size.h, 87);
}

#[test]
fn ticks_and_bars_match_hand_computation() {
    let c = two_item_config();
    let boxes = two_item_boxes();
    let fm = stub_metrics();
    let mut ml = MainLayout::new(c);
    ml.calc_layout(&fm, &boxes).unwrap();
    // ceiling 40, drawable width 450 - 5 - 15 = 430
    assert_eq!(ml.bars_lay.max_value, dec(40, 0));
    let pos: Vec<u32> = ml.bars_lay.ticks.iter().map(|t| t.pos).collect();
    assert_eq!(pos, vec![5, 112, 220, 327, 435]);
    let titles: Vec<&str> = ml.bars_lay.ticks.iter().map(|t| t.title.as_str()).collect();
    assert_eq!(titles, vec!["0", "10", "20", "30", "40"]);
    // bars: 10 and 40 of ceiling 40 on 430 drawable pixels
    assert_eq!(ml.bars_lay.bars[0].r, Rect { x: 5, y: 17, w: 107, h: 18 });
    assert_eq!(ml.bars_lay.bars[1].r, Rect { x: 5, y: 44, w: 430, h: 18 });
    assert_eq!(ml.bars_lay.bars[0].annotation, "10");
    assert_eq!(ml.bars_lay.bars[1].annotation, "40");
    // both annotations fit inside their bars, right-aligned with inset 3
    assert_eq!(ml.bars_lay.bars[0].annotation_bbox, Rect { x: 94, y: 28, w: 15, h: 8 });
    assert_eq!(ml.bars_lay.bars[1].annotation_bbox, Rect { x: 417, y: 55, w: 15, h: 8 });
    // the name column got the annotation baselines
    assert_eq!(ml.vaxis_lay.ticks, vec![28, 55]);
}

fn single_item_config(m: u64) -> Config {
    Config {
        title: None,
        items: vec![item("only", m, 0)],
        debug: false,
        items_font: font_data(),
        hor_axis: Some(HorAxis {
            title: None,
            suffix: None,
            max_value: Some(dec(100, 0)),
            ticks: None,
            width: Some(120),
        }),
    }
}

fn single_item_boxes(ann_w: u32) -> ChartBoxes {
    ChartBoxes {
        tick_boxes: vec![boxf(0, 0); 5],
        zero_box: boxf(0, 0),
        max_box: boxf(0, 0),
        annotation_boxes: vec![boxf(ann_w, 8)],
        name_boxes: vec![boxf(10, 8)],
        title_box: None,
        haxis_title_box: None,
    }
}

#[test]
fn annotation_inside_a_bar_with_room() {
    // bar fills the whole 120-pixel drawable; a 50-wide annotation fits
    let c = single_item_config(100);
    let boxes = single_item_boxes(50);
    let fm = stub_metrics();
    let mut ml = MainLayout::new(c);
    ml.calc_layout(&fm, &boxes).unwrap();
    let bar = &ml.bars_lay.bars[0];
    assert_eq!(bar.r.w, 120);
    // inside: right-aligned with the border inset of 3
    assert_eq!(bar.annotation_bbox.x, 120 - 50 - 3);
    // no handle is drawn for an inside annotation
    let cmds = ml.draw_layout(&fm, 0, 0);
    assert!(!cmds.iter().any(|c| matches!(c, DrawCmd::HLine { .. })));
}

#[test]
fn annotation_outside_a_narrow_bar_with_handle() {
    // a 12-pixel bar cannot hold a 15-wide annotation: it goes outside,
    // past a handle of 13 * 3 / 4 = 9 pixels and a 2-pixel gap
    let c = single_item_config(10);
    let boxes = single_item_boxes(15);
    let fm = stub_metrics();
    let mut ml = MainLayout::new(c);
    ml.calc_layout(&fm, &boxes).unwrap();
    let bar = &ml.bars_lay.bars[0];
    assert_eq!(bar.r.w, 12);
    assert_eq!(bar.annotation_bbox.x, 12 + 9 + 2);
    let cmds = ml.draw_layout(&fm, 0, 0);
    let handle = cmds.iter().find_map(|c| match c {
        DrawCmd::HLine { len, .. } => Some(*len),
        _ => None,
    });
    assert_eq!(handle, Some(9));
}

#[test]
fn empty_item_list_is_rejected() {
    let c = Config {
        title: None,
        items: vec![],
        debug: false,
        items_font: font_data(),
        hor_axis: None,
    };
    let boxes = ChartBoxes {
        tick_boxes: vec![boxf(0, 0); 5],
        zero_box: boxf(0, 0),
        max_box: boxf(0, 0),
        annotation_boxes: vec![],
        name_boxes: vec![],
        title_box: None,
        haxis_title_box: None,
    };
    let fm = stub_metrics();
    let mut ml = MainLayout::new(c);
    assert_eq!(ml.required_texts(), Err(Error::ItemsIsNotSet));
    assert_eq!(ml.calc_layout(&fm, &boxes), Err(Error::ItemsIsNotSet));
}

#[test]
fn negative_value_is_rejected() {
    let mut c = two_item_config();
    c.items[1].value = Dec::new(true, 40, 0).unwrap();
    let boxes = two_item_boxes();
    let fm = stub_metrics();
    let mut ml = MainLayout::new(c);
    assert_eq!(ml.required_texts(), Err(Error::VelueMustBePositive));
    assert_eq!(ml.calc_layout(&fm, &boxes), Err(Error::VelueMustBePositive));
}

#[test]
fn all_zero_values_are_rejected() {
    let mut c = two_item_config();
    c.items[0].value = dec(0, 0);
    c.items[1].value = dec(0, 0);
    let boxes = two_item_boxes();
    let fm = stub_metrics();
    let mut ml = MainLayout::new(c);
    assert_eq!(ml.required_texts(), Err(Error::ZeroMaxValue));
    assert_eq!(ml.calc_layout(&fm, &boxes), Err(Error::ZeroMaxValue));
}

#[test]
fn required_texts_lists_every_label() {
    let mut c = two_item_config();
    c.hor_axis = Some(HorAxis {
        title: Some("Duration".to_string()),
        suffix: Some("ms".to_string()),
        max_value: None,
        ticks: None,
        width: None,
    });
    c.title = Some("Benchmarks".to_string());
    let ml = MainLayout::new(c);
    let texts = ml.required_texts().unwrap();
    assert_eq!(texts.tick_labels, vec!["0ms", "10ms", "20ms", "30ms", "40ms"]);
    assert_eq!(texts.zero_label, "0ms");
    assert_eq!(texts.max_label, "40ms");
    assert_eq!(texts.annotations, vec!["10", "40"]);
    assert_eq!(texts.names, vec!["alpha", "beta"]);
    assert_eq!(texts.title.as_deref(), Some("Benchmarks"));
    assert_eq!(texts.haxis_title.as_deref(), Some("Duration"));
}

#[test]
fn rendering_twice_gives_identical_commands() {
    let fm = stub_metrics();
    let mut a = MainLayout::new(two_item_config());
    a.calc_layout(&fm, &two_item_boxes()).unwrap();
    let first = a.draw_layout(&fm, 0, 0);
    let second = a.draw_layout(&fm, 0, 0);
    assert_eq!(first, second);
    // a separate measure over the same inputs renders the same commands
    let mut b = MainLayout::new(two_item_config());
    b.calc_layout(&fm, &two_item_boxes()).unwrap();
    assert_eq!(b.draw_layout(&fm, 0, 0), first);
}

#[test]
fn zero_guide_line_is_drawn_last() {
    let fm = stub_metrics();
    let mut ml = MainLayout::new(two_item_config());
    ml.calc_layout(&fm, &two_item_boxes()).unwrap();
    let cmds = ml.draw_layout(&fm, 0, 0);
    match cmds.last().unwrap() {
        DrawCmd::VLine { x, fill, .. } => {
            // at the zero tick, above the bars, in the dark guide color
            assert_eq!(*x, 44 + 5);
            assert_eq!(fill.as_deref(), Some("#333"));
        },
        other => panic!("unexpected final command: {other:?}"),
    }
}

#[test]
fn debug_mode_adds_outlines() {
    let fm = stub_metrics();
    let mut plain = MainLayout::new(two_item_config());
    plain.calc_layout(&fm, &two_item_boxes()).unwrap();
    let mut debug = MainLayout::new(two_item_config());
    debug.set_enable_debug(true);
    debug.calc_layout(&fm, &two_item_boxes()).unwrap();
    let n_plain = plain.draw_layout(&fm, 0, 0).len();
    let n_debug = debug.draw_layout(&fm, 0, 0).len();
    // two block outlines, one outline per tick label, one per name,
    // and the column outline
    assert_eq!(n_debug, n_plain + 2 + 5 + 2 + 1);
}

#[test]
fn explicit_ticks_are_used_verbatim() {
    let mut c = two_item_config();
    c.hor_axis = Some(HorAxis {
        title: None,
        suffix: None,
        max_value: None,
        ticks: Some(vec![dec(10, 0), dec(20, 0), dec(30, 0)]),
        width: None,
    });
    let boxes = ChartBoxes {
        tick_boxes: vec![boxf(20, 8); 3],
        zero_box: boxf(10, 8),
        max_box: boxf(30, 8),
        annotation_boxes: vec![boxf(15, 8); 2],
        name_boxes: vec![boxf(40, 8), boxf(25, 8)],
        title_box: None,
        haxis_title_box: None,
    };
    let fm = stub_metrics();
    let mut ml = MainLayout::new(c);
    let texts = ml.required_texts().unwrap();
    assert_eq!(texts.tick_labels, vec!["10", "20", "30"]);
    ml.calc_layout(&fm, &boxes).unwrap();
    assert_eq!(ml.bars_lay.ticks.len(), 3);
    let values: Vec<Dec> = ml.bars_lay.ticks.iter().map(|t| t.value).collect();
    assert_eq!(values, vec![dec(10, 0), dec(20, 0), dec(30, 0)]);
    // three labels of width 30 with the spacing factor of three
    assert_eq!(ml.bars_lay.lay.size.w, 30 * 9);
}

#[test]
fn too_narrow_a_plot_is_rejected() {
    let mut c = two_item_config();
    c.hor_axis = Some(HorAxis {
        title: None,
        suffix: None,
        max_value: None,
        ticks: None,
        width: Some(4),
    });
    let boxes = two_item_boxes();
    let fm = stub_metrics();
    let mut ml = MainLayout::new(c);
    // margins of 5 and 15 pixels do not fit in a 4-pixel plot
    assert_eq!(ml.calc_layout(&fm, &boxes), Err(Error::PlotTooNarrow));
}
