//! Geometry helpers and the glyph-box fold.

use barh::font::{bbox_from_glyphs, FontMetrics, GlyphBox};
use barh::geom::{Margins, Rect, Size};

#[test]
fn rect_operations() {
    let r = Rect::new(3, 4, 100, 50);
    assert_eq!(r, Rect { x: 3, y: 4, w: 100, h: 50 });
    assert_eq!(r.right(), 103);
    let m = Margins { left: 10, top: 5, right: 20, bottom: 15 };
    assert_eq!(r.adjusted(&m), Rect { x: 13, y: 9, w: 70, h: 30 });
    let s = Size { w: 8, h: 9 };
    assert_eq!(s.into_rect(1, 2), Rect { x: 1, y: 2, w: 8, h: 9 });
}

#[test]
fn font_height_is_ninety_dpi() {
    let fm = FontMetrics::new("Stub".to_string(), 12, 20).unwrap();
    // 12 * 1.3333 rounded
    assert_eq!(fm.height(), 16);
    assert_eq!(fm.full_height(), 20);
    assert_eq!(fm.font_size(), 12);
    assert_eq!(fm.family(), "Stub");
}

#[test]
fn tiny_or_huge_metrics_are_refused() {
    assert!(FontMetrics::new("Stub".to_string(), 2, 20).is_none());
    assert!(FontMetrics::new("Stub".to_string(), 12, 70000).is_none());
}

#[test]
fn glyph_fold_matches_the_layout_loop() {
    // two glyphs plus one empty slot: the width comes from the last
    // glyph's start and width, grown by the hinting allowance
    let glyphs = vec![
        Some(GlyphBox { min_x: 0, min_y: 1, max_x: 7, max_y: 9 }),
        None,
        Some(GlyphBox { min_x: 8, min_y: 2, max_x: 15, max_y: 10 }),
    ];
    let r = bbox_from_glyphs(&glyphs);
    // w = (8 + 7) * 28 / 25 = 16, h = max(9 + 8, 10 + 8) = 18, y = -10
    assert_eq!(r, Rect { x: 0, y: -10, w: 16, h: 18 });
}

#[test]
fn glyph_fold_of_nothing_is_empty() {
    let r = bbox_from_glyphs(&vec![]);
    assert_eq!(r, Rect { x: 0, y: 0, w: 0, h: 0 });
}
