use rore::{GlyphRect, Rect, TextLayout};

fn line(n: usize, w: i64, lh: i64) -> TextLayout {
    let mut glyphs = Vec::new();
    for i in 0..n {
        glyphs.push(GlyphRect { x: i as i64 * w, y: 0, w, h: lh, index: i });
    }
    TextLayout { glyphs, total_size: (n as i64 * w, lh), line_height: lh }
}

#[test]
fn hit_right_half_moves_caret_after_glyph() {
    let t = line(6, 10, 20);
    // glyph at byte 3 spans 30..40, center 35
    assert_eq!(t.hit_test(36, 10), 4);
    assert_eq!(t.hit_test(34, 10), 3);
    assert_eq!(t.hit_test(35, 10), 3);
}

#[test]
fn hit_test_empty_and_far() {
    let empty = TextLayout { glyphs: vec![], total_size: (0, 20), line_height: 20 };
    assert_eq!(empty.hit_test(100, 100), 0);
    let t = line(3, 10, 20);
    assert_eq!(t.hit_test(-500, 10), 0);
    assert_eq!(t.hit_test(500, 10), 3);
}

#[test]
fn hit_test_prefers_same_line() {
    let mut t = line(2, 10, 20);
    t.glyphs.push(GlyphRect { x: 0, y: 20, w: 10, h: 20, index: 2 });
    t.glyphs.push(GlyphRect { x: 10, y: 20, w: 10, h: 20, index: 3 });
    assert_eq!(t.hit_test(4, 30), 2);
    assert_eq!(t.hit_test(4, 8), 0);
}

#[test]
fn cursor_positions() {
    let t = line(3, 10, 20);
    assert_eq!(t.get_cursor_pos(0), Some((0, 0, 20)));
    assert_eq!(t.get_cursor_pos(2), Some((20, 0, 20)));
    assert_eq!(t.get_cursor_pos(3), Some((30, 0, 20)));
    assert_eq!(t.get_cursor_pos(9), Some((30, 0, 20)));
    let empty = TextLayout { glyphs: vec![], total_size: (0, 24), line_height: 24 };
    assert_eq!(empty.get_cursor_pos(5), Some((0, 0, 24)));
}

#[test]
fn cursor_missing_byte_offset() {
    let t = TextLayout {
        glyphs: vec![
            GlyphRect { x: 0, y: 0, w: 10, h: 20, index: 0 },
            GlyphRect { x: 10, y: 0, w: 10, h: 20, index: 2 },
            GlyphRect { x: 20, y: 0, w: 10, h: 20, index: 4 },
        ],
        total_size: (30, 20),
        line_height: 20,
    };
    assert_eq!(t.get_cursor_pos(1), None);
    assert_eq!(t.get_cursor_pos(2), Some((10, 0, 20)));
}

#[test]
fn cursor_never_moves_left() {
    let t = line(5, 7, 20);
    let mut prev = t.get_cursor_pos(0).unwrap().0;
    for i in 1..8 {
        let x = t.get_cursor_pos(i).unwrap().0;
        assert!(prev <= x);
        prev = x;
    }
}

#[test]
fn select_all_covers_measured_size() {
    let t = line(4, 9, 21);
    let rects = t.get_selection_rects(0, 4);
    assert_eq!(rects, vec![Rect::new(0, 0, t.total_size.0, t.total_size.1)]);
}

#[test]
fn selection_per_line_and_empty() {
    let mut t = line(3, 10, 20);
    t.glyphs.push(GlyphRect { x: 0, y: 20, w: 10, h: 20, index: 3 });
    t.glyphs.push(GlyphRect { x: 10, y: 20, w: 10, h: 20, index: 4 });
    let rects = t.get_selection_rects(1, 5);
    assert_eq!(rects, vec![Rect::new(10, 0, 20, 20), Rect::new(0, 20, 20, 20)]);
    assert!(t.get_selection_rects(3, 3).is_empty());
    assert!(t.get_selection_rects(4, 1).is_empty());
}

#[test]
fn caret_keys_on_byte_offsets() {
    // "éa": é takes bytes 0..2, a starts at byte 2
    let t = TextLayout {
        glyphs: vec![
            GlyphRect { x: 0, y: 0, w: 10, h: 20, index: 0 },
            GlyphRect { x: 10, y: 0, w: 10, h: 20, index: 2 },
        ],
        total_size: (20, 20),
        line_height: 20,
    };
    assert_eq!(t.get_cursor_pos(2), Some((10, 0, 20)));
    assert_eq!(t.get_cursor_pos(3), Some((20, 0, 20)));
    assert_eq!(t.get_cursor_pos(1), None);
    // two glyphs of one cluster at byte 0
    let c = TextLayout {
        glyphs: vec![
            GlyphRect { x: 0, y: 0, w: 6, h: 20, index: 0 },
            GlyphRect { x: 6, y: 0, w: 4, h: 20, index: 0 },
        ],
        total_size: (10, 20),
        line_height: 20,
    };
    assert_eq!(c.get_cursor_pos(1), Some((10, 0, 20)));
    assert_eq!(c.get_cursor_pos(0), Some((0, 0, 20)));
}
