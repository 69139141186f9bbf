use rore::render::{button_target, drag_select, icon_texture, input_scroll_x};
use rore::scroll::clamp_offset;
use rore::state::EditKey;
use rore::strings::child_path;
use rore::{
    AppEvent, Button, Color, FrameworkState, LayoutEngine, Node, Rect, RoreConfig, ScrollDelta,
    Style,
};

const RED: Color = Color { r: 255, g: 0, b: 0, a: 255 };
const BLUE: Color = Color { r: 0, g: 0, b: 255, a: 255 };
const WHITE: Color = Color { r: 255, g: 255, b: 255, a: 255 };

#[test]
fn scroll_clamp_examples() {
    assert_eq!(clamp_offset(-50, 1000, 400), 0);
    assert_eq!(clamp_offset(700, 1000, 400), 600);
    assert_eq!(clamp_offset(300, 1000, 400), 300);
    assert_eq!(clamp_offset(300, 200, 400), 0);
}

#[test]
fn scroll_clamp_is_idempotent() {
    for raw in [-7, 0, 5, 599, 600, 601, 10_000] {
        let once = clamp_offset(raw, 1000, 400);
        assert!(once >= 0 && once <= 600);
        assert_eq!(clamp_offset(once, 1000, 400), once);
    }
}

#[test]
fn input_horizontal_scroll_example() {
    assert_eq!(input_scroll_x(false, 140, 100), -42);
    assert_eq!(input_scroll_x(true, 140, 100), 0);
    assert_eq!(input_scroll_x(false, 90, 100), 0);
}

#[test]
fn wheel_scroll_moves_offset() {
    let mut s = FrameworkState::new(RoreConfig::desktop());
    s.needs_redraw = false;
    let id = "main_scroll".to_string();
    s.handle_scroll(ScrollDelta::Lines(-2), &id);
    assert_eq!(s.scroll_offsets.get(&id), Some(80));
    s.handle_scroll(ScrollDelta::Pixels(30), &id);
    assert_eq!(s.scroll_offsets.get(&id), Some(50));
    s.handle_scroll(ScrollDelta::Pixels(i64::MIN), &id);
    assert_eq!(s.scroll_offsets.get(&id), Some(i64::MAX));
    assert!(s.needs_redraw);
}

#[test]
fn animation_retarget_returns_snapshot() {
    let mut s = FrameworkState::new(RoreConfig::desktop());
    let id = "btn".to_string();
    assert_eq!(s.get_animated_color(&id, WHITE, 200, 0), WHITE);
    assert_eq!(s.get_animated_color(&id, RED, 200, 0), WHITE);
    assert!(s.is_animating());
    let shown = s.get_animated_color(&id, BLUE, 200, 100);
    assert_eq!(shown, Color { r: 255, g: 31, b: 31, a: 255 });
    assert_ne!(shown, RED);
    assert_ne!(shown, BLUE);
    let rec = s.color_animations.get(&id).unwrap();
    assert_eq!(rec.start_val, shown);
    assert_eq!(rec.end_val, BLUE);
    assert_eq!(rec.start_time, 100);
}

#[test]
fn animation_completes_exactly_and_stays() {
    let mut s = FrameworkState::new(RoreConfig::desktop());
    let id = "card".to_string();
    s.get_animated_color(&id, WHITE, 150, 0);
    s.get_animated_color(&id, RED, 150, 10);
    let mid = s.get_animated_color(&id, RED, 150, 85);
    assert_ne!(mid, RED);
    assert_eq!(s.get_animated_color(&id, RED, 150, 160), RED);
    assert!(!s.is_animating());
    s.needs_redraw = false;
    assert_eq!(s.get_animated_color(&id, RED, 150, 999), RED);
    assert!(!s.is_animating());
    assert!(!s.needs_redraw);
}

#[test]
fn animations_disabled_is_identity() {
    let mut s = FrameworkState::new(RoreConfig::low_power());
    let id = "x".to_string();
    assert_eq!(s.get_animated_color(&id, RED, 200, 0), RED);
    assert_eq!(s.get_animated_color(&id, BLUE, 200, 10), BLUE);
    assert!(!s.is_animating());
    assert_eq!(s.last_colors.len(), 0);
}

fn two_overlapping() -> (LayoutEngine, Node, Node, Node) {
    let mut t = LayoutEngine::new();
    let a = t.new_leaf(Style::default());
    let b = t.new_leaf(Style::default());
    let p = t.new_node(Style::default(), &vec![a, b]);
    t.register_id(&"a".to_string(), a);
    t.register_id(&"b".to_string(), b);
    t.set_layout(p, Rect::new(0, 0, 300, 300));
    t.set_layout(a, Rect::new(10, 10, 100, 100));
    t.set_layout(b, Rect::new(50, 50, 100, 100));
    (t, p, a, b)
}

#[test]
fn hit_test_topmost_sibling() {
    let (t, p, a, b) = two_overlapping();
    assert_eq!(t.hit_test(p, 80, 80, &vec![]), Some(b));
    assert_eq!(t.hit_test(p, 20, 20, &vec![]), Some(a));
    assert_eq!(t.hit_test(p, 250, 250, &vec![]), None);
    assert_eq!(t.hit_test(p, 400, 400, &vec![]), None);
}

#[test]
fn hit_test_scroll_offset_shifts_children() {
    let (t, p, a, b) = two_overlapping();
    // shifting the children up by 60 puts b at y -10..90 and a at y -50..50
    assert_eq!(t.hit_test(p, 60, 85, &vec![(p, 60)]), Some(b));
    assert_eq!(t.hit_test(p, 60, 95, &vec![(p, 60)]), None);
    assert_eq!(t.hit_test(p, 20, 55, &vec![(p, 60)]), None);
    assert_eq!(t.hit_test(p, 20, 55, &vec![]), Some(a));
    assert_eq!(t.hit_test(p, 20, 55, &vec![(a, 60)]), Some(a));
}

#[test]
fn layout_registry_and_parents() {
    let (t, p, a, b) = two_overlapping();
    assert_eq!(t.get_node(&"b".to_string()), Some(b));
    assert_eq!(t.get_node(&"zz".to_string()), None);
    assert_eq!(t.parent(a), Some(p));
    assert_eq!(t.parent(p), None);
    let l = t.get_final_layout(b, 5, 7);
    assert_eq!((l.x, l.y, l.width, l.height), (55, 57, 100, 100));
    let mut t2 = t;
    t2.clear();
    assert_eq!(t2.node_count(), 0);
    assert_eq!(t2.get_node(&"b".to_string()), None);
}

#[test]
fn scroll_correction_clamps_and_pins() {
    let mut t = LayoutEngine::new();
    let content = t.new_leaf(Style::default());
    let view = t.new_node(Style::default(), &vec![content]);
    t.register_id(&"list".to_string(), view);
    t.set_layout(view, Rect::new(0, 0, 200, 400));
    t.set_layout(content, Rect::new(0, 30, 200, 1000));
    let mut s = FrameworkState::new(RoreConfig::desktop());
    let id = "list".to_string();
    let other = "gone".to_string();
    s.handle_scroll(ScrollDelta::Pixels(-900), &id);
    s.handle_scroll(ScrollDelta::Pixels(5), &other);
    let offs = s.correct_scroll_offsets(&mut t);
    assert_eq!(s.scroll_offsets.get(&id), Some(600));
    assert_eq!(s.scroll_offsets.get(&other), Some(-5));
    assert_eq!(offs, vec![(view, 600)]);
    assert_eq!(t.layout(content).origin.y, 0);
}

#[test]
fn press_release_click_and_focus() {
    let (t, _p, _a, b) = two_overlapping();
    let mut s = FrameworkState::new(RoreConfig::desktop());
    s.hovered_node = Some(b);
    s.on_press(&t);
    assert_eq!(s.active_node, Some(b));
    assert_eq!(s.focused_node, Some(b));
    s.drag_start_idx = Some(3);
    let click = s.on_release(&t);
    assert_eq!(click, Some("b".to_string()));
    assert_eq!(s.active_node, None);
    assert_eq!(s.drag_start_idx, None);
    assert_eq!(s.on_release(&t), None);

    // a release over another node than the pressed one clicks nothing
    let (_, _, a, _) = two_overlapping();
    s.hovered_node = Some(b);
    s.on_press(&t);
    s.hovered_node = Some(a);
    assert_eq!(s.on_release(&t), None);

    s.focused_input_id = Some("name".to_string());
    s.input_selection = Some((1, 2));
    s.hovered_node = None;
    s.on_press(&t);
    assert_eq!(s.focused_input_id, None);
    assert_eq!(s.input_selection, None);
}

#[test]
fn keys_edit_focused_input() {
    let mut s = FrameworkState::new(RoreConfig::desktop());
    assert!(s.on_key(Some("a"), EditKey::Other).is_empty());
    s.focused_input_id = Some("name".to_string());
    let ev = s.on_key(Some("a"), EditKey::Other);
    assert!(matches!(&ev[..], [AppEvent::Input(i, t)] if i == "name" && t == "a"));
    assert_eq!(s.input_cursor_idx, 1);
    let ev = s.on_key(Some("\u{8}"), EditKey::Backspace);
    assert!(matches!(&ev[..], [AppEvent::Input(_, t)] if t == "\u{8}"));
    assert_eq!(s.input_cursor_idx, 0);
    assert!(s.on_key(None, EditKey::Backspace).is_empty());
    let ev = s.on_key(None, EditKey::Enter);
    assert!(matches!(&ev[..], [AppEvent::Input(_, t)] if t == "\n"));
    s.on_key(None, EditKey::ArrowRight);
    s.on_key(None, EditKey::ArrowRight);
    s.on_key(None, EditKey::ArrowLeft);
    assert_eq!(s.input_cursor_idx, 1);
    assert!(s.on_key(Some("\u{85}"), EditKey::Other).is_empty());
}

#[test]
fn drag_selection_steps() {
    let mut s = FrameworkState::new(RoreConfig::desktop());
    drag_select(&mut s, 4);
    assert_eq!(s.drag_start_idx, Some(4));
    assert_eq!(s.input_selection, None);
    drag_select(&mut s, 1);
    assert_eq!(s.input_selection, Some((1, 4)));
    assert_eq!(s.get_normalized_selection(), Some((1, 4)));
    assert_eq!(s.input_cursor_idx, 1);
    drag_select(&mut s, 4);
    assert_eq!(s.input_selection, None);
}

#[test]
fn button_colors_follow_state() {
    let b = Button::new();
    assert_eq!(button_target(&b, true, true), b.active_color);
    assert_eq!(button_target(&b, false, true), b.hover_color);
    assert_eq!(button_target(&b, false, false), b.bg_color);
}

#[test]
fn identities_and_texture_keys() {
    assert_eq!(child_path(&"root".to_string(), 12), "root/12");
    assert_eq!(child_path(&"root/0".to_string(), 0), "root/0/0");
    let tint = Some(Color { r: 255, g: 1, b: 16, a: 255 });
    assert_eq!(icon_texture(&"a.svg".to_string(), tint), "a.svg::ff110");
    assert_eq!(icon_texture(&"a.svg".to_string(), None), "a.svg::original");
}

#[test]
fn scroll_content_origin_uses_clamped_offset() {
    let mut t = LayoutEngine::new();
    let content = t.new_leaf(Style::default());
    let view = t.new_node(Style::default(), &vec![content]);
    t.set_layout(view, Rect::new(0, 0, 200, 100));
    t.set_layout(content, Rect::new(5, 30, 200, 300));
    let o = rore::render::scroll_content_origin(&t, view, 10, 20, 500).unwrap();
    assert_eq!(o, (content, rore::Point { x: 15, y: -150 }));
    let o = rore::render::scroll_content_origin(&t, view, 10, 20, -9).unwrap();
    assert_eq!(o.1, rore::Point { x: 15, y: 50 });
    assert_eq!(rore::render::scroll_content_origin(&t, content, 0, 0, 5), None);
}
