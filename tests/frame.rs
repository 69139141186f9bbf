use rore::frame::{begin_frame, count_nodes, finish_frame};
use rore::{
    Button, Color, Container, FrameworkState, GlyphRect, Icon, LayoutEngine, Node, Rect,
    RoreConfig, ScrollView, Style, Text, TextInput, TextLayout, TextureSource, Widget,
};

const WHITE: Color = Color { r: 255, g: 255, b: 255, a: 255 };
const RED: Color = Color { r: 255, g: 0, b: 0, a: 255 };

fn line(text_len: usize, w: i64, lh: i64) -> TextLayout {
    let glyphs = (0..text_len)
        .map(|i| GlyphRect { x: i as i64 * w, y: 0, w, h: lh, index: i })
        .collect();
    TextLayout { glyphs, total_size: (text_len as i64 * w, lh), line_height: lh }
}

#[test]
fn frame_renders_button_and_icon() {
    let root = Widget::View(
        Container::new(Style::default())
            .bg(WHITE)
            .child(Widget::Button(Button::new().id("ok")))
            .child(Widget::Icon(Icon::load("i.svg").id("ic").color(RED))),
    );
    assert_eq!(count_nodes(&root), 3);
    let mut tree = LayoutEngine::new();
    let r = begin_frame(&mut tree, &root).unwrap();
    assert_eq!(r, Node(2));
    tree.set_layout(Node(2), Rect::new(0, 0, 400, 300));
    tree.set_layout(Node(0), Rect::new(10, 10, 100, 40));
    tree.set_layout(Node(1), Rect::new(200, 10, 24, 24));
    let mut state = FrameworkState::new(RoreConfig::desktop());
    state.update_cursor(20, 20);
    let out = finish_frame(&mut tree, &mut state, &root, r, &vec![], &"main_scroll".to_string(), 0);
    assert_eq!(state.hovered_node, Some(Node(0)));
    assert_eq!(out.instances.len(), 2);
    assert_eq!(out.instances[0].color_start, WHITE);
    assert_eq!(out.instances[1].position, rore::Point { x: 10, y: 10 });
    assert_eq!(out.instances[1].color_start, Button::new().hover_color);
    assert_eq!(out.images.len(), 1);
    assert_eq!(out.images[0].texture_id, "i.svg::ff00");
    assert_eq!(out.images[0].instances[0].color_start, RED);
    assert!(matches!(
        &out.texture_loads[0],
        (id, TextureSource::Svg { path, width: 48, height: 48 }) if id == "i.svg::ff00" && path == "i.svg"
    ));
}

#[test]
fn pressed_button_moves_down() {
    let root = Widget::Button(Button::new().id("go"));
    let mut tree = LayoutEngine::new();
    let mut state = FrameworkState::new(RoreConfig::desktop());
    state.update_cursor(5, 5);
    let r = begin_frame(&mut tree, &root).unwrap();
    tree.set_layout(r, Rect::new(0, 0, 50, 20));
    finish_frame(&mut tree, &mut state, &root, r, &vec![], &"main_scroll".to_string(), 0);
    state.on_press(&tree);
    let r = begin_frame(&mut tree, &root).unwrap();
    tree.set_layout(r, Rect::new(0, 0, 50, 20));
    let out = finish_frame(&mut tree, &mut state, &root, r, &vec![], &"main_scroll".to_string(), 1000);
    assert_eq!(out.instances[0].position.y, 1);
}

#[test]
fn text_input_drag_selects() {
    let root = Widget::View(
        Container::new(Style::default()).child(Widget::TextInput(TextInput::new("hello").id("name"))),
    );
    let mut tree = LayoutEngine::new();
    let mut state = FrameworkState::new(RoreConfig::desktop());
    let shaped = vec![(Node(0), line(5, 10, 20))];
    let frame = |tree: &mut LayoutEngine, state: &mut FrameworkState| {
        let r = begin_frame(tree, &root).unwrap();
        tree.set_layout(Node(1), Rect::new(0, 0, 400, 300));
        tree.set_layout(Node(0), Rect::new(0, 0, 120, 45));
        finish_frame(tree, state, &root, r, &shaped, &"main_scroll".to_string(), 0)
    };
    state.update_cursor(47, 20);
    let out = frame(&mut tree, &mut state);
    assert_eq!(tree.shape_requests.len(), 1);
    assert_eq!(tree.shape_requests[0].1.content, "hello");
    assert_eq!(out.texts[0].position, rore::Point { x: 10, y: 12 });
    state.on_press(&tree);
    let out = frame(&mut tree, &mut state);
    assert_eq!(state.drag_start_idx, Some(4));
    assert_eq!(state.input_cursor_idx, 4);
    assert_eq!(state.focused_input_id, Some("name".to_string()));
    let caret = out.instances.last().unwrap();
    assert_eq!(caret.position, rore::Point { x: 50, y: 12 });
    state.update_cursor(17, 20);
    let out = frame(&mut tree, &mut state);
    assert_eq!(state.input_selection, Some((1, 4)));
    let sel = out.instances[1];
    assert_eq!(sel.position, rore::Point { x: 20, y: 12 });
    assert_eq!(sel.size, rore::Size { width: 30, height: 20 });
    assert_eq!(sel.clip_rect, Rect::new(2, 2, 116, 41));
}

#[test]
fn scroll_view_shifts_content_and_clips() {
    let content = Widget::View(
        Container::new(Style::default()).child(Widget::Text(Text::new("row"))),
    );
    let root = Widget::ScrollView(ScrollView::new("list", content));
    let mut tree = LayoutEngine::new();
    let mut state = FrameworkState::new(RoreConfig::desktop());
    state.handle_scroll(rore::ScrollDelta::Pixels(-250), &"list".to_string());
    let r = begin_frame(&mut tree, &root).unwrap();
    assert_eq!(r, Node(2));
    tree.set_layout(Node(2), Rect::new(0, 0, 200, 100));
    tree.set_layout(Node(1), Rect::new(0, 0, 200, 300));
    tree.set_layout(Node(0), Rect::new(0, 40, 200, 20));
    let out = finish_frame(&mut tree, &mut state, &root, r, &vec![], &"main_scroll".to_string(), 0);
    assert_eq!(state.scroll_offsets.get(&"list".to_string()), Some(200));
    assert_eq!(out.texts.len(), 1);
    assert_eq!(out.texts[0].position, rore::Point { x: 0, y: -160 });
    assert_eq!(out.texts[0].clip, Some(Rect::new(0, 0, 200, 100)));
    assert_eq!(out.texts[0].wrap_width, Some(200));
}

#[test]
fn extend_merges_image_batches() {
    let inst = |x: i64| rore::Instance {
        position: rore::Point { x, y: 0 },
        size: rore::Size { width: 1, height: 1 },
        color_start: WHITE,
        color_end: WHITE,
        gradient_angle: 0,
        border_radius: 0,
        border_width: 0,
        border_color: WHITE,
        shadow_color: WHITE,
        shadow_offset: rore::Point { x: 0, y: 0 },
        shadow_blur: 0,
        shadow_spread: 0,
        clip_rect: Rect::new(0, 0, 10, 10),
    };
    let mut a = rore::RenderOutput::new();
    a.push_image("t1".to_string(), inst(1));
    let mut b = rore::RenderOutput::new();
    b.push_image("t2".to_string(), inst(2));
    b.push_image("t1".to_string(), inst(3));
    b.instances.push(inst(9));
    a.extend(b);
    assert_eq!(a.images.len(), 2);
    assert_eq!(a.images[0].texture_id, "t1");
    assert_eq!(a.images[0].instances.len(), 2);
    assert_eq!(a.images[0].instances[1].position.x, 3);
    assert_eq!(a.images[1].texture_id, "t2");
    assert_eq!(a.instances.len(), 1);
}

#[test]
fn pressed_node_found_again_by_id() {
    let first = Widget::View(Container::new(Style::default()).child(Widget::Button(Button::new().id("go"))));
    let mut tree = LayoutEngine::new();
    let mut state = FrameworkState::new(RoreConfig::desktop());
    state.update_cursor(5, 5);
    let r = begin_frame(&mut tree, &first).unwrap();
    tree.set_layout(Node(1), Rect::new(0, 0, 300, 300));
    tree.set_layout(Node(0), Rect::new(0, 0, 50, 20));
    finish_frame(&mut tree, &mut state, &first, r, &vec![], &"main_scroll".to_string(), 0);
    assert_eq!(state.hovered_node, Some(Node(0)));
    state.on_press(&tree);
    assert_eq!(state.active_id, Some("go".to_string()));
    let second = Widget::View(
        Container::new(Style::default())
            .child(Widget::Text(Text::new("new first child")))
            .child(Widget::Button(Button::new().id("go"))),
    );
    let r = begin_frame(&mut tree, &second).unwrap();
    tree.set_layout(Node(2), Rect::new(0, 0, 300, 300));
    tree.set_layout(Node(1), Rect::new(0, 100, 50, 20));
    let out = finish_frame(&mut tree, &mut state, &second, r, &vec![], &"main_scroll".to_string(), 0);
    assert_eq!(state.active_node, Some(Node(1)));
    assert_eq!(state.focused_node, Some(Node(1)));
    assert_eq!(out.instances[0].position.y, 101);
}
