use rore::{
    Background, BoxSizing, Color, CornerRadius, Easing, GridLength, GridTemplate, InputState,
    InputType, Overflow, Role, RoreConfig, TextDecoration, TextStyle, TextTransform, Transition,
    ZIndex,
};

#[test]
fn test_framework_structure() {
    let _color = Color::hex("#aabbcc");
    let _config = RoreConfig::desktop();
    println!("Rore-Types muvaffaqiyatli ishlayapti!");
}

#[test]
fn test_full_framework_capabilities() {
    let avatar_bg = Background::Solid(Color::hex("#667eea"));
    let avatar_radius = CornerRadius::all(50);
    let status_color = Color::hex("#4caf50");

    let grid_layout = GridTemplate {
        columns: vec![GridLength::Fr(1), GridLength::Fr(1)],
        rows: vec![GridLength::Auto, GridLength::Px(200)],
    };
    let overflow_mode = Overflow::Scroll;
    let box_sizing = BoxSizing::BorderBox;
    let z_index = ZIndex(100);

    let hover_transition = Transition {
        property: "all".to_string(),
        duration: 300,
        easing: Easing::EaseInOutQuad,
        delay: 0,
    };

    let text_style = TextStyle {
        decoration: TextDecoration::Underline,
        transform: TextTransform::Uppercase,
        ..Default::default()
    };

    let password_input = InputType::Password;
    let input_state = InputState { required: true, ..Default::default() };

    let btn_role = Role::Button;

    // 0.4, 0.49411765, 0.91764706 of full scale
    assert!(matches!(avatar_bg, Background::Solid(c) if c == Color { r: 102, g: 126, b: 234, a: 255 }));
    // above 0.6 of full scale
    assert!(status_color.g as u32 * 10 > 6 * 255);
    assert_eq!(avatar_radius.top_left, 50);

    assert_eq!(grid_layout.columns.len(), 2);
    assert_eq!(overflow_mode, Overflow::Scroll);
    assert_eq!(box_sizing, BoxSizing::BorderBox);
    assert_eq!(z_index.0, 100);

    assert_eq!(hover_transition.duration, 300);

    assert_eq!(text_style.decoration, TextDecoration::Underline);
    assert_eq!(text_style.transform, TextTransform::Uppercase);

    assert_eq!(password_input, InputType::Password);
    assert!(input_state.required);

    assert_eq!(btn_role, Role::Button);

    println!(" MUKAMMAL ishladi!");
}

#[test]
fn hex_colors() {
    assert_eq!(Color::hex("#aabbcc"), Color { r: 170, g: 187, b: 204, a: 255 });
    assert_eq!(Color::hex("aabbcc80"), Color { r: 170, g: 187, b: 204, a: 128 });
    assert_eq!(Color::hex("##FF0000"), Color { r: 255, g: 0, b: 0, a: 255 });
    assert_eq!(Color::hex("#abc"), Color { r: 0, g: 0, b: 0, a: 255 });
    assert_eq!(Color::hex("#zz0000"), Color { r: 0, g: 0, b: 0, a: 255 });
    assert_eq!(Color::hex("#+f0000"), Color { r: 15, g: 0, b: 0, a: 255 });
    assert_eq!(Color::hex("#000000zz"), Color { r: 0, g: 0, b: 0, a: 255 });
}

#[test]
fn color_lerp_halfway() {
    let a = Color { r: 0, g: 100, b: 255, a: 255 };
    let b = Color { r: 100, g: 0, b: 255, a: 55 };
    assert_eq!(a.lerp(&b, 1, 2), Color { r: 50, g: 50, b: 255, a: 155 });
    assert_eq!(a.lerp(&b, 0, 7), a);
    assert_eq!(a.lerp(&b, 7, 7), b);
}

#[test]
fn config_presets() {
    let d = RoreConfig::desktop();
    assert!(d.mouse_support && !d.touch_support && d.animations);
    let lp = RoreConfig::low_power();
    assert!(lp.touch_support && !lp.animations);
    assert!(!RoreConfig::default().disable_animations().animations);
    assert_eq!(RoreConfig::desktop().with_scale(2000).scaling, 2000);
    assert!(RoreConfig::desktop().with_touch(true).touch_support);
}

#[test]
fn easing_curves() {
    assert_eq!(Easing::EaseOutCubic.apply(5, 10), (1000 - 125, 1000));
    assert_eq!(Easing::Linear.apply(5, 10), (500, 1000));
    assert_eq!(Easing::EaseInQuad.apply(5, 10), (250, 1000));
    assert_eq!(Easing::EaseOutCubic.apply(50, 10), (1000, 1000));
}

#[test]
fn defaults_and_timing() {
    let s = rore::Style::default();
    assert_eq!(s.flex_shrink, 1);
    assert_eq!(s.width, rore::Val::Auto);
    let t = Transition::default();
    assert_eq!(t.property, "none");
    assert_eq!(t.easing, Easing::Linear);
    let mut tm = rore::TimeManager::new(1000);
    tm.update(1016);
    assert_eq!((tm.dt, tm.elapsed), (16, 16));
    tm.update(1000);
    assert_eq!((tm.dt, tm.elapsed, tm.last_update), (0, 16, 1000));
    let ts = TextStyle::default();
    assert_eq!(ts.font_family, "Inter");
    assert_eq!(ts.font_size, 16);
}

#[test]
fn keyed_list_insert_remove() {
    let mut k: rore::keyed::KeyedList<i64> = rore::keyed::KeyedList::new();
    k.insert("a".to_string(), 1);
    k.insert("b".to_string(), 2);
    k.insert("a".to_string(), 3);
    assert_eq!(k.len(), 2);
    assert_eq!(k.get(&"a".to_string()), Some(3));
    assert_eq!(k.key_at(0), "a");
    k.remove(&"a".to_string());
    assert_eq!(k.get(&"a".to_string()), None);
    assert_eq!(k.key_at(0), "b");
}
