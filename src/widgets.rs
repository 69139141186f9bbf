//! The closed set of widgets, their constructors, and building their layout nodes.

use vstd::prelude::*;
use crate::color::Color;
use crate::geometry::Point;
use crate::tree::{LayoutEngine, Node, TextMeasure, MAX_NODES};
use crate::ui::{Align, Display, FlexDirection, Style, Thickness, Val};

verus! {

/// A container (a view): style, children, background, corners, border and shadow.
pub struct Container {
    pub id: Option<String>,
    pub style: Style,
    pub children: Vec<Widget>,
    pub background: Color,
    pub border_radius: i64,
    pub border_width: i64,
    pub border_color: Color,
    pub shadow_color: Color,
    pub shadow_offset: Point,
    pub shadow_blur: i64,
}

/// A view whose background follows hover and press.
pub struct Button {
    pub id: Option<String>,
    pub view: Container,
    pub bg_color: Color,
    pub hover_color: Color,
    pub active_color: Color,
}

/// A text sized by the text engine.
pub struct Text {
    pub id: Option<String>,
    pub content: String,
    pub size: u32,
    pub color: Color,
    pub style: Style,
}

/// A single-line text field. It reports edits and never changes `value` itself.
pub struct TextInput {
    pub id: Option<String>,
    pub value: String,
    pub placeholder: String,
    pub style: Style,
    pub bg_color: Color,
    pub text_color: Color,
}

/// A container that shows its one content child shifted by its scroll offset.
pub struct ScrollView {
    pub id: String,
    pub content: Box<Widget>,
    pub style: Style,
}

/// A vector icon, optionally tinted.
pub struct Icon {
    pub id: Option<String>,
    pub path: String,
    pub style: Style,
    pub color: Option<Color>,
}

/// A raster image from a file.
pub struct Image {
    pub id: Option<String>,
    pub path: String,
    pub style: Style,
    pub border_radius: i64,
}

/// The closed set of widget kinds.
pub enum Widget {
    View(Container),
    Button(Button),
    Text(Text),
    TextInput(TextInput),
    ScrollView(ScrollView),
    Icon(Icon),
    Image(Image),
}

/// How many layout nodes a widget builds.
pub open spec fn widget_size(w: &Widget) -> nat
    decreases w,
{
    match w {
        Widget::View(v) => 1 + children_size(v.children@),
        Widget::Button(b) => 1 + children_size(b.view.children@),
        Widget::ScrollView(s) => 1 + widget_size(&*s.content),
        _ => 1,
    }
}

pub open spec fn children_size(s: Seq<Widget>) -> nat
    decreases s,
{
    if s.len() == 0 {
        0
    } else {
        children_size(s.subrange(0, s.len() - 1)) + widget_size(&s[s.len() - 1])
    }
}

/// What building leaves unchanged in the arena and what it adds.
pub open spec fn grown(before: &LayoutEngine, after: &LayoutEngine, added: int) -> bool {
    &&& after.wf()
    &&& after.len() == before.len() + added
    &&& after.root == before.root
    &&& forall|n: int| 0 <= n < before.len() ==> #[trigger] after.kids(n) == before.kids(n)
}

proof fn lemma_children_size_prefix(s: Seq<Widget>, k: int)
    requires
        0 <= k < s.len(),
    ensures
        children_size(s.subrange(0, k + 1)) == children_size(s.subrange(0, k)) + widget_size(&s[k]),
        children_size(s.subrange(0, k)) + widget_size(&s[k]) <= children_size(s),
    decreases s.len() - k,
{
    let t = s.subrange(0, k + 1);
    assert(t.subrange(0, t.len() - 1) =~= s.subrange(0, k));
    if k + 1 < s.len() {
        lemma_children_size_prefix(s, k + 1);
    } else {
        assert(s.subrange(0, k + 1) =~= s);
    }
}

fn build_children(
    children: &Vec<Widget>,
    tree: &mut LayoutEngine,
) -> (r: Vec<Node>)
    requires
        old(tree).wf(),
        old(tree).len() + children_size(children@) <= MAX_NODES,
    ensures
        grown(&*old(tree), &*final(tree), children_size(children@) as int),
        r@.len() == children@.len(),
        forall|k: int| 0 <= k < r@.len() ==> final(tree).valid(#[trigger] r@[k]),
    decreases children@, 0int,
{
    let mut kids: Vec<Node> = Vec::new();
    let mut i: usize = 0;
    let ghost start = tree.len();
    assert(children@.subrange(0, 0) =~= Seq::<Widget>::empty());
    while i < children.len()
        invariant
            0 <= i <= children@.len(),
            tree.wf(),
            start == old(tree).len(),
            tree.len() == start + children_size(children@.subrange(0, i as int)),
            start + children_size(children@) <= MAX_NODES,
            grown(&*old(tree), &*tree, children_size(children@.subrange(0, i as int)) as int),
            kids@.len() == i,
            forall|k: int| 0 <= k < i ==> tree.valid(#[trigger] kids@[k]),
        decreases children@.len() - i,
    {
        proof {
            lemma_children_size_prefix(children@, i as int);
        }
        let ghost mid = *tree;
        let node = children[i].build(tree);
        proof {
            assert forall|n: int| 0 <= n < old(tree).len() implies #[trigger] tree.kids(n) == old(tree).kids(n) by {
                assert(mid.kids(n) == old(tree).kids(n));
            }
        }
        kids.push(node);
        i = i + 1;
    }
    assert(children@.subrange(0, children@.len() as int) =~= children@);
    kids
}

impl Widget {
    /// Builds the layout nodes of this widget, children first, and returns its node.
    pub fn build(&self, tree: &mut LayoutEngine) -> (r: Node)
        requires
            old(tree).wf(),
            old(tree).len() + widget_size(self) <= MAX_NODES,
        ensures
            grown(&*old(tree), &*final(tree), widget_size(self) as int),
            r.0 == final(tree).len() - 1,
            self is ScrollView ==> final(tree).styles@[r.0 as int].justify_content == Align::Start
                && final(tree).styles@[r.0 as int].align_items == Align::Start,
            self is ScrollView ==> final(tree).kids(r.0 as int).len() == 1,
            self matches Widget::ScrollView(s) ==> final(tree).id_map@.contains_key(s.id@)
                && final(tree).id_map@[s.id@] == r.0,
            self matches Widget::View(v) ==> final(tree).kids(r.0 as int).len() == v.children@.len(),
            self matches Widget::Button(b) ==> final(tree).kids(r.0 as int).len()
                == b.view.children@.len(),
            self matches Widget::Text(_) ==> final(tree).kids(r.0 as int).len() == 0
                && final(tree).measures@[r.0 as int] is Some,
        decreases self, 1int,
    {
        match self {
            Widget::View(v) => {
                let kids = build_children(&v.children, tree);
                let ghost t1 = *tree;
                let node = tree.new_node(v.style.clone(), &kids);
                let ghost t_mid = *tree;
                register_opt(tree, &v.id, node);
                proof {
                    assert(tree.children@ == t_mid.children@);
                    assert forall|n: int| 0 <= n < t1.len() implies #[trigger] tree.kids(n) == t1.kids(n) by {
                        assert(t_mid.kids(n) == t1.kids(n));
                    }
                    lemma_grown_then_node(&*old(tree), &t1, &*tree, children_size(v.children@) as int);
                }
                node
            },
            Widget::Button(b) => {
                let kids = build_children(&b.view.children, tree);
                let ghost t1 = *tree;
                let node = tree.new_node(b.view.style.clone(), &kids);
                let ghost t_mid = *tree;
                register_opt(tree, &b.view.id, node);
                register_opt(tree, &b.id, node);
                proof {
                    assert(tree.children@ == t_mid.children@);
                    assert forall|n: int| 0 <= n < t1.len() implies #[trigger] tree.kids(n) == t1.kids(n) by {
                        assert(t_mid.kids(n) == t1.kids(n));
                    }
                    lemma_grown_then_node(&*old(tree), &t1, &*tree, children_size(b.view.children@) as int);
                }
                node
            },
            Widget::Text(t) => {
                tree.new_leaf_with_measure(
                    t.style.clone(),
                    TextMeasure { content: t.content.clone(), font_size: t.size },
                )
            },
            Widget::TextInput(t) => {
                let node = tree.new_leaf(t.style.clone());
                register_opt(tree, &t.id, node);
                let shown = if t.value.as_str().is_empty() { t.placeholder.clone() } else { t.value.clone() };
                let ghost t1 = *tree;
                tree.shape_requests.push((node, TextMeasure { content: shown, font_size: INPUT_FONT_SIZE }));
                proof {
                    assert(tree.children@ == t1.children@);
                    assert(tree.styles@ == t1.styles@);
                    assert(tree.parents@ == t1.parents@);
                    assert(tree.layouts@ == t1.layouts@);
                    assert(tree.id_map == t1.id_map);
                    assert forall|n: int, k: int|
                        0 <= n < tree.len() && 0 <= k < tree.kids(n).len() implies #[trigger] tree.kids(n)[k].0 < n by {
                        assert(tree.kids(n) == t1.kids(n));
                    }
                    assert forall|n: int| 0 <= n < old(tree).len() implies #[trigger] tree.kids(n) == old(tree).kids(n) by {
                        assert(tree.kids(n) == t1.kids(n));
                    }
                }
                node
            },
            Widget::ScrollView(s) => {
                let content = s.content.build(tree);
                let mut forced = s.style.clone();
                forced.justify_content = Align::Start;
                forced.align_items = Align::Start;
                let mut kids: Vec<Node> = Vec::new();
                kids.push(content);
                let ghost t1 = *tree;
                let node = tree.new_node(forced, &kids);
                let ghost t_mid = *tree;
                tree.register_id(&s.id, node);
                proof {
                    assert forall|n: int| 0 <= n < t1.len() implies #[trigger] tree.kids(n) == t1.kids(n) by {
                        assert(tree.children@[n] == t_mid.children@[n]);
                        assert(t_mid.kids(n) == t1.kids(n));
                    }
                    lemma_grown_then_node(&*old(tree), &t1, &*tree, widget_size(&*s.content) as int);
                }
                node
            },
            Widget::Icon(i) => {
                let node = tree.new_leaf(i.style.clone());
                register_opt(tree, &i.id, node);
                node
            },
            Widget::Image(i) => {
                let node = tree.new_leaf(i.style.clone());
                register_opt(tree, &i.id, node);
                node
            },
        }
    }
}

proof fn lemma_grown_then_node(t0: &LayoutEngine, t1: &LayoutEngine, t2: &LayoutEngine, added: int)
    requires
        grown(t0, t1, added),
        added >= 0,
        t2.wf(),
        t2.len() == t1.len() + 1,
        t2.root == t1.root,
        forall|n: int| 0 <= n < t1.len() ==> #[trigger] t2.kids(n) == t1.kids(n),
    ensures
        grown(t0, t2, added + 1),
{
    assert forall|n: int| 0 <= n < t0.len() implies #[trigger] t2.kids(n) == t0.kids(n) by {
        assert(t1.kids(n) == t0.kids(n));
    }
}

/// The font size of text inputs, in pixels.
pub const INPUT_FONT_SIZE: u32 = 18;

fn register_opt(tree: &mut LayoutEngine, id: &Option<String>, node: Node)
    requires
        old(tree).wf(),
        old(tree).valid(node),
    ensures
        final(tree).wf(),
        final(tree).len() == old(tree).len(),
        final(tree).children@ == old(tree).children@,
        forall|n: int| #[trigger] final(tree).kids(n) == old(tree).kids(n),
        final(tree).styles@ == old(tree).styles@,
        final(tree).root == old(tree).root,
        id is Some ==> final(tree).has_id(node.0 as int),
        id is None ==> final(tree).node_ids@ == old(tree).node_ids@,
{
    match id {
        Some(s) => tree.register_id(s, node),
        None => {},
    }
}

pub open spec fn opt_view(o: Option<String>) -> Option<Seq<char>> {
    match o {
        Some(s) => Some(s@),
        None => None,
    }
}

/// The default surface color.
pub open spec fn surface() -> Color {
    Color { r: 0x31, g: 0x32, b: 0x44, a: 255 }
}

/// The default text color.
pub open spec fn text_default() -> Color {
    Color { r: 0xcd, g: 0xd6, b: 0xf4, a: 255 }
}

impl Container {
    /// An empty transparent container with no border or shadow.
    pub fn new(style: Style) -> (r: Container)
        ensures
            r.id is None,
            r.style == style,
            r.children@.len() == 0,
            r.background == (Color { r: 0, g: 0, b: 0, a: 0 }),
            r.border_radius == 0 && r.border_width == 0,
            r.border_color == (Color { r: 0, g: 0, b: 0, a: 0 }),
            r.shadow_color == (Color { r: 0, g: 0, b: 0, a: 0 }),
            r.shadow_offset == (Point { x: 0, y: 0 }),
            r.shadow_blur == 0,
    {
        let none = Color { r: 0, g: 0, b: 0, a: 0 };
        Container {
            id: None,
            style,
            children: Vec::new(),
            background: none,
            border_radius: 0,
            border_width: 0,
            border_color: none,
            shadow_color: none,
            shadow_offset: Point { x: 0, y: 0 },
            shadow_blur: 0,
        }
    }

    pub fn id(self, id: &str) -> (r: Container)
        ensures
            opt_view(r.id) == Some(id@),
            r.children == self.children,
            r.background == self.background,
            r.style == self.style,
            r.border_radius == self.border_radius,
    {
        Container { id: Some(String::from_str(id)), ..self }
    }

    /// Appends a child.
    pub fn child(self, w: Widget) -> (r: Container)
        ensures
            r.children@ == self.children@.push(w),
            r.id == self.id,
            r.background == self.background,
            r.style == self.style,
            r.border_radius == self.border_radius,
    {
        let mut c = self;
        c.children.push(w);
        c
    }

    pub fn bg(self, c: Color) -> (r: Container)
        ensures
            r.background == c,
            r.children == self.children,
            r.id == self.id,
            r.style == self.style,
            r.border_radius == self.border_radius,
    {
        Container { background: c, ..self }
    }

    pub fn rounded(self, radius: i64) -> (r: Container)
        ensures
            r.border_radius == radius,
            r.children == self.children,
            r.background == self.background,
            r.style == self.style,
    {
        Container { border_radius: radius, ..self }
    }

    pub fn border(self, width: i64, c: Color) -> (r: Container)
        ensures
            r.border_width == width,
            r.border_color == c,
            r.children == self.children,
            r.background == self.background,
            r.style == self.style,
            r.border_radius == self.border_radius,
    {
        Container { border_width: width, border_color: c, ..self }
    }

    pub fn shadow(self, c: Color, offset: Point, blur: i64) -> (r: Container)
        ensures
            r.shadow_color == c,
            r.shadow_offset == offset,
            r.shadow_blur == blur,
            r.children == self.children,
            r.background == self.background,
            r.style == self.style,
            r.border_radius == self.border_radius,
    {
        Container { shadow_color: c, shadow_offset: offset, shadow_blur: blur, ..self }
    }
}

impl Button {
    /// A padded, centered, rounded button on the surface color, lighter when hovered and
    /// lighter still when pressed.
    pub fn new() -> (r: Button)
        ensures
            r.id is None,
            r.bg_color == surface(),
            r.hover_color == (Color { r: 0x45, g: 0x47, b: 0x5a, a: 255 }),
            r.active_color == (Color { r: 0x58, g: 0x5b, b: 0x70, a: 255 }),
            r.view.background == surface(),
            r.view.border_radius == 8,
            r.view.children@.len() == 0,
            r.view.style.padding == (Thickness {
                top: Val::Px(12),
                bottom: Val::Px(12),
                left: Val::Px(24),
                right: Val::Px(24),
            }),
            r.view.style.justify_content == Align::Center,
            r.view.style.align_items == Align::Center,
    {
        let mut style = Style::default();
        style.padding = Thickness { top: Val::Px(12), bottom: Val::Px(12), left: Val::Px(24), right: Val::Px(24) };
        style.display = Display::Flex;
        style.justify_content = Align::Center;
        style.align_items = Align::Center;
        style.margin = Thickness { top: Val::Auto, right: Val::Auto, bottom: Val::Px(8), left: Val::Auto };
        let bg = Color { r: 0x31, g: 0x32, b: 0x44, a: 255 };
        let view = Container::new(style).bg(bg).rounded(8);
        Button {
            id: None,
            view,
            bg_color: bg,
            hover_color: Color { r: 0x45, g: 0x47, b: 0x5a, a: 255 },
            active_color: Color { r: 0x58, g: 0x5b, b: 0x70, a: 255 },
        }
    }

    pub fn id(self, id: &str) -> (r: Button)
        ensures
            opt_view(r.id) == Some(id@),
            r.bg_color == self.bg_color,
    {
        Button { id: Some(String::from_str(id)), ..self }
    }

    /// Sets the resting background.
    pub fn bg(self, c: Color) -> (r: Button)
        ensures
            r.bg_color == c,
            r.view.background == c,
            r.hover_color == self.hover_color,
            r.active_color == self.active_color,
    {
        let view = Container { background: c, ..self.view };
        Button { bg_color: c, view, ..self }
    }

    pub fn child(self, w: Widget) -> (r: Button)
        ensures
            r.view.children@ == self.view.children@.push(w),
            r.bg_color == self.bg_color,
    {
        let view = self.view.child(w);
        Button { view, ..self }
    }
}

impl Text {
    /// A 16 pixel text in the default text color.
    pub fn new(content: &str) -> (r: Text)
        ensures
            r.id is None,
            r.content@ == content@,
            r.size == 16,
            r.color == text_default(),
            r.style.is_default(),
    {
        Text {
            id: None,
            content: String::from_str(content),
            size: 16,
            color: Color { r: 0xcd, g: 0xd6, b: 0xf4, a: 255 },
            style: Style::default(),
        }
    }

    pub fn id(self, id: &str) -> (r: Text)
        ensures
            opt_view(r.id) == Some(id@),
            r.content == self.content,
    {
        Text { id: Some(String::from_str(id)), ..self }
    }

    pub fn size(self, s: u32) -> (r: Text)
        ensures
            r.size == s,
            r.content == self.content,
    {
        Text { size: s, ..self }
    }

    pub fn color(self, c: Color) -> (r: Text)
        ensures
            r.color == c,
            r.content == self.content,
    {
        Text { color: c, ..self }
    }

    pub fn style(self, s: Style) -> (r: Text)
        ensures
            r.style == s,
            r.content == self.content,
    {
        Text { style: s, ..self }
    }
}

impl TextInput {
    /// A 200 by 45 pixel field with 10 pixels of side padding and the placeholder
    /// `Type here...`.
    pub fn new(value: &str) -> (r: TextInput)
        ensures
            r.id is None,
            r.value@ == value@,
            r.placeholder@ == seq!['T', 'y', 'p', 'e', ' ', 'h', 'e', 'r', 'e', '.', '.', '.'],
            r.style.width == Val::Px(200),
            r.style.height == Val::Px(45),
            r.style.padding.left == Val::Px(10),
            r.style.padding.right == Val::Px(10),
            r.bg_color == surface(),
            r.text_color == text_default(),
    {
        let mut style = Style::default();
        style.width = Val::Px(200);
        style.height = Val::Px(45);
        style.display = Display::Flex;
        style.align_items = Align::Center;
        style.padding = Thickness { top: Val::Auto, right: Val::Px(10), bottom: Val::Auto, left: Val::Px(10) };
        style.margin = Thickness { top: Val::Auto, right: Val::Auto, bottom: Val::Px(10), left: Val::Auto };
        proof {
            reveal_strlit("Type here...");
        }
        TextInput {
            id: None,
            value: String::from_str(value),
            placeholder: String::from_str("Type here..."),
            style,
            bg_color: Color { r: 0x31, g: 0x32, b: 0x44, a: 255 },
            text_color: Color { r: 0xcd, g: 0xd6, b: 0xf4, a: 255 },
        }
    }

    pub fn id(self, id: &str) -> (r: TextInput)
        ensures
            opt_view(r.id) == Some(id@),
            r.value == self.value,
    {
        TextInput { id: Some(String::from_str(id)), ..self }
    }

    pub fn placeholder(self, text: &str) -> (r: TextInput)
        ensures
            r.placeholder@ == text@,
            r.value == self.value,
    {
        TextInput { placeholder: String::from_str(text), ..self }
    }
}

impl ScrollView {
    /// A full-size column that scrolls `content`, pinned to the start.
    pub fn new(id: &str, content: Widget) -> (r: ScrollView)
        ensures
            r.id@ == id@,
            *r.content == content,
            r.style.display == Display::Flex,
            r.style.flex_direction == FlexDirection::Column,
            r.style.width == Val::Percent(100),
            r.style.height == Val::Percent(100),
            r.style.justify_content == Align::Start,
            r.style.align_items == Align::Start,
            r.style.align_content == Align::Start,
    {
        let mut style = Style::default();
        style.display = Display::Flex;
        style.flex_direction = FlexDirection::Column;
        style.width = Val::Percent(100);
        style.height = Val::Percent(100);
        style.justify_content = Align::Start;
        style.align_items = Align::Start;
        style.align_content = Align::Start;
        ScrollView { id: String::from_str(id), content: Box::new(content), style }
    }

    pub fn style(self, s: Style) -> (r: ScrollView)
        ensures
            r.style == s,
            r.id == self.id,
    {
        ScrollView { style: s, ..self }
    }
}

impl Icon {
    /// A 24 pixel untinted icon from a vector image file.
    pub fn load(path: &str) -> (r: Icon)
        ensures
            r.id is None,
            r.path@ == path@,
            r.style.width == Val::Px(24),
            r.style.height == Val::Px(24),
            r.color is None,
    {
        let mut style = Style::default();
        style.width = Val::Px(24);
        style.height = Val::Px(24);
        Icon { id: None, path: String::from_str(path), style, color: None }
    }

    pub fn id(self, id: &str) -> (r: Icon)
        ensures
            opt_view(r.id) == Some(id@),
            r.path == self.path,
    {
        Icon { id: Some(String::from_str(id)), ..self }
    }

    pub fn size(self, size: i64) -> (r: Icon)
        ensures
            r.style.width == Val::Px(size),
            r.style.height == Val::Px(size),
            r.path == self.path,
    {
        let mut icon = self;
        icon.style.width = Val::Px(size);
        icon.style.height = Val::Px(size);
        icon
    }

    pub fn color(self, c: Color) -> (r: Icon)
        ensures
            r.color == Some(c),
            r.path == self.path,
    {
        Icon { color: Some(c), ..self }
    }
}

impl Image {
    /// An image from a file, at its automatic size with square corners.
    pub fn load(path: &str) -> (r: Image)
        ensures
            r.id is None,
            r.path@ == path@,
            r.style.is_default(),
            r.border_radius == 0,
    {
        Image { id: None, path: String::from_str(path), style: Style::default(), border_radius: 0 }
    }

    pub fn id(self, id: &str) -> (r: Image)
        ensures
            opt_view(r.id) == Some(id@),
            r.path == self.path,
    {
        Image { id: Some(String::from_str(id)), ..self }
    }

    pub fn size(self, width: i64, height: i64) -> (r: Image)
        ensures
            r.style.width == Val::Px(width),
            r.style.height == Val::Px(height),
            r.path == self.path,
    {
        let mut image = self;
        image.style.width = Val::Px(width);
        image.style.height = Val::Px(height);
        image
    }

    pub fn rounded(self, radius: i64) -> (r: Image)
        ensures
            r.border_radius == radius,
            r.path == self.path,
    {
        Image { border_radius: radius, ..self }
    }
}

} // verus!
