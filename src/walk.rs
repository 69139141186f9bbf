//! What the render walk produces, stated as a relation between the interaction state
//! before and after a widget is drawn and the output it adds.

use vstd::prelude::*;
use vstd::utf8::encode_utf8;
use crate::anim::{resolve_model, AnimModel, AnimState};
use crate::color::Color;
use crate::geometry::{clip_spec, Point, Rect, Size};
use crate::output::{add_batch, merge_batches, Instance, RenderOutput, TextDraw, TextureSource};
use crate::scroll::clamp_spec;
use crate::state::{normalized, FrameworkState};
use crate::strings::decimal;
use crate::text::{cursor_spec, hit_test_spec, selection_spec, TextLayout};
use crate::tree::{LayoutEngine, Node};
use crate::widgets::{opt_view, Button, Container, TextInput, Widget, INPUT_FONT_SIZE};

verus! {

/// Milliseconds a button's background takes to follow hover and press.
pub const BUTTON_FADE_MS: u32 = 150;

/// Milliseconds a container's background takes to change.
pub const VIEW_FADE_MS: u32 = 200;

/// Side padding of a text input's text, in pixels.
pub const INPUT_PADDING_X: i64 = 10;

/// Top padding of a text input's text, in pixels.
pub const INPUT_PADDING_Y: i64 = 12;

/// Space kept right of the text when an input scrolls it, in pixels.
pub const INPUT_TRAILING_MARGIN: i64 = 2;

/// Height of the caret, in pixels.
pub const CARET_HEIGHT: i64 = 20;

/// How far a pressed button moves down, in pixels.
pub const PRESS_DEPTH: i64 = 1;

/// What the render walk reads but never changes.
pub struct RCtx {
    pub animations: bool,
    pub hovered: Option<Node>,
    pub active: Option<Node>,
    pub focused: Option<Node>,
    pub cursor: Point,
    pub offsets: Map<Seq<char>, i64>,
}

/// What the render walk may change: the animation table, the redraw flag, and the
/// text-input drag, selection, caret and focus.
pub struct RState {
    pub anims: Map<Seq<char>, AnimState>,
    pub last: Map<Seq<char>, Color>,
    pub redraw: bool,
    pub drag: Option<usize>,
    pub sel: Option<(usize, usize)>,
    pub caret: usize,
    pub focus_input: Option<Seq<char>>,
}

pub open spec fn rctx(s: &FrameworkState) -> RCtx {
    RCtx {
        animations: s.config.animations,
        hovered: s.hovered_node,
        active: s.active_node,
        focused: s.focused_node,
        cursor: s.cursor_pos,
        offsets: s.scroll_offsets@,
    }
}

pub open spec fn rstate(s: &FrameworkState) -> RState {
    RState {
        anims: s.color_animations@,
        last: s.last_colors@,
        redraw: s.needs_redraw,
        drag: s.drag_start_idx,
        sel: s.input_selection,
        caret: s.input_cursor_idx,
        focus_input: opt_view(s.focused_input_id),
    }
}

/// A texture source with its strings as character sequences.
pub enum SourceView {
    Path(Seq<char>),
    Bytes(Seq<u8>),
    Svg { path: Seq<char>, width: u32, height: u32 },
}

pub open spec fn source_view(s: TextureSource) -> SourceView {
    match s {
        TextureSource::Path(p) => SourceView::Path(p@),
        TextureSource::Bytes(b) => SourceView::Bytes(b@),
        TextureSource::Svg { path, width, height } => SourceView::Svg { path: path@, width, height },
    }
}

/// The draw output as values.
pub struct OutView {
    pub instances: Seq<Instance>,
    pub texts: Seq<TextDraw>,
    pub batches: Seq<(Seq<char>, Seq<Instance>)>,
    pub loads: Seq<(Seq<char>, SourceView)>,
}

pub open spec fn loads_view(l: Seq<(String, TextureSource)>) -> Seq<(Seq<char>, SourceView)> {
    l.map_values(|e: (String, TextureSource)| (e.0@, source_view(e.1)))
}

pub open spec fn out_view(o: &RenderOutput) -> OutView {
    OutView {
        instances: o.instances@,
        texts: o.texts@,
        batches: o.batches(),
        loads: loads_view(o.texture_loads@),
    }
}

pub open spec fn empty_out() -> OutView {
    OutView {
        instances: Seq::empty(),
        texts: Seq::empty(),
        batches: Seq::empty(),
        loads: Seq::empty(),
    }
}

/// Appending one output after another, as `RenderOutput::extend` does.
pub open spec fn extend_view(a: OutView, b: OutView) -> OutView {
    OutView {
        instances: a.instances + b.instances,
        texts: a.texts + b.texts,
        batches: merge_batches(a.batches, b.batches),
        loads: a.loads + b.loads,
    }
}

/// Resolving a background color through the animation table, or taking the target
/// as it is when animations are off.
pub open spec fn anim_apply(ctx: RCtx, s: RState, key: Seq<char>, target: Color, duration: u32, now: u64) -> (RState, Color) {
    if ctx.animations {
        let (m, c, changed) = resolve_model(
            AnimModel { anims: s.anims, last: s.last },
            key,
            target,
            duration,
            now as int,
        );
        (RState { anims: m.anims, last: m.last, redraw: s.redraw || changed, ..s }, c)
    } else {
        (s, target)
    }
}

/// The animation key of a widget: its stable id, else its structural path.
pub open spec fn anim_key(id: Option<String>, path: Seq<char>) -> Seq<char> {
    match id {
        Some(s) => s@,
        None => path,
    }
}

/// The clip used where no ancestor clips.
pub open spec fn default_clip() -> Rect {
    Rect { origin: Point { x: -10000i64, y: -10000i64 }, size: Size { width: 20000, height: 20000 } }
}

pub open spec fn eff_clip(clip: Option<Rect>) -> Rect {
    match clip {
        Some(c) => c,
        None => default_clip(),
    }
}

/// The absolute top-left corner of `node` under a parent at `pos`.
pub open spec fn abs_origin(tree: &LayoutEngine, node: Node, pos: Point) -> Point {
    Point {
        x: (pos.x + tree.layouts@[node.0 as int].origin.x) as i64,
        y: (pos.y + tree.layouts@[node.0 as int].origin.y) as i64,
    }
}

/// A flat rectangle of one color without border or shadow.
pub open spec fn plain_spec(position: Point, size: Size, color: Color, clip_rect: Rect) -> Instance {
    Instance {
        position,
        size,
        color_start: color,
        color_end: color,
        gradient_angle: 0,
        border_radius: 0,
        border_width: 0,
        border_color: Color { r: 0, g: 0, b: 0, a: 0 },
        shadow_color: Color { r: 0, g: 0, b: 0, a: 0 },
        shadow_offset: Point { x: 0, y: 0 },
        shadow_blur: 0,
        shadow_spread: 0,
        clip_rect,
    }
}

/// A container's own rectangle in color `c`.
pub open spec fn view_instance(v: &Container, position: Point, size: Size, c: Color, clip_rect: Rect) -> Instance {
    Instance {
        position,
        size,
        color_start: c,
        color_end: c,
        gradient_angle: 0,
        border_radius: v.border_radius,
        border_width: v.border_width,
        border_color: v.border_color,
        shadow_color: v.shadow_color,
        shadow_offset: v.shadow_offset,
        shadow_blur: v.shadow_blur,
        shadow_spread: 0,
        clip_rect,
    }
}

/// The background a button shows: pressed, then hovered, then at rest.
pub open spec fn button_target_spec(b: &Button, active: bool, hovered: bool) -> Color {
    if active {
        b.active_color
    } else if hovered {
        b.hover_color
    } else {
        b.bg_color
    }
}

/// How far an input shifts its text left so the end stays visible: none while the
/// placeholder shows or the text fits.
pub open spec fn input_scroll_spec(placeholder: bool, text_width: int, available: int) -> int {
    if !placeholder && text_width > available {
        available - text_width - INPUT_TRAILING_MARGIN
    } else {
        0
    }
}

/// The drag-to-select step for the caret index `idx` under the pointer: the first frame
/// fixes the anchor; the selection then spans from the smaller of anchor and `idx` to
/// the larger, and is empty where they meet.
pub open spec fn drag_spec(anchor: Option<usize>, idx: usize) -> (Option<usize>, Option<(usize, usize)>) {
    let a = match anchor {
        Some(a) => a,
        None => idx,
    };
    (Some(a), if a < idx {
        Some((a, idx))
    } else if idx < a {
        Some((idx, a))
    } else {
        None
    })
}

/// The position of the first shaped text for `node`.
pub open spec fn shaped_index(s: Seq<(Node, TextLayout)>, node: Node) -> Option<int>
    decreases s.len(),
{
    if s.len() == 0 {
        None
    } else if s[0].0 == node {
        Some(0)
    } else {
        match shaped_index(s.drop_first(), node) {
            Some(k) => Some(k + 1),
            None => None,
        }
    }
}

/// The measured width of the text shaped for `node`, zero when none was.
pub open spec fn shaped_width(s: Seq<(Node, TextLayout)>, node: Node) -> int {
    match shaped_index(s, node) {
        Some(k) => s[k].1.total_size.0 as int,
        None => 0,
    }
}

/// Whether an input shows as active: its node holds focus, or its stable id is the
/// focused input's.
pub open spec fn input_active_spec(t: &TextInput, ctx: RCtx, s: RState, node: Node) -> bool {
    ctx.focused == Some(node) || (t.id is Some && s.focus_input == opt_view(t.id))
}

/// The box an input draws: its background, a wider highlighted border while active.
pub open spec fn input_box(t: &TextInput, x: i64, y: i64, w: i64, h: i64, active: bool, clip: Rect) -> Instance {
    Instance {
        position: Point { x, y },
        size: Size { width: w, height: h },
        color_start: t.bg_color,
        color_end: t.bg_color,
        gradient_angle: 0,
        border_radius: 8,
        border_width: if active { 2 } else { 1 },
        border_color: if active {
            Color { r: 135, g: 179, b: 250, a: 255 }
        } else {
            Color { r: 89, g: 89, b: 115, a: 255 }
        },
        shadow_color: Color { r: 0, g: 0, b: 0, a: 0 },
        shadow_offset: Point { x: 0, y: 0 },
        shadow_blur: 0,
        shadow_spread: 0,
        clip_rect: clip,
    }
}

pub open spec fn sel_color() -> Color {
    Color { r: 51, g: 102, b: 204, a: 102 }
}

pub open spec fn caret_color() -> Color {
    Color { r: 204, g: 204, b: 230, a: 255 }
}

/// Half of `v`, rounded toward zero.
pub open spec fn half(v: int) -> int {
    if v >= 0 { v / 2 } else { -((-v) / 2) }
}

/// The selection highlights, moved to the text origin.
pub open spec fn sel_instances(rects: Seq<Rect>, tx: int, ty: int, clip: Rect) -> Seq<Instance> {
    Seq::new(
        rects.len(),
        |q: int|
            plain_spec(
                Point { x: (tx + rects[q].origin.x) as i64, y: (ty + rects[q].origin.y) as i64 },
                rects[q].size,
                sel_color(),
                clip,
            ),
    )
}

/// The interaction state after drawing an input: while it is pressed, the pointer's
/// caret index drives the drag selection, becomes the caret, and the input takes focus.
pub open spec fn input_state_after(
    t: &TextInput,
    ctx: RCtx,
    node: Node,
    tx: int,
    ty: int,
    shaped: Seq<(Node, TextLayout)>,
    s: RState,
) -> RState {
    match shaped_index(shaped, node) {
        Some(k) => if ctx.active == Some(node) {
            let idx = hit_test_spec(shaped[k].1.glyphs@, ctx.cursor.x - tx, ctx.cursor.y - ty) as usize;
            let (d, sel) = drag_spec(s.drag, idx);
            RState { drag: d, sel, caret: idx, focus_input: opt_view(t.id), ..s }
        } else {
            s
        },
        None => s,
    }
}

/// The caret an active input draws, if any.
pub open spec fn caret_instances(
    t: &TextInput,
    active: bool,
    lay: TextLayout,
    caret: usize,
    tx: int,
    ty: int,
    clip: Rect,
) -> Seq<Instance> {
    if !active {
        Seq::empty()
    } else if t.value@.len() != 0 {
        let len = encode_utf8(t.value@).len() as usize;
        let safe = if caret < len { caret as int } else { len as int };
        match cursor_spec(lay.glyphs@, lay.line_height as int, safe) {
            Some((cx, cy, ch)) => seq![
                plain_spec(
                    Point { x: (tx + cx) as i64, y: (ty + cy + half(ch - CARET_HEIGHT)) as i64 },
                    Size { width: 2, height: CARET_HEIGHT },
                    caret_color(),
                    clip,
                ),
            ],
            None => Seq::empty(),
        }
    } else {
        seq![
            plain_spec(
                Point { x: tx as i64, y: (ty + half(lay.line_height - CARET_HEIGHT)) as i64 },
                Size { width: 2, height: CARET_HEIGHT },
                caret_color(),
                clip,
            ),
        ]
    }
}

/// The selection highlights an input draws once its state is `s1`.
pub open spec fn input_sels(shaped: Seq<(Node, TextLayout)>, node: Node, s1: RState, tx: int, ty: int, tclip: Rect) -> Seq<Instance> {
    match shaped_index(shaped, node) {
        Some(k) => match normalized(s1.sel) {
            Some((a, b)) => sel_instances(selection_spec(shaped[k].1.glyphs@, a as int, b as int), tx, ty, tclip),
            None => Seq::empty(),
        },
        None => Seq::empty(),
    }
}

/// The caret an input draws once its state is `s1`.
pub open spec fn input_caret(
    t: &TextInput,
    active: bool,
    shaped: Seq<(Node, TextLayout)>,
    node: Node,
    s1: RState,
    tx: int,
    ty: int,
    tclip: Rect,
) -> Seq<Instance> {
    match shaped_index(shaped, node) {
        Some(k) => caret_instances(t, active, shaped[k].1, s1.caret, tx, ty, tclip),
        None => Seq::empty(),
    }
}

/// Drawing a text input whose box is at `(x, y)` with size `(w, h)`: the output and
/// the state after.
pub open spec fn input_spec(
    t: &TextInput,
    ctx: RCtx,
    node: Node,
    x: i64,
    y: i64,
    w: i64,
    h: i64,
    shaped: Seq<(Node, TextLayout)>,
    clip: Option<Rect>,
    s0: RState,
) -> (OutView, RState) {
    let active = input_active_spec(t, ctx, s0, node);
    let show_ph = t.value@.len() == 0;
    let tx = x + INPUT_PADDING_X + input_scroll_spec(
        show_ph,
        shaped_width(shaped, node),
        w - 2 * INPUT_PADDING_X,
    );
    let ty = y + INPUT_PADDING_Y;
    let inner = Rect {
        origin: Point { x: (x + 2) as i64, y: (y + 2) as i64 },
        size: Size { width: (w - 4) as i64, height: (h - 4) as i64 },
    };
    let tclip = match clip {
        Some(c) => clip_spec(inner, c),
        None => inner,
    };
    let col = if show_ph { Color { r: 0xa6, g: 0xad, b: 0xc8, a: 255 } } else { t.text_color };
    let s1 = input_state_after(t, ctx, node, tx, ty, shaped, s0);
    let sels = input_sels(shaped, node, s1, tx, ty, tclip);
    let caret = input_caret(t, active, shaped, node, s1, tx, ty, tclip);
    (OutView {
        instances: seq![input_box(t, x, y, w, h, active, eff_clip(clip))] + sels + caret,
        texts: seq![
            TextDraw {
                text: if show_ph { t.placeholder } else { t.value },
                color: col,
                size: INPUT_FONT_SIZE,
                position: Point { x: tx as i64, y: ty as i64 },
                clip: Some(tclip),
                wrap_width: None,
            },
        ],
        batches: Seq::empty(),
        loads: Seq::empty(),
    }, s1)
}

/// The texture id of an icon: its path and `::`, then the tint as lowercase hex bytes
/// without padding, or `original` when untinted.
pub open spec fn icon_texture_id(path: Seq<char>, tint: Option<Color>) -> Seq<char> {
    path + seq![':', ':'] + match tint {
        Some(c) => crate::strings::hex_byte(c.r) + crate::strings::hex_byte(c.g)
            + crate::strings::hex_byte(c.b),
        None => seq!['o', 'r', 'i', 'g', 'i', 'n', 'a', 'l'],
    }
}

/// A layout size in pixels doubled for rasterizing, saturating at `u32::MAX`.
pub open spec fn scaled_spec(v: int) -> u32 {
    if 2 * v > u32::MAX { u32::MAX } else { (2 * v) as u32 }
}

pub open spec fn white() -> Color {
    Color { r: 255, g: 255, b: 255, a: 255 }
}

/// Drawing widget `w` at layout node `node` under a parent at `pos`, inside `clip`, with
/// `path` as its structural identity, from state `s0`: the output and the state after.
pub open spec fn render_spec(
    w: &Widget,
    tree: &LayoutEngine,
    ctx: RCtx,
    node: Node,
    pos: Point,
    shaped: Seq<(Node, TextLayout)>,
    clip: Option<Rect>,
    path: Seq<char>,
    now: u64,
    s0: RState,
) -> (OutView, RState)
    decreases w, 0int,
{
    let o = abs_origin(tree, node, pos);
    let sz = tree.layouts@[node.0 as int].size;
    let e = eff_clip(clip);
    match w {
        Widget::View(v) => if v.background.a > 0 || v.border_width > 0 {
            let (sa, c) = anim_apply(ctx, s0, anim_key(v.id, path), v.background, VIEW_FADE_MS, now);
            children_spec(
                v.children@,
                tree,
                ctx,
                node,
                o,
                shaped,
                clip,
                path,
                now,
                0,
                OutView { instances: seq![view_instance(v, o, sz, c, e)], ..empty_out() },
                sa,
            )
        } else {
            children_spec(v.children@, tree, ctx, node, o, shaped, clip, path, now, 0, empty_out(), s0)
        },
        Widget::Button(b) => {
            let active = ctx.active == Some(node);
            let target = button_target_spec(b, active, ctx.hovered == Some(node));
            let (sa, c) = anim_apply(ctx, s0, anim_key(b.id, path), target, BUTTON_FADE_MS, now);
            let p = Point { x: o.x, y: (o.y + if active { PRESS_DEPTH } else { 0 }) as i64 };
            children_spec(
                b.view.children@,
                tree,
                ctx,
                node,
                p,
                shaped,
                clip,
                path,
                now,
                0,
                OutView { instances: seq![view_instance(&b.view, p, sz, c, e)], ..empty_out() },
                sa,
            )
        },
        Widget::Text(t) => (
            OutView {
                texts: seq![
                    TextDraw {
                        text: t.content,
                        color: t.color,
                        size: t.size,
                        position: o,
                        clip,
                        wrap_width: Some(sz.width),
                    },
                ],
                ..empty_out()
            },
            s0,
        ),
        Widget::TextInput(t) => input_spec(t, ctx, node, o.x, o.y, sz.width, sz.height, shaped, clip, s0),
        Widget::ScrollView(sv) => {
            let my = Rect { origin: o, size: sz };
            let inner = match clip {
                Some(c) => clip_spec(my, c),
                None => my,
            };
            let raw = if ctx.offsets.contains_key(sv.id@) { ctx.offsets[sv.id@] as int } else { 0 };
            if tree.kids(node.0 as int).len() == 0 {
                (empty_out(), s0)
            } else {
                let c = tree.kids(node.0 as int)[0];
                let cl = tree.layouts@[c.0 as int];
                let cp = Point {
                    x: (o.x + cl.origin.x) as i64,
                    y: (o.y + cl.origin.y - clamp_spec(raw, cl.size.height as int, sz.height as int)) as i64,
                };
                let (sub, s1) = render_spec(
                    &*sv.content,
                    tree,
                    ctx,
                    c,
                    cp,
                    shaped,
                    Some(inner),
                    path + seq!['/', 'c', 'o', 'n', 't', 'e', 'n', 't'],
                    now,
                    s0,
                );
                (extend_view(empty_out(), sub), s1)
            }
        },
        Widget::Icon(ic) => {
            let tint = match ic.color {
                Some(c) => c,
                None => white(),
            };
            let tid = icon_texture_id(ic.path@, ic.color);
            let wpx = scaled_spec(sz.width as int);
            let hpx = scaled_spec(sz.height as int);
            (
                OutView {
                    batches: add_batch(Seq::empty(), tid, seq![plain_spec(o, sz, tint, e)]),
                    loads: if wpx > 0 && hpx > 0 {
                        seq![(tid, SourceView::Svg { path: ic.path@, width: wpx, height: hpx })]
                    } else {
                        Seq::empty()
                    },
                    ..empty_out()
                },
                s0,
            )
        },
        Widget::Image(im) => (
            OutView {
                batches: add_batch(
                    Seq::empty(),
                    im.path@,
                    seq![Instance { border_radius: im.border_radius, ..plain_spec(o, sz, white(), e) }],
                ),
                loads: seq![(im.path@, SourceView::Path(im.path@))],
                ..empty_out()
            },
            s0,
        ),
    }
}

/// Drawing children `i..` of `cs` against the layout children of `node`, child `i` under
/// `path/i` from the origin `p`, appending to `acc` from state `s`; a widget without a
/// layout child is skipped.
pub open spec fn children_spec(
    cs: Seq<Widget>,
    tree: &LayoutEngine,
    ctx: RCtx,
    node: Node,
    p: Point,
    shaped: Seq<(Node, TextLayout)>,
    clip: Option<Rect>,
    path: Seq<char>,
    now: u64,
    i: int,
    acc: OutView,
    s: RState,
) -> (OutView, RState)
    decreases cs, cs.len() - i,
{
    if i < 0 || i >= cs.len() {
        (acc, s)
    } else if i >= tree.kids(node.0 as int).len() {
        children_spec(cs, tree, ctx, node, p, shaped, clip, path, now, i + 1, acc, s)
    } else {
        let (sub, sm) = render_spec(
            &cs[i],
            tree,
            ctx,
            tree.kids(node.0 as int)[i],
            p,
            shaped,
            clip,
            path + seq!['/'] + decimal(i as nat),
            now,
            s,
        );
        children_spec(cs, tree, ctx, node, p, shaped, clip, path, now, i + 1, extend_view(acc, sub), sm)
    }
}

} // verus!
