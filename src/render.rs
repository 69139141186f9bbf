//! The render walk: each widget's draw output from its solved box and the
//! interaction state.

use vstd::prelude::*;
use vstd::string::StringSliceAdditionalSpecFns;
use vstd::utf8::encode_utf8;
use crate::color::Color;
use crate::geometry::{
    in_limit, intersect_clip, lemma_clip_within_refl, lemma_clip_within_trans, Point, Rect, Size,
    COORD_LIMIT,
};
use crate::output::{
    add_batch, lemma_extend_within, lemma_push_image_within, merge_batches, output_within,
    Instance, RenderOutput, TextDraw, TextureSource,
};
use crate::scroll::{clamp_offset, clamp_spec};
use crate::state::FrameworkState;
use crate::strings::{child_path, decimal, push_hex_byte};
use crate::text::{cursor_spec, rects_in_limit, TextLayout};
use crate::tree::{layout_ok, LayoutEngine, Node, LEVEL_STEP};
use crate::walk::{
    anim_apply, anim_key, button_target_spec, children_spec, drag_spec, eff_clip, empty_out,
    extend_view, half, icon_texture_id, input_active_spec, input_box, input_caret,
    input_scroll_spec, input_sels, input_spec, input_state_after, loads_view, out_view,
    plain_spec, rctx, render_spec, rstate, sel_instances, shaped_index, shaped_width,
    view_instance, OutView, SourceView, BUTTON_FADE_MS, CARET_HEIGHT, INPUT_PADDING_X,
    INPUT_PADDING_Y, INPUT_TRAILING_MARGIN, PRESS_DEPTH, VIEW_FADE_MS,
};
use crate::widgets::{Button, TextInput, Widget, INPUT_FONT_SIZE};

verus! {

/// Shaped texts the render walk may draw from: each layout well formed with its size in
/// the coordinate limits.
pub open spec fn shaped_ok(s: Seq<(Node, TextLayout)>) -> bool {
    forall|i: int|
        0 <= i < s.len() ==> (#[trigger] s[i]).1.wf()
}

/// What rendering may rely on and must keep.
pub open spec fn render_pre(
    tree: &LayoutEngine,
    state: &FrameworkState,
    node: Node,
    pos: Point,
    shaped: Seq<(Node, TextLayout)>,
    clip: Option<Rect>,
) -> bool {
    &&& tree.wf()
    &&& tree.valid(node)
    &&& state.wf()
    &&& -tree.pos_bound(node.0 as int) <= pos.x <= tree.pos_bound(node.0 as int)
    &&& -tree.pos_bound(node.0 as int) <= pos.y <= tree.pos_bound(node.0 as int)
    &&& shaped_ok(shaped)
    &&& clip matches Some(c) ==> c.bounded()
}

/// What the render walk leaves alone in the interaction state.
pub open spec fn render_keeps(before: &FrameworkState, after: &FrameworkState) -> bool {
    &&& after.wf()
    &&& after.config == before.config
    &&& after.scroll_offsets == before.scroll_offsets
    &&& after.hovered_node == before.hovered_node
    &&& after.active_node == before.active_node
    &&& after.focused_node == before.focused_node
    &&& after.cursor_pos == before.cursor_pos
}

pub fn button_target(b: &Button, active: bool, hovered: bool) -> (r: Color)
    ensures
        r == button_target_spec(b, active, hovered),
{
    if active {
        b.active_color
    } else if hovered {
        b.hover_color
    } else {
        b.bg_color
    }
}

pub fn input_scroll_x(placeholder: bool, text_width: i64, available: i64) -> (r: i64)
    requires
        in_limit(text_width as int),
        -3 * COORD_LIMIT <= available <= 3 * COORD_LIMIT,
    ensures
        r == input_scroll_spec(placeholder, text_width as int, available as int),
{
    if !placeholder && text_width > available {
        available - text_width - INPUT_TRAILING_MARGIN
    } else {
        0
    }
}

pub fn drag_select(state: &mut FrameworkState, idx: usize)
    ensures
        (final(state).drag_start_idx, final(state).input_selection) == drag_spec(
            old(state).drag_start_idx,
            idx,
        ),
        final(state).input_cursor_idx == idx,
        final(state).scroll_offsets == old(state).scroll_offsets,
        final(state).color_animations == old(state).color_animations,
        final(state).last_colors == old(state).last_colors,
        final(state).config == old(state).config,
        final(state).hovered_node == old(state).hovered_node,
        final(state).active_node == old(state).active_node,
        final(state).focused_node == old(state).focused_node,
        final(state).cursor_pos == old(state).cursor_pos,
        final(state).focused_input_id == old(state).focused_input_id,
        final(state).needs_redraw == old(state).needs_redraw,
{
    if state.drag_start_idx.is_none() {
        state.drag_start_idx = Some(idx);
        state.input_selection = None;
    }
    match state.drag_start_idx {
        Some(start) => {
            if start < idx {
                state.input_selection = Some((start, idx));
            } else if idx < start {
                state.input_selection = Some((idx, start));
            } else {
                state.input_selection = None;
            }
        },
        None => {},
    }
    state.input_cursor_idx = idx;
}

pub fn icon_texture(path: &String, tint: Option<Color>) -> (r: String)
    ensures
        r@ == icon_texture_id(path@, tint),
{
    let mut s = path.clone();
    proof {
        reveal_strlit("::");
        reveal_strlit("original");
    }
    s.append("::");
    match tint {
        Some(c) => {
            push_hex_byte(&mut s, c.r);
            push_hex_byte(&mut s, c.g);
            push_hex_byte(&mut s, c.b);
        },
        None => {
            s.append("original");
        },
    }
    assert(s@ =~= icon_texture_id(path@, tint));
    s
}

proof fn lemma_shaped_index(s: Seq<(Node, TextLayout)>, node: Node)
    ensures
        shaped_index(s, node) matches Some(k) ==> 0 <= k < s.len() && s[k].0 == node,
    decreases s.len(),
{
    if s.len() > 0 && s[0].0 != node {
        lemma_shaped_index(s.drop_first(), node);
    }
}

fn find_shaped(shaped: &Vec<(Node, TextLayout)>, node: Node) -> (r: Option<usize>)
    ensures
        r matches Some(i) ==> i < shaped@.len() && shaped@[i as int].0 == node,
        r == match shaped_index(shaped@, node) {
            Some(k) => Some(k as usize),
            None => None::<usize>,
        },
{
    let mut i: usize = 0;
    assert(shaped@.subrange(0, shaped@.len() as int) =~= shaped@);
    while i < shaped.len()
        invariant
            0 <= i <= shaped@.len(),
            shaped_index(shaped@, node) == match shaped_index(
                shaped@.subrange(i as int, shaped@.len() as int),
                node,
            ) {
                Some(k) => Some(k + i),
                None => None,
            },
        decreases shaped@.len() - i,
    {
        proof {
            let rest = shaped@.subrange(i as int, shaped@.len() as int);
            assert(rest.drop_first() =~= shaped@.subrange(i + 1, shaped@.len() as int));
        }
        if shaped[i].0 == node {
            return Some(i);
        }
        i = i + 1;
    }
    None
}

fn effective_clip(clip: Option<Rect>) -> (r: Rect)
    requires
        clip matches Some(c) ==> c.bounded(),
    ensures
        r.bounded(),
        r == eff_clip(clip),
{
    match clip {
        Some(c) => c,
        None => Rect::new(-10000, -10000, 20000, 20000),
    }
}

fn plain_instance(position: Point, size: Size, color: Color, clip_rect: Rect) -> (r: Instance)
    ensures
        r == plain_spec(position, size, color, clip_rect),
{
    let none = Color { r: 0, g: 0, b: 0, a: 0 };
    Instance {
        position,
        size,
        color_start: color,
        color_end: color,
        gradient_angle: 0,
        border_radius: 0,
        border_width: 0,
        border_color: none,
        shadow_color: none,
        shadow_offset: Point { x: 0, y: 0 },
        shadow_blur: 0,
        shadow_spread: 0,
        clip_rect,
    }
}

proof fn lemma_child_bound(tree: &LayoutEngine, node: Node, c: Node)
    requires
        tree.wf(),
        tree.valid(node),
        c.0 < node.0,
    ensures
        tree.pos_bound(node.0 as int) + LEVEL_STEP <= tree.pos_bound(c.0 as int),
        tree.pos_bound(node.0 as int) >= 0,
        tree.pos_bound(c.0 as int) <= 0x10_0000 * LEVEL_STEP,
{
    assert(tree.pos_bound(node.0 as int) + LEVEL_STEP <= tree.pos_bound(c.0 as int)) by (nonlinear_arith)
        requires
            c.0 < node.0,
            tree.pos_bound(node.0 as int) == (tree.len() - node.0) * LEVEL_STEP,
            tree.pos_bound(c.0 as int) == (tree.len() - c.0) * LEVEL_STEP;
    assert(tree.pos_bound(node.0 as int) >= 0) by (nonlinear_arith)
        requires
            node.0 < tree.len(),
            tree.pos_bound(node.0 as int) == (tree.len() - node.0) * LEVEL_STEP;
    assert(tree.pos_bound(c.0 as int) <= 0x10_0000 * LEVEL_STEP) by (nonlinear_arith)
        requires
            tree.len() <= 0x10_0000,
            0 <= c.0,
            tree.pos_bound(c.0 as int) == (tree.len() - c.0) * LEVEL_STEP;
}

proof fn lemma_node_bound(tree: &LayoutEngine, node: Node)
    requires
        tree.wf(),
        tree.valid(node),
    ensures
        0 <= tree.pos_bound(node.0 as int) <= 0x10_0000 * LEVEL_STEP,
        layout_ok(tree.layouts@[node.0 as int]),
{
    assert(0 <= tree.pos_bound(node.0 as int) <= 0x10_0000 * LEVEL_STEP) by (nonlinear_arith)
        requires
            tree.len() <= 0x10_0000,
            0 <= node.0 < tree.len(),
            tree.pos_bound(node.0 as int) == (tree.len() - node.0) * LEVEL_STEP;
}

/// Renders `children` against the layout children of `node`, child `i` under `path/i`,
/// from the origin `pos`; a widget without a layout child is skipped.
fn render_children(
    children: &Vec<Widget>,
    tree: &LayoutEngine,
    state: &mut FrameworkState,
    node: Node,
    pos: Point,
    shaped: &Vec<(Node, TextLayout)>,
    clip: Option<Rect>,
    path: &String,
    now: u64,
    out: &mut RenderOutput,
)
    requires
        tree.wf(),
        tree.valid(node),
        old(state).wf(),
        -(tree.pos_bound(node.0 as int) + LEVEL_STEP) <= pos.x <= tree.pos_bound(node.0 as int) + LEVEL_STEP,
        -(tree.pos_bound(node.0 as int) + LEVEL_STEP) <= pos.y <= tree.pos_bound(node.0 as int) + LEVEL_STEP,
        shaped_ok(shaped@),
        clip matches Some(c) ==> c.bounded() && output_within(&*old(out), c),
    ensures
        render_keeps(&*old(state), &*final(state)),
        clip matches Some(c) ==> output_within(&*final(out), c),
        (out_view(&*final(out)), rstate(&*final(state))) == children_spec(
            children@,
            tree,
            rctx(&*old(state)),
            node,
            pos,
            shaped@,
            clip,
            path@,
            now,
            0,
            out_view(&*old(out)),
            rstate(&*old(state)),
        ),
    decreases children@, 0int,
{
    let kids = tree.children_of(node);
    let ghost ctx = rctx(&*old(state));
    let ghost acc0 = out_view(&*old(out));
    let ghost s0 = rstate(&*old(state));
    let mut i: usize = 0;
    while i < children.len()
        invariant
            0 <= i <= children@.len(),
            tree.wf(),
            tree.valid(node),
            kids@ == tree.kids(node.0 as int),
            state.wf(),
            render_keeps(&*old(state), &*state),
            rctx(&*state) == ctx,
            -(tree.pos_bound(node.0 as int) + LEVEL_STEP) <= pos.x <= tree.pos_bound(node.0 as int) + LEVEL_STEP,
            -(tree.pos_bound(node.0 as int) + LEVEL_STEP) <= pos.y <= tree.pos_bound(node.0 as int) + LEVEL_STEP,
            shaped_ok(shaped@),
            clip matches Some(c) ==> c.bounded() && output_within(&*out, c),
            children_spec(children@, tree, ctx, node, pos, shaped@, clip, path@, now, i as int, out_view(&*out), rstate(&*state))
                == children_spec(children@, tree, ctx, node, pos, shaped@, clip, path@, now, 0, acc0, s0),
        decreases children@.len() - i,
    {
        let ghost acc_i = out_view(&*out);
        let ghost s_i = rstate(&*state);
        if i < kids.len() {
            let c = kids[i];
            proof {
                lemma_child_bound(tree, node, c);
            }
            let cp = child_path(path, i);
            let sub = children[i].render(tree, state, c, pos, shaped, clip, &cp, now);
            let ghost before = *out;
            out.extend(sub);
            proof {
                match clip {
                    Some(cr) => lemma_extend_within(&before, &sub, &*out, cr),
                    None => {},
                }
                lemma_extend_view(&before, &sub, &*out);
                let sv = out_view(&sub);
                let sm = rstate(&*state);
                let ii = i as int;
                let cpath = path@ + seq!['/'] + decimal(ii as nat);
                assert(cp@ == cpath);
                assert(c == tree.kids(node.0 as int)[ii]);
                assert(out_view(&*out) == extend_view(acc_i, sv));
                assert(render_spec(&children@[ii], tree, ctx, c, pos, shaped@, clip, cpath, now, s_i) == (sv, sm));
            }
        }
        i = i + 1;
    }

}

proof fn lemma_extend_view(a: &RenderOutput, b: &RenderOutput, r: &RenderOutput)
    requires
        r.instances@ == a.instances@ + b.instances@,
        r.texts@ == a.texts@ + b.texts@,
        r.texture_loads@ == a.texture_loads@ + b.texture_loads@,
        r.batches() == merge_batches(a.batches(), b.batches()),
    ensures
        out_view(r) == extend_view(out_view(a), out_view(b)),
{
    assert(loads_view(r.texture_loads@) =~= loads_view(a.texture_loads@) + loads_view(b.texture_loads@));
}

proof fn lemma_empty_view(o: &RenderOutput)
    requires
        o.instances@.len() == 0,
        o.texts@.len() == 0,
        o.images@.len() == 0,
        o.texture_loads@.len() == 0,
    ensures
        out_view(o) == empty_out(),
{
    assert(o.instances@ =~= Seq::<Instance>::empty());
    assert(o.texts@ =~= Seq::<TextDraw>::empty());
    assert(o.batches() =~= Seq::<(Seq<char>, Seq<Instance>)>::empty());
    assert(loads_view(o.texture_loads@) =~= Seq::<(Seq<char>, SourceView)>::empty());
}

fn animated(
    state: &mut FrameworkState,
    id: &Option<String>,
    path: &String,
    target: Color,
    duration: u32,
    now: u64,
) -> (c: Color)
    requires
        old(state).wf(),
    ensures
        render_keeps(&*old(state), &*final(state)),
        (rstate(&*final(state)), c) == anim_apply(
            rctx(&*old(state)),
            rstate(&*old(state)),
            anim_key(*id, path@),
            target,
            duration,
            now,
        ),
{
    let key = match id {
        Some(s) => s.clone(),
        None => path.clone(),
    };
    state.get_animated_color(&key, target, duration, now)
}

impl Widget {
    /// Renders this widget at layout node `node`, whose parent sits at `pos`: its own
    /// draw output, then its children's from its own position, all inside `clip`, as
    /// `rendered` states. Backgrounds fade through the animation table under the
    /// widget's stable id, or under `path` without one.
    pub fn render(
        &self,
        tree: &LayoutEngine,
        state: &mut FrameworkState,
        node: Node,
        pos: Point,
        shaped: &Vec<(Node, TextLayout)>,
        clip: Option<Rect>,
        path: &String,
        now: u64,
    ) -> (out: RenderOutput)
        requires
            render_pre(tree, &*old(state), node, pos, shaped@, clip),
        ensures
            render_keeps(&*old(state), &*final(state)),
            clip matches Some(c) ==> output_within(&out, c),
            (out_view(&out), rstate(&*final(state))) == render_spec(
                self,
                tree,
                rctx(&*old(state)),
                node,
                pos,
                shaped@,
                clip,
                path@,
                now,
                rstate(&*old(state)),
            ),
        decreases self, 1int,
    {
        proof {
            lemma_node_bound(tree, node);
        }
        let mut out = RenderOutput::new();
        proof {
            lemma_empty_view(&out);
        }
        let l = tree.get_final_layout(node, pos.x, pos.y);
        let eff = effective_clip(clip);
        let ghost ctx = rctx(&*old(state));
        let ghost s0 = rstate(&*old(state));
        proof {
            match clip {
                Some(c) => lemma_clip_within_refl(c),
                None => {},
            }
        }
        match self {
            Widget::View(v) => {
                let p = Point { x: l.x, y: l.y };
                if v.background.a > 0 || v.border_width > 0 {
                    let bg = animated(state, &v.id, path, v.background, VIEW_FADE_MS, now);
                    out.instances.push(Instance {
                        position: p,
                        size: Size { width: l.width, height: l.height },
                        color_start: bg,
                        color_end: bg,
                        gradient_angle: 0,
                        border_radius: v.border_radius,
                        border_width: v.border_width,
                        border_color: v.border_color,
                        shadow_color: v.shadow_color,
                        shadow_offset: v.shadow_offset,
                        shadow_blur: v.shadow_blur,
                        shadow_spread: 0,
                        clip_rect: eff,
                    });
                    proof {
                        assert(out_view(&out) =~= OutView {
                            instances: seq![view_instance(v, p, Size { width: l.width, height: l.height }, bg, eff)],
                            ..empty_out()
                        });
                    }
                }
                render_children(&v.children, tree, state, node, p, shaped, clip, path, now, &mut out);
            },
            Widget::Button(b) => {
                let is_hovered = state.hovered_node == Some(node);
                let is_active = state.active_node == Some(node);
                let target = button_target(b, is_active, is_hovered);
                let bg = animated(state, &b.id, path, target, BUTTON_FADE_MS, now);
                let p = Point { x: l.x, y: if is_active { l.y + PRESS_DEPTH } else { l.y } };
                out.instances.push(Instance {
                    position: p,
                    size: Size { width: l.width, height: l.height },
                    color_start: bg,
                    color_end: bg,
                    gradient_angle: 0,
                    border_radius: b.view.border_radius,
                    border_width: b.view.border_width,
                    border_color: b.view.border_color,
                    shadow_color: b.view.shadow_color,
                    shadow_offset: b.view.shadow_offset,
                    shadow_blur: b.view.shadow_blur,
                    shadow_spread: 0,
                    clip_rect: eff,
                });
                proof {
                    assert(out_view(&out) =~= OutView {
                        instances: seq![view_instance(&b.view, p, Size { width: l.width, height: l.height }, bg, eff)],
                        ..empty_out()
                    });
                }
                render_children(&b.view.children, tree, state, node, p, shaped, clip, path, now, &mut out);
            },
            Widget::Text(t) => {
                out.texts.push(TextDraw {
                    text: t.content.clone(),
                    color: t.color,
                    size: t.size,
                    position: Point { x: l.x, y: l.y },
                    clip,
                    wrap_width: Some(l.width),
                });
                proof {
                    assert(out_view(&out) =~= OutView {
                        texts: seq![TextDraw {
                            text: t.content,
                            color: t.color,
                            size: t.size,
                            position: Point { x: l.x, y: l.y },
                            clip,
                            wrap_width: Some(l.width),
                        }],
                        ..empty_out()
                    });
                }
            },
            Widget::TextInput(t) => {
                render_input(t, tree, state, node, l.x, l.y, l.width, l.height, shaped, clip, eff, &mut out);
            },
            Widget::ScrollView(sv) => {
                let my = Rect::new(l.x, l.y, l.width, l.height);
                let final_clip = match clip {
                    Some(c) => intersect_clip(&my, &c),
                    None => my,
                };
                let raw: i64 = match state.scroll_offsets.get(&sv.id) {
                    Some(v) => v,
                    None => 0,
                };
                match scroll_content_origin(tree, node, l.x, l.y, raw) {
                    Some((child, child_pos)) => {
                        proof {
                            lemma_child_bound(tree, node, child);
                        }
                        let mut content_path = path.clone();
                        proof {
                            reveal_strlit("/content");
                        }
                        content_path.append("/content");
                        let sub = sv.content.render(tree, state, child, child_pos, shaped, Some(final_clip), &content_path, now);
                        proof {
                            match clip {
                                Some(c) => lemma_output_within_trans(&sub, final_clip, c),
                                None => {},
                            }
                        }
                        let ghost before = out;
                        out.extend(sub);
                        proof {
                            match clip {
                                Some(c) => lemma_extend_within(&before, &sub, &out, c),
                                None => {},
                            }
                            lemma_extend_view(&before, &sub, &out);
                            assert(content_path@ =~= path@ + seq!['/', 'c', 'o', 'n', 't', 'e', 'n', 't']);

                        }
                    },
                    None => {},
                }
            },
            Widget::Icon(ic) => {
                let texture_id = icon_texture(&ic.path, ic.color);
                let w: u32 = scaled_px(l.width);
                let h: u32 = scaled_px(l.height);
                if w > 0 && h > 0 {
                    out.texture_loads.push((
                        texture_id.clone(),
                        TextureSource::Svg { path: ic.path.clone(), width: w, height: h },
                    ));
                }
                let tint = match ic.color {
                    Some(c) => c,
                    None => Color { r: 255, g: 255, b: 255, a: 255 },
                };
                let inst = plain_instance(Point { x: l.x, y: l.y }, Size { width: l.width, height: l.height }, tint, eff);
                let ghost before = out;
                let ghost key = texture_id@;
                out.push_image(texture_id, inst);
                proof {
                    match clip {
                        Some(c) => lemma_push_image_within(&before, &out, key, inst, c),
                        None => {},
                    }
                    assert(out.batches() == add_batch(Seq::empty(), key, seq![inst]));
                    assert(out_view(&out).loads =~= (if w > 0 && h > 0 {
                        seq![(key, SourceView::Svg { path: ic.path@, width: w, height: h })]
                    } else {
                        Seq::empty()
                    }));
                    assert(out_view(&out).instances =~= Seq::<Instance>::empty());
                    assert(out_view(&out).texts =~= Seq::<TextDraw>::empty());
                }
            },
            Widget::Image(im) => {
                out.texture_loads.push((im.path.clone(), TextureSource::Path(im.path.clone())));
                let mut inst = plain_instance(
                    Point { x: l.x, y: l.y },
                    Size { width: l.width, height: l.height },
                    Color { r: 255, g: 255, b: 255, a: 255 },
                    eff,
                );
                inst.border_radius = im.border_radius;
                let ghost before = out;
                out.push_image(im.path.clone(), inst);
                proof {
                    match clip {
                        Some(c) => lemma_push_image_within(&before, &out, im.path@, inst, c),
                        None => {},
                    }
                    assert(out.batches() == add_batch(Seq::empty(), im.path@, seq![inst]));
                    assert(out_view(&out).loads =~= seq![(im.path@, SourceView::Path(im.path@))]);
                    assert(out_view(&out).instances =~= Seq::<Instance>::empty());
                    assert(out_view(&out).texts =~= Seq::<TextDraw>::empty());
                }
            },
        }
        out
    }
}

/// A layout size in pixels doubled for rasterizing, saturating at `u32::MAX`.
fn scaled_px(v: i64) -> (r: u32)
    requires
        0 <= v <= COORD_LIMIT,
    ensures
        r == (if 2 * v > u32::MAX { u32::MAX as int } else { 2 * v }),
{
    if 2 * v > u32::MAX as i64 {
        u32::MAX
    } else {
        (2 * v) as u32
    }
}

proof fn lemma_output_within_trans(o: &RenderOutput, inner: Rect, outer: Rect)
    requires
        output_within(o, inner),
        inner.clip_within(outer),
    ensures
        output_within(o, outer),
{
    assert forall|i: int| 0 <= i < o.instances@.len() implies (#[trigger] o.instances@[i]).clip_rect.clip_within(outer) by {
        lemma_clip_within_trans(o.instances@[i].clip_rect, inner, outer);
    }
    assert forall|i: int| 0 <= i < o.texts@.len() implies match (#[trigger] o.texts@[i]).clip {
        Some(r) => r.clip_within(outer),
        None => false,
    } by {
        match o.texts@[i].clip {
            Some(r) => lemma_clip_within_trans(r, inner, outer),
            None => {},
        }
    }
    let b = o.batches();
    assert forall|i: int, j: int| 0 <= i < b.len() && 0 <= j < b[i].1.len() implies (#[trigger] b[i].1[j]).clip_rect.clip_within(outer) by {
        lemma_clip_within_trans(b[i].1[j].clip_rect, inner, outer);
    }
}

/// Where a scroll container at `(x, y)` draws its content: the content's own offset,
/// moved up by the stored offset clamped to what the content allows. `None` without
/// content.
pub fn scroll_content_origin(tree: &LayoutEngine, node: Node, x: i64, y: i64, raw: i64) -> (r: Option<(Node, Point)>)
    requires
        tree.wf(),
        tree.valid(node),
        -abs_bound() <= x <= abs_bound(),
        -abs_bound() <= y <= abs_bound(),
    ensures
        tree.kids(node.0 as int).len() == 0 ==> r is None,
        tree.kids(node.0 as int).len() > 0 ==> ({
            let c = tree.kids(node.0 as int)[0];
            let cl = tree.layouts@[c.0 as int];
            r == Some((c, Point {
                x: (x + cl.origin.x) as i64,
                y: (y + cl.origin.y - clamp_spec(
                    raw as int,
                    cl.size.height as int,
                    tree.layouts@[node.0 as int].size.height as int,
                )) as i64,
            }))
        }),
{
    let kids = tree.children_of(node);
    if kids.len() == 0 {
        return None;
    }
    let child = kids[0];
    assert(child.0 < node.0);
    let cl = tree.layout(child);
    let vl = tree.layout(node);
    let clamped = clamp_offset(raw, cl.size.height, vl.size.height);
    Some((child, Point { x: x + cl.origin.x, y: y + cl.origin.y - clamped }))
}

/// The bound on a node's absolute position during the render walk.
pub open spec fn abs_bound() -> int {
    0x10_0000 * LEVEL_STEP + COORD_LIMIT
}

fn push_clipped(out: &mut RenderOutput, inst: Instance, clip: Option<Rect>)
    requires
        clip matches Some(c) ==> output_within(&*old(out), c) && inst.clip_rect.clip_within(c),
    ensures
        clip matches Some(c) ==> output_within(&*final(out), c),
        final(out).instances@ == old(out).instances@.push(inst),
        final(out).texts@ == old(out).texts@,
        final(out).batches() == old(out).batches(),
        final(out).images@ == old(out).images@,
        final(out).texture_loads@ == old(out).texture_loads@,
{
    out.instances.push(inst);
}

/// Half of `v`, rounded toward zero.
fn half_px(v: i64) -> (r: i64)
    ensures
        r == half(v as int),
{
    if v >= 0 {
        v / 2
    } else if v == i64::MIN {
        -(i64::MAX / 2) - 1
    } else {
        -((-v) / 2)
    }
}

/// Draws a text input: its box, the selection, the text (or placeholder) and the caret;
/// while the input is pressed, the pointer drags the selection and the input takes focus.
#[verifier::rlimit(60)]
fn render_input(
    t: &TextInput,
    tree: &LayoutEngine,
    state: &mut FrameworkState,
    node: Node,
    x: i64,
    y: i64,
    w: i64,
    h: i64,
    shaped: &Vec<(Node, TextLayout)>,
    clip: Option<Rect>,
    eff: Rect,
    out: &mut RenderOutput,
)
    requires
        old(state).wf(),
        shaped_ok(shaped@),
        -abs_bound() <= x <= abs_bound(),
        -abs_bound() <= y <= abs_bound(),
        0 <= w <= COORD_LIMIT,
        0 <= h <= COORD_LIMIT,
        eff.bounded(),
        eff == eff_clip(clip),
        clip matches Some(c) ==> c.bounded(),
        out_view(&*old(out)) == empty_out(),
    ensures
        render_keeps(&*old(state), &*final(state)),
        clip matches Some(c) ==> output_within(&*final(out), c),
        (out_view(&*final(out)), rstate(&*final(state))) == input_spec(
            t,
            rctx(&*old(state)),
            node,
            x,
            y,
            w,
            h,
            shaped@,
            clip,
            rstate(&*old(state)),
        ),
{
    let ghost ctx = rctx(&*old(state));
    let ghost s0 = rstate(&*old(state));
    let is_focused_node = state.focused_node == Some(node);
    let is_input_active = match (&t.id, &state.focused_input_id) {
        (Some(a), Some(b)) => *a == *b,
        _ => false,
    };
    let is_active = is_focused_node || is_input_active;
    assert(is_active == input_active_spec(t, ctx, s0, node));
    let bw: i64 = if is_active { 2 } else { 1 };
    let bc = if is_active {
        Color { r: 135, g: 179, b: 250, a: 255 }
    } else {
        Color { r: 89, g: 89, b: 115, a: 255 }
    };
    proof {
        match clip {
            Some(c) => lemma_clip_within_refl(c),
            None => {},
        }
    }
    let boxi = Instance {
        position: Point { x, y },
        size: Size { width: w, height: h },
        color_start: t.bg_color,
        color_end: t.bg_color,
        gradient_angle: 0,
        border_radius: 8,
        border_width: bw,
        border_color: bc,
        shadow_color: Color { r: 0, g: 0, b: 0, a: 0 },
        shadow_offset: Point { x: 0, y: 0 },
        shadow_blur: 0,
        shadow_spread: 0,
        clip_rect: eff,
    };
    assert(boxi == input_box(t, x, y, w, h, is_active, eff_clip(clip)));
    proof {
        lemma_empty_within(&*out, clip);
        assert(out.images@.len() == out.batches().len());
        assert(out.texture_loads@.len() == loads_view(out.texture_loads@).len());
        assert(out.texts@.len() == 0);
        assert(out.instances@.len() == 0);
    }
    push_clipped(out, boxi, clip);
    let show_ph = t.value.as_str().is_empty();
    let col = if show_ph { Color { r: 0xa6, g: 0xad, b: 0xc8, a: 255 } } else { t.text_color };
    let available: i64 = w - 2 * INPUT_PADDING_X;
    let found = find_shaped(shaped, node);
    let n_shaped = shaped.len();
    proof {
        lemma_shaped_index(shaped@, node);
    }
    let text_width: i64 = match found {
        Some(i) => {
            assert(shaped@[i as int].1.wf());
            shaped[i].1.total_size.0
        },
        None => 0,
    };
    assert(text_width == shaped_width(shaped@, node));
    let scroll_x = input_scroll_x(show_ph, text_width, available);
    let tx: i64 = x + INPUT_PADDING_X + scroll_x;
    let ty: i64 = y + INPUT_PADDING_Y;
    let inner = Rect::new(x + 2, y + 2, w - 4, h - 4);
    let text_clip = match clip {
        Some(c) => intersect_clip(&inner, &c),
        None => inner,
    };
    let caret_c = Color { r: 204, g: 204, b: 230, a: 255 };
    let ghost s_after = input_state_after(t, ctx, node, tx as int, ty as int, shaped@, s0);
    let ghost sels_e = input_sels(shaped@, node, s_after, tx as int, ty as int, text_clip);
    let ghost caret_e = input_caret(t, is_active, shaped@, node, s_after, tx as int, ty as int, text_clip);
    assert(out.instances@ == seq![boxi]);
    match found {
        Some(i) => {
            let layout = &shaped[i].1;
            assert(layout.wf());
            if state.active_node == Some(node) {
                let lx: i64 = state.cursor_pos.x - tx;
                let ly: i64 = state.cursor_pos.y - ty;
                let idx = layout.hit_test(lx, ly);
                drag_select(state, idx);
                state.focused_input_id = match &t.id {
                    Some(s) => Some(s.clone()),
                    None => None,
                };
            }
            assert(rstate(&*state) == s_after);
            let ghost base = out.instances@;
            match state.get_normalized_selection() {
                Some((s, e)) => {
                    let rects = layout.get_selection_rects(s, e);
                    let ghost sels = sel_instances(rects@, tx as int, ty as int, text_clip);
                    let mut k: usize = 0;
                    assert(sels.subrange(0, 0) =~= Seq::<Instance>::empty());
                    assert(base =~= base + sels.subrange(0, 0));
                    while k < rects.len()
                        invariant
                            0 <= k <= rects@.len(),
                            clip matches Some(c) ==> output_within(&*out, c) && text_clip.clip_within(c),
                            -0x80_0000_0000_0000 <= tx <= 0x80_0000_0000_0000,
                            -0x80_0000_0000_0000 <= ty <= 0x80_0000_0000_0000,
                            rects_in_limit(rects@),
                            sels == sel_instances(rects@, tx as int, ty as int, text_clip),
                            out.instances@ == base + sels.subrange(0, k as int),
                            out.texts@.len() == 0,
                            out.images@.len() == 0,
                            out.texture_loads@.len() == 0,
                        decreases rects@.len() - k,
                    {
                        let r = rects[k];
                        let inst = plain_instance(
                            Point { x: tx + r.origin.x, y: ty + r.origin.y },
                            r.size,
                            Color { r: 51, g: 102, b: 204, a: 102 },
                            text_clip,
                        );
                        assert(sels[k as int] == plain_spec(
                            Point { x: (tx + rects@[k as int].origin.x) as i64, y: (ty + rects@[k as int].origin.y) as i64 },
                            rects@[k as int].size,
                            Color { r: 51, g: 102, b: 204, a: 102 },
                            text_clip,
                        ));
                        assert(r == rects@[k as int]);
                        assert(inst == plain_spec(
                            Point { x: (tx + rects@[k as int].origin.x) as i64, y: (ty + rects@[k as int].origin.y) as i64 },
                            rects@[k as int].size,
                            Color { r: 51, g: 102, b: 204, a: 102 },
                            text_clip,
                        ));
                        assert(inst == sels[k as int]);
                        push_clipped(out, inst, clip);
                        assert(sels.subrange(0, k + 1) =~= sels.subrange(0, k as int).push(sels[k as int]));
                        k = k + 1;
                    }
                    assert(sels.subrange(0, rects@.len() as int) =~= sels);
                    assert(sels == sels_e);
                },
                None => {
                    assert(sels_e =~= Seq::<Instance>::empty());
                    assert(out.instances@ =~= seq![boxi] + sels_e);
                },
            }
        },
        None => {
            assert(rstate(&*state) == s_after);
            assert(sels_e =~= Seq::<Instance>::empty());
            assert(out.instances@ =~= seq![boxi] + sels_e);
        },
    }
    assert(out.instances@ == seq![boxi] + sels_e);
    let ghost mid = out.instances@;
    let shown = if show_ph { t.placeholder.clone() } else { t.value.clone() };
    out.texts.push(TextDraw {
        text: shown,
        color: col,
        size: INPUT_FONT_SIZE,
        position: Point { x: tx, y: ty },
        clip: Some(text_clip),
        wrap_width: None,
    });
    if is_active {
        match found {
            Some(i) => {
                let layout = &shaped[i].1;
                assert(layout.wf());
                proof {
                    let k = shaped_index(shaped@, node)->0;
                    assert(0 <= k < shaped@.len());
                    assert(k == i as int);
                }
                if !show_ph {
                    let vs = t.value.as_str();
                    let len = vs.len();
                    assert(vs@ == t.value@);
                    assert(vs.spec_bytes() == encode_utf8(vs@));
                    assert(len == encode_utf8(t.value@).len() as usize);
                    let safe = if state.input_cursor_idx < len { state.input_cursor_idx } else { len };
                    match layout.get_cursor_pos(safe) {
                        Some((cx, cy, ch)) => {
                            assert(cursor_spec(layout.glyphs@, layout.line_height as int, safe as int) == Some((cx as int, cy as int, ch as int)));
                            assert(s_after.caret == state.input_cursor_idx);
                            let off_y = half_px(ch - CARET_HEIGHT);
                            push_clipped(out, plain_instance(
                                Point { x: tx + cx, y: ty + cy + off_y },
                                Size { width: 2, height: CARET_HEIGHT },
                                caret_c,
                                text_clip,
                            ), clip);
                            assert(out.instances@ =~= seq![boxi] + sels_e + caret_e);
                        },
                        None => {
                            assert(out.instances@ =~= seq![boxi] + sels_e + caret_e);
                        },
                    }
                } else {
                    let off_y = half_px(layout.line_height - CARET_HEIGHT);
                    push_clipped(out, plain_instance(
                        Point { x: tx, y: ty + off_y },
                        Size { width: 2, height: CARET_HEIGHT },
                        caret_c,
                        text_clip,
                    ), clip);
                    assert(out.instances@ =~= seq![boxi] + sels_e + caret_e);
                }
            },
            None => {
                assert(out.instances@ =~= seq![boxi] + sels_e + caret_e);
            },
        }
    } else {
        assert(out.instances@ =~= seq![boxi] + sels_e + caret_e);
    }
    proof {
        assert(out.images@.len() == 0);
        assert(out.batches() =~= Seq::<(Seq<char>, Seq<Instance>)>::empty());
        assert(loads_view(out.texture_loads@) =~= Seq::<(Seq<char>, SourceView)>::empty());
        let spec_out = input_spec(t, ctx, node, x, y, w, h, shaped@, clip, s0).0;
        assert(show_ph == (t.value@.len() == 0));
        assert(tx as int == x + INPUT_PADDING_X + input_scroll_spec(show_ph, shaped_width(shaped@, node), w - 2 * INPUT_PADDING_X));
        assert(spec_out.instances == seq![boxi] + sels_e + caret_e);
        assert(out.instances@ == seq![boxi] + sels_e + caret_e);
        assert(out.texts@ =~= spec_out.texts);
    }
}

proof fn lemma_empty_within(o: &RenderOutput, clip: Option<Rect>)
    requires
        out_view(o) == empty_out(),
    ensures
        clip matches Some(c) ==> output_within(o, c),
{
    assert(o.instances@.len() == empty_out().instances.len());
    assert(o.texts@.len() == empty_out().texts.len());
    assert(o.batches().len() == 0);
}

/// The origin is within the position bound of any node.
pub proof fn lemma_root_bound(tree: &LayoutEngine, node: Node)
    requires
        tree.wf(),
        tree.valid(node),
    ensures
        tree.pos_bound(node.0 as int) >= 0,
{
    lemma_node_bound(tree, node);
}

} // verus!
