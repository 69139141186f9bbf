//! The two halves of a frame around the external box solver.

use vstd::prelude::*;
use crate::geometry::Point;
use crate::output::RenderOutput;
use crate::render::shaped_ok;
use crate::state::{corrected, corrected_entries, lookup_id, FrameworkState};
use crate::walk::{out_view, rctx, render_spec, rstate};
use crate::text::TextLayout;
use crate::tree::{offsets_ok, LayoutEngine, Node, MAX_NODES};
use crate::widgets::{children_size, widget_size, Widget};

verus! {

pub open spec fn min_nat(a: nat, b: nat) -> nat {
    if a <= b { a } else { b }
}

fn count_children(children: &Vec<Widget>) -> (r: usize)
    ensures
        r == min_nat(children_size(children@), (MAX_NODES + 1) as nat),
    decreases children@, 0int,
{
    let mut total: usize = 0;
    let mut i: usize = 0;
    assert(children@.subrange(0, 0) =~= Seq::<Widget>::empty());
    while i < children.len()
        invariant
            0 <= i <= children@.len(),
            total == min_nat(children_size(children@.subrange(0, i as int)), (MAX_NODES + 1) as nat),
        decreases children@.len() - i,
    {
        let n = count_nodes(&children[i]);
        proof {
            let t = children@.subrange(0, i + 1);
            assert(t.subrange(0, t.len() - 1) =~= children@.subrange(0, i as int));
            assert(t[t.len() - 1] == children@[i as int]);
        }
        total = if total + n > MAX_NODES + 1 { MAX_NODES + 1 } else { total + n };
        i = i + 1;
    }
    assert(children@.subrange(0, children@.len() as int) =~= children@);
    total
}

/// How many layout nodes `w` builds, or one more than the arena holds if that is more.
pub fn count_nodes(w: &Widget) -> (r: usize)
    ensures
        r == min_nat(widget_size(w), (MAX_NODES + 1) as nat),
    decreases w, 1int,
{
    let inner: usize = match w {
        Widget::View(v) => count_children(&v.children),
        Widget::Button(b) => count_children(&b.view.children),
        Widget::ScrollView(s) => count_nodes(&s.content),
        _ => 0,
    };
    if inner >= MAX_NODES + 1 { MAX_NODES + 1 } else { inner + 1 }
}

/// Starts a frame: discards the previous arena and builds `root` into a fresh one. When
/// the widget tree needs more nodes than an arena holds, nothing is built.
pub fn begin_frame(tree: &mut LayoutEngine, root: &Widget) -> (r: Option<Node>)
    ensures
        final(tree).wf(),
        r is Some <==> widget_size(root) <= MAX_NODES,
        r matches Some(n) ==> final(tree).valid(n) && final(tree).root == Some(n)
            && final(tree).len() == widget_size(root),
        r is None ==> final(tree).len() == 0 && final(tree).root is None,
{
    tree.clear();
    if count_nodes(root) > MAX_NODES {
        return None;
    }
    let node = root.build(tree);
    tree.set_root(node);
    Some(node)
}

/// The stored offsets with `id` present, at zero when it was missing.
pub open spec fn with_default(m: Map<Seq<char>, i64>, id: Seq<char>) -> Map<Seq<char>, i64> {
    if m.contains_key(id) { m } else { m.insert(id, 0) }
}

/// Finishes a frame once the solver has stored every box: finds the pressed and focused
/// nodes again by stable id, makes sure `default_scroll` has an offset, corrects every
/// scroll offset, finds the hovered node under the pointer, and renders the widget tree
/// from the root at the origin, unclipped, under the path `root`.
pub fn finish_frame(
    tree: &mut LayoutEngine,
    state: &mut FrameworkState,
    root_widget: &Widget,
    root: Node,
    shaped: &Vec<(Node, TextLayout)>,
    default_scroll: &String,
    now: u64,
) -> (r: RenderOutput)
    requires
        old(tree).wf(),
        old(tree).valid(root),
        old(state).wf(),
        shaped_ok(shaped@),
    ensures
        final(tree).wf(),
        final(state).wf(),
        final(state).config == old(state).config,
        final(state).active_node == lookup_id(&*old(tree), old(state).active_id),
        final(state).focused_node == lookup_id(&*old(tree), old(state).focused_id),
        final(state).scroll_offsets@.dom() == with_default(old(state).scroll_offsets@, default_scroll@).dom(),
        forall|k: Seq<char>| #[trigger] final(state).scroll_offsets@.contains_key(k)
            ==> final(state).scroll_offsets@[k] == corrected(
                &*old(tree),
                k,
                with_default(old(state).scroll_offsets@, default_scroll@)[k],
            ),
        exists|offs: Seq<(Node, i64)>|
            offsets_ok(offs) && corrected_entries(
                with_default(old(state).scroll_offsets@, default_scroll@),
                &*old(tree),
                final(state).scroll_offsets@,
                offs,
            ) && final(state).hovered_node == match final(tree).hit_spec(
                root.0 as int,
                old(state).cursor_pos.x as int,
                old(state).cursor_pos.y as int,
                0,
                0,
                offs,
            ) {
                Some(h) => Some(Node(h as usize)),
                None => None,
            },
        (out_view(&r), rstate(&*final(state))) == render_spec(
            root_widget,
            &*final(tree),
            rctx(&*final(state)),
            root,
            Point { x: 0, y: 0 },
            shaped@,
            None,
            seq!['r', 'o', 'o', 't'],
            now,
            rstate(&*old(state)),
        ),
{
    state.resolve_handles(&*tree);
    if !state.scroll_offsets.contains_key(default_scroll) {
        state.scroll_offsets.insert(default_scroll.clone(), 0);
    }
    assert(state.scroll_offsets@ == with_default(old(state).scroll_offsets@, default_scroll@));
    let ghost t0 = *tree;
    let offsets = state.correct_scroll_offsets(tree);
    let hovered = tree.hit_test(root, state.cursor_pos.x, state.cursor_pos.y, &offsets);
    state.hovered_node = hovered;
    proof {
        crate::render::lemma_root_bound(&*tree, root);
        assert(corrected_entries(
            with_default(old(state).scroll_offsets@, default_scroll@),
            &t0,
            state.scroll_offsets@,
            offsets@,
        ));
    }
    let path = String::from_str("root");
    proof {
        reveal_strlit("root");
        assert(path@ =~= seq!['r', 'o', 'o', 't']);
    }
    let ghost t = *tree;
    let ghost s_mid = rstate(&*state);
    assert(s_mid == rstate(&*old(state)));
    let out = root_widget.render(&*tree, state, root, Point { x: 0, y: 0 }, shaped, None, &path, now);
    assert(offsets_ok(offsets@) && state.hovered_node == match t.hit_spec(
        root.0 as int,
        old(state).cursor_pos.x as int,
        old(state).cursor_pos.y as int,
        0,
        0,
        offsets@,
    ) {
        Some(h) => Some(Node(h as usize)),
        None => None,
    });
    out
}

} // verus!
