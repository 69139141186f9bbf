//! The per-frame layout arena, its stable-id registry, and pointer hit-testing.

use vstd::prelude::*;
use crate::geometry::{in_limit, Point, Rect, Size, COORD_LIMIT};
use crate::keyed::KeyedList;
use crate::ui::Style;

verus! {

/// A handle into the current frame's layout arena; valid only within that frame.
#[derive(Clone, Copy, Debug, PartialEq, Eq, Structural, Hash)]
pub struct Node(pub usize);

/// The most nodes one frame's arena may hold.
pub const MAX_NODES: usize = 0x10_0000;

/// How far an absolute position may move per level of the tree: a local offset plus a
/// scroll offset.
pub const LEVEL_STEP: i64 = 0x4_0000_0000;

/// A text whose intrinsic size the solver asks the text engine for.
#[derive(Clone, Debug)]
pub struct TextMeasure {
    pub content: String,
    pub font_size: u32,
}

/// A node's box translated by an accumulated parent offset.
#[derive(Clone, Copy, Debug, PartialEq, Eq, Structural)]
pub struct ComputedLayout {
    pub x: i64,
    pub y: i64,
    pub width: i64,
    pub height: i64,
}

/// The layout arena of one frame. Nodes are appended after their children, so every
/// child has a smaller index than its parent.
pub struct LayoutEngine {
    pub styles: Vec<Style>,
    pub children: Vec<Vec<Node>>,
    pub parents: Vec<Option<Node>>,
    pub measures: Vec<Option<TextMeasure>>,
    /// Each node's box relative to its parent, as the solver computed it.
    pub layouts: Vec<Rect>,
    /// The stable id registered for each node, if any.
    pub node_ids: Vec<Option<String>>,
    pub id_map: KeyedList<usize>,
    pub root: Option<Node>,
    /// Texts that inputs need shaped before rendering, by node.
    pub shape_requests: Vec<(Node, TextMeasure)>,
}

/// A solver box within the coordinate limits, with a size that is not negative.
pub open spec fn layout_ok(r: Rect) -> bool {
    in_limit(r.origin.x as int) && in_limit(r.origin.y as int) && 0 <= r.size.width
        <= COORD_LIMIT && 0 <= r.size.height <= COORD_LIMIT
}

/// The scroll offset that a per-node offset list gives `n`: its first entry, else zero.
pub open spec fn offset_for(offs: Seq<(Node, i64)>, n: Node) -> int
    decreases offs.len(),
{
    if offs.len() == 0 {
        0
    } else if offs[0].0 == n {
        offs[0].1 as int
    } else {
        offset_for(offs.drop_first(), n)
    }
}

pub open spec fn offsets_ok(offs: Seq<(Node, i64)>) -> bool {
    forall|i: int| 0 <= i < offs.len() ==> in_limit(#[trigger] offs[i].1 as int)
}

impl LayoutEngine {
    pub open spec fn len(&self) -> int {
        self.styles@.len() as int
    }

    pub open spec fn valid(&self, n: Node) -> bool {
        0 <= n.0 < self.len()
    }

    pub open spec fn kids(&self, n: int) -> Seq<Node> {
        self.children@[n]@
    }

    pub open spec fn has_id(&self, n: int) -> bool {
        self.node_ids@[n] is Some
    }

    pub open spec fn wf(&self) -> bool {
        &&& self.len() <= MAX_NODES
        &&& self.children@.len() == self.len()
        &&& self.parents@.len() == self.len()
        &&& self.measures@.len() == self.len()
        &&& self.layouts@.len() == self.len()
        &&& self.node_ids@.len() == self.len()
        &&& forall|n: int, k: int|
            0 <= n < self.len() && 0 <= k < self.kids(n).len() ==> #[trigger] self.kids(n)[k].0
                < n
        &&& forall|n: int| 0 <= n < self.len() ==> layout_ok(#[trigger] self.layouts@[n])
        &&& forall|n: int|
            0 <= n < self.len() ==> (#[trigger] self.parents@[n] matches Some(p) ==> n < p.0
                < self.len())
        &&& self.id_map.wf()
        &&& forall|k: Seq<char>| #[trigger]
            self.id_map@.contains_key(k) ==> self.id_map@[k] < self.len()
        &&& self.root matches Some(r) ==> self.valid(r)
    }

    pub fn new() -> (r: LayoutEngine)
        ensures
            r.wf(),
            r.len() == 0,
            r.id_map@ == Map::<Seq<char>, usize>::empty(),
            r.root is None,
    {
        LayoutEngine {
            styles: Vec::new(),
            children: Vec::new(),
            parents: Vec::new(),
            measures: Vec::new(),
            layouts: Vec::new(),
            node_ids: Vec::new(),
            id_map: KeyedList::new(),
            root: None,
            shape_requests: Vec::new(),
        }
    }

    /// Discards the whole arena, the registry and the parent links.
    pub fn clear(&mut self)
        ensures
            final(self).wf(),
            final(self).len() == 0,
            final(self).id_map@ == Map::<Seq<char>, usize>::empty(),
            final(self).root is None,
    {
        *self = LayoutEngine::new();
    }

    /// Marks `node` as the root of this frame's tree.
    pub fn set_root(&mut self, node: Node)
        requires
            old(self).wf(),
            old(self).valid(node),
        ensures
            final(self).wf(),
            final(self).root == Some(node),
            final(self).len() == old(self).len(),
            final(self).children@ == old(self).children@,
            final(self).layouts@ == old(self).layouts@,
            final(self).node_ids@ == old(self).node_ids@,
            final(self).id_map@ == old(self).id_map@,
    {
        self.root = Some(node);
        proof {
            assert forall|n: int, k: int|
                0 <= n < self.len() && 0 <= k < self.kids(n).len() implies #[trigger] self.kids(n)[k].0
                < n by {
                assert(self.kids(n) == old(self).kids(n));
            }
        }
    }

    pub fn node_count(&self) -> (r: usize)
        requires
            self.wf(),
        ensures
            r == self.len(),
    {
        self.styles.len()
    }

    /// Registers `id` as the stable id of `node` for this frame.
    pub fn register_id(&mut self, id: &String, node: Node)
        requires
            old(self).wf(),
            old(self).valid(node),
        ensures
            final(self).wf(),
            final(self).id_map@ == old(self).id_map@.insert(id@, node.0),
            final(self).node_ids@ == old(self).node_ids@.update(node.0 as int, Some(*id)),
            final(self).styles@ == old(self).styles@,
            final(self).children@ == old(self).children@,
            final(self).layouts@ == old(self).layouts@,
            final(self).root == old(self).root,
    {
        self.id_map.insert(id.clone(), node.0);
        self.node_ids.set(node.0, Some(id.clone()));
        proof {
            assert forall|k: Seq<char>| #[trigger]
                self.id_map@.contains_key(k) implies self.id_map@[k] < self.len() by {
                if k != id@ {
                    assert(old(self).id_map@.contains_key(k));
                }
            }
            assert forall|n: int, k: int|
                0 <= n < self.len() && 0 <= k < self.kids(n).len() implies #[trigger] self.kids(n)[k].0
                < n by {
                assert(self.kids(n) == old(self).kids(n));
            }
        }
    }

    /// The node registered under `id` this frame.
    pub fn get_node(&self, id: &String) -> (r: Option<Node>)
        requires
            self.wf(),
        ensures
            r == (if self.id_map@.contains_key(id@) {
                Some(Node(self.id_map@[id@]))
            } else {
                None
            }),
    {
        match self.id_map.get(id) {
            Some(i) => Some(Node(i)),
            None => None,
        }
    }

    /// The stable id registered for `node`, if any.
    pub fn id_of(&self, node: Node) -> (r: Option<String>)
        requires
            self.wf(),
            self.valid(node),
        ensures
            r == self.node_ids@[node.0 as int],
    {
        match &self.node_ids[node.0] {
            Some(s) => Some(s.clone()),
            None => None,
        }
    }

    pub fn parent(&self, node: Node) -> (r: Option<Node>)
        requires
            self.wf(),
            self.valid(node),
        ensures
            r == self.parents@[node.0 as int],
    {
        self.parents[node.0]
    }

    pub fn children_of(&self, node: Node) -> (r: &Vec<Node>)
        requires
            self.wf(),
            self.valid(node),
        ensures
            r@ == self.kids(node.0 as int),
    {
        &self.children[node.0]
    }

    /// The node's box relative to its parent.
    pub fn layout(&self, node: Node) -> (r: Rect)
        requires
            self.wf(),
            self.valid(node),
        ensures
            r == self.layouts@[node.0 as int],
            layout_ok(r),
    {
        self.layouts[node.0]
    }

    /// Stores the solver's box for `node`.
    pub fn set_layout(&mut self, node: Node, r: Rect)
        requires
            old(self).wf(),
            old(self).valid(node),
            layout_ok(r),
        ensures
            final(self).wf(),
            final(self).layouts@ == old(self).layouts@.update(node.0 as int, r),
            final(self).styles@ == old(self).styles@,
            final(self).children@ == old(self).children@,
            final(self).node_ids@ == old(self).node_ids@,
            final(self).id_map@ == old(self).id_map@,
            final(self).root == old(self).root,
    {
        self.layouts.set(node.0, r);
        proof {
            assert forall|n: int| 0 <= n < self.len() implies layout_ok(#[trigger] self.layouts@[n]) by {
                if n != node.0 {
                    assert(self.layouts@[n] == old(self).layouts@[n]);
                }
            }
            self.lemma_wf_layouts(old(self));
        }
    }

    /// Pins the node to the top of its parent.
    pub fn reset_node_y_to_zero(&mut self, node: Node)
        requires
            old(self).wf(),
            old(self).valid(node),
        ensures
            final(self).wf(),
            final(self).layouts@ == old(self).layouts@.update(
                node.0 as int,
                Rect {
                    origin: Point { y: 0, ..old(self).layouts@[node.0 as int].origin },
                    ..old(self).layouts@[node.0 as int]
                },
            ),
            final(self).styles@ == old(self).styles@,
            final(self).children@ == old(self).children@,
            final(self).node_ids@ == old(self).node_ids@,
            final(self).id_map@ == old(self).id_map@,
            final(self).root == old(self).root,
    {
        let l = self.layouts[node.0];
        self.layouts.set(node.0, Rect { origin: Point { y: 0, ..l.origin }, ..l });
        proof {
            assert forall|n: int| 0 <= n < self.len() implies layout_ok(#[trigger] self.layouts@[n]) by {
                if n != node.0 {
                    assert(self.layouts@[n] == old(self).layouts@[n]);
                }
            }
            self.lemma_wf_layouts(old(self));
        }
    }

    /// Stops the node from shrinking below its content.
    pub fn disable_shrink(&mut self, node: Node)
        requires
            old(self).wf(),
            old(self).valid(node),
        ensures
            final(self).wf(),
            final(self).styles@[node.0 as int].flex_shrink == 0,
            final(self).len() == old(self).len(),
            final(self).children@ == old(self).children@,
            final(self).layouts@ == old(self).layouts@,
            final(self).node_ids@ == old(self).node_ids@,
            final(self).id_map@ == old(self).id_map@,
            final(self).root == old(self).root,
    {
        self.styles[node.0].flex_shrink = 0;
        proof {
            assert(self.len() == old(self).len());
            assert forall|n: int| 0 <= n < self.len() implies layout_ok(#[trigger] self.layouts@[n]) by {
                assert(self.layouts@[n] == old(self).layouts@[n]);
            }
            self.lemma_wf_layouts(old(self));
        }
    }

    proof fn lemma_wf_layouts(&self, prev: &LayoutEngine)
        requires
            prev.wf(),
            self.len() == prev.len(),
            self.children@ == prev.children@,
            self.parents@ == prev.parents@,
            self.measures@.len() == prev.measures@.len(),
            self.node_ids@ == prev.node_ids@,
            self.id_map == prev.id_map,
            self.root == prev.root,
            self.layouts@.len() == prev.layouts@.len(),
            forall|n: int| 0 <= n < self.len() ==> layout_ok(#[trigger] self.layouts@[n]),
        ensures
            self.wf(),
    {
        assert forall|n: int, k: int|
            0 <= n < self.len() && 0 <= k < self.kids(n).len() implies #[trigger] self.kids(n)[k].0
            < n by {
            assert(self.kids(n) == prev.kids(n));
        }
        assert forall|n: int| 0 <= n < self.len() implies (#[trigger] self.parents@[n] matches Some(
            p,
        ) ==> n < p.0 < self.len()) by {
            assert(self.parents@[n] == prev.parents@[n]);
        }
    }

    fn push_node(&mut self, style: Style, kids: Vec<Node>, measure: Option<TextMeasure>) -> (r:
        Node)
        requires
            old(self).wf(),
            old(self).len() < MAX_NODES,
            forall|k: int| 0 <= k < kids@.len() ==> old(self).valid(#[trigger] kids@[k]),
        ensures
            final(self).wf(),
            r.0 == old(self).len(),
            final(self).len() == old(self).len() + 1,
            final(self).kids(r.0 as int) == kids@,
            final(self).node_ids@ == old(self).node_ids@.push(None),
            final(self).id_map@ == old(self).id_map@,
            final(self).root == old(self).root,
            final(self).styles@ == old(self).styles@.push(style),
            final(self).measures@ == old(self).measures@.push(measure),
            forall|n: int| 0 <= n < old(self).len() ==> #[trigger] final(self).kids(n) == old(
                self,
            ).kids(n),
            final(self).layouts@ == old(self).layouts@.push(Rect::zero_spec()),
            forall|k: int|
                0 <= k < kids@.len() ==> final(self).parents@[#[trigger] kids@[k].0 as int] == Some(
                    r,
                ),
    {
        let idx = self.styles.len();
        let ghost ks = kids@;
        self.styles.push(style);
        self.children.push(kids);
        self.parents.push(None);
        self.measures.push(measure);
        self.layouts.push(Rect { origin: Point { x: 0, y: 0 }, size: Size { width: 0, height: 0 } });
        self.node_ids.push(None);
        proof {
            assert forall|n: int, k: int|
                0 <= n < self.len() && 0 <= k < self.kids(n).len() implies #[trigger] self.kids(
                n,
            )[k].0 < n by {
                if n < idx {
                    assert(self.kids(n) == old(self).kids(n));
                }
            }
            assert forall|n: int| 0 <= n < self.len() implies (#[trigger] self.parents@[n] matches Some(
                p,
            ) ==> n < p.0 < self.len()) by {
                if n < idx {
                    assert(self.parents@[n] == old(self).parents@[n]);
                }
            }
            assert forall|n: int| 0 <= n < self.len() implies layout_ok(
                #[trigger] self.layouts@[n],
            ) by {
                if n < idx {
                    assert(self.layouts@[n] == old(self).layouts@[n]);
                }
            }
            assert forall|k: Seq<char>| #[trigger]
                self.id_map@.contains_key(k) implies self.id_map@[k] < self.len() by {
                assert(old(self).id_map@.contains_key(k));
            }
        }
        let n = self.children[idx].len();
        let ghost ch = self.children@;
        let ghost st = self.styles@;
        let ghost ms = self.measures@;
        let ghost ls = self.layouts@;
        let ghost ids = self.node_ids@;
        let ghost pa = self.parents@;
        let mut i: usize = 0;
        while i < n
            invariant
                self.wf(),
                self.len() == idx + 1,
                self.kids(idx as int) == ks,
                n == ks.len(),
                forall|k: int| 0 <= k < ks.len() ==> #[trigger] ks[k].0 < idx,
                forall|k: int| 0 <= k < i ==> self.parents@[#[trigger] ks[k].0 as int] == Some(Node(idx)),
                self.children@ == ch,
                self.styles@ == st,
                self.measures@ == ms,
                self.layouts@ == ls,
                self.node_ids@ == ids,
                self.id_map@ == old(self).id_map@,
                self.root == old(self).root,
                self.parents@.len() == pa.len(),
                forall|m: int| 0 <= m < pa.len() && (forall|k: int| 0 <= k < ks.len() ==> ks[k].0 != m)
                    ==> #[trigger] self.parents@[m] == pa[m],
            decreases n - i,
        {
            let c = self.children[idx][i];
            assert(c == ks[i as int]);
            let ghost before = self.parents@;
            assert(forall|nn: int, k: int|
                0 <= nn < self.len() && 0 <= k < self.kids(nn).len() ==> #[trigger] ch[nn]@[k].0 < nn);
            self.parents.set(c.0, Some(Node(idx)));
            proof {
                assert forall|m: int| 0 <= m < self.len() implies (#[trigger] self.parents@[m] matches Some(
                    p,
                ) ==> m < p.0 < self.len()) by {
                    if m != c.0 {
                        assert(self.parents@[m] == before[m]);
                    }
                }
                assert forall|nn: int, k: int|
                    0 <= nn < self.len() && 0 <= k < self.kids(nn).len() implies #[trigger] self.kids(
                    nn,
                )[k].0 < nn by {
                    assert(self.children@[nn] == ch[nn]);
                    assert(ch[nn]@[k].0 < nn);
                }
            }
            i = i + 1;
        }
        proof {
            assert forall|m: int| 0 <= m < old(self).len() implies #[trigger] self.kids(m) == old(self).kids(m) by {
                assert(self.children@[m] == old(self).children@[m]);
            }
        }
        Node(idx)
    }

    /// A container node over already built children; they become its children in order.
    pub fn new_node(&mut self, style: Style, children: &Vec<Node>) -> (r: Node)
        requires
            old(self).wf(),
            old(self).len() < MAX_NODES,
            forall|k: int| 0 <= k < children@.len() ==> old(self).valid(#[trigger] children@[k]),
        ensures
            final(self).wf(),
            r.0 == old(self).len(),
            final(self).len() == old(self).len() + 1,
            final(self).kids(r.0 as int) == children@,
            final(self).styles@ == old(self).styles@.push(style),
            final(self).measures@[r.0 as int] is None,
            !final(self).has_id(r.0 as int),
            final(self).id_map@ == old(self).id_map@,
            final(self).root == old(self).root,
            forall|n: int| 0 <= n < old(self).len() ==> #[trigger] final(self).kids(n) == old(
                self,
            ).kids(n),
            forall|k: int|
                0 <= k < children@.len() ==> final(self).parents@[#[trigger] children@[k].0 as int]
                    == Some(r),
    {
        let kids = children.clone();
        self.push_node(style, kids, None)
    }

    /// A leaf node.
    pub fn new_leaf(&mut self, style: Style) -> (r: Node)
        requires
            old(self).wf(),
            old(self).len() < MAX_NODES,
        ensures
            final(self).wf(),
            r.0 == old(self).len(),
            final(self).len() == old(self).len() + 1,
            final(self).kids(r.0 as int).len() == 0,
            final(self).styles@ == old(self).styles@.push(style),
            final(self).measures@[r.0 as int] is None,
            !final(self).has_id(r.0 as int),
            final(self).id_map@ == old(self).id_map@,
            final(self).root == old(self).root,
            forall|n: int| 0 <= n < old(self).len() ==> #[trigger] final(self).kids(n) == old(
                self,
            ).kids(n),
    {
        self.push_node(style, Vec::new(), None)
    }

    /// A leaf whose intrinsic size the solver asks the text engine for.
    pub fn new_leaf_with_measure(&mut self, style: Style, measure: TextMeasure) -> (r: Node)
        requires
            old(self).wf(),
            old(self).len() < MAX_NODES,
        ensures
            final(self).wf(),
            r.0 == old(self).len(),
            final(self).len() == old(self).len() + 1,
            final(self).kids(r.0 as int).len() == 0,
            final(self).styles@ == old(self).styles@.push(style),
            final(self).measures@ == old(self).measures@.push(Some(measure)),
            !final(self).has_id(r.0 as int),
            final(self).id_map@ == old(self).id_map@,
            final(self).root == old(self).root,
            forall|n: int| 0 <= n < old(self).len() ==> #[trigger] final(self).kids(n) == old(
                self,
            ).kids(n),
    {
        self.push_node(style, Vec::new(), Some(measure))
    }
}

impl Rect {
    pub open spec fn zero_spec() -> Rect {
        Rect { origin: Point { x: 0, y: 0 }, size: Size { width: 0, height: 0 } }
    }
}

/// Whether `(mx, my)` lies in the closed box at `(x, y)` of size `(w, h)`.
pub open spec fn inside(mx: int, my: int, x: int, y: int, w: int, h: int) -> bool {
    x <= mx <= x + w && y <= my <= y + h
}

impl LayoutEngine {
    /// The deepest id-bearing node under `(mx, my)` in the subtree of `n`, whose parent
    /// sits at `(px, py)`. Children are searched last-declared first, and a scroll
    /// container shifts its children up by its offset.
    pub open spec fn hit_spec(
        &self,
        n: int,
        mx: int,
        my: int,
        px: int,
        py: int,
        offs: Seq<(Node, i64)>,
    ) -> Option<int>
        decreases n, 1int, 0int,
    {
        if !(0 <= n < self.len()) {
            None
        } else {
            let l = self.layouts@[n];
            let ax = px + l.origin.x;
            let ay = py + l.origin.y;
            if inside(mx, my, ax, ay, l.size.width as int, l.size.height as int) {
                match self.hit_children(
                    n,
                    self.kids(n).len() as int,
                    mx,
                    my,
                    ax,
                    ay - offset_for(offs, Node(n as usize)),
                    offs,
                ) {
                    Some(h) => Some(h),
                    None => if self.has_id(n) {
                        Some(n)
                    } else {
                        None
                    },
                }
            } else {
                None
            }
        }
    }

    /// The first hit among the first `k` children of `n`, searched from the last.
    pub open spec fn hit_children(
        &self,
        n: int,
        k: int,
        mx: int,
        my: int,
        cx: int,
        cy: int,
        offs: Seq<(Node, i64)>,
    ) -> Option<int>
        decreases n, 0int, k,
    {
        if !(0 <= n < self.len()) || k <= 0 || k > self.kids(n).len() {
            None
        } else {
            let c = self.kids(n)[k - 1].0 as int;
            if 0 <= c < n {
                match self.hit_spec(c, mx, my, cx, cy, offs) {
                    Some(h) => Some(h),
                    None => self.hit_children(n, k - 1, mx, my, cx, cy, offs),
                }
            } else {
                None
            }
        }
    }

    /// The bound on an absolute parent position while descending to node `n`.
    pub open spec fn pos_bound(&self, n: int) -> int {
        (self.len() - n) * LEVEL_STEP
    }

    /// The node's box translated by the accumulated parent offset.
    pub fn get_final_layout(&self, node: Node, parent_x: i64, parent_y: i64) -> (r: ComputedLayout)
        requires
            self.wf(),
            self.valid(node),
            i64::MIN <= parent_x + self.layouts@[node.0 as int].origin.x <= i64::MAX,
            i64::MIN <= parent_y + self.layouts@[node.0 as int].origin.y <= i64::MAX,
        ensures
            r.x == parent_x + self.layouts@[node.0 as int].origin.x,
            r.y == parent_y + self.layouts@[node.0 as int].origin.y,
            r.width == self.layouts@[node.0 as int].size.width,
            r.height == self.layouts@[node.0 as int].size.height,
    {
        let l = self.layouts[node.0];
        ComputedLayout {
            x: parent_x + l.origin.x,
            y: parent_y + l.origin.y,
            width: l.size.width,
            height: l.size.height,
        }
    }

    fn scroll_offset_of(offs: &Vec<(Node, i64)>, n: Node) -> (r: i64)
        requires
            offsets_ok(offs@),
        ensures
            r == offset_for(offs@, n),
            in_limit(r as int),
    {
        let mut i: usize = 0;
        assert(offs@.subrange(0, offs@.len() as int) =~= offs@);
        while i < offs.len()
            invariant
                0 <= i <= offs@.len(),
                offsets_ok(offs@),
                offset_for(offs@, n) == offset_for(offs@.subrange(i as int, offs@.len() as int), n),
            decreases offs@.len() - i,
        {
            proof {
                let rest = offs@.subrange(i as int, offs@.len() as int);
                assert(rest.drop_first() =~= offs@.subrange(i + 1, offs@.len() as int));
            }
            if offs[i].0 == n {
                return offs[i].1;
            }
            i = i + 1;
        }
        0
    }

    /// The topmost id-bearing node under the point `(x, y)`, starting from `root`, with
    /// each scroll container shifted by its entry in `offsets`.
    pub fn hit_test(&self, root: Node, x: i64, y: i64, offsets: &Vec<(Node, i64)>) -> (r: Option<
        Node,
    >)
        requires
            self.wf(),
            self.valid(root),
            offsets_ok(offsets@),
        ensures
            r == (match self.hit_spec(root.0 as int, x as int, y as int, 0, 0, offsets@) {
                Some(h) => Some(Node(h as usize)),
                None => None,
            }),
    {
        proof {
            assert(0 <= self.pos_bound(root.0 as int)) by (nonlinear_arith)
                requires root.0 < self.len();
        }
        match self.hit_test_recursive(root, x, y, 0, 0, offsets) {
            Some(h) => Some(Node(h)),
            None => None,
        }
    }

    fn hit_test_recursive(
        &self,
        node: Node,
        mx: i64,
        my: i64,
        parent_x: i64,
        parent_y: i64,
        offs: &Vec<(Node, i64)>,
    ) -> (r: Option<usize>)
        requires
            self.wf(),
            self.valid(node),
            offsets_ok(offs@),
            -self.pos_bound(node.0 as int) <= parent_x <= self.pos_bound(node.0 as int),
            -self.pos_bound(node.0 as int) <= parent_y <= self.pos_bound(node.0 as int),
        ensures
            r matches Some(h) ==> self.hit_spec(
                node.0 as int,
                mx as int,
                my as int,
                parent_x as int,
                parent_y as int,
                offs@,
            ) == Some(h as int),
            r is None ==> self.hit_spec(
                node.0 as int,
                mx as int,
                my as int,
                parent_x as int,
                parent_y as int,
                offs@,
            ) is None,
        decreases node.0,
    {
        let ghost n = node.0 as int;
        proof {
            assert(self.pos_bound(n) <= MAX_NODES * LEVEL_STEP) by (nonlinear_arith)
                requires self.len() <= MAX_NODES, 0 <= n, self.pos_bound(n) == (self.len() - n) * LEVEL_STEP;
            assert(layout_ok(self.layouts@[n]));
        }
        let l = self.layouts[node.0];
        let abs_x: i64 = parent_x + l.origin.x;
        let abs_y: i64 = parent_y + l.origin.y;
        let inside_box = mx >= abs_x && mx <= abs_x + l.size.width && my >= abs_y && my <= abs_y
            + l.size.height;
        if !inside_box {
            return None;
        }
        let off = LayoutEngine::scroll_offset_of(offs, node);
        let child_y: i64 = abs_y - off;
        let kids = &self.children[node.0];
        let mut k: usize = kids.len();
        while k > 0
            invariant
                self.wf(),
                0 <= n < self.len(),
                node.0 == n,
                kids@ == self.kids(n),
                0 <= k <= kids@.len(),
                offsets_ok(offs@),
                abs_x == parent_x + l.origin.x,
                child_y == parent_y + l.origin.y - offset_for(offs@, node),
                in_limit(offset_for(offs@, node)),
                node == Node(n as usize),
                abs_y == parent_y + l.origin.y,
                inside(mx as int, my as int, abs_x as int, abs_y as int, l.size.width as int, l.size.height as int),
                -self.pos_bound(n) <= parent_x <= self.pos_bound(n),
                -self.pos_bound(n) <= parent_y <= self.pos_bound(n),
                l == self.layouts@[n],
                layout_ok(l),
                self.hit_children(n, kids@.len() as int, mx as int, my as int, abs_x as int, child_y as int, offs@)
                    == self.hit_children(n, k as int, mx as int, my as int, abs_x as int, child_y as int, offs@),
            decreases k,
        {
            let c = kids[k - 1];
            assert(c.0 < n);
            proof {
                assert(self.pos_bound(n) + LEVEL_STEP <= self.pos_bound(c.0 as int)) by (nonlinear_arith)
                    requires c.0 < n, self.pos_bound(n) == (self.len() - n) * LEVEL_STEP,
                        self.pos_bound(c.0 as int) == (self.len() - c.0) * LEVEL_STEP;
            }
            match self.hit_test_recursive(c, mx, my, abs_x, child_y, offs) {
                Some(h) => {
                    assert(self.hit_children(n, k as int, mx as int, my as int, abs_x as int, child_y as int, offs@) == Some(h as int));
                    return Some(h);
                },
                None => {},
            }
            k = k - 1;
        }
        if self.node_ids[node.0].is_some() {
            Some(node.0)
        } else {
            None
        }
    }
}

impl LayoutEngine {
    proof fn lemma_search_reaches(
        &self,
        p: int,
        k: int,
        j: int,
        mx: int,
        my: int,
        cx: int,
        cy: int,
        offs: Seq<(Node, i64)>,
    )
        requires
            self.wf(),
            0 <= p < self.len(),
            0 <= j < k <= self.kids(p).len(),
            self.hit_spec(self.kids(p)[j].0 as int, mx, my, cx, cy, offs) is Some,
        ensures
            exists|m: int|
                j <= m < k && self.hit_children(p, k, mx, my, cx, cy, offs) == #[trigger] self.hit_spec(
                    self.kids(p)[m].0 as int,
                    mx,
                    my,
                    cx,
                    cy,
                    offs,
                ) && self.hit_spec(self.kids(p)[m].0 as int, mx, my, cx, cy, offs) is Some,
        decreases k,
    {
        let c = self.kids(p)[k - 1].0 as int;
        assert(c < p);
        if self.hit_spec(c, mx, my, cx, cy, offs) is Some {
            assert(self.hit_children(p, k, mx, my, cx, cy, offs) == self.hit_spec(
                self.kids(p)[k - 1].0 as int,
                mx,
                my,
                cx,
                cy,
                offs,
            ));
        } else {
            assert(k - 1 != j);
            self.lemma_search_reaches(p, k - 1, j, mx, my, cx, cy, offs);
            let m = choose|m: int|
                j <= m < k - 1 && self.hit_children(p, k - 1, mx, my, cx, cy, offs)
                    == #[trigger] self.hit_spec(self.kids(p)[m].0 as int, mx, my, cx, cy, offs)
                    && self.hit_spec(self.kids(p)[m].0 as int, mx, my, cx, cy, offs) is Some;
            assert(self.hit_children(p, k, mx, my, cx, cy, offs) == self.hit_spec(
                self.kids(p)[m].0 as int,
                mx,
                my,
                cx,
                cy,
                offs,
            ));
        }
    }

    /// The topmost sibling wins: when a child `b` declared after a sibling `a` carries a
    /// stable id and its box holds the point, the search over the children never gets to
    /// `a`; it answers from `b` or a child declared after it. When `b` is the last child
    /// and has no children of its own, the answer is `b`.
    pub proof fn lemma_topmost_sibling_wins(
        &self,
        parent: int,
        a: int,
        b: int,
        mx: int,
        my: int,
        cx: int,
        cy: int,
        offs: Seq<(Node, i64)>,
    )
        requires
            self.wf(),
            0 <= parent < self.len(),
            0 <= a < b < self.kids(parent).len(),
            self.has_id(self.kids(parent)[b].0 as int),
            inside(
                mx,
                my,
                cx + self.layouts@[self.kids(parent)[b].0 as int].origin.x,
                cy + self.layouts@[self.kids(parent)[b].0 as int].origin.y,
                self.layouts@[self.kids(parent)[b].0 as int].size.width as int,
                self.layouts@[self.kids(parent)[b].0 as int].size.height as int,
            ),
        ensures
            exists|m: int|
                b <= m < self.kids(parent).len() && self.hit_children(
                    parent,
                    self.kids(parent).len() as int,
                    mx,
                    my,
                    cx,
                    cy,
                    offs,
                ) == #[trigger] self.hit_spec(self.kids(parent)[m].0 as int, mx, my, cx, cy, offs)
                    && self.hit_spec(self.kids(parent)[m].0 as int, mx, my, cx, cy, offs) is Some,
            b == self.kids(parent).len() - 1 && self.kids(self.kids(parent)[b].0 as int).len() == 0
                ==> self.hit_children(parent, self.kids(parent).len() as int, mx, my, cx, cy, offs)
                == Some(self.kids(parent)[b].0 as int),
    {
        let bn = self.kids(parent)[b].0 as int;
        assert(bn < parent);
        let l = self.layouts@[bn];
        match self.hit_children(
            bn,
            self.kids(bn).len() as int,
            mx,
            my,
            cx + l.origin.x,
            cy + l.origin.y - offset_for(offs, Node(bn as usize)),
            offs,
        ) {
            Some(_) => {},
            None => {},
        }
        assert(self.hit_spec(bn, mx, my, cx, cy, offs) is Some);
        self.lemma_search_reaches(parent, self.kids(parent).len() as int, b, mx, my, cx, cy, offs);
    }
}

} // verus!
