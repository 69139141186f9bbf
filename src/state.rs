//! Interaction state kept across frames and the handlers that change it.

use vstd::prelude::*;
use vstd::string::StringSliceAdditionalSpecFns;
use crate::anim::{resolve_model, AnimModel, AnimState, Easing};
use crate::color::Color;
use crate::events::{AppEvent, RoreConfig};
use crate::geometry::{in_limit, Point};
use crate::keyed::KeyedList;
use crate::scroll::{clamp_offset, clamp_spec};
use crate::tree::{offsets_ok, LayoutEngine, Node};

verus! {

/// Pixels one wheel line scrolls.
pub const LINE_SCROLL_PX: i64 = 40;

/// A wheel movement: whole lines or pixels; positive moves the content up.
#[derive(Clone, Copy, Debug, PartialEq, Eq, Structural)]
pub enum ScrollDelta {
    Lines(i64),
    Pixels(i64),
}

/// The wheel movement in pixels.
pub open spec fn delta_px(d: ScrollDelta) -> int {
    match d {
        ScrollDelta::Lines(n) => n * LINE_SCROLL_PX,
        ScrollDelta::Pixels(p) => p as int,
    }
}

/// The keys that edit or move the caret of the focused input.
#[derive(Clone, Copy, Debug, PartialEq, Eq, Structural)]
pub enum EditKey {
    Backspace,
    Enter,
    ArrowLeft,
    ArrowRight,
    Other,
}

/// What a key press reports for the focused input.
#[derive(Clone, Debug)]
pub enum InputEdit {
    Insert(String),
    Backspace,
    Newline,
}

/// Whether the UTF-8 bytes hold a control character (`U+0000`..`U+001F` or
/// `U+007F`..`U+009F`).
pub open spec fn has_control(b: Seq<u8>) -> bool {
    exists|i: int|
        0 <= i < b.len() && (b[i] < 32 || b[i] == 127 || (b[i] == 0xc2 && i + 1 < b.len() && 0x80
            <= b[i + 1] <= 0x9f))
}

/// Interaction state kept across frames.
pub struct FrameworkState {
    pub cursor_pos: Point,
    pub hovered_node: Option<Node>,
    pub focused_node: Option<Node>,
    pub active_node: Option<Node>,
    /// The stable id of the pressed node, which finds it again in each new frame.
    pub active_id: Option<String>,
    /// The stable id of the focused node, which finds it again in each new frame.
    pub focused_id: Option<String>,
    pub scroll_offsets: KeyedList<i64>,
    pub focused_input_id: Option<String>,
    pub input_cursor_idx: usize,
    pub input_selection: Option<(usize, usize)>,
    pub drag_start_idx: Option<usize>,
    pub needs_redraw: bool,
    pub color_animations: KeyedList<AnimState>,
    pub last_colors: KeyedList<Color>,
    pub config: RoreConfig,
}

pub open spec fn normalized(sel: Option<(usize, usize)>) -> Option<(usize, usize)> {
    match sel {
        Some((s, e)) => if s < e {
            Some((s, e))
        } else {
            Some((e, s))
        },
        None => None,
    }
}

impl FrameworkState {
    pub open spec fn wf(&self) -> bool {
        &&& self.scroll_offsets.wf()
        &&& self.color_animations.wf()
        &&& self.last_colors.wf()
        &&& in_limit(self.cursor_pos.x as int)
        &&& in_limit(self.cursor_pos.y as int)
    }

    pub open spec fn anim_model(&self) -> AnimModel {
        AnimModel { anims: self.color_animations@, last: self.last_colors@ }
    }

    /// The state at startup: nothing hovered, pressed or focused, no offsets, no
    /// animations, and a first frame requested.
    pub fn new(config: RoreConfig) -> (r: FrameworkState)
        ensures
            r.wf(),
            r.cursor_pos == (Point { x: 0, y: 0 }),
            r.hovered_node is None && r.focused_node is None && r.active_node is None,
            r.active_id is None && r.focused_id is None,
            r.scroll_offsets@ == Map::<Seq<char>, i64>::empty(),
            r.focused_input_id is None,
            r.input_cursor_idx == 0,
            r.input_selection is None,
            r.drag_start_idx is None,
            r.needs_redraw,
            r.color_animations@ == Map::<Seq<char>, AnimState>::empty(),
            r.last_colors@ == Map::<Seq<char>, Color>::empty(),
            r.config == config,
    {
        FrameworkState {
            cursor_pos: Point { x: 0, y: 0 },
            hovered_node: None,
            focused_node: None,
            active_node: None,
            active_id: None,
            focused_id: None,
            scroll_offsets: KeyedList::new(),
            focused_input_id: None,
            input_cursor_idx: 0,
            input_selection: None,
            drag_start_idx: None,
            needs_redraw: true,
            color_animations: KeyedList::new(),
            last_colors: KeyedList::new(),
            config,
        }
    }

    pub fn request_redraw(&mut self)
        ensures
            *final(self) == (FrameworkState { needs_redraw: true, ..*old(self) }),
    {
        self.needs_redraw = true;
    }

    /// The selection with its ends in order.
    pub fn get_normalized_selection(&self) -> (r: Option<(usize, usize)>)
        ensures
            r == normalized(self.input_selection),
    {
        match self.input_selection {
            Some((start, end)) => if start < end {
                Some((start, end))
            } else {
                Some((end, start))
            },
            None => None,
        }
    }

    /// Records the pointer position in window pixels.
    pub fn update_cursor(&mut self, x: i32, y: i32)
        requires
            old(self).wf(),
        ensures
            final(self).wf(),
            *final(self) == (FrameworkState {
                cursor_pos: Point { x: x as i64, y: y as i64 },
                ..*old(self)
            }),
    {
        self.cursor_pos = Point { x: x as i64, y: y as i64 };
    }

    /// Scrolls the container `target_id` by a wheel movement: the pixels are taken off its
    /// stored offset (zero if none), saturating at the limits of `i64`.
    pub fn handle_scroll(&mut self, delta: ScrollDelta, target_id: &String)
        requires
            old(self).wf(),
        ensures
            final(self).wf(),
            final(self).scroll_offsets@ == old(self).scroll_offsets@.insert(
                target_id@,
                sat_i64(
                    (if old(self).scroll_offsets@.contains_key(target_id@) {
                        old(self).scroll_offsets@[target_id@] as int
                    } else {
                        0
                    }) - delta_px(delta),
                ),
            ),
            final(self).needs_redraw,
            final(self).color_animations == old(self).color_animations,
            final(self).last_colors == old(self).last_colors,
            final(self).cursor_pos == old(self).cursor_pos,
    {
        proof {
            match delta {
                ScrollDelta::Lines(n) => {
                    assert(-0x8000_0000_0000_0000 * 40 <= n * 40 <= 0x7fff_ffff_ffff_ffff * 40)
                        by (nonlinear_arith)
                        requires i64::MIN <= n <= i64::MAX;
                },
                ScrollDelta::Pixels(_) => {},
            }
        }
        let px: i128 = match delta {
            ScrollDelta::Lines(n) => n as i128 * LINE_SCROLL_PX as i128,
            ScrollDelta::Pixels(p) => p as i128,
        };
        let current: i64 = match self.scroll_offsets.get(target_id) {
            Some(v) => v,
            None => 0,
        };
        let new_val: i64 = clamp_to_i64(current as i128 - px);
        self.scroll_offsets.insert(target_id.clone(), new_val);
        self.request_redraw();
    }

    /// Whether another frame must follow for running animations.
    pub fn is_animating(&self) -> (r: bool)
        requires
            self.wf(),
        ensures
            r == (self.config.animations && self.color_animations@.len() > 0),
    {
        if !self.config.animations {
            return false;
        }
        self.color_animations.len() > 0
    }

    /// The color to draw for `id` this frame on its way to `target`; with animations off,
    /// `target` itself with nothing recorded.
    pub fn get_animated_color(&mut self, id: &String, target: Color, duration: u32, now: u64) -> (r:
        Color)
        requires
            old(self).wf(),
        ensures
            final(self).wf(),
            !old(self).config.animations ==> r == target && *final(self) == *old(self),
            old(self).config.animations ==> ({
                let (m, c, changed) = resolve_model(
                    old(self).anim_model(),
                    id@,
                    target,
                    duration,
                    now as int,
                );
                &&& r == c
                &&& final(self).anim_model() == m
                &&& final(self).needs_redraw == (old(self).needs_redraw || changed)
            }),
            final(self).scroll_offsets == old(self).scroll_offsets,
            final(self).config == old(self).config,
            final(self).input_selection == old(self).input_selection,
            final(self).drag_start_idx == old(self).drag_start_idx,
            final(self).input_cursor_idx == old(self).input_cursor_idx,
            final(self).focused_input_id == old(self).focused_input_id,
            final(self).hovered_node == old(self).hovered_node,
            final(self).active_node == old(self).active_node,
            final(self).focused_node == old(self).focused_node,
            final(self).cursor_pos == old(self).cursor_pos,
    {
        if !self.config.animations {
            return target;
        }
        match self.color_animations.get(id) {
            Some(anim) => {
                let (cur, done) = anim.get_value(now);
                if anim.end_val != target {
                    self.color_animations.insert(
                        id.clone(),
                        AnimState {
                            start_val: cur,
                            end_val: target,
                            start_time: now,
                            duration,
                            easing: Easing::EaseOutCubic,
                        },
                    );
                    self.needs_redraw = true;
                    return cur;
                }
                if done {
                    self.color_animations.remove(id);
                    self.last_colors.insert(id.clone(), cur);
                }
                self.needs_redraw = true;
                cur
            },
            None => {
                let last = match self.last_colors.get(id) {
                    Some(c) => c,
                    None => target,
                };
                if last != target {
                    self.color_animations.insert(
                        id.clone(),
                        AnimState {
                            start_val: last,
                            end_val: target,
                            start_time: now,
                            duration,
                            easing: Easing::EaseOutCubic,
                        },
                    );
                    self.needs_redraw = true;
                    return last;
                }
                self.last_colors.insert(id.clone(), target);
                target
            },
        }
    }
}

/// The scroll container that `id` names this frame and its content child, if both exist.
pub open spec fn scroll_pair(tree: &LayoutEngine, id: Seq<char>) -> Option<(int, int)> {
    if tree.id_map@.contains_key(id) && tree.kids(tree.id_map@[id] as int).len() > 0 {
        let n = tree.id_map@[id] as int;
        Some((n, tree.kids(n)[0].0 as int))
    } else {
        None
    }
}

/// The stored offset of `id` after correction against this frame's layout.
pub open spec fn corrected(tree: &LayoutEngine, id: Seq<char>, raw: i64) -> i64 {
    match scroll_pair(tree, id) {
        Some((n, c)) => clamp_spec(
            raw as int,
            tree.layouts@[c].size.height as int,
            tree.layouts@[n].size.height as int,
        ) as i64,
        None => raw,
    }
}

impl FrameworkState {
    /// A primary button press: the hovered node becomes active and focused, and its
    /// stable id in `tree` is kept to find it again in later frames; pressing empty space
    /// drops input focus and any selection.
    pub fn on_press(&mut self, tree: &LayoutEngine)
        requires
            tree.wf(),
        ensures
            final(self).active_node == old(self).hovered_node,
            final(self).focused_node == old(self).hovered_node,
            final(self).active_id == node_id(tree, old(self).hovered_node),
            final(self).focused_id == node_id(tree, old(self).hovered_node),
            old(self).hovered_node is None ==> final(self).focused_input_id is None
                && final(self).input_selection is None,
            old(self).hovered_node is Some ==> final(self).focused_input_id == old(
                self,
            ).focused_input_id && final(self).input_selection == old(self).input_selection,
            final(self).needs_redraw,
            final(self).hovered_node == old(self).hovered_node,
            final(self).scroll_offsets == old(self).scroll_offsets,
            final(self).color_animations == old(self).color_animations,
            final(self).last_colors == old(self).last_colors,
            final(self).drag_start_idx == old(self).drag_start_idx,
            final(self).input_cursor_idx == old(self).input_cursor_idx,
            final(self).config == old(self).config,
            final(self).cursor_pos == old(self).cursor_pos,
    {
        let id = match self.hovered_node {
            Some(h) => if h.0 < tree.node_count() {
                tree.id_of(h)
            } else {
                None
            },
            None => None,
        };
        self.active_node = self.hovered_node;
        self.focused_node = self.hovered_node;
        self.active_id = id.clone();
        self.focused_id = id;
        if self.hovered_node.is_none() {
            self.focused_input_id = None;
            self.input_selection = None;
        }
        self.needs_redraw = true;
    }

    /// Finds the pressed and focused nodes again in a newly built `tree` by their stable
    /// ids; a node whose id is gone this frame is neither.
    pub fn resolve_handles(&mut self, tree: &LayoutEngine)
        requires
            old(self).wf(),
            tree.wf(),
        ensures
            final(self).wf(),
            final(self).active_node == lookup_id(tree, old(self).active_id),
            final(self).focused_node == lookup_id(tree, old(self).focused_id),
            final(self).active_id == old(self).active_id,
            final(self).focused_id == old(self).focused_id,
            final(self).hovered_node == old(self).hovered_node,
            final(self).scroll_offsets == old(self).scroll_offsets,
            final(self).color_animations == old(self).color_animations,
            final(self).last_colors == old(self).last_colors,
            final(self).config == old(self).config,
            final(self).cursor_pos == old(self).cursor_pos,
            final(self).drag_start_idx == old(self).drag_start_idx,
            final(self).input_selection == old(self).input_selection,
            final(self).input_cursor_idx == old(self).input_cursor_idx,
            final(self).focused_input_id == old(self).focused_input_id,
            final(self).needs_redraw == old(self).needs_redraw,
    {
        self.active_node = match &self.active_id {
            Some(id) => tree.get_node(id),
            None => None,
        };
        self.focused_node = match &self.focused_id {
            Some(id) => tree.get_node(id),
            None => None,
        };
    }

    /// A primary button release: ends any drag and the press. The pressed node is
    /// clicked when the pointer is released over the node of `tree` that carries the same
    /// stable id; the click reports that id.
    pub fn on_release(&mut self, tree: &LayoutEngine) -> (r: Option<String>)
        requires
            tree.wf(),
        ensures
            r == (match (old(self).active_id, node_id(tree, old(self).hovered_node)) {
                (Some(a), Some(h)) => if a@ == h@ {
                    Some(h)
                } else {
                    None
                },
                _ => None,
            }),
            final(self).drag_start_idx is None,
            final(self).active_node is None,
            final(self).active_id is None,
            final(self).needs_redraw,
            final(self).hovered_node == old(self).hovered_node,
            final(self).focused_node == old(self).focused_node,
            final(self).focused_id == old(self).focused_id,
            final(self).focused_input_id == old(self).focused_input_id,
            final(self).input_selection == old(self).input_selection,
            final(self).input_cursor_idx == old(self).input_cursor_idx,
            final(self).scroll_offsets == old(self).scroll_offsets,
            final(self).color_animations == old(self).color_animations,
            final(self).last_colors == old(self).last_colors,
            final(self).config == old(self).config,
    {
        self.drag_start_idx = None;
        let hovered_id = match self.hovered_node {
            Some(h) => if h.0 < tree.node_count() {
                tree.id_of(h)
            } else {
                None
            },
            None => None,
        };
        let click = match (&self.active_id, hovered_id) {
            (Some(a), Some(h)) => if *a == h {
                Some(h)
            } else {
                None
            },
            _ => None,
        };
        self.active_node = None;
        self.active_id = None;
        self.needs_redraw = true;
        click
    }

    /// A key press while an input has focus: printable text is reported and moves the
    /// caret on by one; Backspace (only with the caret past the start) and Enter are
    /// reported as `\u{8}` and `\n`; the arrows move the caret. Without a focused input
    /// nothing happens.
    pub fn on_key(&mut self, text: Option<&str>, key: EditKey) -> (r: Vec<AppEvent>)
        ensures
            old(self).focused_input_id is None ==> r@.len() == 0 && *final(self) == *old(self),
            old(self).focused_input_id matches Some(id) ==> ({
                let typed = text matches Some(t) && !has_control(t.spec_bytes());
                let c1 = if typed {
                    sat_add(old(self).input_cursor_idx)
                } else {
                    old(self).input_cursor_idx
                };
                &&& r@.len() == (if typed { 1int } else { 0 }) + (if key == EditKey::Enter || (
                key == EditKey::Backspace && c1 > 0) {
                    1int
                } else {
                    0
                })
                &&& typed ==> is_input(r@[0], id@, text->0@)
                &&& key == EditKey::Backspace && c1 > 0 ==> is_input(r@.last(), id@, seq!['\u{8}'])
                &&& key == EditKey::Enter ==> is_input(r@.last(), id@, seq!['\n'])
                &&& final(self).input_cursor_idx == match key {
                    EditKey::Backspace => if c1 > 0 {
                        (c1 - 1) as usize
                    } else {
                        c1
                    },
                    EditKey::ArrowLeft => if c1 > 0 {
                        (c1 - 1) as usize
                    } else {
                        c1
                    },
                    EditKey::ArrowRight => sat_add(c1),
                    _ => c1,
                }
                &&& final(self).needs_redraw == (old(self).needs_redraw || typed || key
                    == EditKey::Enter || key == EditKey::ArrowLeft || key == EditKey::ArrowRight
                    || (key == EditKey::Backspace && c1 > 0))
            }),
            final(self).focused_input_id == old(self).focused_input_id,
            final(self).input_selection == old(self).input_selection,
            final(self).scroll_offsets == old(self).scroll_offsets,
            final(self).color_animations == old(self).color_animations,
            final(self).last_colors == old(self).last_colors,
            final(self).active_node == old(self).active_node,
            final(self).hovered_node == old(self).hovered_node,
            final(self).config == old(self).config,
    {
        let mut events: Vec<AppEvent> = Vec::new();
        let id = match &self.focused_input_id {
            Some(id) => id.clone(),
            None => {
                return events;
            },
        };
        match text {
            Some(t) => {
                if !contains_control(t) {
                    events.push(AppEvent::Input(id.clone(), String::from_str(t)));
                    self.input_cursor_idx = self.input_cursor_idx.saturating_add(1);
                    self.needs_redraw = true;
                }
            },
            None => {},
        }
        match key {
            EditKey::Backspace => {
                if self.input_cursor_idx > 0 {
                    proof {
                        reveal_strlit("\u{8}");
                        assert("\u{8}"@ =~= seq!['\u{8}']);
                    }
                    events.push(AppEvent::Input(id.clone(), String::from_str("\u{8}")));
                    self.input_cursor_idx = self.input_cursor_idx - 1;
                    self.needs_redraw = true;
                }
            },
            EditKey::Enter => {
                proof {
                    reveal_strlit("\n");
                    assert("\n"@ =~= seq!['\n']);
                }
                events.push(AppEvent::Input(id.clone(), String::from_str("\n")));
                self.needs_redraw = true;
            },
            EditKey::ArrowLeft => {
                self.input_cursor_idx = self.input_cursor_idx.saturating_sub(1);
                self.needs_redraw = true;
            },
            EditKey::ArrowRight => {
                self.input_cursor_idx = self.input_cursor_idx.saturating_add(1);
                self.needs_redraw = true;
            },
            EditKey::Other => {},
        }
        events
    }

    /// Clamps the stored offset of every scroll container found in `tree` to what its
    /// content allows, pins each container's content to its top, and returns the
    /// corrected offset of each such container by node.
    pub fn correct_scroll_offsets(&mut self, tree: &mut LayoutEngine) -> (r: Vec<(Node, i64)>)
        requires
            old(self).wf(),
            old(tree).wf(),
        ensures
            final(self).wf(),
            final(tree).wf(),
            final(self).scroll_offsets@.dom() == old(self).scroll_offsets@.dom(),
            forall|k: Seq<char>| #[trigger]
                final(self).scroll_offsets@.contains_key(k) ==> final(self).scroll_offsets@[k]
                    == corrected(&*old(tree), k, old(self).scroll_offsets@[k]),
            forall|k: Seq<char>|
                #[trigger] old(self).scroll_offsets@.contains_key(k) && scroll_pair(&*old(tree), k)
                    is Some ==> final(tree).layouts@[(scroll_pair(&*old(tree), k)->0).1].origin.y
                    == 0,
            forall|k: Seq<char>|
                #[trigger] old(self).scroll_offsets@.contains_key(k) && scroll_pair(&*old(tree), k)
                    is Some ==> r@.contains(
                    (
                        Node((scroll_pair(&*old(tree), k)->0).0 as usize),
                        final(self).scroll_offsets@[k],
                    ),
                ),
            forall|i: int|
                0 <= i < r@.len() ==> from_scroll_key(
                    old(self).scroll_offsets@,
                    &*old(tree),
                    final(self).scroll_offsets@,
                    #[trigger] r@[i],
                ),
            offsets_ok(r@),
            final(tree).len() == old(tree).len(),
            final(tree).children@ == old(tree).children@,
            final(tree).node_ids@ == old(tree).node_ids@,
            final(tree).id_map@ == old(tree).id_map@,
            final(tree).root == old(tree).root,
            forall|n: int|
                0 <= n < old(tree).len() ==> (#[trigger] final(tree).layouts@[n]).size == old(
                    tree,
                ).layouts@[n].size && final(tree).layouts@[n].origin.x == old(
                    tree,
                ).layouts@[n].origin.x && (final(tree).layouts@[n].origin.y == old(
                    tree,
                ).layouts@[n].origin.y || final(tree).layouts@[n].origin.y == 0),
            final(self).color_animations == old(self).color_animations,
            final(self).last_colors == old(self).last_colors,
            final(self).config == old(self).config,
            final(self).cursor_pos == old(self).cursor_pos,
            final(self).hovered_node == old(self).hovered_node,
            final(self).active_node == old(self).active_node,
            final(self).focused_node == old(self).focused_node,
            final(self).drag_start_idx == old(self).drag_start_idx,
            final(self).input_selection == old(self).input_selection,
            final(self).input_cursor_idx == old(self).input_cursor_idx,
            final(self).focused_input_id == old(self).focused_input_id,
            final(self).needs_redraw == old(self).needs_redraw,
    {
        let mut out: Vec<(Node, i64)> = Vec::new();
        proof {
            self.scroll_offsets.lemma_keys();
        }
        let n = self.scroll_offsets.len();
        let ghost keys = self.scroll_offsets.keys_seq();
        let ghost t0 = *tree;
        proof {
            self.scroll_offsets.lemma_keys();
        }
        let mut i: usize = 0;
        while i < n
            invariant
                0 <= i <= n,
                self.wf(),
                tree.wf(),
                n == keys.len(),
                keys == self.scroll_offsets.keys_seq(),
                keys.no_duplicates(),
                self.scroll_offsets@.dom() == old(self).scroll_offsets@.dom(),
                forall|k: Seq<char>| #[trigger] self.scroll_offsets@.contains_key(k) <==> keys.contains(k),
                forall|j: int| 0 <= j < i ==> #[trigger] self.scroll_offsets@[keys[j]] == corrected(&t0, keys[j], old(self).scroll_offsets@[keys[j]]),
                forall|j: int| i <= j < n ==> #[trigger] self.scroll_offsets@[keys[j]] == old(self).scroll_offsets@[keys[j]],
                tree.len() == t0.len(),
                tree.children@ == t0.children@,
                tree.node_ids@ == t0.node_ids@,
                tree.id_map@ == t0.id_map@,
                tree.root == t0.root,
                t0.wf(),
                forall|m: int|
                    0 <= m < t0.len() ==> (#[trigger] tree.layouts@[m]).size == t0.layouts@[m].size
                        && tree.layouts@[m].origin.x == t0.layouts@[m].origin.x
                        && (tree.layouts@[m].origin.y == t0.layouts@[m].origin.y || tree.layouts@[m].origin.y == 0),
                forall|j: int| 0 <= j < i && #[trigger] scroll_pair(&t0, keys[j]) is Some ==>
                    tree.layouts@[(scroll_pair(&t0, keys[j])->0).1].origin.y == 0,
                forall|j: int| 0 <= j < i && #[trigger] scroll_pair(&t0, keys[j]) is Some ==>
                    out@.contains((Node((scroll_pair(&t0, keys[j])->0).0 as usize), self.scroll_offsets@[keys[j]])),
                forall|q: int| 0 <= q < out@.len() ==> exists|j: int| 0 <= j < i && #[trigger] scroll_pair(&t0, keys[j]) is Some
                    && #[trigger] out@[q] == (Node((scroll_pair(&t0, keys[j])->0).0 as usize), self.scroll_offsets@[keys[j]]),
                offsets_ok(out@),
                self.color_animations == old(self).color_animations,
                self.last_colors == old(self).last_colors,
                self.config == old(self).config,
                self.cursor_pos == old(self).cursor_pos,
                self.hovered_node == old(self).hovered_node,
                self.active_node == old(self).active_node,
                self.focused_node == old(self).focused_node,
                self.drag_start_idx == old(self).drag_start_idx,
                self.input_selection == old(self).input_selection,
                self.input_cursor_idx == old(self).input_cursor_idx,
                self.focused_input_id == old(self).focused_input_id,
                self.needs_redraw == old(self).needs_redraw,
            decreases n - i,
        {
            let key = self.scroll_offsets.key_at(i).clone();
            let ghost k = keys[i as int];
            assert(key@ == k);
            assert(self.scroll_offsets@.contains_key(k));
            let raw: i64 = match self.scroll_offsets.get(&key) {
                Some(v) => v,
                None => 0,
            };
            assert(raw == old(self).scroll_offsets@[k]);
            let ghost pre_map = self.scroll_offsets@;
            let ghost pre_out = out@;
            let ghost pre_tree = *tree;
            match tree.get_node(&key) {
                Some(node) => {
                    let kids = tree.children_of(node);
                    if kids.len() > 0 {
                        let child = kids[0];
                        assert(child.0 < node.0);
                        let viewport = tree.layout(node);
                        let content = tree.layout(child);
                        assert(viewport.size == t0.layouts@[node.0 as int].size);
                        assert(content.size == t0.layouts@[child.0 as int].size);
                        assert(scroll_pair(&t0, k) == Some((node.0 as int, child.0 as int)));
                        let clamped = clamp_offset(raw, content.size.height, viewport.size.height);
                        assert(clamped == corrected(&t0, k, raw));
                        self.scroll_offsets.insert(key, clamped);
                        tree.reset_node_y_to_zero(child);
                        out.push((node, clamped));
                        proof {
                            assert(in_limit(clamped as int));
                            assert(out@.last() == (Node((scroll_pair(&t0, k)->0).0 as usize), self.scroll_offsets@[k]));
                        }
                    } else {
                        assert(scroll_pair(&t0, k) is None);
                    }
                },
                None => {
                    assert(scroll_pair(&t0, k) is None);
                },
            }
            proof {
                assert forall|j: int| 0 <= j < n && j != i implies #[trigger] self.scroll_offsets@[keys[j]] == pre_map[keys[j]] by {
                    assert(keys[j] != keys[i as int]);
                }
                assert forall|j: int| 0 <= j < i + 1 && #[trigger] scroll_pair(&t0, keys[j]) is Some implies
                    tree.layouts@[(scroll_pair(&t0, keys[j])->0).1].origin.y == 0 by {
                    if j < i {
                        let c = (scroll_pair(&t0, keys[j])->0).1;
                        assert(pre_tree.layouts@[c].origin.y == 0);
                    }
                }
                assert forall|j: int| 0 <= j < i + 1 && #[trigger] scroll_pair(&t0, keys[j]) is Some implies
                    out@.contains((Node((scroll_pair(&t0, keys[j])->0).0 as usize), self.scroll_offsets@[keys[j]])) by {
                    if j < i {
                        let e = (Node((scroll_pair(&t0, keys[j])->0).0 as usize), pre_map[keys[j]]);
                        assert(pre_out.contains(e));
                        let q = choose|q: int| 0 <= q < pre_out.len() && pre_out[q] == e;
                        assert(out@[q] == e);
                    } else {
                        assert(out@[out@.len() - 1] == (Node((scroll_pair(&t0, keys[j])->0).0 as usize), self.scroll_offsets@[keys[j]]));
                    }
                }
                assert forall|q: int| 0 <= q < out@.len() implies exists|j: int| 0 <= j < i + 1 && #[trigger] scroll_pair(&t0, keys[j]) is Some
                    && #[trigger] out@[q] == (Node((scroll_pair(&t0, keys[j])->0).0 as usize), self.scroll_offsets@[keys[j]]) by {
                    if q < pre_out.len() {
                        assert(out@[q] == pre_out[q]);
                        let j = choose|j: int| 0 <= j < i && #[trigger] scroll_pair(&t0, keys[j]) is Some
                            && pre_out[q] == (Node((scroll_pair(&t0, keys[j])->0).0 as usize), pre_map[keys[j]]);
                        assert(self.scroll_offsets@[keys[j]] == pre_map[keys[j]]);
                    } else {
                        assert(scroll_pair(&t0, keys[i as int]) is Some);
                    }
                }
                assert forall|m: int| 0 <= m < t0.len() implies (#[trigger] tree.layouts@[m]).size == t0.layouts@[m].size
                    && tree.layouts@[m].origin.x == t0.layouts@[m].origin.x
                    && (tree.layouts@[m].origin.y == t0.layouts@[m].origin.y || tree.layouts@[m].origin.y == 0) by {
                    assert(pre_tree.layouts@[m].size == t0.layouts@[m].size);
                }
            }
            i = i + 1;
        }
        proof {
            assert forall|k: Seq<char>| #[trigger]
                self.scroll_offsets@.contains_key(k) implies self.scroll_offsets@[k]
                    == corrected(&*old(tree), k, old(self).scroll_offsets@[k]) by {
                let j = choose|j: int| 0 <= j < keys.len() && keys[j] == k;
                assert(self.scroll_offsets@[keys[j]] == corrected(&t0, keys[j], old(self).scroll_offsets@[keys[j]]));
            }
            assert forall|k: Seq<char>|
                #[trigger] old(self).scroll_offsets@.contains_key(k) && scroll_pair(&*old(tree), k)
                    is Some implies tree.layouts@[(scroll_pair(&*old(tree), k)->0).1].origin.y == 0 by {
                assert(keys.contains(k));
                let j = choose|j: int| 0 <= j < keys.len() && keys[j] == k;
                assert(scroll_pair(&t0, keys[j]) is Some);
            }
            assert forall|k: Seq<char>|
                #[trigger] old(self).scroll_offsets@.contains_key(k) && scroll_pair(&*old(tree), k)
                    is Some implies out@.contains(
                    (Node((scroll_pair(&*old(tree), k)->0).0 as usize), self.scroll_offsets@[k]),
                ) by {
                assert(keys.contains(k));
                let j = choose|j: int| 0 <= j < keys.len() && keys[j] == k;
                assert(scroll_pair(&t0, keys[j]) is Some);
            }
            assert forall|q: int| 0 <= q < out@.len() implies from_scroll_key(
                old(self).scroll_offsets@,
                &*old(tree),
                self.scroll_offsets@,
                #[trigger] out@[q],
            ) by {
                let j = choose|j: int| 0 <= j < n && #[trigger] scroll_pair(&t0, keys[j]) is Some
                    && out@[q] == (Node((scroll_pair(&t0, keys[j])->0).0 as usize), self.scroll_offsets@[keys[j]]);
                assert(old(self).scroll_offsets@.contains_key(keys[j]));
            }
        }
        out
    }
}

/// The stable id `tree` registers for `node`, if any.
pub open spec fn node_id(tree: &LayoutEngine, node: Option<Node>) -> Option<String> {
    match node {
        Some(h) => if tree.valid(h) {
            tree.node_ids@[h.0 as int]
        } else {
            None
        },
        None => None,
    }
}

/// The node `tree` registers under `id` this frame, if any.
pub open spec fn lookup_id(tree: &LayoutEngine, id: Option<String>) -> Option<Node> {
    match id {
        Some(s) => if tree.id_map@.contains_key(s@) {
            Some(Node(tree.id_map@[s@]))
        } else {
            None
        },
        None => None,
    }
}

/// The entries a per-node offset list holds after correction: each one the corrected
/// offset of a stored id naming a container, and one for every such id.
pub open spec fn corrected_entries(
    before: Map<Seq<char>, i64>,
    tree: &LayoutEngine,
    after: Map<Seq<char>, i64>,
    offs: Seq<(Node, i64)>,
) -> bool {
    &&& forall|i: int| 0 <= i < offs.len() ==> from_scroll_key(before, tree, after, #[trigger] offs[i])
    &&& forall|k: Seq<char>|
        #[trigger] before.contains_key(k) && scroll_pair(tree, k) is Some ==> offs.contains(
            (Node((scroll_pair(tree, k)->0).0 as usize), after[k]),
        )
}

/// Whether `e` is the corrected entry of some scroll id that names a container.
pub open spec fn from_scroll_key(
    before: Map<Seq<char>, i64>,
    tree: &LayoutEngine,
    after: Map<Seq<char>, i64>,
    e: (Node, i64),
) -> bool {
    exists|k: Seq<char>|
        #[trigger] before.contains_key(k) && scroll_pair(tree, k) is Some && e == (
            Node((scroll_pair(tree, k)->0).0 as usize),
            after[k],
        )
}

/// Whether `e` reports `text` for the input `id`.
pub open spec fn is_input(e: AppEvent, id: Seq<char>, text: Seq<char>) -> bool {
    match e {
        AppEvent::Input(i, t) => i@ == id && t@ == text,
        _ => false,
    }
}

pub open spec fn sat_add(v: usize) -> usize {
    if v == usize::MAX { v } else { (v + 1) as usize }
}

fn contains_control(t: &str) -> (r: bool)
    ensures
        r == has_control(t.spec_bytes()),
{
    let b = t.as_bytes();
    let n = b.len();
    let mut i: usize = 0;
    while i < n
        invariant
            0 <= i <= n,
            n == b@.len(),
            b@ == t.spec_bytes(),
            forall|j: int|
                0 <= j < i ==> !(b@[j] < 32 || b@[j] == 127 || (b@[j] == 0xc2 && j + 1 < b@.len()
                    && 0x80 <= b@[j + 1] <= 0x9f)),
        decreases n - i,
    {
        let c = b[i];
        if c < 32 || c == 127 || (c == 0xc2 && i + 1 < n && 0x80 <= b[i + 1] && b[i + 1] <= 0x9f) {
            return true;
        }
        i = i + 1;
    }
    false
}

/// `v` clamped into the range of `i64`.
pub open spec fn sat_i64(v: int) -> i64 {
    if v > i64::MAX {
        i64::MAX
    } else if v < i64::MIN {
        i64::MIN
    } else {
        v as i64
    }
}

fn clamp_to_i64(v: i128) -> (r: i64)
    ensures
        r == sat_i64(v as int),
{
    if v > i64::MAX as i128 {
        i64::MAX
    } else if v < i64::MIN as i128 {
        i64::MIN
    } else {
        v as i64
    }
}

} // verus!
