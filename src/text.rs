//! Laid-out text geometry: caret hit-testing, caret positions and selection rectangles.

use vstd::prelude::*;
use crate::geometry::{in_limit, Point, Rect, Size, COORD_LIMIT};

verus! {

/// The most glyphs a laid-out text may hold.
pub const MAX_GLYPHS: usize = 0x100_0000;

/// The largest magnitude of a local pointer coordinate that hit-testing accepts.
pub const POINTER_LIMIT: i64 = 0x100_0000_0000_0000;

/// One shaped glyph, in pixels local to the text box origin, with the byte offset of
/// the text it came from.
#[derive(Clone, Copy, Debug, PartialEq, Eq, Structural)]
pub struct GlyphRect {
    pub x: i64,
    pub y: i64,
    pub w: i64,
    pub h: i64,
    pub index: usize,
}

/// The shaped geometry of a text: its glyphs in visual order, its overall size, and
/// the height of one line.
pub struct TextLayout {
    pub glyphs: Vec<GlyphRect>,
    pub total_size: (i64, i64),
    pub line_height: i64,
}

pub open spec fn glyph_ok(g: GlyphRect) -> bool {
    in_limit(g.x as int) && in_limit(g.y as int) && 0 <= g.w && in_limit(g.w as int) && 0 <= g.h
        && in_limit(g.h as int) && g.index < usize::MAX
}

/// Twice the horizontal offset of `x` from the glyph's center.
pub open spec fn dx2(g: GlyphRect, x: int) -> int {
    2 * x - (2 * g.x + g.w)
}

/// Four times the squared distance from the glyph's center, with the vertical offset
/// weighted five times.
pub open spec fn weighted_dist(g: GlyphRect, x: int, y: int) -> int {
    let dy = 5 * (2 * y - (2 * g.y + g.h));
    dx2(g, x) * dx2(g, x) + dy * dy
}

/// The caret index a glyph stands for under the pointer: after it when the pointer is
/// right of its center.
pub open spec fn glyph_hit_index(g: GlyphRect, x: int) -> int {
    if dx2(g, x) > 0 { g.index + 1 } else { g.index as int }
}

/// The best glyph among `gs` (nearest, earliest on ties) as (caret index, distance).
pub open spec fn nearest(gs: Seq<GlyphRect>, x: int, y: int) -> Option<(int, int)>
    decreases gs.len(),
{
    if gs.len() == 0 {
        None
    } else {
        let g = gs.last();
        let d = weighted_dist(g, x, y);
        match nearest(gs.drop_last(), x, y) {
            None => Some((glyph_hit_index(g, x), d)),
            Some(p) => if d < p.1 { Some((glyph_hit_index(g, x), d)) } else { Some(p) },
        }
    }
}

pub open spec fn hit_test_spec(gs: Seq<GlyphRect>, x: int, y: int) -> int {
    match nearest(gs, x, y) {
        None => 0,
        Some(p) => p.0,
    }
}

/// The position of the first glyph with byte offset `index`.
pub open spec fn first_at(gs: Seq<GlyphRect>, index: int) -> Option<int>
    decreases gs.len(),
{
    if gs.len() == 0 {
        None
    } else if gs[0].index == index {
        Some(0)
    } else {
        match first_at(gs.drop_first(), index) {
            None => None,
            Some(k) => Some(k + 1),
        }
    }
}

/// Whether the byte offset `index` lies past every glyph's own offset.
pub open spec fn past_all(gs: Seq<GlyphRect>, index: int) -> bool {
    forall|k: int| 0 <= k < gs.len() ==> #[trigger] gs[k].index < index
}

/// Where the caret for byte offset `index` is drawn: `(x, y, height)`. Past every
/// glyph it stands just after the last glyph; otherwise before the first glyph that
/// starts at `index`, and nowhere when no glyph starts there.
pub open spec fn cursor_spec(gs: Seq<GlyphRect>, line_height: int, index: int) -> Option<
    (int, int, int),
> {
    if gs.len() == 0 {
        Some((0, 0, line_height))
    } else if past_all(gs, index) {
        let l = gs.last();
        Some((l.x + l.w, l.y as int, l.h as int))
    } else {
        match first_at(gs, index) {
            None => None,
            Some(k) => Some((gs[k].x as int, gs[k].y as int, gs[k].h as int)),
        }
    }
}

pub open spec fn glyph_rect(g: GlyphRect) -> Rect {
    Rect { origin: Point { x: g.x, y: g.y }, size: Size { width: g.w, height: g.h } }
}

/// Walks the glyphs, merging selected glyphs that share a line: the closed rectangles
/// and the one still open.
pub open spec fn selection_fold(gs: Seq<GlyphRect>, s: int, e: int) -> (Seq<Rect>, Option<Rect>)
    decreases gs.len(),
{
    if gs.len() == 0 {
        (Seq::empty(), None)
    } else {
        let (rs, cur) = selection_fold(gs.drop_last(), s, e);
        let g = gs.last();
        if s <= g.index < e {
            match cur {
                Some(c) => if c.origin.y == g.y {
                    (
                        rs,
                        Some(
                            Rect {
                                size: Size { width: (c.size.width + g.w) as i64, ..c.size },
                                ..c
                            },
                        ),
                    )
                } else {
                    (rs.push(c), Some(glyph_rect(g)))
                },
                None => (rs, Some(glyph_rect(g))),
            }
        } else {
            (rs, cur)
        }
    }
}

/// One rectangle per line over the glyphs whose byte offset lies in `[start, end)`.
pub open spec fn selection_spec(gs: Seq<GlyphRect>, start: int, end: int) -> Seq<Rect> {
    if gs.len() == 0 || start >= end {
        Seq::empty()
    } else {
        let (rs, cur) = selection_fold(gs, start, end);
        match cur {
            Some(c) => rs.push(c),
            None => rs,
        }
    }
}

proof fn lemma_square_bound(v: int, b: int)
    requires
        -b <= v <= b,
    ensures
        0 <= v * v <= b * b,
{
    assert(0 <= v * v <= b * b) by (nonlinear_arith)
        requires -b <= v <= b;
}

/// Rectangles whose corners lie in the coordinate limits.
pub open spec fn rects_in_limit(s: Seq<Rect>) -> bool {
    forall|q: int|
        0 <= q < s.len() ==> in_limit(#[trigger] s[q].origin.x as int) && in_limit(s[q].origin.y as int)
}

impl TextLayout {
    pub open spec fn wf(&self) -> bool {
        &&& in_limit(self.line_height as int)
        &&& in_limit(self.total_size.0 as int)
        &&& in_limit(self.total_size.1 as int)
        &&& self.glyphs@.len() <= MAX_GLYPHS
        &&& forall|i: int| 0 <= i < self.glyphs@.len() ==> glyph_ok(#[trigger] self.glyphs@[i])
    }

    /// The caret index nearest to the local point `(x, y)`; 0 for an empty layout.
    pub fn hit_test(&self, x: i64, y: i64) -> (r: usize)
        requires
            self.wf(),
            -POINTER_LIMIT <= x <= POINTER_LIMIT,
            -POINTER_LIMIT <= y <= POINTER_LIMIT,
        ensures
            r == hit_test_spec(self.glyphs@, x as int, y as int),
    {
        if self.glyphs.len() == 0 {
            return 0;
        }
        let mut closest: usize = 0;
        let mut min_dist: i128 = 0;
        let mut found = false;
        let mut i: usize = 0;
        while i < self.glyphs.len()
            invariant
                self.wf(),
                0 <= i <= self.glyphs@.len(),
                -POINTER_LIMIT <= x <= POINTER_LIMIT,
                -POINTER_LIMIT <= y <= POINTER_LIMIT,
                found == (i > 0),
                found ==> nearest(self.glyphs@.subrange(0, i as int), x as int, y as int)
                    == Some((closest as int, min_dist as int)),
            decreases self.glyphs@.len() - i,
        {
            let g = self.glyphs[i];
            assert(glyph_ok(g));
            let dx: i128 = 2 * (x as i128) - (2 * (g.x as i128) + g.w as i128);
            let dy: i128 = 5 * (2 * (y as i128) - (2 * (g.y as i128) + g.h as i128));
            proof {
                lemma_square_bound(dx as int, 0x400_0000_0000_0000);
                lemma_square_bound(dy as int, 0x4000_0000_0000_0000);
            }
            let d: i128 = dx * dx + dy * dy;
            proof {
                let sub = self.glyphs@.subrange(0, i + 1);
                assert(sub.drop_last() =~= self.glyphs@.subrange(0, i as int));
                assert(sub.last() == g);
            }
            if !found || d < min_dist {
                min_dist = d;
                closest = if dx > 0 { g.index + 1 } else { g.index };
            }
            found = true;
            i = i + 1;
        }
        assert(self.glyphs@.subrange(0, self.glyphs@.len() as int) =~= self.glyphs@);
        closest
    }

    /// Where to draw the caret for byte offset `index`: `(x, y, height)`. An offset at
    /// or past the glyph count gives the position just after the last glyph.
    pub fn get_cursor_pos(&self, index: usize) -> (r: Option<(i64, i64, i64)>)
        requires
            self.wf(),
        ensures
            r is None <==> cursor_spec(self.glyphs@, self.line_height as int, index as int) is None,
            r matches Some(t) ==> cursor_spec(self.glyphs@, self.line_height as int, index as int)
                == Some((t.0 as int, t.1 as int, t.2 as int)),
            r matches Some(t) ==> -2 * COORD_LIMIT <= t.0 <= 2 * COORD_LIMIT && in_limit(t.1 as int)
                && in_limit(t.2 as int),
    {
        let n = self.glyphs.len();
        if n == 0 {
            return Some((0, 0, self.line_height));
        }
        let mut j: usize = 0;
        let mut below = true;
        while j < n
            invariant
                0 <= j <= n,
                n == self.glyphs@.len(),
                below == (forall|k: int| 0 <= k < j ==> #[trigger] self.glyphs@[k].index < index),
            decreases n - j,
        {
            if self.glyphs[j].index >= index {
                below = false;
            }
            j = j + 1;
        }
        if below {
            let last = self.glyphs[n - 1];
            assert(glyph_ok(last));
            return Some((last.x + last.w, last.y, last.h));
        }
        let mut i: usize = 0;
        assert(self.glyphs@.subrange(0, n as int) =~= self.glyphs@);
        while i < n
            invariant
                self.wf(),
                n == self.glyphs@.len(),
                0 <= i <= n,
                !past_all(self.glyphs@, index as int),
                first_at(self.glyphs@, index as int) == match first_at(
                    self.glyphs@.subrange(i as int, n as int),
                    index as int,
                ) {
                    None => None,
                    Some(k) => Some(k + i),
                },
            decreases n - i,
        {
            let g = self.glyphs[i];
            proof {
                let rest = self.glyphs@.subrange(i as int, n as int);
                assert(rest.drop_first() =~= self.glyphs@.subrange(i + 1, n as int));
                assert(rest[0] == g);
            }
            assert(glyph_ok(g));
            if g.index == index {
                assert(first_at(self.glyphs@.subrange(i as int, n as int), index as int) == Some(
                    0int,
                ));
                return Some((g.x, g.y, g.h));
            }
            i = i + 1;
        }
        proof {
            assert(self.glyphs@.subrange(n as int, n as int).len() == 0);
        }
        None
    }

    /// One highlight rectangle per line for the glyphs whose byte offset lies in
    /// `[start, end)`; none when `start >= end`.
    pub fn get_selection_rects(&self, start: usize, end: usize) -> (r: Vec<Rect>)
        requires
            self.wf(),
        ensures
            r@ == selection_spec(self.glyphs@, start as int, end as int),
            rects_in_limit(r@),
    {
        let mut rects: Vec<Rect> = Vec::new();
        let n = self.glyphs.len();
        if n == 0 || start >= end {
            return rects;
        }
        let mut cur: Option<Rect> = None;
        let mut i: usize = 0;
        while i < n
            invariant
                self.wf(),
                n == self.glyphs@.len(),
                0 <= i <= n,
                selection_fold(self.glyphs@.subrange(0, i as int), start as int, end as int) == (
                    rects@,
                    cur,
                ),
                cur matches Some(c) ==> 0 <= c.size.width <= i * COORD_LIMIT,
                cur matches Some(c) ==> in_limit(c.origin.x as int) && in_limit(c.origin.y as int),
                forall|q: int|
                    0 <= q < rects@.len() ==> in_limit(#[trigger] rects@[q].origin.x as int)
                        && in_limit(rects@[q].origin.y as int),
            decreases n - i,
        {
            let g = self.glyphs[i];
            assert(glyph_ok(g));
            proof {
                let sub = self.glyphs@.subrange(0, i + 1);
                assert(sub.drop_last() =~= self.glyphs@.subrange(0, i as int));
                assert(sub.last() == g);
            }
            if start <= g.index && g.index < end {
                match cur {
                    Some(c) => {
                        if c.origin.y == g.y {
                            proof {
                                assert(i * COORD_LIMIT + COORD_LIMIT == (i + 1) * COORD_LIMIT)
                                    by (nonlinear_arith);
                                assert((i + 1) * COORD_LIMIT <= MAX_GLYPHS * COORD_LIMIT)
                                    by (nonlinear_arith)
                                    requires i + 1 <= MAX_GLYPHS;
                            }
                            cur = Some(
                                Rect {
                                    size: Size { width: c.size.width + g.w, ..c.size },
                                    ..c
                                },
                            );
                        } else {
                            rects.push(c);
                            cur = Some(Rect::new(g.x, g.y, g.w, g.h));
                            proof {
                                assert(COORD_LIMIT <= (i + 1) * COORD_LIMIT) by (nonlinear_arith);
                            }
                        }
                    },
                    None => {
                        cur = Some(Rect::new(g.x, g.y, g.w, g.h));
                        proof {
                            assert(COORD_LIMIT <= (i + 1) * COORD_LIMIT) by (nonlinear_arith);
                        }
                    },
                }
            } else {
                proof {
                    if cur is Some {
                        assert(i * COORD_LIMIT <= (i + 1) * COORD_LIMIT) by (nonlinear_arith);
                    }
                }
            }
            i = i + 1;
        }
        proof {
            assert(self.glyphs@.subrange(0, n as int) =~= self.glyphs@);
        }
        match cur {
            Some(c) => rects.push(c),
            None => {},
        }
        rects
    }
}

proof fn lemma_first_at(gs: Seq<GlyphRect>, index: int)
    ensures
        first_at(gs, index) matches Some(k) ==> 0 <= k < gs.len() && gs[k].index == index,
    decreases gs.len(),
{
    if gs.len() > 0 && gs[0].index != index {
        lemma_first_at(gs.drop_first(), index);
    }
}

/// Glyphs laid out left to right: byte offsets strictly increase and no glyph starts
/// left of an earlier one.
pub open spec fn left_to_right(gs: Seq<GlyphRect>) -> bool {
    &&& forall|j: int, k: int|
        0 <= j < k < gs.len() ==> gs[j].index < gs[k].index && gs[j].x <= gs[k].x
    &&& forall|j: int| 0 <= j < gs.len() ==> #[trigger] gs[j].w >= 0
}

/// For left-to-right text the caret never moves left as its byte offset grows.
pub proof fn lemma_cursor_monotone(gs: Seq<GlyphRect>, line_height: int, i: int)
    requires
        left_to_right(gs),
        cursor_spec(gs, line_height, i) is Some,
        cursor_spec(gs, line_height, i + 1) is Some,
    ensures
        (cursor_spec(gs, line_height, i)->0).0 <= (cursor_spec(gs, line_height, i + 1)->0).0,
{
    lemma_first_at(gs, i);
    lemma_first_at(gs, i + 1);
    if gs.len() > 0 {
        let n = gs.len() as int;
        if past_all(gs, i) {
            assert forall|k: int| 0 <= k < n implies #[trigger] gs[k].index < i + 1 by {
                assert(gs[k].index < i);
            }
        } else {
            let k = first_at(gs, i)->0;
            if past_all(gs, i + 1) {
                if k < n - 1 {
                    assert(gs[k].x <= gs[n - 1].x);
                }
                assert(gs[n - 1].w >= 0);
            } else {
                let q = first_at(gs, i + 1)->0;
                if q <= k {
                    if q < k {
                        assert(gs[q].index < gs[k].index);
                    }
                }
            }
        }
    }
}

/// One line of text shaped from offset zero: glyphs side by side on line zero, each a
/// line high, covering `total` exactly, with byte offsets below `text_len`.
pub open spec fn single_line(
    gs: Seq<GlyphRect>,
    text_len: int,
    line_height: int,
    total: (i64, i64),
) -> bool {
    &&& gs.len() > 0
    &&& forall|i: int| 0 <= i < gs.len() ==> glyph_ok(#[trigger] gs[i])
    &&& forall|i: int|
        0 <= i < gs.len() ==> #[trigger] gs[i].y == 0 && gs[i].h == line_height && gs[i].index
            < text_len
    &&& gs[0].x == 0
    &&& forall|i: int| 0 <= i < gs.len() - 1 ==> #[trigger] gs[i + 1].x == gs[i].x + gs[i].w
    &&& total.0 == gs.last().x + gs.last().w
    &&& total.1 == line_height
}

proof fn lemma_single_line_prefix(
    gs: Seq<GlyphRect>,
    text_len: int,
    line_height: int,
    total: (i64, i64),
    k: int,
)
    requires
        single_line(gs, text_len, line_height, total),
        1 <= k <= gs.len(),
    ensures
        selection_fold(gs.subrange(0, k), 0, text_len) == (
            Seq::<Rect>::empty(),
            Some(
                Rect {
                    origin: Point { x: 0, y: 0 },
                    size: Size {
                        width: (gs[k - 1].x + gs[k - 1].w) as i64,
                        height: line_height as i64,
                    },
                },
            ),
        ),
    decreases k,
{
    let sub = gs.subrange(0, k);
    assert(sub.last() == gs[k - 1]);
    assert(glyph_ok(gs[k - 1]));
    if k == 1 {
        assert(sub.drop_last() =~= Seq::<GlyphRect>::empty());
        assert(selection_fold(sub.drop_last(), 0, text_len) == (
            Seq::<Rect>::empty(),
            None::<Rect>,
        ));
    } else {
        assert(sub.drop_last() =~= gs.subrange(0, k - 1));
        lemma_single_line_prefix(gs, text_len, line_height, total, k - 1);
        let j = k - 2;
        assert(gs[j + 1].x == gs[j].x + gs[j].w);
        assert(glyph_ok(gs[j]));
    }
}

/// Selecting a whole single line of text highlights one rectangle exactly as wide and
/// as high as the text's measured size.
pub proof fn lemma_select_all_matches_measure(
    gs: Seq<GlyphRect>,
    text_len: int,
    line_height: int,
    total: (i64, i64),
)
    requires
        single_line(gs, text_len, line_height, total),
        text_len > 0,
    ensures
        selection_spec(gs, 0, text_len) == seq![
            Rect { origin: Point { x: 0, y: 0 }, size: Size { width: total.0, height: total.1 } },
        ],
{
    lemma_single_line_prefix(gs, text_len, line_height, total, gs.len() as int);
    assert(gs.subrange(0, gs.len() as int) =~= gs);
    assert(glyph_ok(gs.last()));
    assert(selection_spec(gs, 0, text_len) =~= seq![
        Rect { origin: Point { x: 0, y: 0 }, size: Size { width: total.0, height: total.1 } },
    ]);
}

} // verus!
