//! Points, sizes and rectangles in whole pixels, and clip intersection.

use vstd::prelude::*;

verus! {

/// A point in pixels.
#[derive(Clone, Copy, Debug, PartialEq, Eq, Structural, Default)]
pub struct Point {
    pub x: i64,
    pub y: i64,
}

/// A width and height in pixels.
#[derive(Clone, Copy, Debug, PartialEq, Eq, Structural, Default)]
pub struct Size {
    pub width: i64,
    pub height: i64,
}

/// An axis-aligned rectangle: its top-left corner and its size.
#[derive(Clone, Copy, Debug, PartialEq, Eq, Structural, Default)]
pub struct Rect {
    pub origin: Point,
    pub size: Size,
}

impl Point {
    pub fn new(x: i64, y: i64) -> (r: Point)
        ensures
            r.x == x,
            r.y == y,
    {
        Point { x, y }
    }
}

impl Rect {
    pub open spec fn left(self) -> int {
        self.origin.x as int
    }

    pub open spec fn top(self) -> int {
        self.origin.y as int
    }

    pub open spec fn right(self) -> int {
        self.origin.x + self.size.width
    }

    pub open spec fn bottom(self) -> int {
        self.origin.y + self.size.height
    }

    /// Whether `(px, py)` lies in the closed rectangle (edges included).
    pub open spec fn contains_spec(self, px: int, py: int) -> bool {
        self.left() <= px <= self.right() && self.top() <= py <= self.bottom()
    }

    /// Whether the two rectangles overlap in an area (touching edges do not count).
    pub open spec fn intersects_spec(self, o: Rect) -> bool {
        self.left() < o.right() && self.right() > o.left() && self.top() < o.bottom()
            && self.bottom() > o.top()
    }

    /// Whether this clip rectangle draws nothing.
    pub open spec fn is_degenerate(self) -> bool {
        self.size.width <= 0 || self.size.height <= 0
    }

    pub fn new(x: i64, y: i64, width: i64, height: i64) -> (r: Rect)
        ensures
            r.origin.x == x,
            r.origin.y == y,
            r.size.width == width,
            r.size.height == height,
    {
        Rect { origin: Point { x, y }, size: Size { width, height } }
    }

    pub fn contains(&self, p: Point) -> (r: bool)
        ensures
            r == self.contains_spec(p.x as int, p.y as int),
    {
        let right: i128 = self.origin.x as i128 + self.size.width as i128;
        let bottom: i128 = self.origin.y as i128 + self.size.height as i128;
        p.x >= self.origin.x && (p.x as i128) <= right && p.y >= self.origin.y && (p.y as i128)
            <= bottom
    }

    pub fn intersects(&self, other: &Rect) -> (r: bool)
        ensures
            r == self.intersects_spec(*other),
    {
        let sr: i128 = self.origin.x as i128 + self.size.width as i128;
        let sb: i128 = self.origin.y as i128 + self.size.height as i128;
        let or: i128 = other.origin.x as i128 + other.size.width as i128;
        let ob: i128 = other.origin.y as i128 + other.size.height as i128;
        (self.origin.x as i128) < or && sr > other.origin.x as i128 && (self.origin.y as i128) < ob
            && sb > other.origin.y as i128
    }
}

/// The largest magnitude of a coordinate or size that clip arithmetic accepts.
pub const COORD_LIMIT: i64 = 0x1_0000_0000;

pub open spec fn in_limit(v: int) -> bool {
    -COORD_LIMIT <= v <= COORD_LIMIT
}

/// The largest magnitude of a clip rectangle's coordinates and sizes.
pub const CLIP_LIMIT: i64 = 0x1000_0000_0000_0000;

pub open spec fn in_clip_limit(v: int) -> bool {
    -CLIP_LIMIT <= v <= CLIP_LIMIT
}

impl Rect {
    pub open spec fn bounded(self) -> bool {
        in_clip_limit(self.origin.x as int) && in_clip_limit(self.origin.y as int) && in_clip_limit(
            self.size.width as int,
        ) && in_clip_limit(self.size.height as int)
    }

    /// Whether this clip draws nothing or lies inside `outer`.
    pub open spec fn clip_within(self, outer: Rect) -> bool {
        self.is_degenerate() || (outer.left() <= self.left() && outer.top() <= self.top()
            && self.right() <= outer.right() && self.bottom() <= outer.bottom())
    }
}

pub open spec fn max_int(a: int, b: int) -> int {
    if a >= b { a } else { b }
}

pub open spec fn min_int(a: int, b: int) -> int {
    if a <= b { a } else { b }
}

/// The intersection of two clip rectangles; an empty overlap gives a zero width or height.
pub open spec fn clip_spec(a: Rect, b: Rect) -> Rect {
    let x = max_int(a.left(), b.left());
    let y = max_int(a.top(), b.top());
    let r = min_int(a.right(), b.right());
    let btm = min_int(a.bottom(), b.bottom());
    Rect {
        origin: Point { x: x as i64, y: y as i64 },
        size: Size { width: max_int(r - x, 0) as i64, height: max_int(btm - y, 0) as i64 },
    }
}

/// Intersects a rectangle with the clip inherited from above. The result never reaches
/// outside either rectangle, so clips only shrink while descending.
pub fn intersect_clip(a: &Rect, b: &Rect) -> (r: Rect)
    requires
        a.bounded(),
        b.bounded(),
    ensures
        r == clip_spec(*a, *b),
        r.bounded(),
        r.size.width >= 0,
        r.size.height >= 0,
        r.left() >= a.left() && r.left() >= b.left(),
        r.top() >= a.top() && r.top() >= b.top(),
        !r.is_degenerate() ==> r.right() <= a.right() && r.right() <= b.right() && r.bottom()
            <= a.bottom() && r.bottom() <= b.bottom(),
        r.clip_within(*a),
        r.clip_within(*b),
{
    let x: i64 = if a.origin.x >= b.origin.x { a.origin.x } else { b.origin.x };
    let y: i64 = if a.origin.y >= b.origin.y { a.origin.y } else { b.origin.y };
    let ar: i64 = a.origin.x + a.size.width;
    let br: i64 = b.origin.x + b.size.width;
    let ab: i64 = a.origin.y + a.size.height;
    let bb: i64 = b.origin.y + b.size.height;
    let r: i64 = if ar <= br { ar } else { br };
    let btm: i64 = if ab <= bb { ab } else { bb };
    let w: i64 = if r - x >= 0 { r - x } else { 0 };
    let h: i64 = if btm - y >= 0 { btm - y } else { 0 };
    Rect { origin: Point { x, y }, size: Size { width: w, height: h } }
}

/// Clip containment is transitive.
pub proof fn lemma_clip_within_trans(a: Rect, b: Rect, c: Rect)
    requires
        a.clip_within(b),
        b.clip_within(c),
    ensures
        a.clip_within(c),
{
}

/// A clip is within itself.
pub proof fn lemma_clip_within_refl(a: Rect)
    ensures
        a.clip_within(a),
{
}

} // verus!
