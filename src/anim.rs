//! Color transitions: easing curves, running animations, and the table model that
//! resolving a color toward a target follows.

use vstd::prelude::*;
use crate::color::{Color, lerp_spec, FRACTION_LIMIT};

verus! {

/// How an animation's progress maps to interpolation progress.
#[derive(Clone, Copy, Debug, PartialEq, Eq, Structural)]
pub enum Easing {
    Linear,
    EaseInQuad,
    EaseOutQuad,
    EaseInOutQuad,
    EaseOutCubic,
}

impl Easing {
    /// The eased progress at `n / d` (`0 <= n <= d`), as a numerator over `d * d * d`.
    pub open spec fn apply_spec(self, n: int, d: int) -> int {
        match self {
            Easing::Linear => n * d * d,
            Easing::EaseInQuad => n * n * d,
            Easing::EaseOutQuad => n * (2 * d - n) * d,
            Easing::EaseInOutQuad => if 2 * n < d {
                2 * n * n * d
            } else {
                (4 * n * d - d * d - 2 * n * n) * d
            },
            Easing::EaseOutCubic => d * d * d - (d - n) * (d - n) * (d - n),
        }
    }

    /// The eased progress after `elapsed` of `duration` time units, clamped to the
    /// whole duration, as a fraction `(numerator, denominator)` with denominator
    /// `duration` cubed.
    pub fn apply(&self, elapsed: u64, duration: u32) -> (r: (u128, u128))
        requires
            duration > 0,
        ensures
            r.1 == duration * duration * duration,
            r.0 == self.apply_spec(
                if elapsed < duration { elapsed as int } else { duration as int },
                duration as int,
            ),
            0 < r.1 <= FRACTION_LIMIT,
            r.0 <= r.1,
    {
        let d: u128 = duration as u128;
        let n: u128 = if elapsed < duration as u64 { elapsed as u128 } else { d };
        proof {
            assert(d * d <= 0x1_0000_0000_0000_0000) by (nonlinear_arith)
                requires d <= 0xffff_ffff;
            assert(d * d * d <= FRACTION_LIMIT) by (nonlinear_arith)
                requires d <= 0xffff_ffff, d * d <= 0x1_0000_0000_0000_0000;
            assert(0 < d * d * d) by (nonlinear_arith)
                requires d > 0;
            assert(n * d <= d * d) by (nonlinear_arith)
                requires n <= d;
            assert(n * n <= d * d) by (nonlinear_arith)
                requires n <= d;
            assert(n * d * d <= d * d * d) by (nonlinear_arith)
                requires n <= d;
            assert(n * n * d <= d * d * d) by (nonlinear_arith)
                requires n <= d;
        }
        let dd: u128 = d * d;
        let den: u128 = dd * d;
        let num: u128 = match self {
            Easing::Linear => n * d * d,
            Easing::EaseInQuad => n * n * d,
            Easing::EaseOutQuad => {
                proof {
                    assert(n * (2 * d - n) <= d * d) by (nonlinear_arith)
                        requires n <= d;
                    assert(n * (2 * d - n) * d <= d * d * d) by (nonlinear_arith)
                        requires n * (2 * d - n) <= d * d, n <= d;
                }
                n * (2 * d - n) * d
            },
            Easing::EaseInOutQuad => if 2 * n < d {
                proof {
                    assert(2 * n * n <= d * d) by (nonlinear_arith)
                        requires 2 * n < d, n <= d;
                    assert(2 * n * n * d <= d * d * d) by (nonlinear_arith)
                        requires 2 * n < d;
                }
                2 * n * n * d
            } else {
                proof {
                    assert(4 * n * d <= 4 * (d * d)) by (nonlinear_arith)
                        requires n <= d;
                    assert(2 * n * n <= 2 * (d * d)) by (nonlinear_arith)
                        requires n <= d;
                    assert(4 * n * d >= d * d + 2 * n * n) by (nonlinear_arith)
                        requires 2 * n >= d, n <= d;
                    assert(4 * n * d - d * d - 2 * n * n <= d * d) by (nonlinear_arith)
                        requires n <= d;
                    assert((4 * n * d - d * d - 2 * n * n) * d <= d * d * d) by (nonlinear_arith)
                        requires 4 * n * d - d * d - 2 * n * n <= d * d, 0 <= 4 * n * d - d * d - 2 * n * n;
                }
                (4 * n * d - d * d - 2 * n * n) * d
            },
            Easing::EaseOutCubic => {
                proof {
                    assert((d - n) * (d - n) <= d * d) by (nonlinear_arith)
                        requires n <= d;
                    assert((d - n) * (d - n) * (d - n) <= d * d * d) by (nonlinear_arith)
                        requires n <= d;
                }
                den - (d - n) * (d - n) * (d - n)
            },
        };
        proof {
            if *self == Easing::EaseOutCubic {
                assert(num <= den);
            }
        }
        (num, den)
    }
}

/// A declared transition of a style property: durations in milliseconds.
#[derive(Clone, Debug)]
pub struct Transition {
    pub property: String,
    pub duration: u64,
    pub easing: Easing,
    pub delay: u64,
}

impl Default for Transition {
    fn default() -> (r: Transition)
        ensures
            r.property@ == seq!['n', 'o', 'n', 'e'],
            r.duration == 0,
            r.easing == Easing::Linear,
            r.delay == 0,
    {
        proof {
            reveal_strlit("none");
        }
        Transition {
            property: String::from_str("none"),
            duration: 0,
            easing: Easing::Linear,
            delay: 0,
        }
    }
}

/// One running color transition.
#[derive(Clone, Copy, Debug, PartialEq, Eq, Structural)]
pub struct AnimState {
    pub start_val: Color,
    pub end_val: Color,
    /// Milliseconds on the caller's clock.
    pub start_time: u64,
    /// Milliseconds.
    pub duration: u32,
    pub easing: Easing,
}

/// The interpolated color at `now`, and whether the transition has finished.
pub open spec fn value_at(s: AnimState, now: int) -> (Color, bool) {
    let elapsed = if now >= s.start_time { now - s.start_time } else { 0 };
    if elapsed >= s.duration {
        (s.end_val, true)
    } else {
        let d = s.duration as int;
        (lerp_spec(s.start_val, s.end_val, s.easing.apply_spec(elapsed, d), d * d * d), false)
    }
}

impl AnimState {
    pub fn get_value(&self, now: u64) -> (r: (Color, bool))
        ensures
            r == value_at(*self, now as int),
    {
        let elapsed: u64 = if now >= self.start_time { now - self.start_time } else { 0 };
        if elapsed >= self.duration as u64 {
            (self.end_val, true)
        } else {
            let (num, den) = self.easing.apply(elapsed, self.duration);
            (self.start_val.lerp(&self.end_val, num, den), false)
        }
    }
}

/// The animation table: running transitions and the last color each key settled on.
pub struct AnimModel {
    pub anims: Map<Seq<char>, AnimState>,
    pub last: Map<Seq<char>, Color>,
}

/// A new transition toward `target` that starts at `from` now, with cubic ease-out.
pub open spec fn restart(from: Color, target: Color, now: int, duration: u32) -> AnimState {
    AnimState {
        start_val: from,
        end_val: target,
        start_time: now as u64,
        duration,
        easing: Easing::EaseOutCubic,
    }
}

/// What resolving the color of `id` toward `target` does: the new table, the color to
/// draw, and whether anything changed that needs another frame.
pub open spec fn resolve_model(
    m: AnimModel,
    id: Seq<char>,
    target: Color,
    duration: u32,
    now: int,
) -> (AnimModel, Color, bool) {
    if m.anims.contains_key(id) {
        let a = m.anims[id];
        let (cur, done) = value_at(a, now);
        if a.end_val != target {
            (
                AnimModel { anims: m.anims.insert(id, restart(cur, target, now, duration)), ..m },
                cur,
                true,
            )
        } else if done {
            (AnimModel { anims: m.anims.remove(id), last: m.last.insert(id, cur) }, cur, true)
        } else {
            (m, cur, true)
        }
    } else {
        let last = if m.last.contains_key(id) { m.last[id] } else { target };
        if last != target {
            (
                AnimModel { anims: m.anims.insert(id, restart(last, target, now, duration)), ..m },
                last,
                true,
            )
        } else {
            (AnimModel { last: m.last.insert(id, target), ..m }, target, false)
        }
    }
}

/// Re-targeting keeps continuity: while a transition of `id` is in flight, asking for a
/// different target returns the color currently shown and starts the new transition
/// from exactly that color.
pub proof fn lemma_retarget_continuity(
    m: AnimModel,
    id: Seq<char>,
    first: Color,
    second: Color,
    duration: u32,
    t0: int,
    t1: int,
)
    requires
        first != second,
        0 <= t1 <= u64::MAX,
        resolve_model(m, id, first, duration, t0).0.anims.contains_key(id),
    ensures
        ({
            let m1 = resolve_model(m, id, first, duration, t0).0;
            let (m2, shown, _) = resolve_model(m1, id, second, duration, t1);
            &&& shown == value_at(m1.anims[id], t1).0
            &&& m2.anims[id] == restart(shown, second, t1, duration)
        }),
{
    let m1 = resolve_model(m, id, first, duration, t0).0;
    assert(m1.anims[id].end_val == first);
}

/// Completion is final: once a transition toward `target` has run its duration, the
/// call returns exactly `target` and drops the record, and a later call with the same
/// target returns `target` at once without starting a new transition.
pub proof fn lemma_completion(
    m: AnimModel,
    id: Seq<char>,
    target: Color,
    duration: u32,
    now: int,
    later: int,
)
    requires
        m.anims.contains_key(id),
        m.anims[id].end_val == target,
        now - m.anims[id].start_time >= m.anims[id].duration,
    ensures
        ({
            let (m1, shown, _) = resolve_model(m, id, target, duration, now);
            let (m2, again, changed) = resolve_model(m1, id, target, duration, later);
            &&& shown == target
            &&& !m1.anims.contains_key(id)
            &&& again == target
            &&& !changed
            &&& m2.anims == m1.anims
        }),
{
}

} // verus!
