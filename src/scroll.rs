//! Clamping scroll offsets to what the content allows.

use vstd::prelude::*;

verus! {

/// The largest scroll offset for a viewport of height `viewport` over content of height `content`.
pub open spec fn max_scroll(content: int, viewport: int) -> int {
    if content - viewport > 0 { content - viewport } else { 0 }
}

/// A raw offset clamped into `[0, max_scroll(content, viewport)]`.
pub open spec fn clamp_spec(raw: int, content: int, viewport: int) -> int {
    if raw < 0 {
        0
    } else if raw > max_scroll(content, viewport) {
        max_scroll(content, viewport)
    } else {
        raw
    }
}

/// Clamps a raw scroll offset into the range a viewport over its content allows.
pub fn clamp_offset(raw: i64, content: i64, viewport: i64) -> (r: i64)
    ensures
        r == clamp_spec(raw as int, content as int, viewport as int),
{
    let diff: i128 = content as i128 - viewport as i128;
    let max: i128 = if diff > 0 { diff } else { 0 };
    if raw < 0 {
        0
    } else if raw as i128 > max {
        max as i64
    } else {
        raw
    }
}

/// A clamped offset lies in `[0, max_scroll(content, viewport)]`, and clamping it again
/// changes nothing.
pub proof fn lemma_clamp_in_range_and_idempotent(raw: int, content: int, viewport: int)
    ensures
        0 <= clamp_spec(raw, content, viewport) <= max_scroll(content, viewport),
        clamp_spec(clamp_spec(raw, content, viewport), content, viewport) == clamp_spec(
            raw,
            content,
            viewport,
        ),
{
}

} // verus!
