//! Placement of scaled offsets on the screen and visibility culling.

use vstd::prelude::*;

verus! {

/// Midpoint of the viewport. The visible rectangle spans
/// `[0, 2 * x] x [0, 2 * y]` in screen coordinates, upper edges excluded.
#[derive(Clone, Copy, PartialEq, Eq, Structural, Debug)]
pub struct Center {
    pub x: i32,
    pub y: i32,
}

/// Horizontal screen coordinate of a point whose scaled offset is `ox`.
pub open spec fn screen_x_spec(center: Center, ox: int) -> int {
    center.x + ox
}

/// Vertical screen coordinate. The raw offset grows upward while screen
/// coordinates grow downward, so the offset is subtracted.
pub open spec fn screen_y_spec(center: Center, oy: int) -> int {
    center.y - oy
}

/// A point is visible when both screen coordinates lie in the visible
/// rectangle. The lower bound zero is included; the upper bound
/// `2 * center` is itself excluded, so a coordinate exactly on it counts
/// as off screen.
pub open spec fn visible_spec(center: Center, ox: int, oy: int) -> bool {
    !(screen_x_spec(center, ox) >= 2 * center.x || screen_y_spec(center, oy) >= 2 * center.y
        || screen_x_spec(center, ox) < 0 || screen_y_spec(center, oy) < 0)
}

/// Places a scaled offset on the screen relative to the center and reports
/// whether the point falls inside the visible rectangle.
pub fn to_screen(center: Center, ox: i32, oy: i32) -> (r: (i64, i64, bool))
    ensures
        r.0 == screen_x_spec(center, ox as int),
        r.1 == screen_y_spec(center, oy as int),
        r.2 == visible_spec(center, ox as int, oy as int),
{
    let sx: i64 = center.x as i64 + ox as i64;
    let sy: i64 = center.y as i64 - oy as i64;
    let visible = !(sx >= 2 * (center.x as i64) || sy >= 2 * (center.y as i64) || sx < 0 || sy
        < 0);
    (sx, sy, visible)
}

} // verus!
