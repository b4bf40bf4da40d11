use vstd::prelude::*;

use crate::components::{Position, Size};

verus! {

/// Two axis-aligned squares overlap exactly when each starts before the other
/// ends, on both axes.
pub open spec fn collides(x1: int, y1: int, s1: int, x2: int, y2: int, s2: int) -> bool {
    &&& x1 < x2 + s2
    &&& x1 + s1 > x2
    &&& y1 < y2 + s2
    &&& y1 + s1 > y2
}

/// Whether the square at `position1` with side `size1` overlaps the square at
/// `position2` with side `size2`.
pub fn check_collision(
    position1: &Position,
    size1: &Size,
    position2: &Position,
    size2: &Size,
) -> (r: bool)
    requires
        size1.size <= i32::MAX,
        size2.size <= i32::MAX,
        position1.x + size1.size <= i32::MAX,
        position1.y + size1.size <= i32::MAX,
        position2.x + size2.size <= i32::MAX,
        position2.y + size2.size <= i32::MAX,
    ensures
        r == collides(
            position1.x as int,
            position1.y as int,
            size1.size as int,
            position2.x as int,
            position2.y as int,
            size2.size as int,
        ),
{
    if position1.x < (position2.x + size2.size as i32)
        && (position1.x + size1.size as i32) > position2.x
        && position1.y < (position2.y + size2.size as i32)
        && position1.y + size1.size as i32 > position2.y {
        return true;
    }
    false
}

} // verus!
