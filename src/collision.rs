use vstd::prelude::*;
use crate::geometry::Vec2;

verus! {

/// The side of the other box that the ball has struck.
#[derive(Clone, Copy, Debug, PartialEq, Eq, Structural)]
pub enum Collision {
    Left,
    Right,
    Top,
    Bottom,
    Inside,
}

/// Along one axis, the ball span `[a0, a1]` enters the other span `[b0, b1]`
/// across its low edge.
pub open spec fn enters_low(a0: int, a1: int, b0: int, b1: int) -> bool {
    a0 < b0 && a1 > b0 && a1 < b1
}

/// Along one axis, the ball span enters the other span across its high edge.
pub open spec fn enters_high(a0: int, a1: int, b0: int, b1: int) -> bool {
    a0 > b0 && a0 < b1 && a1 > b1
}

/// Whether the two open spans share a point.
pub open spec fn spans_overlap(a0: int, a1: int, b0: int, b1: int) -> bool {
    a0 < b1 && a1 > b0
}

/// Penetration depth along one axis when an edge is crossed.
pub open spec fn depth(a0: int, a1: int, b0: int, b1: int) -> int {
    if enters_low(a0, a1, b0, b1) {
        a1 - b0
    } else {
        b1 - a0
    }
}

/// Whether an edge is crossed along one axis.
pub open spec fn crosses(a0: int, a1: int, b0: int, b1: int) -> bool {
    enters_low(a0, a1, b0, b1) || enters_high(a0, a1, b0, b1)
}

/// Low end of a box along one axis, doubled: `2 * (center - size / 2)`.
pub open spec fn lo2(center: i64, size: i64) -> int {
    2 * center - size
}

/// High end of a box along one axis, doubled.
pub open spec fn hi2(center: i64, size: i64) -> int {
    2 * center + size
}

/// Whether the ball box (`a`, size `sa`) and the other box (`b`, size `sb`) overlap.
pub open spec fn boxes_overlap(a: Vec2, sa: Vec2, b: Vec2, sb: Vec2) -> bool {
    spans_overlap(lo2(a.x, sa.x), hi2(a.x, sa.x), lo2(b.x, sb.x), hi2(b.x, sb.x))
        && spans_overlap(lo2(a.y, sa.y), hi2(a.y, sa.y), lo2(b.y, sb.y), hi2(b.y, sb.y))
}

/// Whether the ball crosses an edge of the other box horizontally.
pub open spec fn crosses_x(a: Vec2, sa: Vec2, b: Vec2, sb: Vec2) -> bool {
    crosses(lo2(a.x, sa.x), hi2(a.x, sa.x), lo2(b.x, sb.x), hi2(b.x, sb.x))
}

/// Whether the ball crosses an edge of the other box vertically.
pub open spec fn crosses_y(a: Vec2, sa: Vec2, b: Vec2, sb: Vec2) -> bool {
    crosses(lo2(a.y, sa.y), hi2(a.y, sa.y), lo2(b.y, sb.y), hi2(b.y, sb.y))
}

/// Horizontal penetration depth (doubled).
pub open spec fn depth_x(a: Vec2, sa: Vec2, b: Vec2, sb: Vec2) -> int {
    depth(lo2(a.x, sa.x), hi2(a.x, sa.x), lo2(b.x, sb.x), hi2(b.x, sb.x))
}

/// Vertical penetration depth (doubled).
pub open spec fn depth_y(a: Vec2, sa: Vec2, b: Vec2, sb: Vec2) -> int {
    depth(lo2(a.y, sa.y), hi2(a.y, sa.y), lo2(b.y, sb.y), hi2(b.y, sb.y))
}

/// The side struck on the horizontal axis alone.
pub open spec fn side_x(a: Vec2, sa: Vec2, b: Vec2, sb: Vec2) -> Collision {
    if enters_low(lo2(a.x, sa.x), hi2(a.x, sa.x), lo2(b.x, sb.x), hi2(b.x, sb.x)) {
        Collision::Left
    } else if enters_high(lo2(a.x, sa.x), hi2(a.x, sa.x), lo2(b.x, sb.x), hi2(b.x, sb.x)) {
        Collision::Right
    } else {
        Collision::Inside
    }
}

/// The side struck on the vertical axis alone.
pub open spec fn side_y(a: Vec2, sa: Vec2, b: Vec2, sb: Vec2) -> Collision {
    if enters_low(lo2(a.y, sa.y), hi2(a.y, sa.y), lo2(b.y, sb.y), hi2(b.y, sb.y)) {
        Collision::Bottom
    } else if enters_high(lo2(a.y, sa.y), hi2(a.y, sa.y), lo2(b.y, sb.y), hi2(b.y, sb.y)) {
        Collision::Top
    } else {
        Collision::Inside
    }
}

/// The collision of the ball box with another box: none when they do not
/// overlap; otherwise the side on the axis of shallowest penetration, where
/// an axis on which no edge is crossed counts as infinitely deep and a tie
/// goes to the horizontal axis.
pub open spec fn collision_of(a: Vec2, sa: Vec2, b: Vec2, sb: Vec2) -> Option<Collision> {
    if !boxes_overlap(a, sa, b, sb) {
        None
    } else if crosses_y(a, sa, b, sb) && (!crosses_x(a, sa, b, sb) || depth_y(a, sa, b, sb)
        < depth_x(a, sa, b, sb)) {
        Some(side_y(a, sa, b, sb))
    } else {
        Some(side_x(a, sa, b, sb))
    }
}

/// The side struck along one axis, with its depth, or `None` when no edge is crossed.
fn axis_hit(a0: i128, a1: i128, b0: i128, b1: i128, low: Collision, high: Collision) -> (r:
    Option<(Collision, i128)>)
    requires
        -0x10_0000_0000_0000_0000 <= a0 <= 0x10_0000_0000_0000_0000,
        -0x10_0000_0000_0000_0000 <= a1 <= 0x10_0000_0000_0000_0000,
        -0x10_0000_0000_0000_0000 <= b0 <= 0x10_0000_0000_0000_0000,
        -0x10_0000_0000_0000_0000 <= b1 <= 0x10_0000_0000_0000_0000,
    ensures
        r.is_some() == crosses(a0 as int, a1 as int, b0 as int, b1 as int),
        r.is_some() ==> r.unwrap().1 == depth(a0 as int, a1 as int, b0 as int, b1 as int),
        r.is_some() ==> r.unwrap().0 == if enters_low(a0 as int, a1 as int, b0 as int, b1 as int) {
            low
        } else {
            high
        },
{
    if a0 < b0 && a1 > b0 && a1 < b1 {
        Some((low, a1 - b0))
    } else if a0 > b0 && a0 < b1 && a1 > b1 {
        Some((high, b1 - a0))
    } else {
        None
    }
}

/// Classifies how the ball box (center `a`, size `sa`) meets another box
/// (center `b`, size `sb`).
pub fn collide(a: Vec2, sa: Vec2, b: Vec2, sb: Vec2) -> (r: Option<Collision>)
    ensures
        r == collision_of(a, sa, b, sb),
{
    let ax0 = 2 * (a.x as i128) - sa.x as i128;
    let ax1 = 2 * (a.x as i128) + sa.x as i128;
    let bx0 = 2 * (b.x as i128) - sb.x as i128;
    let bx1 = 2 * (b.x as i128) + sb.x as i128;
    let ay0 = 2 * (a.y as i128) - sa.y as i128;
    let ay1 = 2 * (a.y as i128) + sa.y as i128;
    let by0 = 2 * (b.y as i128) - sb.y as i128;
    let by1 = 2 * (b.y as i128) + sb.y as i128;
    if !(ax0 < bx1 && ax1 > bx0 && ay0 < by1 && ay1 > by0) {
        return None;
    }
    let hx = axis_hit(ax0, ax1, bx0, bx1, Collision::Left, Collision::Right);
    let hy = axis_hit(ay0, ay1, by0, by1, Collision::Bottom, Collision::Top);
    match (hx, hy) {
        (Some((sx, dx)), Some((sy, dy))) => {
            if dy < dx {
                Some(sy)
            } else {
                Some(sx)
            }
        },
        (None, Some((sy, _))) => Some(sy),
        (Some((sx, _)), None) => Some(sx),
        (None, None) => Some(Collision::Inside),
    }
}

/// The velocity after reflecting `v` off the struck side.
pub open spec fn reflect(v: Vec2, c: Option<Collision>) -> Vec2 {
    match c {
        Some(Collision::Left) | Some(Collision::Right) => Vec2 { x: -v.x as i64, y: v.y },
        Some(Collision::Top) | Some(Collision::Bottom) => Vec2 { x: v.x, y: -v.y as i64 },
        _ => v,
    }
}

/// When the ball overlaps another box and its shallowest penetration is
/// horizontal, the reflection reverses the horizontal velocity alone.
pub proof fn lemma_horizontal_hit_reflects_x(v: Vec2, a: Vec2, sa: Vec2, b: Vec2, sb: Vec2)
    requires
        v.x > i64::MIN,
        boxes_overlap(a, sa, b, sb),
        crosses_x(a, sa, b, sb),
        !crosses_y(a, sa, b, sb) || depth_x(a, sa, b, sb) <= depth_y(a, sa, b, sb),
    ensures
        reflect(v, collision_of(a, sa, b, sb)) == (Vec2 { x: -v.x as i64, y: v.y }),
        reflect(v, collision_of(a, sa, b, sb)).x == -v.x,
{
}

} // verus!
