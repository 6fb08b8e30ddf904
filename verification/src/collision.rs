//! Overlap test between two boxes, the side that was struck, and the
//! reflection of a velocity off that side.

use vstd::prelude::*;
use crate::geometry::{abs, in_range, Aabb, Vec2, MAX_COORD};

verus! {

/// The side of the obstacle that the moving box struck, or `Inside` when the
/// moving box lies wholly within the obstacle.
#[derive(Clone, Copy, Debug, PartialEq, Eq, Structural)]
pub enum Collision {
    Left,
    Right,
    Top,
    Bottom,
    Inside,
}

/// How far two intervals, each given by centre and half-length, overlap.
/// Positive when they share more than a point, zero when they touch, negative
/// when they are apart.
pub open spec fn overlap(a_center: int, a_half: int, b_center: int, b_half: int) -> int {
    (a_half + b_half) - abs(a_center - b_center)
}

/// Whether interval `a` lies within interval `b`, ends included.
pub open spec fn within(a_center: int, a_half: int, b_center: int, b_half: int) -> bool {
    b_center - b_half <= a_center - a_half && a_center + a_half <= b_center + b_half
}

/// Whether the two boxes overlap on both axes by more than an edge.
pub open spec fn overlapping(a: Aabb, b: Aabb) -> bool {
    overlap(a.center.x as int, a.half.x as int, b.center.x as int, b.half.x as int) > 0
        && overlap(a.center.y as int, a.half.y as int, b.center.y as int, b.half.y as int) > 0
}

/// Whether box `a` lies within box `b` on both axes.
pub open spec fn enclosed(a: Aabb, b: Aabb) -> bool {
    within(a.center.x as int, a.half.x as int, b.center.x as int, b.half.x as int)
        && within(a.center.y as int, a.half.y as int, b.center.y as int, b.half.y as int)
}

/// The outcome of testing moving box `a` against obstacle `b`.
///
/// There is no collision unless the boxes overlap on both axes. A box that
/// lies wholly within the obstacle is `Inside`. Otherwise the struck face is
/// on the axis of the smaller overlap: horizontal when the x overlap is
/// strictly smaller (`Left` when `a` is centred left of `b`, else `Right`),
/// vertical otherwise (`Top` when `a` is centred above `b`, else `Bottom`).
pub open spec fn collide_spec(a: Aabb, b: Aabb) -> Option<Collision> {
    let ox = overlap(a.center.x as int, a.half.x as int, b.center.x as int, b.half.x as int);
    let oy = overlap(a.center.y as int, a.half.y as int, b.center.y as int, b.half.y as int);
    if !overlapping(a, b) {
        None
    } else if enclosed(a, b) {
        Some(Collision::Inside)
    } else if ox < oy {
        if a.center.x < b.center.x {
            Some(Collision::Left)
        } else {
            Some(Collision::Right)
        }
    } else {
        if a.center.y > b.center.y {
            Some(Collision::Top)
        } else {
            Some(Collision::Bottom)
        }
    }
}

/// The velocity after striking side `hit`: the component that points into the
/// obstacle is negated, and a velocity that already points away is kept.
pub open spec fn reflect_spec(v: Vec2, hit: Collision) -> Vec2 {
    match hit {
        Collision::Left => if v.x > 0 {
            Vec2 { x: (-v.x) as i64, y: v.y }
        } else {
            v
        },
        Collision::Right => if v.x < 0 {
            Vec2 { x: (-v.x) as i64, y: v.y }
        } else {
            v
        },
        Collision::Top => if v.y < 0 {
            Vec2 { x: v.x, y: (-v.y) as i64 }
        } else {
            v
        },
        Collision::Bottom => if v.y > 0 {
            Vec2 { x: v.x, y: (-v.y) as i64 }
        } else {
            v
        },
        Collision::Inside => v,
    }
}

/// The velocity after a collision test with the given outcome.
pub open spec fn bounce_spec(v: Vec2, outcome: Option<Collision>) -> Vec2 {
    match outcome {
        Some(hit) => reflect_spec(v, hit),
        None => v,
    }
}

/// Overlap of two intervals, each given by centre and half-length.
fn axis_overlap(a_center: i64, a_half: i64, b_center: i64, b_half: i64) -> (o: i64)
    requires
        in_range(a_center as int),
        in_range(b_center as int),
        0 < a_half <= MAX_COORD,
        0 < b_half <= MAX_COORD,
    ensures
        o == overlap(a_center as int, a_half as int, b_center as int, b_half as int),
{
    let d: i64 = a_center - b_center;
    let dist: i64 = if d < 0 {
        -d
    } else {
        d
    };
    (a_half + b_half) - dist
}

/// Tests moving box `a` against obstacle `b` and names the struck side.
pub fn collide(a: Aabb, b: Aabb) -> (outcome: Option<Collision>)
    requires
        a.valid(),
        b.valid(),
    ensures
        outcome == collide_spec(a, b),
{
    let ox: i64 = axis_overlap(a.center.x, a.half.x, b.center.x, b.half.x);
    let oy: i64 = axis_overlap(a.center.y, a.half.y, b.center.y, b.half.y);
    if ox <= 0 || oy <= 0 {
        return None;
    }
    let inside_x: bool = b.center.x - b.half.x <= a.center.x - a.half.x && a.center.x + a.half.x
        <= b.center.x + b.half.x;
    let inside_y: bool = b.center.y - b.half.y <= a.center.y - a.half.y && a.center.y + a.half.y
        <= b.center.y + b.half.y;
    if inside_x && inside_y {
        Some(Collision::Inside)
    } else if ox < oy {
        if a.center.x < b.center.x {
            Some(Collision::Left)
        } else {
            Some(Collision::Right)
        }
    } else {
        if a.center.y > b.center.y {
            Some(Collision::Top)
        } else {
            Some(Collision::Bottom)
        }
    }
}

/// Reflects velocity `v` off the struck side `hit`. Neither component may be
/// the one `i64` that has no negative.
pub fn reflect(v: Vec2, hit: Collision) -> (out: Vec2)
    requires
        v.x > i64::MIN,
        v.y > i64::MIN,
    ensures
        out == reflect_spec(v, hit),
        v.bounded() ==> out.bounded(),
{
    match hit {
        Collision::Left => if v.x > 0 {
            Vec2 { x: -v.x, y: v.y }
        } else {
            v
        },
        Collision::Right => if v.x < 0 {
            Vec2 { x: -v.x, y: v.y }
        } else {
            v
        },
        Collision::Top => if v.y < 0 {
            Vec2 { x: v.x, y: -v.y }
        } else {
            v
        },
        Collision::Bottom => if v.y > 0 {
            Vec2 { x: v.x, y: -v.y }
        } else {
            v
        },
        Collision::Inside => v,
    }
}

/// A velocity that points into a `Left` face is turned back, and one that
/// meets a `Right` face while moving right is left alone; likewise for the
/// mirrored and the vertical cases. A reflection never touches the other
/// component, and reflecting twice off the same face changes nothing more.
pub proof fn lemma_reflection_is_guarded(v: Vec2, hit: Collision)
    requires
        v.x > i64::MIN,
        v.y > i64::MIN,
    ensures
        v.x > 0 ==> reflect_spec(v, Collision::Left) == (Vec2 { x: (-v.x) as i64, y: v.y }),
        v.x > 0 ==> reflect_spec(v, Collision::Right) == v,
        v.x < 0 ==> reflect_spec(v, Collision::Right) == (Vec2 { x: (-v.x) as i64, y: v.y }),
        v.x < 0 ==> reflect_spec(v, Collision::Left) == v,
        v.y < 0 ==> reflect_spec(v, Collision::Top) == (Vec2 { x: v.x, y: (-v.y) as i64 }),
        v.y < 0 ==> reflect_spec(v, Collision::Bottom) == v,
        v.y > 0 ==> reflect_spec(v, Collision::Bottom) == (Vec2 { x: v.x, y: (-v.y) as i64 }),
        v.y > 0 ==> reflect_spec(v, Collision::Top) == v,
        reflect_spec(v, Collision::Inside) == v,
        abs(reflect_spec(v, hit).x as int) == abs(v.x as int),
        abs(reflect_spec(v, hit).y as int) == abs(v.y as int),
        reflect_spec(reflect_spec(v, hit), hit) == reflect_spec(v, hit),
{
}

} // verus!
