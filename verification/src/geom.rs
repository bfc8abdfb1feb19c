//! Geometry and collision primitives: axis-aligned rectangles, circles,
//! intersection tests and side classification.

use vstd::prelude::*;

verus! {

/// Greatest coordinate magnitude the playfield model represents.
/// Motion updates saturate here, so geometric arithmetic never overflows.
pub const COORD_LIMIT: i64 = 1_000_000_000;

/// Greatest extent of any collider size and greatest circle radius.
pub const SIZE_LIMIT: i64 = 2_000_000;

/// Greatest velocity component magnitude.
pub const VEL_LIMIT: i64 = 1_000_000;

/// Longest time a single motion update may advance, in milliseconds.
pub const DT_LIMIT: u32 = 1_000;

/// A two-dimensional integer vector: a position, a velocity or a size.
#[derive(Clone, Copy, PartialEq, Eq, Structural, Debug)]
pub struct Vec2i {
    pub x: i64,
    pub y: i64,
}

impl Vec2i {
    /// Both components lie within the representable coordinate range.
    pub open spec fn wf_pos(self) -> bool {
        &&& -COORD_LIMIT <= self.x <= COORD_LIMIT
        &&& -COORD_LIMIT <= self.y <= COORD_LIMIT
    }

    /// Both components are valid extents.
    pub open spec fn wf_size(self) -> bool {
        &&& 0 <= self.x <= SIZE_LIMIT
        &&& 0 <= self.y <= SIZE_LIMIT
    }

    /// Both components are valid velocity components.
    pub open spec fn wf_vel(self) -> bool {
        &&& -VEL_LIMIT <= self.x <= VEL_LIMIT
        &&& -VEL_LIMIT <= self.y <= VEL_LIMIT
    }

    pub fn new(x: i64, y: i64) -> (v: Vec2i)
        ensures
            v == (Vec2i { x, y }),
    {
        Vec2i { x, y }
    }
}

/// An axis-aligned rectangle given by its center and its full size.
#[derive(Clone, Copy, PartialEq, Eq, Structural, Debug)]
pub struct Rect {
    pub center: Vec2i,
    pub size: Vec2i,
}

impl Rect {
    pub open spec fn wf(self) -> bool {
        self.center.wf_pos() && self.size.wf_size()
    }
}

/// The extent a moving entity presents to an intersection test:
/// balls are circles, powerups and paddles are rectangles.
#[derive(Clone, Copy, PartialEq, Eq, Structural, Debug)]
pub enum Volume {
    Circle { center: Vec2i, radius: i64 },
    Rect { rect: Rect },
}

impl Volume {
    pub open spec fn wf(self) -> bool {
        match self {
            Volume::Circle { center, radius } => center.wf_pos() && 0 <= radius <= SIZE_LIMIT,
            Volume::Rect { rect } => rect.wf(),
        }
    }

    /// The center of the moving volume.
    pub open spec fn center_spec(self) -> Vec2i {
        match self {
            Volume::Circle { center, radius } => center,
            Volume::Rect { rect } => rect.center,
        }
    }
}

/// The side of a stationary rectangle struck by a moving entity.
#[derive(Clone, Copy, PartialEq, Eq, Structural, Debug)]
pub enum Collision {
    Left,
    Right,
    Top,
    Bottom,
}

pub open spec fn abs_i(x: int) -> int {
    if x < 0 {
        -x
    } else {
        x
    }
}

pub open spec fn clamp_spec(x: int, lo: int, hi: int) -> int {
    if x < lo {
        lo
    } else if x > hi {
        hi
    } else {
        x
    }
}

pub open spec fn rect_min_x(r: Rect) -> int {
    r.center.x - r.size.x / 2
}

pub open spec fn rect_max_x(r: Rect) -> int {
    r.center.x + r.size.x / 2
}

pub open spec fn rect_min_y(r: Rect) -> int {
    r.center.y - r.size.y / 2
}

pub open spec fn rect_max_y(r: Rect) -> int {
    r.center.y + r.size.y / 2
}

/// The point of `r` nearest to `p`: `p` clamped to the rectangle, per axis.
pub open spec fn closest_x(p: Vec2i, r: Rect) -> int {
    clamp_spec(p.x as int, rect_min_x(r), rect_max_x(r))
}

pub open spec fn closest_y(p: Vec2i, r: Rect) -> int {
    clamp_spec(p.y as int, rect_min_y(r), rect_max_y(r))
}

/// Offset from the nearest point of `r` to `p`; zero when `p` is inside `r`.
pub open spec fn offset_x(p: Vec2i, r: Rect) -> int {
    p.x - closest_x(p, r)
}

pub open spec fn offset_y(p: Vec2i, r: Rect) -> int {
    p.y - closest_y(p, r)
}

/// Squared distance from `p` to the nearest point of `r`.
pub open spec fn dist_sq_to_rect(p: Vec2i, r: Rect) -> int {
    offset_x(p, r) * offset_x(p, r) + offset_y(p, r) * offset_y(p, r)
}

/// A circle touches a rectangle when its center is within the radius of the
/// rectangle's nearest point (touching counts as intersecting).
pub open spec fn circle_intersects_rect(center: Vec2i, radius: int, r: Rect) -> bool {
    dist_sq_to_rect(center, r) <= radius * radius
}

/// Two rectangles intersect when their extents overlap on both axes
/// (touching counts as intersecting).
pub open spec fn rects_intersect(a: Rect, b: Rect) -> bool {
    &&& rect_min_x(a) <= rect_max_x(b)
    &&& rect_min_x(b) <= rect_max_x(a)
    &&& rect_min_y(a) <= rect_max_y(b)
    &&& rect_min_y(b) <= rect_max_y(a)
}

pub open spec fn volume_intersects(v: Volume, other: Rect) -> bool {
    match v {
        Volume::Circle { center, radius } => circle_intersects_rect(center, radius as int, other),
        Volume::Rect { rect } => rects_intersect(rect, other),
    }
}

/// Side classification from the offset vector: the axis with the strictly
/// larger magnitude wins, ties fall to the vertical axis, and the sign of
/// the winning component picks the side.
pub open spec fn side_of_offset(ox: int, oy: int) -> Collision {
    if abs_i(ox) > abs_i(oy) {
        if ox < 0 {
            Collision::Left
        } else {
            Collision::Right
        }
    } else if oy > 0 {
        Collision::Top
    } else {
        Collision::Bottom
    }
}

/// What [`collide_volume`] returns: the struck side of `other` when the
/// moving volume intersects it, and nothing otherwise.
pub open spec fn collide_spec(v: Volume, other: Rect) -> Option<Collision> {
    if volume_intersects(v, other) {
        Some(
            side_of_offset(
                offset_x(v.center_spec(), other),
                offset_y(v.center_spec(), other),
            ),
        )
    } else {
        None
    }
}

pub proof fn lemma_square_bound(x: int, b: int)
    requires
        -b <= x <= b,
        0 <= b,
    ensures
        0 <= x * x <= b * b,
{
    assert(0 <= x * x <= b * b) by (nonlinear_arith)
        requires
            -b <= x <= b,
            0 <= b,
    ;
}

pub fn clamp_i64(x: i64, lo: i64, hi: i64) -> (r: i64)
    requires
        lo <= hi,
    ensures
        r == clamp_spec(x as int, lo as int, hi as int),
{
    if x < lo {
        lo
    } else if x > hi {
        hi
    } else {
        x
    }
}

/// A coordinate advanced by a velocity over `dt`, saturated at the
/// representable coordinate range.
pub open spec fn advanced(p: int, v: int, dt: int) -> int {
    clamp_spec(p + v * dt, -COORD_LIMIT as int, COORD_LIMIT as int)
}

proof fn lemma_mul_bound(a: int, b: int, hi_a: int, hi_b: int)
    requires
        -hi_a <= a <= hi_a,
        0 <= b <= hi_b,
        0 <= hi_a,
    ensures
        -(hi_a * hi_b) <= a * b <= hi_a * hi_b,
{
    assert(-(hi_a * hi_b) <= a * b <= hi_a * hi_b) by (nonlinear_arith)
        requires
            -hi_a <= a <= hi_a,
            0 <= b <= hi_b,
            0 <= hi_a,
    ;
}

/// Advance a position by a velocity over `dt` milliseconds, saturating at
/// the representable coordinate range.
pub fn advance_point(p: Vec2i, v: Vec2i, dt: u32) -> (q: Vec2i)
    requires
        p.wf_pos(),
        v.wf_vel(),
        dt <= DT_LIMIT,
    ensures
        q.x == advanced(p.x as int, v.x as int, dt as int),
        q.y == advanced(p.y as int, v.y as int, dt as int),
        q.wf_pos(),
{
    proof {
        lemma_mul_bound(v.x as int, dt as int, VEL_LIMIT as int, DT_LIMIT as int);
        lemma_mul_bound(v.y as int, dt as int, VEL_LIMIT as int, DT_LIMIT as int);
    }
    let dx: i64 = v.x * dt as i64;
    let dy: i64 = v.y * dt as i64;
    Vec2i {
        x: clamp_i64(p.x + dx, -COORD_LIMIT, COORD_LIMIT),
        y: clamp_i64(p.y + dy, -COORD_LIMIT, COORD_LIMIT),
    }
}

/// Whether a moving volume intersects a stationary rectangle and, if so,
/// which side of the rectangle was struck, chosen by projecting the
/// volume's center onto the rectangle and classifying the offset.
pub fn collide_volume(volume: &Volume, other: &Rect) -> (r: Option<Collision>)
    requires
        volume.wf(),
        other.wf(),
    ensures
        r == collide_spec(*volume, *other),
{
    let center = match volume {
        Volume::Circle { center, radius: _ } => *center,
        Volume::Rect { rect } => rect.center,
    };

    let hits = match volume {
        Volume::Circle { center, radius } => {
            let cx = clamp_i64(center.x, other.center.x - other.size.x / 2, other.center.x + other.size.x / 2);
            let cy = clamp_i64(center.y, other.center.y - other.size.y / 2, other.center.y + other.size.y / 2);
            let ox = center.x - cx;
            let oy = center.y - cy;
            proof {
                assert(-2_002_000_000 <= ox as int <= 2_002_000_000);
                assert(-2_002_000_000 <= oy as int <= 2_002_000_000);
                lemma_square_bound(ox as int, 2_002_000_000);
                lemma_square_bound(oy as int, 2_002_000_000);
                lemma_square_bound(*radius as int, SIZE_LIMIT as int);
                assert(ox * ox <= 2_002_000_000 * 2_002_000_000int);
                assert(oy * oy <= 2_002_000_000 * 2_002_000_000int);
            }
            ox * ox + oy * oy <= *radius * *radius
        },
        Volume::Rect { rect } => {
            let a = rect;
            a.center.x - a.size.x / 2 <= other.center.x + other.size.x / 2
                && other.center.x - other.size.x / 2 <= a.center.x + a.size.x / 2
                && a.center.y - a.size.y / 2 <= other.center.y + other.size.y / 2
                && other.center.y - other.size.y / 2 <= a.center.y + a.size.y / 2
        },
    };

    if !hits {
        return None;
    }

    let cx = clamp_i64(center.x, other.center.x - other.size.x / 2, other.center.x + other.size.x / 2);
    let cy = clamp_i64(center.y, other.center.y - other.size.y / 2, other.center.y + other.size.y / 2);
    let ox = center.x - cx;
    let oy = center.y - cy;
    let ax = if ox < 0 { -ox } else { ox };
    let ay = if oy < 0 { -oy } else { oy };

    let side = if ax > ay {
        if ox < 0 {
            Collision::Left
        } else {
            Collision::Right
        }
    } else if oy > 0 {
        Collision::Top
    } else {
        Collision::Bottom
    };

    Some(side)
}

} // verus!
