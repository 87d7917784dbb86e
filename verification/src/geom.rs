//! Geometry utilities: integer world coordinates, squared Euclidean
//! distance, and the clamp-based circle-vs-box displacement test that
//! resolves wall penetration.
//!
//! All positions are integer units. Proximity tests compare squared
//! distances, which is exact for integer coordinates and avoids square
//! roots.

use crate::{clamp_i64, in_coord_range, spec_clamp, COORD_LIMIT};
use vstd::prelude::*;

verus! {

/// A point or translation in 3D space (x: east/west, y: up/down, z: north/south).
#[derive(Clone, Copy, PartialEq, Eq, Structural, Debug)]
pub struct Vec3 {
    pub x: i64,
    pub y: i64,
    pub z: i64,
}

/// A point or extent in the horizontal plane (x and z world axes).
#[derive(Clone, Copy, PartialEq, Eq, Structural, Debug)]
pub struct Vec2 {
    pub x: i64,
    pub z: i64,
}

impl Vec3 {
    /// All three components lie within the supported coordinate range.
    pub open spec fn in_range(self) -> bool {
        in_coord_range(self.x as int) && in_coord_range(self.y as int) && in_coord_range(
            self.z as int,
        )
    }
}

impl Vec2 {
    /// Both components lie within the supported coordinate range.
    pub open spec fn in_range(self) -> bool {
        in_coord_range(self.x as int) && in_coord_range(self.z as int)
    }
}

/// Squared Euclidean distance between two 3D points.
pub open spec fn spec_dist_sq3(a: Vec3, b: Vec3) -> int {
    (a.x - b.x) * (a.x - b.x) + (a.y - b.y) * (a.y - b.y) + (a.z - b.z) * (a.z - b.z)
}

/// The square of a value bounded by `b` is bounded by `b * b`.
proof fn lemma_square_bound(a: int, b: int)
    requires
        -b <= a <= b,
        0 <= b <= 2_000_000_000,
    ensures
        0 <= a * a <= b * b,
        b * b <= 4_000_000_000_000_000_000,
{
    assert(0 <= a * a <= b * b && b * b <= 4_000_000_000_000_000_000) by (nonlinear_arith)
        requires
            -b <= a <= b,
            0 <= b <= 2_000_000_000,
    ;
}

/// Squared Euclidean distance between two 3D points; exact, so
/// `distance_sq(a, b) < t * t` decides `distance(a, b) < t` for `t > 0`.
pub fn distance_sq(v1: Vec3, v2: Vec3) -> (r: i64)
    requires
        v1.in_range(),
        v2.in_range(),
    ensures
        r == spec_dist_sq3(v1, v2),
        r >= 0,
{
    let dx = v1.x - v2.x;
    let dy = v1.y - v2.y;
    let dz = v1.z - v2.z;
    proof {
        lemma_square_bound(dx as int, 2 * COORD_LIMIT as int);
        lemma_square_bound(dy as int, 2 * COORD_LIMIT as int);
        lemma_square_bound(dz as int, 2 * COORD_LIMIT as int);
    }
    dx * dx + dy * dy + dz * dz
}

/// Angle units in one full turn; yaw angles are kept in `[0, YAW_FULL_TURN)`.
pub const YAW_FULL_TURN: i64 = 360_000;

/// An angle wrapped into `[0, YAW_FULL_TURN)`: the Euclidean remainder of
/// `y` by one full turn.
pub open spec fn spec_wrap_angle(y: int) -> int {
    y % (YAW_FULL_TURN as int)
}

/// A pose: position, yaw rotation about the vertical axis (in angle units),
/// and a uniform scale in hundredths of a unit.
#[derive(Clone, Copy, PartialEq, Eq, Structural, Debug)]
pub struct Pose {
    pub translation: Vec3,
    pub yaw: i64,
    pub scale: i64,
}

impl Pose {
    /// Position in range and yaw wrapped into one turn.
    pub open spec fn wf(self) -> bool {
        self.translation.in_range() && 0 <= self.yaw < YAW_FULL_TURN
    }
}

/// A circle in the horizontal plane: the player's collision shape.
#[derive(Clone, Copy, PartialEq, Eq, Structural, Debug)]
pub struct Circle {
    pub center: Vec2,
    pub radius: i64,
}

impl Circle {
    /// Center in range and a non-negative, in-range radius.
    pub open spec fn wf(self) -> bool {
        self.center.in_range() && 0 <= self.radius <= COORD_LIMIT
    }
}

/// An axis-aligned box in the horizontal plane: a wall's collision shape.
/// `disp_mult` encodes which side of the box the room interior is on: the
/// computed displacement is scaled by it, so `1` pushes toward positive
/// axes and `-1` toward negative axes.
#[derive(Clone, Copy, PartialEq, Eq, Structural, Debug)]
pub struct Aabb2D {
    pub center: Vec2,
    pub half_widths: Vec2,
    pub disp_mult: i64,
}

impl Aabb2D {
    /// Center in range, non-negative in-range half-extents, and a
    /// displacement multiplier of one unit toward either side.
    pub open spec fn wf(self) -> bool {
        &&& self.center.in_range()
        &&& 0 <= self.half_widths.x <= COORD_LIMIT
        &&& 0 <= self.half_widths.z <= COORD_LIMIT
        &&& (self.disp_mult == 1 || self.disp_mult == -1)
    }
}

/// Absolute value.
pub open spec fn spec_abs(v: int) -> int {
    if v < 0 {
        -v
    } else {
        v
    }
}

/// Closest point of the box to `p` along the x axis.
pub open spec fn spec_closest_x(p: Vec2, r: Aabb2D) -> int {
    spec_clamp(p.x as int, r.center.x - r.half_widths.x, r.center.x + r.half_widths.x)
}

/// Closest point of the box to `p` along the z axis.
pub open spec fn spec_closest_z(p: Vec2, r: Aabb2D) -> int {
    spec_clamp(p.z as int, r.center.z - r.half_widths.z, r.center.z + r.half_widths.z)
}

/// Squared distance from the circle center to the closest point of the box.
pub open spec fn spec_closest_dist_sq(c: Circle, r: Aabb2D) -> int {
    let dx = c.center.x - spec_closest_x(c.center, r);
    let dz = c.center.z - spec_closest_z(c.center, r);
    dx * dx + dz * dz
}

/// Penetration depth along the x axis.
pub open spec fn spec_pen_x(c: Circle, r: Aabb2D) -> int {
    r.half_widths.x + c.radius - spec_abs(c.center.x - r.center.x)
}

/// Penetration depth along the z axis.
pub open spec fn spec_pen_z(c: Circle, r: Aabb2D) -> int {
    r.half_widths.z + c.radius - spec_abs(c.center.z - r.center.z)
}

/// Exactly what `displacement` returns: no collision when the closest box
/// point is farther from the circle center than the radius; otherwise a
/// displacement along the box axis of smaller penetration, scaled by the
/// box's displacement multiplier. Near a corner the penetration is resolved
/// along a single axis; that single-axis heuristic is the documented
/// behavior of this routine.
pub open spec fn displacement_post(c: Circle, r: Aabb2D, d: Option<Vec3>) -> bool {
    &&& (d is None <==> spec_closest_dist_sq(c, r) > c.radius * c.radius)
    &&& (d matches Some(v) ==> {
        &&& v.y == 0
        &&& if spec_pen_x(c, r) < spec_pen_z(c, r) {
            v.x == spec_pen_x(c, r) * r.disp_mult && v.z == 0
        } else {
            v.x == 0 && v.z == spec_pen_z(c, r) * r.disp_mult
        }
    })
}

/// Clamp-based circle-vs-box collision test. Returns `None` when the circle
/// does not touch the box; on contact, returns the displacement that pushes
/// the circle out along the axis of smaller penetration, toward the side
/// selected by the box's displacement multiplier.
pub fn displacement(c: &Circle, r: &Aabb2D) -> (d: Option<Vec3>)
    requires
        c.wf(),
        r.wf(),
    ensures
        displacement_post(*c, *r, d),
{
    let lo_x = r.center.x - r.half_widths.x;
    let hi_x = r.center.x + r.half_widths.x;
    let lo_z = r.center.z - r.half_widths.z;
    let hi_z = r.center.z + r.half_widths.z;
    let closest_x = clamp_i64(c.center.x, lo_x, hi_x);
    let closest_z = clamp_i64(c.center.z, lo_z, hi_z);
    let dx = c.center.x - closest_x;
    let dz = c.center.z - closest_z;
    proof {
        lemma_square_bound(dx as int, 2 * COORD_LIMIT as int);
        lemma_square_bound(dz as int, 2 * COORD_LIMIT as int);
        lemma_square_bound(c.radius as int, COORD_LIMIT as int);
    }
    if dx * dx + dz * dz <= c.radius * c.radius {
        let off_x = if c.center.x >= r.center.x {
            c.center.x - r.center.x
        } else {
            r.center.x - c.center.x
        };
        let off_z = if c.center.z >= r.center.z {
            c.center.z - r.center.z
        } else {
            r.center.z - c.center.z
        };
        let x_disp = r.half_widths.x + c.radius - off_x;
        let z_disp = r.half_widths.z + c.radius - off_z;
        proof {
            assert(-2_000_000_000 <= x_disp * r.disp_mult <= 2_000_000_000) by (nonlinear_arith)
                requires
                    -2_000_000_000 <= x_disp <= 2_000_000_000,
                    r.disp_mult == 1 || r.disp_mult == -1,
            ;
            assert(-2_000_000_000 <= z_disp * r.disp_mult <= 2_000_000_000) by (nonlinear_arith)
                requires
                    -2_000_000_000 <= z_disp <= 2_000_000_000,
                    r.disp_mult == 1 || r.disp_mult == -1,
            ;
        }
        if x_disp < z_disp {
            Some(Vec3 { x: x_disp * r.disp_mult, y: 0, z: 0 })
        } else {
            Some(Vec3 { x: 0, y: 0, z: z_disp * r.disp_mult })
        }
    } else {
        None
    }
}

/// Law: the routine reports no collision exactly when the distance from the
/// circle center to the nearest box point exceeds the radius.
pub proof fn lemma_displacement_no_collision(c: Circle, r: Aabb2D, d: Option<Vec3>)
    requires
        displacement_post(c, r, d),
    ensures
        d is None <==> spec_closest_dist_sq(c, r) > c.radius * c.radius,
{
}

/// Law: on strict penetration the routine returns a displacement that is
/// nonzero along exactly one axis, and that axis is the one of minimum
/// penetration. (At exact touching distance the displacement along the
/// chosen axis can be zero, so strict penetration is required.)
pub proof fn lemma_displacement_min_axis(c: Circle, r: Aabb2D, d: Option<Vec3>)
    requires
        c.wf(),
        r.wf(),
        displacement_post(c, r, d),
        spec_closest_dist_sq(c, r) < c.radius * c.radius,
    ensures
        d is Some,
        d matches Some(v) ==> {
            &&& v.y == 0
            &&& (v.x == 0) != (v.z == 0)
            &&& (v.x != 0 ==> spec_pen_x(c, r) < spec_pen_z(c, r) && spec_abs(v.x as int)
                == spec_pen_x(c, r))
            &&& (v.z != 0 ==> spec_pen_z(c, r) <= spec_pen_x(c, r) && spec_abs(v.z as int)
                == spec_pen_z(c, r))
        },
{
    let dx = c.center.x - spec_closest_x(c.center, r);
    let dz = c.center.z - spec_closest_z(c.center, r);
    assert(dx * dx >= 0 && dz * dz >= 0) by (nonlinear_arith);
    assert(dx * dx < c.radius * c.radius && dz * dz < c.radius * c.radius);
    assert(c.radius > 0) by {
        if c.radius == 0 {
            assert(c.radius * c.radius == 0);
        }
    }
    assert(spec_abs(dx) < c.radius && spec_abs(dz) < c.radius) by (nonlinear_arith)
        requires
            dx * dx < c.radius * c.radius,
            dz * dz < c.radius * c.radius,
            c.radius > 0,
    ;
    assert(spec_pen_x(c, r) > 0) by {
        if spec_abs(c.center.x - r.center.x) <= r.half_widths.x {
            assert(spec_pen_x(c, r) >= c.radius);
        } else {
            assert(spec_abs(dx) == spec_abs(c.center.x - r.center.x) - r.half_widths.x);
        }
    }
    assert(spec_pen_z(c, r) > 0) by {
        if spec_abs(c.center.z - r.center.z) <= r.half_widths.z {
            assert(spec_pen_z(c, r) >= c.radius);
        } else {
            assert(spec_abs(dz) == spec_abs(c.center.z - r.center.z) - r.half_widths.z);
        }
    }
}

} // verus!
