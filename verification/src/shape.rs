//! The polygonal outline that a comet embeds: a position, a rotation, a side
//! count and a radius. Containment queries treat the polygon as a circle of
//! its radius, an approximation the whole game shares.

use vstd::prelude::*;
use crate::num::LIM;
use crate::num::sat;
use crate::num::sat_add;
use crate::vec2::Vec2i;
use crate::vec2::dist_sq;
use crate::vec2::dist_sq_exec;
use crate::vec2::in_lim;
use crate::vec2::spec_vadd;

verus! {

/// Largest radius a shape may carry, in milli-units (100 screen units).
pub const RADIUS_LIM: i64 = 100_000;

/// A regular polygon outline.
#[derive(Clone, Copy, Debug, PartialEq, Eq, Structural)]
pub struct Shape {
    pub pos: Vec2i,
    pub rotation: i64,
    pub sides: u32,
    pub radius: i64,
    pub line_thickness: i64,
}

/// Geometric validity: at least a triangle, a positive bounded radius, and
/// in-range position and rotation.
pub open spec fn shape_wf(s: Shape) -> bool {
    &&& s.sides >= 3
    &&& 0 < s.radius as int <= RADIUS_LIM as int
    &&& in_lim(s.pos)
    &&& -(LIM as int) <= s.rotation as int <= LIM as int
}

/// The point lies strictly inside the circle of the shape's radius.
pub open spec fn spec_contains(s: Shape, point: Vec2i) -> bool {
    dist_sq(s.pos, point) < (s.radius as int) * (s.radius as int)
}

impl Shape {
    /// Builds a shape at `pos` with no initial rotation. Degenerate geometry
    /// (fewer than three sides, a non-positive radius) is a contract
    /// violation, not a value.
    pub fn new(pos: Vec2i, sides: u32, radius: i64, line_thickness: i64) -> (r: Shape)
        requires
            sides >= 3,
            0 < radius <= RADIUS_LIM,
            in_lim(pos),
        ensures
            r == (Shape { pos, rotation: 0i64, sides, radius, line_thickness }),
            shape_wf(r),
    {
        Shape { pos, rotation: 0, sides, radius, line_thickness }
    }

    /// Current position.
    pub fn get_pos(&self) -> (r: Vec2i)
        ensures
            r == self.pos,
    {
        self.pos
    }

    /// Moves the shape to `pos`.
    pub fn set_pos(&mut self, pos: Vec2i)
        ensures
            *final(self) == (Shape { pos, ..*old(self) }),
    {
        self.pos = pos;
    }

    /// Current radius.
    pub fn get_rad(&self) -> (r: i64)
        ensures
            r == self.radius,
    {
        self.radius
    }

    /// Translates the shape by `vec`, saturating at the playfield limits.
    pub fn add_pos(&mut self, vec: Vec2i)
        ensures
            *final(self) == (Shape { pos: spec_vadd(old(self).pos, vec), ..*old(self) }),
    {
        self.pos = self.pos.add_sat(vec);
    }

    /// Advances the rotation by `angle` milli-radians, saturating.
    pub fn add_rot(&mut self, angle: i64)
        ensures
            *final(self) == (Shape { rotation: sat(old(self).rotation + angle) as i64, ..*old(self) }),
    {
        self.rotation = sat_add(self.rotation, angle);
    }

    /// True iff `point` is strictly within the shape's radius of its centre.
    /// The test ignores the actual polygon, so it grows less precise as the
    /// side count drops.
    pub fn contains(&self, point: Vec2i) -> (r: bool)
        requires
            shape_wf(*self),
            in_lim(point),
        ensures
            r == spec_contains(*self, point),
    {
        proof {
            assert(0 <= (self.radius as int) * (self.radius as int)
                <= (RADIUS_LIM as int) * (RADIUS_LIM as int)) by (nonlinear_arith)
                requires 0 < self.radius as int <= RADIUS_LIM as int;
        }
        let d: i128 = dist_sq_exec(self.pos, point);
        d < self.radius as i128 * self.radius as i128
    }
}

} // verus!
