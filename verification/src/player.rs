//! The player's ship: position, velocity, a unit heading, and a fixed
//! circular hit-box. Per tick it drifts by its velocity, sheds a constant
//! drag step, and wraps around the screen one axis at a time.

use vstd::prelude::*;
use crate::num::SCALE;
use crate::num::tdiv;
use crate::num::tdiv_i64;
use crate::projectile::SCREEN_LIM;
use crate::shape::Shape;
use crate::vec2::Vec2i;
use crate::vec2::dist_sq;
use crate::vec2::dist_sq_exec;
use crate::vec2::in_lim;
use crate::vec2::lemma_len_sq_bounds;
use crate::vec2::lemma_norm_to_bound;
use crate::vec2::len_sq;
use crate::vec2::spec_norm_to;
use crate::vec2::spec_vadd;
use crate::vec2::spec_vscale;
use crate::vec2::spec_vsub;

verus! {

/// Radius of the circular hit-box, in milli-units (10 screen units).
pub const HIT_BOX_RADIUS: i64 = 10_000;

/// Velocity magnitude that `accelerate` clamps to (10 units per tick).
pub const MAX_SPEED: i64 = 10_000;

/// Drag shed per tick while moving (0.2 units per tick).
pub const DRAG_STEP: i64 = 200;

/// The player's ship.
#[derive(Clone, Copy, Debug, PartialEq, Eq, Structural)]
pub struct Player {
    pub pos: Vec2i,
    pub vel: Vec2i,
    pub dir: Vec2i,
    pub hit_box_radius: i64,
}

/// Validity: in-range position and velocity, unit-or-zero heading, and the
/// fixed hit-box radius.
pub open spec fn player_wf(p: Player) -> bool {
    &&& in_lim(p.pos)
    &&& in_lim(p.vel)
    &&& len_sq(p.dir) <= (SCALE as int) * (SCALE as int)
    &&& p.hit_box_radius == HIT_BOX_RADIUS
}

/// Toroidal wrap, one axis per tick, in the fixed first-match order
/// x-low, x-high, y-low, y-high. A corner crossing therefore corrects only
/// the x axis that tick; the y correction waits for a later tick, a
/// deliberate quirk of the game.
pub open spec fn spec_wrap_player(pos: Vec2i, w: int, h: int) -> Vec2i {
    if pos.x as int <= 0 {
        Vec2i { x: w as i64, y: pos.y }
    } else if pos.x as int >= w {
        Vec2i { x: 0i64, y: pos.y }
    } else if pos.y as int <= 0 {
        Vec2i { x: pos.x, y: h as i64 }
    } else if pos.y as int >= h {
        Vec2i { x: pos.x, y: 0i64 }
    } else {
        pos
    }
}

/// Near-linear drag: while the speed exceeds the drag step, a full step is
/// shed along the velocity's own direction; below that the velocity zeroes.
pub open spec fn spec_drag(vel: Vec2i) -> Vec2i {
    if len_sq(vel) > (DRAG_STEP as int) * (DRAG_STEP as int) {
        spec_vsub(vel, spec_norm_to(vel, DRAG_STEP as int))
    } else {
        Vec2i { x: 0i64, y: 0i64 }
    }
}

/// One physics tick: move by the old velocity, apply drag, then wrap.
pub open spec fn spec_player_step(p: Player, w: int, h: int) -> Player {
    Player {
        pos: spec_wrap_player(spec_vadd(p.pos, p.vel), w, h),
        vel: spec_drag(p.vel),
        ..p
    }
}

/// The heading turned by the rotation matrix with entries `c = cos` and
/// `s = sin` (in milli-units), then rescaled back to unit length.
pub open spec fn spec_rotated(dir: Vec2i, c: int, s: int) -> Vec2i {
    spec_norm_to(
        Vec2i {
            x: tdiv(c * dir.x - s * dir.y, SCALE as int) as i64,
            y: tdiv(s * dir.x + c * dir.y, SCALE as int) as i64,
        },
        SCALE as int,
    )
}

/// Thrust: the heading scaled by `factor` is added to the velocity, and the
/// result is clamped to `MAX_SPEED` if it exceeds it.
pub open spec fn spec_accelerated(p: Player, factor: int) -> Vec2i {
    let v1 = spec_vadd(p.vel, spec_vscale(p.dir, factor, SCALE as int));
    if len_sq(v1) > (MAX_SPEED as int) * (MAX_SPEED as int) {
        spec_norm_to(v1, MAX_SPEED as int)
    } else {
        v1
    }
}

/// Knockback: `direction` rescaled to magnitude `power` is added to the
/// velocity, with no clamp — unlike thrust, an impulse may push the speed
/// past `MAX_SPEED`.
pub open spec fn spec_impulsed(p: Player, direction: Vec2i, power: int) -> Vec2i {
    spec_vadd(p.vel, spec_norm_to(direction, power))
}

/// The ship that a new game starts with: centred on the screen, at rest,
/// heading straight up.
pub open spec fn spec_fresh_player(w: int, h: int) -> Player {
    Player {
        pos: Vec2i { x: (w / 2) as i64, y: (h / 2) as i64 },
        vel: Vec2i { x: 0i64, y: 0i64 },
        dir: Vec2i { x: 0i64, y: (-SCALE) as i64 },
        hit_box_radius: HIT_BOX_RADIUS,
    }
}

/// The corners of the drawn ship triangle: the base sits ten units behind
/// the centre, spanning ten units to each side across the heading's
/// perpendicular, and the apex lies twenty units ahead.
pub open spec fn spec_triangle(p: Player) -> (Vec2i, Vec2i, Vec2i) {
    let back = spec_vsub(p.pos, spec_vscale(p.dir, 10, 1));
    let perp = Vec2i { x: (-(p.dir.y as int)) as i64, y: p.dir.x };
    (
        spec_vsub(back, spec_vscale(perp, 10, 1)),
        spec_vadd(back, spec_vscale(perp, 10, 1)),
        spec_vadd(p.pos, spec_vscale(p.dir, 20, 1)),
    )
}

/// The player's circle and the shape's circle touch or overlap.
pub open spec fn spec_overlaps(p: Player, s: Shape) -> bool {
    dist_sq(s.pos, p.pos) <= (s.radius + HIT_BOX_RADIUS as int) * (s.radius + HIT_BOX_RADIUS as int)
}

impl Player {
    /// A fresh ship: centred on the screen, at rest, heading straight up.
    pub fn new(w: i64, h: i64) -> (r: Player)
        requires
            0 < w <= SCREEN_LIM,
            0 < h <= SCREEN_LIM,
        ensures
            r == spec_fresh_player(w as int, h as int),
            player_wf(r),
    {
        let r = Player {
            pos: Vec2i { x: ((w as u64) / 2) as i64, y: ((h as u64) / 2) as i64 },
            vel: Vec2i { x: 0, y: 0 },
            dir: Vec2i { x: 0, y: -SCALE },
            hit_box_radius: HIT_BOX_RADIUS,
        };
        proof {
            assert(len_sq(r.dir) <= (SCALE as int) * (SCALE as int)) by (nonlinear_arith)
                requires
                    r.dir.x as int == 0,
                    r.dir.y as int == -1000,
                    SCALE as int == 1000;
        }
        r
    }

    /// Current heading.
    pub fn get_dir(&self) -> (r: Vec2i)
        ensures
            r == self.dir,
    {
        self.dir
    }

    /// Current position.
    pub fn get_pos(&self) -> (r: Vec2i)
        ensures
            r == self.pos,
    {
        self.pos
    }

    /// One physics tick: drift, drag, wrap.
    pub fn update(&mut self, w: i64, h: i64)
        requires
            player_wf(*old(self)),
            0 < w <= SCREEN_LIM,
            0 < h <= SCREEN_LIM,
        ensures
            *final(self) == spec_player_step(*old(self), w as int, h as int),
            player_wf(*final(self)),
    {
        self.pos = self.pos.add_sat(self.vel);
        proof {
            lemma_len_sq_bounds(self.vel);
            lemma_norm_to_bound(self.vel, DRAG_STEP as int);
        }
        let speed_sq: i128 = self.vel.len_sq();
        if speed_sq > DRAG_STEP as i128 * DRAG_STEP as i128 {
            self.vel = self.vel.sub_sat(self.vel.norm_to(DRAG_STEP));
        } else {
            self.vel = Vec2i { x: 0, y: 0 };
        }
        if self.pos.x <= 0 {
            self.pos = Vec2i { x: w, y: self.pos.y };
        } else if self.pos.x >= w {
            self.pos = Vec2i { x: 0, y: self.pos.y };
        } else if self.pos.y <= 0 {
            self.pos = Vec2i { x: self.pos.x, y: h };
        } else if self.pos.y >= h {
            self.pos = Vec2i { x: self.pos.x, y: 0 };
        }
    }

    /// Turns the heading by the rotation matrix whose cosine and sine are
    /// given in milli-units, renormalizing afterwards (a zero heading stays
    /// zero).
    pub fn rotate(&mut self, cos_m: i64, sin_m: i64)
        requires
            player_wf(*old(self)),
            -2 * SCALE <= cos_m <= 2 * SCALE,
            -2 * SCALE <= sin_m <= 2 * SCALE,
        ensures
            *final(self) == (Player {
                dir: spec_rotated(old(self).dir, cos_m as int, sin_m as int),
                ..*old(self)
            }),
            player_wf(*final(self)),
    {
        proof {
            lemma_abs_bound_from_len_sq(self.dir, SCALE as int);
            assert(-4_000_000 <= (cos_m as int) * (self.dir.x as int) <= 4_000_000
                && -4_000_000 <= (sin_m as int) * (self.dir.y as int) <= 4_000_000
                && -4_000_000 <= (sin_m as int) * (self.dir.x as int) <= 4_000_000
                && -4_000_000 <= (cos_m as int) * (self.dir.y as int) <= 4_000_000)
                by (nonlinear_arith)
                requires
                    -2000 <= cos_m as int <= 2000,
                    -2000 <= sin_m as int <= 2000,
                    -(SCALE as int) <= self.dir.x as int <= SCALE as int,
                    -(SCALE as int) <= self.dir.y as int <= SCALE as int;
        }
        let tx: i64 = cos_m * self.dir.x - sin_m * self.dir.y;
        let ty: i64 = sin_m * self.dir.x + cos_m * self.dir.y;
        let nd = Vec2i { x: tdiv_i64(tx, SCALE), y: tdiv_i64(ty, SCALE) };
        proof {
            lemma_norm_to_bound(nd, SCALE as int);
        }
        self.dir = nd.norm_to(SCALE);
    }

    /// Thrust along the heading; the resulting speed is clamped to
    /// `MAX_SPEED`, so it never exceeds 10 units per tick after this call,
    /// however often it is repeated.
    pub fn accelerate(&mut self, factor: i64)
        requires
            player_wf(*old(self)),
            -1_000_000 <= factor <= 1_000_000,
        ensures
            *final(self) == (Player {
                vel: spec_accelerated(*old(self), factor as int),
                ..*old(self)
            }),
            len_sq(final(self).vel) <= (MAX_SPEED as int) * (MAX_SPEED as int),
            player_wf(*final(self)),
    {
        let v1 = self.vel.add_sat(self.dir.scale(factor, SCALE));
        proof {
            lemma_len_sq_bounds(v1);
            lemma_norm_to_bound(v1, MAX_SPEED as int);
        }
        let sq: i128 = v1.len_sq();
        if sq > MAX_SPEED as i128 * MAX_SPEED as i128 {
            self.vel = v1.norm_to(MAX_SPEED);
        } else {
            self.vel = v1;
        }
    }

    /// True iff `point` lies within the hit-box radius of the ship's centre.
    pub fn contains(&self, point: Vec2i) -> (r: bool)
        requires
            player_wf(*self),
            in_lim(point),
        ensures
            r == (dist_sq(point, self.pos) <= (HIT_BOX_RADIUS as int) * (HIT_BOX_RADIUS as int)),
    {
        let d: i128 = dist_sq_exec(point, self.pos);
        if d > HIT_BOX_RADIUS as i128 * HIT_BOX_RADIUS as i128 {
            return false;
        }
        true
    }

    /// Circle-against-circle collision test between the ship's hit-box and
    /// the shape's radius.
    pub fn overlaps_shape(&self, shape: &Shape) -> (r: bool)
        requires
            player_wf(*self),
            crate::shape::shape_wf(*shape),
        ensures
            r == spec_overlaps(*self, *shape),
    {
        let collision_distance: i64 = shape.get_rad() + self.hit_box_radius;
        proof {
            assert(0 <= (collision_distance as int) * (collision_distance as int)
                <= 200_000 * 200_000) by (nonlinear_arith)
                requires 0 < collision_distance as int <= 200_000;
        }
        let d: i128 = dist_sq_exec(shape.get_pos(), self.pos);
        if d > collision_distance as i128 * collision_distance as i128 {
            return false;
        }
        true
    }

    /// The three corners of the ship's outline for a renderer to draw. The
    /// triangle is visual only: collisions use the circular hit-box, a
    /// mismatch the game keeps on purpose. The heading's perpendicular is
    /// used as-is, since a quarter turn preserves its unit length exactly.
    pub fn triangle_points(&self) -> (r: (Vec2i, Vec2i, Vec2i))
        requires
            player_wf(*self),
        ensures
            r == spec_triangle(*self),
    {
        proof {
            lemma_abs_bound_from_len_sq(self.dir, SCALE as int);
        }
        let back = self.pos.sub_sat(self.dir.scale(10, 1));
        let perp = self.dir.perp();
        let a = back.sub_sat(perp.scale(10, 1));
        let b = back.add_sat(perp.scale(10, 1));
        let apex = self.pos.add_sat(self.dir.scale(20, 1));
        (a, b, apex)
    }

    /// Knockback from a collision: `direction` rescaled to magnitude `power`
    /// is added to the velocity, unclamped. A zero direction imparts nothing.
    pub fn give_impulse(&mut self, direction: Vec2i, power: i64)
        requires
            player_wf(*old(self)),
            in_lim(direction),
            0 <= power <= 1_000_000,
        ensures
            *final(self) == (Player {
                vel: spec_impulsed(*old(self), direction, power as int),
                ..*old(self)
            }),
            player_wf(*final(self)),
    {
        self.vel = self.vel.add_sat(direction.norm_to(power));
    }
}

/// A squared-length bound forces a componentwise bound.
pub proof fn lemma_abs_bound_from_len_sq(v: Vec2i, b: int)
    requires
        len_sq(v) <= b * b,
        b >= 0,
    ensures
        -b <= v.x as int <= b,
        -b <= v.y as int <= b,
{
    assert(-b <= v.x as int <= b && -b <= v.y as int <= b) by (nonlinear_arith)
        requires
            (v.x as int) * (v.x as int) + (v.y as int) * (v.y as int) <= b * b,
            b >= 0;
}

} // verus!
