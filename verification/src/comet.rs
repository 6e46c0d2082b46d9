//! Comets: drifting polygonal obstacles in three size tiers. Each tier fixes
//! the speed multiplier, the rotation-speed range, the radius and the side
//! count. A comet wraps at the screen edges with a margin of twice its
//! radius; when destroyed, the controller replaces it with two comets of the
//! next smaller tier (none for the smallest).

use vstd::prelude::*;
use crate::num::SCALE;
use crate::num::sat;
use crate::projectile::SCREEN_LIM;
use crate::rng::rand_range;
use crate::shape::Shape;
use crate::shape::shape_wf;
use crate::shape::spec_contains;
use crate::vec2::Vec2i;
use crate::vec2::in_lim;
use crate::vec2::lemma_norm_to_bound;
use crate::vec2::lemma_norm_to_sign;
use crate::vec2::len_sq;
use crate::vec2::spec_vadd;
use crate::vec2::spec_vscale;

verus! {

/// Size tiers, smallest first.
#[derive(Clone, Copy, Debug, PartialEq, Eq, PartialOrd, Ord, Structural)]
pub enum Size {
    One,
    Two,
    Three,
}

/// Speed multiplier of a tier, in screen units per tick.
pub open spec fn tier_speed(s: Size) -> int {
    match s {
        Size::Three => 2,
        Size::Two => 3,
        Size::One => 5,
    }
}

/// Radius of a tier, in milli-units.
pub open spec fn tier_radius(s: Size) -> int {
    match s {
        Size::Three => 50_000,
        Size::Two => 40_000,
        Size::One => 30_000,
    }
}

/// Polygon side count of a tier.
pub open spec fn tier_sides(s: Size) -> int {
    match s {
        Size::Three => 7,
        Size::Two => 5,
        Size::One => 3,
    }
}

/// Lower bound (inclusive) of a tier's rotation-speed range, in
/// milli-radians per tick.
pub open spec fn tier_rot_lo(s: Size) -> int {
    match s {
        Size::Three => -50,
        Size::Two => -100,
        Size::One => -200,
    }
}

/// Upper bound (exclusive) of a tier's rotation-speed range, in
/// milli-radians per tick.
pub open spec fn tier_rot_hi(s: Size) -> int {
    match s {
        Size::Three => 54,
        Size::Two => 132,
        Size::One => 232,
    }
}

/// The tier that a destroyed comet splits into, if any.
pub open spec fn split_tier(s: Size) -> Option<Size> {
    match s {
        Size::Three => Some(Size::Two),
        Size::Two => Some(Size::One),
        Size::One => None,
    }
}

/// A drifting polygonal obstacle.
#[derive(Clone, Copy, Debug, PartialEq, Eq, Structural)]
pub struct Comet {
    pub size: Size,
    pub vel: Vec2i,
    pub rot_speed: i64,
    pub shape: Shape,
    pub alive: bool,
}

/// Validity: a well-formed shape, in-range velocity, and a rotation speed of
/// at most one milli-radian-per-milli-tick unit in magnitude.
pub open spec fn comet_wf(c: Comet) -> bool {
    &&& shape_wf(c.shape)
    &&& in_lim(c.vel)
    &&& -(SCALE as int) <= c.rot_speed as int <= SCALE as int
}

/// The shape's fields agree with the comet's tier and the comet is alive, as
/// `spawn` guarantees.
pub open spec fn comet_matches_tier(c: Comet) -> bool {
    &&& c.alive
    &&& c.shape.radius as int == tier_radius(c.size)
    &&& c.shape.sides as int == tier_sides(c.size)
    &&& tier_rot_lo(c.size) <= c.rot_speed as int
    &&& (c.rot_speed as int) < tier_rot_hi(c.size)
}

/// Toroidal wrap with margin `m`, one axis per tick, in the fixed
/// first-match order x-low, x-high, y-low, y-high (the same deliberate
/// order the player uses).
pub open spec fn spec_wrap_comet(pos: Vec2i, w: int, h: int, m: int) -> Vec2i {
    if pos.x as int <= -m {
        Vec2i { x: (w + m) as i64, y: pos.y }
    } else if pos.x as int >= w + m {
        Vec2i { x: (-m) as i64, y: pos.y }
    } else if pos.y as int <= -m {
        Vec2i { x: pos.x, y: (h + m) as i64 }
    } else if pos.y as int >= h + m {
        Vec2i { x: pos.x, y: (-m) as i64 }
    } else {
        pos
    }
}

/// One physics tick: drift by the velocity, advance the rotation, then wrap
/// with a margin of twice the radius.
pub open spec fn spec_comet_step(c: Comet, w: int, h: int) -> Comet {
    let m = 2 * c.shape.radius as int;
    let pos1 = spec_vadd(c.shape.pos, c.vel);
    Comet {
        shape: Shape {
            pos: spec_wrap_comet(pos1, w, h, m),
            rotation: sat(c.shape.rotation + c.rot_speed) as i64,
            ..c.shape
        },
        ..c
    }
}

/// The exact comet that `spawn_from` builds: tier-true shape at `pos`, the
/// unit velocity scaled by the tier's speed, no initial rotation.
pub open spec fn spec_spawned_from(size: Size, pos: Vec2i, unit_vel: Vec2i, rot_speed: i64) -> Comet {
    Comet {
        size,
        vel: spec_vscale(unit_vel, tier_speed(size), 1),
        rot_speed,
        shape: Shape {
            pos,
            rotation: 0i64,
            sides: tier_sides(size) as u32,
            radius: tier_radius(size) as i64,
            line_thickness: (2 * SCALE) as i64,
        },
        alive: true,
    }
}

/// Scaling a component by a positive integer factor (the tier speed, with
/// unit denominator) keeps its sign, through truncation and saturation.
proof fn lemma_scaled_sign(x: int, s: int)
    requires
        1 <= s,
    ensures
        x >= 0 ==> sat(crate::num::tdiv(x * s, 1)) >= 0,
        x <= 0 ==> sat(crate::num::tdiv(x * s, 1)) <= 0,
{
    if x >= 0 {
        assert(x * s >= 0) by (nonlinear_arith)
            requires x >= 0, s >= 1;
        assert((x * s) / 1 >= 0) by {
            vstd::arithmetic::div_mod::lemma_div_pos_is_pos(x * s, 1);
        }
    } else {
        assert(x * s <= 0 && -(x * s) == (-x) * s) by (nonlinear_arith)
            requires x <= 0, s >= 1;
        assert(((-x) * s) / 1 >= 0) by {
            vstd::arithmetic::div_mod::lemma_div_pos_is_pos((-x) * s, 1);
        }
        if x * s == 0 {
            assert(crate::num::tdiv(x * s, 1) == 0) by {
                vstd::arithmetic::div_mod::lemma_div_of0(1);
            }
        }
    }
}

impl Comet {
    /// Builds a comet by hand: `size` gives both the polygon side count and
    /// the radius (ten units per step of `size`), `speed` (milli-units)
    /// scales a random inward-biased drift from a random screen edge, and
    /// the rotation speed is drawn from the medium tier's range. The shape
    /// need not agree with the tier table — `spawn` is the tier-true
    /// constructor the controller uses.
    pub fn new(size: u32, speed: i64, w: i64, h: i64) -> (r: Comet)
        requires
            3 <= size <= 10,
            0 <= speed <= 1_000_000,
            0 < w <= SCREEN_LIM,
            0 < h <= SCREEN_LIM,
        ensures
            r.size == Size::Three,
            r.alive,
            r.shape.sides == size,
            r.shape.radius as int == size * 10 * SCALE,
            r.shape.rotation == 0,
            -100 <= r.rot_speed < 132,
            len_sq(r.vel) <= (speed as int) * (speed as int),
            comet_wf(r),
    {
        let (start_pos, start_vel) = Comet::get_random_start_pos_and_vel(w, h);
        let rot_speed = rand_range(-100, 132);
        let vel = start_vel.scale(speed, SCALE);
        proof {
            crate::vec2::lemma_vscale_bound(start_vel, speed as int, SCALE as int);
        }
        Comet {
            size: Size::Three,
            vel,
            rot_speed,
            shape: Shape::new(start_pos, size, (size as i64) * 10 * SCALE, 2 * SCALE),
            alive: true,
        }
    }

    /// Deterministic core of spawning: builds a live comet of `size` at
    /// `pos` whose velocity is `unit_vel` (expected unit-or-zero) scaled by
    /// the tier's speed, with the given rotation speed. All randomized
    /// spawning funnels through here, and tests can call it directly to
    /// reproduce exact trajectories.
    pub fn spawn_from(size: Size, pos: Vec2i, unit_vel: Vec2i, rot_speed: i64) -> (r: Comet)
        requires
            in_lim(pos),
            len_sq(unit_vel) <= (SCALE as int) * (SCALE as int),
            -SCALE <= rot_speed <= SCALE,
        ensures
            r == spec_spawned_from(size, pos, unit_vel, rot_speed),
            len_sq(r.vel) <= tier_speed(size) * tier_speed(size) * (SCALE as int) * (SCALE as int),
            unit_vel.x >= 0 ==> r.vel.x >= 0,
            unit_vel.x <= 0 ==> r.vel.x <= 0,
            unit_vel.y >= 0 ==> r.vel.y >= 0,
            unit_vel.y <= 0 ==> r.vel.y <= 0,
            comet_wf(r),
    {
        let (speed, radius, sides): (i64, i64, u32) = match size {
            Size::Three => (2, 50_000, 7u32),
            Size::Two => (3, 40_000, 5u32),
            Size::One => (5, 30_000, 3u32),
        };
        let vel = unit_vel.scale(speed, 1);
        proof {
            crate::player::lemma_abs_bound_from_len_sq(unit_vel, SCALE as int);
            assert(len_sq(vel) <= speed * speed * (SCALE as int) * (SCALE as int)
                && -(crate::num::LIM as int) <= (unit_vel.x as int) * (speed as int) <= crate::num::LIM as int
                && -(crate::num::LIM as int) <= (unit_vel.y as int) * (speed as int) <= crate::num::LIM as int)
                by (nonlinear_arith)
                requires
                    1 <= speed as int <= 5,
                    -(SCALE as int) <= unit_vel.x as int <= SCALE as int,
                    -(SCALE as int) <= unit_vel.y as int <= SCALE as int,
                    len_sq(unit_vel) <= (SCALE as int) * (SCALE as int),
                    vel.x as int == sat((unit_vel.x as int) * (speed as int)),
                    vel.y as int == sat((unit_vel.y as int) * (speed as int)),
                    SCALE as int == 1000,
                    crate::num::LIM as int == 1_000_000_000_000_000;
            lemma_scaled_sign(unit_vel.x as int, speed as int);
            lemma_scaled_sign(unit_vel.y as int, speed as int);
        }
        Comet {
            size,
            vel,
            rot_speed,
            shape: Shape::new(pos, sides, radius, 2 * SCALE),
            alive: true,
        }
    }

    /// Spawns a comet of `size`: at `pos` if one is given, otherwise at a
    /// random point of a random screen edge; the drift direction is a random
    /// unit vector biased inward from that edge, scaled by the tier's speed,
    /// and the rotation speed is drawn from the tier's range.
    pub fn spawn(size: Size, pos: Option<Vec2i>, w: i64, h: i64) -> (r: Comet)
        requires
            0 < w <= SCREEN_LIM,
            0 < h <= SCREEN_LIM,
            pos matches Some(p) ==> in_lim(p),
        ensures
            r.size == size,
            r.alive,
            r.shape.radius as int == tier_radius(size),
            r.shape.sides as int == tier_sides(size),
            r.shape.rotation == 0,
            tier_rot_lo(size) <= r.rot_speed as int,
            (r.rot_speed as int) < tier_rot_hi(size),
            comet_matches_tier(r),
            pos matches Some(p) ==> r.shape.pos == p,
            pos is None ==> 0 <= r.shape.pos.x <= w && 0 <= r.shape.pos.y <= h
                && (r.shape.pos.x == 0 || r.shape.pos.x == w || r.shape.pos.y == 0
                    || r.shape.pos.y == h),
            pos is None ==> ((r.shape.pos.x == 0 && r.vel.x >= 0) || (r.shape.pos.y == 0
                && r.vel.y >= 0) || (r.shape.pos.x == w && r.vel.x <= 0) || (r.shape.pos.y == h
                && r.vel.y <= 0)),
            len_sq(r.vel) <= tier_speed(size) * tier_speed(size) * (SCALE as int) * (SCALE as int),
            comet_wf(r),
    {
        let (default_pos, unit_vel) = Comet::get_random_start_pos_and_vel(w, h);
        let start_pos = match pos {
            Some(p) => p,
            None => default_pos,
        };
        let (lo, hi): (i64, i64) = match size {
            Size::Three => (-50, 54),
            Size::Two => (-100, 132),
            Size::One => (-200, 232),
        };
        let rot_speed = rand_range(lo, hi);
        Comet::spawn_from(size, start_pos, unit_vel, rot_speed)
    }

    /// Marks the comet dead; it is purged at the end of the tick.
    pub fn destroy(&mut self)
        ensures
            *final(self) == (Comet { alive: false, ..*old(self) }),
    {
        self.alive = false;
    }

    /// Whether the comet is still live.
    pub fn is_alive(&self) -> (r: bool)
        ensures
            r == self.alive,
    {
        self.alive
    }

    /// The comet's size tier.
    pub fn get_size(&self) -> (r: Size)
        ensures
            r == self.size,
    {
        self.size
    }

    /// Current position.
    pub fn get_pos(&self) -> (r: Vec2i)
        ensures
            r == self.shape.pos,
    {
        self.shape.get_pos()
    }

    /// The embedded shape.
    pub fn get_shape(&self) -> (r: &Shape)
        ensures
            r == self.shape,
    {
        &self.shape
    }

    /// A random unit-or-zero drift direction.
    pub fn get_random_vel() -> (r: Vec2i)
        ensures
            len_sq(r) <= (SCALE as int) * (SCALE as int),
            in_lim(r),
    {
        let raw = Vec2i { x: rand_range(-SCALE, SCALE), y: rand_range(-SCALE, SCALE) };
        proof {
            lemma_norm_to_bound(raw, SCALE as int);
        }
        raw.norm_to(SCALE)
    }

    /// A random point on a random screen edge, with a unit-or-zero drift
    /// direction biased to point inward from that edge.
    pub fn get_random_start_pos_and_vel(w: i64, h: i64) -> (r: (Vec2i, Vec2i))
        requires
            0 < w <= SCREEN_LIM,
            0 < h <= SCREEN_LIM,
        ensures
            0 <= r.0.x <= w,
            0 <= r.0.y <= h,
            r.0.x == 0 || r.0.x == w || r.0.y == 0 || r.0.y == h,
            in_lim(r.0),
            len_sq(r.1) <= (SCALE as int) * (SCALE as int),
            in_lim(r.1),
            (r.0.x == 0 && r.1.x >= 0) || (r.0.y == 0 && r.1.y >= 0) || (r.0.x == w && r.1.x
                <= 0) || (r.0.y == h && r.1.y <= 0),
    {
        let edge = rand_range(0, 4);
        let (pos, raw): (Vec2i, Vec2i) = if edge == 0 {
            (
                Vec2i { x: 0, y: rand_range(0, h) },
                Vec2i { x: rand_range(0, SCALE), y: rand_range(-SCALE, SCALE) },
            )
        } else if edge == 1 {
            (
                Vec2i { x: rand_range(0, w), y: 0 },
                Vec2i { x: rand_range(-SCALE, SCALE), y: rand_range(0, SCALE) },
            )
        } else if edge == 2 {
            (
                Vec2i { x: w, y: rand_range(0, h) },
                Vec2i { x: rand_range(-SCALE, 0), y: rand_range(-SCALE, SCALE) },
            )
        } else {
            (
                Vec2i { x: rand_range(0, w), y: h },
                Vec2i { x: rand_range(-SCALE, SCALE), y: rand_range(-SCALE, 0) },
            )
        };
        proof {
            assert((pos.x == 0 && raw.x >= 0) || (pos.y == 0 && raw.y >= 0) || (pos.x == w
                && raw.x <= 0) || (pos.y == h && raw.y <= 0));
            lemma_norm_to_bound(raw, SCALE as int);
            lemma_norm_to_sign(raw, SCALE as int);
        }
        (pos, raw.norm_to(SCALE))
    }

    /// One physics tick: drift, spin, wrap with a two-radius margin.
    pub fn update(&mut self, w: i64, h: i64)
        requires
            comet_wf(*old(self)),
            0 < w <= SCREEN_LIM,
            0 < h <= SCREEN_LIM,
        ensures
            *final(self) == spec_comet_step(*old(self), w as int, h as int),
            comet_wf(*final(self)),
    {
        self.shape.add_pos(self.vel);
        self.shape.add_rot(self.rot_speed);

        let puffer: i64 = self.shape.get_rad() * 2;
        let pos = self.shape.get_pos();
        let wrapped: Vec2i = if pos.x <= 0 - puffer {
            Vec2i { x: w + puffer, y: pos.y }
        } else if pos.x >= w + puffer {
            Vec2i { x: 0 - puffer, y: pos.y }
        } else if pos.y <= 0 - puffer {
            Vec2i { x: pos.x, y: h + puffer }
        } else if pos.y >= h + puffer {
            Vec2i { x: pos.x, y: 0 - puffer }
        } else {
            pos
        };
        self.shape.set_pos(wrapped);
    }

    /// Hit test for projectile tips: delegates to the embedded shape's
    /// circle-approximation containment, whatever the tier's side count.
    pub fn contains(&self, point: Vec2i) -> (r: bool)
        requires
            comet_wf(*self),
            in_lim(point),
        ensures
            r == spec_contains(self.shape, point),
    {
        self.shape.contains(point)
    }
}

} // verus!
