//! A projectile: a short segment that flies in a straight line at constant
//! speed until it leaves the screen (with a generous margin) or hits a comet.
//! Hit-testing uses the leading tip of the segment, not its trailing end.

use vstd::prelude::*;
use crate::num::SCALE;
use crate::vec2::Vec2i;
use crate::vec2::in_lim;
use crate::vec2::len_sq;
use crate::vec2::spec_norm_to;
use crate::vec2::spec_vadd;
use crate::vec2::spec_vscale;

verus! {

/// How far beyond the screen bounds a projectile survives, in milli-units
/// (100 screen units).
pub const OFF_SCREEN_MARGIN: i64 = 100_000;

/// Largest speed a projectile may carry, in milli-units per tick.
pub const PROJECTILE_SPEED_LIM: i64 = 1_000_000;

/// Upper bound for screen dimensions handed to the game, in milli-units.
pub const SCREEN_LIM: i64 = 10_000_000;

/// A straight-line projectile.
#[derive(Clone, Copy, Debug, PartialEq, Eq, Structural)]
pub struct Projectile {
    pub pos: Vec2i,
    pub dir: Vec2i,
    pub speed: i64,
    pub length: i64,
    pub alive: bool,
}

/// Validity: in-range position, unit-or-zero direction, bounded speed and
/// segment length.
pub open spec fn projectile_wf(p: Projectile) -> bool {
    &&& in_lim(p.pos)
    &&& len_sq(p.dir) <= (SCALE as int) * (SCALE as int)
    &&& 0 <= p.speed <= PROJECTILE_SPEED_LIM
    &&& 0 <= p.length <= PROJECTILE_SPEED_LIM
}

/// One tick of motion: the position advances by `dir * speed`.
pub open spec fn spec_proj_step(p: Projectile) -> Projectile {
    Projectile { pos: spec_vadd(p.pos, spec_vscale(p.dir, p.speed as int, SCALE as int)), ..p }
}

/// The leading end of the drawn segment, the point used for hit-testing.
pub open spec fn spec_tip(p: Projectile) -> Vec2i {
    spec_vadd(p.pos, spec_vscale(p.dir, p.length as int, SCALE as int))
}

/// The position lies beyond the screen bounds by more than the margin on
/// some side.
pub open spec fn spec_off_screen(p: Projectile, w: int, h: int) -> bool {
    ||| (p.pos.x as int) < -(OFF_SCREEN_MARGIN as int)
    ||| (p.pos.x as int) > w + OFF_SCREEN_MARGIN as int
    ||| (p.pos.y as int) < -(OFF_SCREEN_MARGIN as int)
    ||| (p.pos.y as int) > h + OFF_SCREEN_MARGIN as int
}

impl Projectile {
    /// Builds a live projectile at `position`, heading along `direction`
    /// rescaled to unit length (a zero direction stays zero), with a fixed
    /// ten-unit drawn segment.
    pub fn new(speed: i64, direction: Vec2i, position: Vec2i) -> (r: Projectile)
        requires
            0 <= speed <= PROJECTILE_SPEED_LIM,
            in_lim(direction),
            in_lim(position),
        ensures
            r.pos == position,
            r.dir == spec_norm_to(direction, SCALE as int),
            r.speed == speed,
            r.length == 10 * SCALE,
            r.alive,
            projectile_wf(r),
    {
        proof {
            crate::vec2::lemma_norm_to_bound(direction, SCALE as int);
        }
        Projectile {
            speed,
            dir: direction.norm_to(SCALE),
            pos: position,
            length: 10 * SCALE,
            alive: true,
        }
    }

    /// Advances the position by one tick of constant-velocity motion.
    pub fn update(&mut self)
        requires
            projectile_wf(*old(self)),
        ensures
            *final(self) == spec_proj_step(*old(self)),
            projectile_wf(*final(self)),
    {
        self.pos = self.pos.add_sat(self.dir.scale(self.speed, SCALE));
    }

    /// Marks the projectile dead; it is purged at the end of the tick.
    pub fn destroy(&mut self)
        ensures
            *final(self) == (Projectile { alive: false, ..*old(self) }),
    {
        self.alive = false;
    }

    /// Whether the projectile is still live.
    pub fn is_alive(&self) -> (r: bool)
        ensures
            r == self.alive,
    {
        self.alive
    }

    /// The leading end of the segment, used for hit-testing against comets.
    pub fn get_tip_pos(&self) -> (r: Vec2i)
        requires
            projectile_wf(*self),
        ensures
            r == spec_tip(*self),
    {
        self.pos.add_sat(self.dir.scale(self.length, SCALE))
    }

    /// True iff the projectile has left the screen bounds by more than the
    /// off-screen margin on any side.
    pub fn is_off_screen(&self, w: i64, h: i64) -> (r: bool)
        requires
            0 < w <= SCREEN_LIM,
            0 < h <= SCREEN_LIM,
        ensures
            r == spec_off_screen(*self, w as int, h as int),
    {
        if self.pos.x < -OFF_SCREEN_MARGIN || self.pos.x > w + OFF_SCREEN_MARGIN {
            return true;
        }
        if self.pos.y < -OFF_SCREEN_MARGIN || self.pos.y > h + OFF_SCREEN_MARGIN {
            return true;
        }
        false
    }
}

} // verus!
