//! The game controller: the phase state machine, the entity collections,
//! score, lives, timers, and the fixed-timestep tick. All times are in
//! milliseconds, all lengths in milli-units.

use vstd::prelude::*;
use crate::comet::Comet;
use crate::comet::Size;
use crate::comet::comet_matches_tier;
use crate::comet::comet_wf;
use crate::comet::spec_comet_step;
use crate::comet::spec_spawned_from;
use crate::comet::split_tier;
use crate::comet::tier_speed;
use crate::num::LIM;
use crate::num::SCALE;
use crate::num::sat;
use crate::num::sat_narrow;
use crate::player::Player;
use crate::player::player_wf;
use crate::player::spec_accelerated;
use crate::player::spec_fresh_player;
use crate::player::spec_overlaps;
use crate::player::spec_player_step;
use crate::player::spec_rotated;
use crate::projectile::Projectile;
use crate::projectile::SCREEN_LIM;
use crate::projectile::projectile_wf;
use crate::projectile::spec_off_screen;
use crate::projectile::spec_proj_step;
use crate::projectile::spec_tip;
use crate::shape::spec_contains;
use crate::vec2::Vec2i;
use crate::vec2::in_lim;
use crate::vec2::len_sq;
use crate::vec2::spec_norm_to;
use crate::vec2::spec_vadd;
use crate::vec2::spec_vsub;

verus! {

/// Cosine of the per-input rotation step (0.15 radians), in milli-units.
pub const ROT_COS: i64 = 989;

/// Sine of the per-input rotation step (0.15 radians), in milli-units.
pub const ROT_SIN: i64 = 149;

/// Projectile speed, in milli-units per tick (30 screen units).
pub const PROJECTILE_SPEED: i64 = 30_000;

/// Weapon cooldown after a shot, in milliseconds.
pub const SHOOTING_COOLDOWN_MS: i64 = 200;

/// Knockback magnitude a collision imparts, in milli-units per tick.
pub const COLLISION_KNOCK_BACK: i64 = 10_000;

/// Invincibility window after a life loss, in milliseconds.
pub const INVINCIBILITY_MS: i64 = 1_000;

/// Lives a fresh game starts with.
pub const START_LIVES: u32 = 3;

/// Cap on the accumulated play duration and spawn timer, in milliseconds
/// (about eleven days of uninterrupted play), so that the spawn-rate
/// arithmetic stays exact.
pub const MAX_TIME_MS: i64 = 1_000_000_000;

/// The game's phases.
#[derive(Clone, Copy, Debug, PartialEq, Eq, Structural)]
pub enum GamePhase {
    MENU,
    PLAY,
    END,
}

/// One frame's worth of player input, already decoded from the keyboard.
#[derive(Clone, Copy, Debug, PartialEq, Eq, Structural)]
pub struct InputState {
    pub left: bool,
    pub right: bool,
    pub up: bool,
    pub down: bool,
    pub fire: bool,
    pub spawn: bool,
    pub confirm: bool,
}

/// The single mutable state of a game session.
pub struct GameState {
    pub game_state: GamePhase,
    pub player: Player,
    pub comets: Vec<Comet>,
    pub projectiles: Vec<Projectile>,
    pub score: i64,
    pub weapon_cd: i64,
    pub player_lives: u32,
    pub comet_spawn_timer: i64,
    pub game_duration: i64,
    pub invincibility_timer: i64,
    pub screen_w: i64,
    pub screen_h: i64,
}

/// Validity of a controller state: bounded screen, well-formed entities,
/// timers in their ranges, and at least one life while playing.
pub open spec fn state_wf(st: GameState) -> bool {
    &&& 0 < st.screen_w <= SCREEN_LIM
    &&& 0 < st.screen_h <= SCREEN_LIM
    &&& player_wf(st.player)
    &&& forall|i: int| 0 <= i < st.comets@.len() ==> comet_wf(#[trigger] st.comets@[i])
    &&& forall|i: int|
        0 <= i < st.projectiles@.len() ==> projectile_wf(#[trigger] st.projectiles@[i])
    &&& 0 <= st.weapon_cd <= SHOOTING_COOLDOWN_MS
    &&& 0 <= st.invincibility_timer <= INVINCIBILITY_MS
    &&& 0 <= st.comet_spawn_timer <= MAX_TIME_MS
    &&& 0 <= st.game_duration <= MAX_TIME_MS
    &&& st.player_lives <= START_LIVES
    &&& (st.game_state == GamePhase::PLAY ==> st.player_lives >= 1)
    &&& -(LIM as int) <= st.score as int <= LIM as int
}

/// What holds of every comet that a random edge spawn can produce: a live,
/// tier-true comet sitting on a screen edge with no initial rotation, its
/// drift biased inward from that edge.
pub open spec fn spawned_ok(c: Comet, size: Size, w: int, h: int) -> bool {
    &&& comet_wf(c)
    &&& comet_matches_tier(c)
    &&& c.size == size
    &&& c.shape.rotation == 0
    &&& 0 <= c.shape.pos.x as int <= w
    &&& 0 <= c.shape.pos.y as int <= h
    &&& (c.shape.pos.x == 0 || c.shape.pos.x as int == w || c.shape.pos.y == 0
        || c.shape.pos.y as int == h)
    &&& ((c.shape.pos.x == 0 && c.vel.x >= 0) || (c.shape.pos.y == 0 && c.vel.y >= 0) || (
    c.shape.pos.x as int == w && c.vel.x <= 0) || (c.shape.pos.y as int == h && c.vel.y <= 0))
    &&& len_sq(c.vel) <= tier_speed(size) * tier_speed(size) * (SCALE as int) * (SCALE as int)
}

/// The projectile that a shot launches: at the player's position, along the
/// player's heading.
pub open spec fn spec_new_projectile(p: Player) -> Projectile {
    Projectile {
        pos: p.pos,
        dir: spec_norm_to(p.dir, SCALE as int),
        speed: PROJECTILE_SPEED,
        length: (10 * SCALE) as i64,
        alive: true,
    }
}

/// A timer advanced by `delta` but capped at `MAX_TIME_MS`.
pub open spec fn capped_add(t: int, delta: int) -> int {
    if t + delta <= MAX_TIME_MS as int {
        t + delta
    } else {
        MAX_TIME_MS as int
    }
}

/// A countdown timer reduced by `delta`, clamped at zero.
pub open spec fn count_down(t: int, delta: int) -> int {
    if t <= delta {
        0
    } else {
        t - delta
    }
}

/// A new comet is due: the spawn timer has reached `10 / (0.5 * sqrt(d))`
/// seconds for a play duration of `d` seconds. With times in milliseconds
/// and both sides squared this is exactly `timer^2 * duration >= 4 * 10^11`;
/// at duration zero the threshold is unreachable, so the only first comet is
/// the one `reset` seeds.
pub open spec fn spawn_due(st: GameState) -> bool {
    (st.comet_spawn_timer as int) * (st.comet_spawn_timer as int) * (st.game_duration as int)
        >= 400_000_000_000
}

/// What `reset` leaves behind: a fresh centred player, one random large
/// comet, no projectiles, zeroed score, full lives, zeroed duration and
/// weapon cooldown, and the PLAY phase. The invincibility and comet-spawn
/// timers keep their previous values, a deliberate quirk.
pub open spec fn reset_rel(pre: GameState, post: GameState) -> bool {
    &&& post.game_state == GamePhase::PLAY
    &&& post.player == spec_fresh_player(pre.screen_w as int, pre.screen_h as int)
    &&& post.comets@.len() == 1
    &&& spawned_ok(post.comets@[0], Size::Three, pre.screen_w as int, pre.screen_h as int)
    &&& post.projectiles@ == Seq::<Projectile>::empty()
    &&& post.score == 0
    &&& post.weapon_cd == 0
    &&& post.player_lives == START_LIVES
    &&& post.game_duration == 0
    &&& post.comet_spawn_timer == pre.comet_spawn_timer
    &&& post.invincibility_timer == pre.invincibility_timer
    &&& post.screen_w == pre.screen_w
    &&& post.screen_h == pre.screen_h
}

impl GameState {
    /// A fresh controller on a `w` by `h` screen (milli-units): in the MENU
    /// phase, with full lives, no entities, and the invincibility timer
    /// already charged.
    pub fn new(w: i64, h: i64) -> (r: GameState)
        requires
            0 < w <= SCREEN_LIM,
            0 < h <= SCREEN_LIM,
        ensures
            r.game_state == GamePhase::MENU,
            r.player == spec_fresh_player(w as int, h as int),
            r.comets@ == Seq::<Comet>::empty(),
            r.projectiles@ == Seq::<Projectile>::empty(),
            r.score == 0,
            r.weapon_cd == 0,
            r.player_lives == START_LIVES,
            r.comet_spawn_timer == 0,
            r.game_duration == 0,
            r.invincibility_timer == INVINCIBILITY_MS,
            r.screen_w == w,
            r.screen_h == h,
            state_wf(r),
    {
        GameState {
            game_state: GamePhase::MENU,
            player: Player::new(w, h),
            comets: Vec::new(),
            projectiles: Vec::new(),
            score: 0,
            weapon_cd: 0,
            player_lives: START_LIVES,
            comet_spawn_timer: 0,
            game_duration: 0,
            invincibility_timer: INVINCIBILITY_MS,
            screen_w: w,
            screen_h: h,
        }
    }

    /// The live comet collection.
    pub fn get_comets(&self) -> (r: &Vec<Comet>)
        ensures
            r@ == self.comets@,
    {
        &self.comets
    }

    /// The live projectile collection.
    pub fn get_projectiles(&self) -> (r: &Vec<Projectile>)
        ensures
            r@ == self.projectiles@,
    {
        &self.projectiles
    }

    /// Fires one projectile from the player's position along its heading,
    /// but only when the weapon cooldown is exactly zero; firing recharges
    /// the cooldown.
    pub fn shoot(&mut self)
        requires
            state_wf(*old(self)),
        ensures
            state_wf(*final(self)),
            old(self).weapon_cd == 0 ==> final(self).projectiles@ == old(self).projectiles@.push(
                spec_new_projectile(old(self).player))
                && *final(self) == (GameState {
                    projectiles: final(self).projectiles,
                    weapon_cd: SHOOTING_COOLDOWN_MS,
                    ..*old(self)
                }),
            old(self).weapon_cd != 0 ==> *final(self) == *old(self),
    {
        if self.weapon_cd == 0 {
            proof {
                crate::player::lemma_abs_bound_from_len_sq(self.player.dir, SCALE as int);
            }
            let p = Projectile::new(PROJECTILE_SPEED, self.player.get_dir(), self.player.get_pos());
            self.projectiles.push(p);
            self.weapon_cd = SHOOTING_COOLDOWN_MS;
        }
    }

    /// Advances the real-time clocks by `delta` milliseconds: the weapon
    /// cooldown and the invincibility timer count down (clamped at zero) in
    /// every phase; only while playing do the play duration and comet-spawn
    /// timer accumulate, capped at `MAX_TIME_MS`.
    pub fn refresh_all_cool_downs(&mut self, delta: i64)
        requires
            state_wf(*old(self)),
            0 <= delta <= MAX_TIME_MS,
        ensures
            state_wf(*final(self)),
            final(self).weapon_cd as int == count_down(old(self).weapon_cd as int, delta as int),
            final(self).invincibility_timer as int == count_down(
                old(self).invincibility_timer as int,
                delta as int,
            ),
            old(self).game_state == GamePhase::PLAY ==> {
                &&& final(self).game_duration as int == capped_add(
                    old(self).game_duration as int, delta as int)
                &&& final(self).comet_spawn_timer as int == capped_add(
                    old(self).comet_spawn_timer as int, delta as int)
            },
            old(self).game_state != GamePhase::PLAY ==> {
                &&& final(self).game_duration == old(self).game_duration
                &&& final(self).comet_spawn_timer == old(self).comet_spawn_timer
            },
            *final(self) == (GameState {
                weapon_cd: final(self).weapon_cd,
                invincibility_timer: final(self).invincibility_timer,
                game_duration: final(self).game_duration,
                comet_spawn_timer: final(self).comet_spawn_timer,
                ..*old(self)
            }),
    {
        if self.weapon_cd <= delta {
            self.weapon_cd = 0;
        } else {
            self.weapon_cd = self.weapon_cd - delta;
        }
        if self.invincibility_timer <= delta {
            self.invincibility_timer = 0;
        } else {
            self.invincibility_timer = self.invincibility_timer - delta;
        }
        match self.game_state {
            GamePhase::PLAY => {
                if self.game_duration + delta <= MAX_TIME_MS {
                    self.game_duration = self.game_duration + delta;
                } else {
                    self.game_duration = MAX_TIME_MS;
                }
                if self.comet_spawn_timer + delta <= MAX_TIME_MS {
                    self.comet_spawn_timer = self.comet_spawn_timer + delta;
                } else {
                    self.comet_spawn_timer = MAX_TIME_MS;
                }
            },
            _ => {},
        }
    }

    /// Pushes one large comet spawned at a random screen edge.
    pub fn spawn_comet(&mut self)
        requires
            state_wf(*old(self)),
        ensures
            state_wf(*final(self)),
            final(self).comets@.len() == old(self).comets@.len() + 1,
            final(self).comets@.subrange(0, old(self).comets@.len() as int) == old(self).comets@,
            spawned_ok(
                final(self).comets@[old(self).comets@.len() as int],
                Size::Three,
                old(self).screen_w as int,
                old(self).screen_h as int,
            ),
            *final(self) == (GameState { comets: final(self).comets, ..*old(self) }),
    {
        let c = Comet::spawn(Size::Three, None, self.screen_w, self.screen_h);
        self.comets.push(c);
        proof {
            assert(final(self).comets@.subrange(0, old(self).comets@.len() as int)
                =~= old(self).comets@);
        }
    }

    /// Pushes one comet with every spawn parameter supplied by the caller:
    /// the deterministic seam that lets a harness reproduce exact
    /// trajectories.
    pub fn spawn_comet_at(&mut self, size: Size, pos: Vec2i, unit_vel: Vec2i, rot_speed: i64)
        requires
            state_wf(*old(self)),
            in_lim(pos),
            len_sq(unit_vel) <= (SCALE as int) * (SCALE as int),
            -SCALE <= rot_speed <= SCALE,
        ensures
            state_wf(*final(self)),
            final(self).comets@ == old(self).comets@.push(
                spec_spawned_from(size, pos, unit_vel, rot_speed)),
            *final(self) == (GameState { comets: final(self).comets, ..*old(self) }),
    {
        let c = Comet::spawn_from(size, pos, unit_vel, rot_speed);
        self.comets.push(c);
    }

    /// Pushes one large comet when the spawn timer has reached the
    /// duration-dependent threshold, resetting the timer; otherwise changes
    /// nothing. The spawn rate thus accelerates as the square root of the
    /// survival time.
    pub fn spawn_comet_with_spawn_rate(&mut self)
        requires
            state_wf(*old(self)),
        ensures
            state_wf(*final(self)),
            !spawn_due(*old(self)) ==> *final(self) == *old(self),
            spawn_due(*old(self)) ==> {
                &&& final(self).comet_spawn_timer == 0
                &&& final(self).comets@.len() == old(self).comets@.len() + 1
                &&& final(self).comets@.subrange(0, old(self).comets@.len() as int)
                    == old(self).comets@
                &&& spawned_ok(
                    final(self).comets@[old(self).comets@.len() as int],
                    Size::Three,
                    old(self).screen_w as int,
                    old(self).screen_h as int,
                )
                &&& *final(self) == (GameState {
                    comets: final(self).comets,
                    comet_spawn_timer: 0i64,
                    ..*old(self)
                })
            },
    {
        let t: i128 = self.comet_spawn_timer as i128;
        let d: i128 = self.game_duration as i128;
        proof {
            assert(0 <= (t as int) * (t as int) <= 1_000_000_000_000_000_000
                && 0 <= (t as int) * (t as int) * (d as int)
                    <= 1_000_000_000_000_000_000 * 1_000_000_000) by (nonlinear_arith)
                requires
                    0 <= t as int <= 1_000_000_000,
                    0 <= d as int <= 1_000_000_000;
        }
        if t * t * d >= 400_000_000_000i128 {
            self.comet_spawn_timer = 0;
            self.spawn_comet();
        }
    }

    /// Thrust along the player's heading by `factor` milli-units; the speed
    /// is clamped to the player's maximum.
    pub fn accelerate(&mut self, factor: i64)
        requires
            state_wf(*old(self)),
            -1_000_000 <= factor <= 1_000_000,
        ensures
            state_wf(*final(self)),
            final(self).player == (Player {
                vel: spec_accelerated(old(self).player, factor as int),
                ..old(self).player
            }),
            len_sq(final(self).player.vel) <= (crate::player::MAX_SPEED as int)
                * (crate::player::MAX_SPEED as int),
            *final(self) == (GameState { player: final(self).player, ..*old(self) }),
    {
        self.player.accelerate(factor);
    }

    /// Turns the player's heading one rotation step: clockwise on screen for
    /// `right`, counter-clockwise otherwise.
    pub fn rotate(&mut self, right: bool)
        requires
            state_wf(*old(self)),
        ensures
            state_wf(*final(self)),
            final(self).player == (Player {
                dir: spec_rotated(
                    old(self).player.dir,
                    ROT_COS as int,
                    if right { ROT_SIN as int } else { -(ROT_SIN as int) },
                ),
                ..old(self).player
            }),
            *final(self) == (GameState { player: final(self).player, ..*old(self) }),
    {
        if right {
            self.player.rotate(ROT_COS, ROT_SIN);
        } else {
            self.player.rotate(ROT_COS, -ROT_SIN);
        }
    }

    /// Starts a fresh round: a centred player, empty entity lists but for
    /// one random large comet, zero score, full lives, zero duration, and
    /// the PLAY phase. The invincibility and comet-spawn timers are left as
    /// they were, a deliberate quirk.
    pub fn reset(&mut self)
        requires
            state_wf(*old(self)),
        ensures
            state_wf(*final(self)),
            reset_rel(*old(self), *final(self)),
    {
        self.player = Player::new(self.screen_w, self.screen_h);
        self.comets = Vec::new();
        self.projectiles = Vec::new();
        self.score = 0;
        self.weapon_cd = 0;
        self.player_lives = START_LIVES;
        self.game_duration = 0;
        self.game_state = GamePhase::PLAY;
        self.spawn_comet();
    }

    /// `reset`, but with the seed comet supplied by the caller instead of
    /// drawn at random: the deterministic counterpart for reproducible
    /// rounds.
    pub fn reset_with_comet(&mut self, c: Comet)
        requires
            state_wf(*old(self)),
            comet_wf(c),
        ensures
            state_wf(*final(self)),
            final(self).comets@ == seq![c],
            *final(self) == (GameState {
                game_state: GamePhase::PLAY,
                player: spec_fresh_player(old(self).screen_w as int, old(self).screen_h as int),
                comets: final(self).comets,
                projectiles: final(self).projectiles,
                score: 0i64,
                weapon_cd: 0i64,
                player_lives: START_LIVES,
                game_duration: 0i64,
                ..*old(self)
            }),
            final(self).projectiles@ == Seq::<Projectile>::empty(),
    {
        self.player = Player::new(self.screen_w, self.screen_h);
        self.comets = Vec::new();
        self.projectiles = Vec::new();
        self.score = 0;
        self.weapon_cd = 0;
        self.player_lives = START_LIVES;
        self.game_duration = 0;
        self.game_state = GamePhase::PLAY;
        self.comets.push(c);
        proof {
            assert(final(self).comets@ =~= seq![c]);
        }
    }
}


/// The comet list after every member has taken one physics tick.
pub open spec fn stepped_comets(cs: Seq<Comet>, w: int, h: int) -> Seq<Comet> {
    Seq::new(cs.len(), |i: int| spec_comet_step(cs[i], w, h))
}

/// Some comet among the first `i` overlaps the player.
pub open spec fn hit_prefix(p: Player, cs: Seq<Comet>, i: int) -> bool {
    exists|k: int| 0 <= k < i && spec_overlaps(p, #[trigger] cs[k].shape)
}

/// The player's velocity after taking one knockback impulse from each of the
/// first `i` comets that overlap it, in order.
pub open spec fn spec_impulse_fold(p: Player, cs: Seq<Comet>, i: int) -> Vec2i
    decreases i,
{
    if i <= 0 {
        p.vel
    } else {
        let prev = spec_impulse_fold(p, cs, i - 1);
        if spec_overlaps(p, cs[i - 1].shape) {
            spec_vadd(
                prev,
                spec_norm_to(spec_vsub(p.pos, cs[i - 1].shape.pos), COLLISION_KNOCK_BACK as int),
            )
        } else {
            prev
        }
    }
}

/// The projectile is live and its tip lies inside the comet.
pub open spec fn proj_hits(c: Comet, p: Projectile) -> bool {
    p.alive && spec_contains(c.shape, spec_tip(p))
}

/// Index of the first live projectile whose tip the comet contains, if any.
pub open spec fn spec_first_hit(c: Comet, ps: Seq<Projectile>) -> Option<int>
    decreases ps.len(),
{
    if ps.len() == 0 {
        None
    } else if proj_hits(c, ps[0]) {
        Some(0int)
    } else {
        match spec_first_hit(c, ps.drop_first()) {
            Some(j) => Some(j + 1),
            None => None,
        }
    }
}

/// The split offspring a destroyed comet owes: exactly two descriptors of
/// the next smaller tier at the comet's last position, or none for the
/// smallest tier.
pub open spec fn spec_offspring_of(c: Comet) -> Seq<(Size, Vec2i)> {
    match split_tier(c.size) {
        Some(t) => seq![(t, c.shape.pos), (t, c.shape.pos)],
        None => Seq::<(Size, Vec2i)>::empty(),
    }
}

/// A freshly spawned split comet agrees with its descriptor: right tier,
/// parent's position, tier-true shape, bounded velocity.
pub open spec fn offspring_matches(d: (Size, Vec2i), c: Comet) -> bool {
    &&& comet_wf(c)
    &&& comet_matches_tier(c)
    &&& c.size == d.0
    &&& c.shape.pos == d.1
    &&& c.shape.rotation == 0
    &&& len_sq(c.vel) <= tier_speed(d.0) * tier_speed(d.0) * (SCALE as int) * (SCALE as int)
}

/// The projectile-comet collision pass, processed comet by comet in order:
/// yields the comet list with destroyed members marked dead, the projectile
/// list with each consumed projectile marked dead, the offspring descriptors
/// owed, and the number of comets destroyed. Each comet is destroyed by the
/// first live projectile whose tip it contains; that projectile dies with it
/// and cannot destroy another comet.
pub open spec fn spec_resolve(cs: Seq<Comet>, ps: Seq<Projectile>) -> (
    Seq<Comet>,
    Seq<Projectile>,
    Seq<(Size, Vec2i)>,
    int,
)
    decreases cs.len(),
{
    if cs.len() == 0 {
        (Seq::<Comet>::empty(), ps, Seq::<(Size, Vec2i)>::empty(), 0int)
    } else {
        let c = cs[0];
        match spec_first_hit(c, ps) {
            None => {
                let rest = spec_resolve(cs.drop_first(), ps);
                (seq![c] + rest.0, rest.1, rest.2, rest.3)
            },
            Some(j) => {
                let ps1 = ps.update(j, Projectile { alive: false, ..ps[j] });
                let rest = spec_resolve(cs.drop_first(), ps1);
                (
                    seq![Comet { alive: false, ..c }] + rest.0,
                    rest.1,
                    spec_offspring_of(c) + rest.2,
                    rest.3 + 1,
                )
            },
        }
    }
}

/// A projectile advanced one tick and destroyed if it is now off screen.
pub open spec fn spec_proj_advanced(p: Projectile, w: int, h: int) -> Projectile {
    let q = spec_proj_step(p);
    if spec_off_screen(q, w, h) {
        Projectile { alive: false, ..q }
    } else {
        q
    }
}

/// The projectile list after every member has advanced one tick.
pub open spec fn advanced_projectiles(ps: Seq<Projectile>, w: int, h: int) -> Seq<Projectile> {
    Seq::new(ps.len(), |i: int| spec_proj_advanced(ps[i], w, h))
}

/// How many projectiles of the list sit off screen (dead or alive: a
/// projectile consumed by a comet this tick still costs the miss penalty if
/// it also crossed the margin, by design).
pub open spec fn count_off(ps: Seq<Projectile>, w: int, h: int) -> int
    decreases ps.len(),
{
    if ps.len() == 0 {
        0int
    } else {
        count_off(ps.drop_last(), w, h) + (if spec_off_screen(ps.last(), w, h) {
            1int
        } else {
            0int
        })
    }
}

/// The live comets of a list, in order.
pub open spec fn survivors(cs: Seq<Comet>) -> Seq<Comet>
    decreases cs.len(),
{
    if cs.len() == 0 {
        Seq::<Comet>::empty()
    } else if cs.last().alive {
        survivors(cs.drop_last()).push(cs.last())
    } else {
        survivors(cs.drop_last())
    }
}

/// The live projectiles of a list, in order.
pub open spec fn live_projectiles(ps: Seq<Projectile>) -> Seq<Projectile>
    decreases ps.len(),
{
    if ps.len() == 0 {
        Seq::<Projectile>::empty()
    } else if ps.last().alive {
        live_projectiles(ps.drop_last()).push(ps.last())
    } else {
        live_projectiles(ps.drop_last())
    }
}

/// Everything one simulation tick does to a playing state, given the comet
/// list `cs0` it starts from (the state's own list, plus the new random
/// comet when one was due). In order: the player advances; every comet
/// advances; each comet overlapping the player knocks it back, and the first
/// such overlap costs a life if and only if the invincibility timer is zero,
/// recharging it and ending the game the moment the lives hit zero; the
/// collision pass destroys comets and projectiles pairwise and owes split
/// offspring; all projectiles advance and off-screen ones die; the score
/// takes ten points per destroyed comet and loses one per off-screen
/// projectile; dead entities are purged, survivors keeping their order, with
/// the offspring appended after them.
pub open spec fn play_core_rel(pre: GameState, cs0: Seq<Comet>, post: GameState) -> bool {
    let w = pre.screen_w as int;
    let h = pre.screen_h as int;
    let p1 = spec_player_step(pre.player, w, h);
    let cs1 = stepped_comets(cs0, w, h);
    let lost = hit_prefix(p1, cs1, cs1.len() as int) && pre.invincibility_timer == 0;
    let res = spec_resolve(cs1, pre.projectiles@);
    let ps2 = advanced_projectiles(res.1, w, h);
    let surv = survivors(res.0);
    &&& post.player == (Player { vel: spec_impulse_fold(p1, cs1, cs1.len() as int), ..p1 })
    &&& post.player_lives as int == (if lost {
        pre.player_lives - 1
    } else {
        pre.player_lives as int
    })
    &&& post.invincibility_timer == (if lost {
        INVINCIBILITY_MS
    } else {
        pre.invincibility_timer
    })
    &&& post.game_state == (if lost && pre.player_lives == 1 {
        GamePhase::END
    } else {
        GamePhase::PLAY
    })
    &&& post.score as int == sat(pre.score + 10 * res.3 - count_off(ps2, w, h))
    &&& post.projectiles@ == live_projectiles(ps2)
    &&& post.comets@.len() == surv.len() + res.2.len()
    &&& post.comets@.take(surv.len() as int) == surv
    &&& forall|k: int|
        0 <= k < res.2.len() ==> offspring_matches(
            res.2[k],
            #[trigger] post.comets@[surv.len() + k],
        )
    &&& post.weapon_cd == pre.weapon_cd
    &&& post.game_duration == pre.game_duration
    &&& post.screen_w == pre.screen_w
    &&& post.screen_h == pre.screen_h
}

/// No projectile of the list hits the comet, so there is no first hit.
proof fn lemma_first_hit_none(c: Comet, ps: Seq<Projectile>)
    requires
        forall|k: int| 0 <= k < ps.len() ==> !proj_hits(c, #[trigger] ps[k]),
    ensures
        spec_first_hit(c, ps) is None,
    decreases ps.len(),
{
    if ps.len() > 0 {
        assert forall|k: int| 0 <= k < ps.drop_first().len() implies !proj_hits(
            c,
            #[trigger] ps.drop_first()[k],
        ) by {
            assert(ps.drop_first()[k] == ps[k + 1]);
        }
        lemma_first_hit_none(c, ps.drop_first());
    }
}

/// `j` hits and nothing before it does, so `j` is the first hit.
proof fn lemma_first_hit_some(c: Comet, ps: Seq<Projectile>, j: int)
    requires
        0 <= j < ps.len(),
        proj_hits(c, ps[j]),
        forall|k: int| 0 <= k < j ==> !proj_hits(c, #[trigger] ps[k]),
    ensures
        spec_first_hit(c, ps) == Some(j),
    decreases ps.len(),
{
    if j > 0 {
        assert(!proj_hits(c, ps[0]));
        assert(ps.drop_first()[j - 1] == ps[j]);
        assert forall|k: int| 0 <= k < j - 1 implies !proj_hits(
            c,
            #[trigger] ps.drop_first()[k],
        ) by {
            assert(ps.drop_first()[k] == ps[k + 1]);
        }
        lemma_first_hit_some(c, ps.drop_first(), j - 1);
    }
}

/// Appending one comet extends the survivor list by it exactly when it is
/// alive.
proof fn lemma_survivors_push(s: Seq<Comet>, c: Comet)
    ensures
        survivors(s.push(c)) == (if c.alive {
            survivors(s).push(c)
        } else {
            survivors(s)
        }),
{
    assert(s.push(c).drop_last() =~= s);
    assert(s.push(c).last() == c);
}

/// Appending one projectile extends the live list by it exactly when it is
/// alive.
proof fn lemma_live_push(s: Seq<Projectile>, p: Projectile)
    ensures
        live_projectiles(s.push(p)) == (if p.alive {
            live_projectiles(s).push(p)
        } else {
            live_projectiles(s)
        }),
{
    assert(s.push(p).drop_last() =~= s);
    assert(s.push(p).last() == p);
}

/// Appending one projectile raises the off-screen count by one exactly when
/// it sits off screen.
proof fn lemma_count_off_push(s: Seq<Projectile>, p: Projectile, w: int, h: int)
    ensures
        count_off(s.push(p), w, h) == count_off(s, w, h) + (if spec_off_screen(p, w, h) {
            1int
        } else {
            0int
        }),
{
    assert(s.push(p).drop_last() =~= s);
    assert(s.push(p).last() == p);
}

/// Survivors distribute over concatenation.
proof fn lemma_survivors_add(a: Seq<Comet>, b: Seq<Comet>)
    ensures
        survivors(a + b) == survivors(a) + survivors(b),
    decreases b.len(),
{
    if b.len() == 0 {
        assert(a + b =~= a);
        assert(survivors(a) + Seq::<Comet>::empty() =~= survivors(a));
    } else {
        lemma_survivors_add(a, b.drop_last());
        assert((a + b).drop_last() =~= a + b.drop_last());
        assert((a + b).last() == b.last());
        assert(b.drop_last().push(b.last()) =~= b);
        lemma_survivors_push(b.drop_last(), b.last());
        if b.last().alive {
            assert(survivors(a) + survivors(b) =~= (survivors(a) + survivors(
                b.drop_last(),
            )).push(b.last()));
        }
    }
}

/// A list of live comets survives whole.
proof fn lemma_survivors_all_alive(s: Seq<Comet>)
    requires
        forall|k: int| 0 <= k < s.len() ==> (#[trigger] s[k]).alive,
    ensures
        survivors(s) == s,
    decreases s.len(),
{
    if s.len() > 0 {
        assert forall|k: int| 0 <= k < s.drop_last().len() implies (
        #[trigger] s.drop_last()[k]).alive by {
            assert(s.drop_last()[k] == s[k]);
        }
        lemma_survivors_all_alive(s.drop_last());
        assert(s.drop_last().push(s.last()) =~= s);
    }
}

/// Marks the projectile at `j` dead in place, leaving the rest of the list
/// untouched.
fn kill_projectile_at(ps: &mut Vec<Projectile>, j: usize)
    requires
        j < old(ps)@.len(),
    ensures
        final(ps)@ == old(ps)@.update(j as int, Projectile { alive: false, ..old(ps)@[j as int] }),
{
    let mut p = ps.remove(j);
    p.destroy();
    ps.insert(j, p);
    proof {
        assert(ps@ =~= old(ps)@.update(
            j as int,
            Projectile { alive: false, ..old(ps)@[j as int] },
        ));
    }
}


impl GameState {
    /// One fixed simulation step of the PLAY phase, on the comet list as it
    /// stands after any due random spawn: the whole per-tick pipeline that
    /// `play_core_rel` describes.
    #[verifier::rlimit(80)]
    fn play_tick(&mut self)
        requires
            state_wf(*old(self)),
            old(self).game_state == GamePhase::PLAY,
        ensures
            state_wf(*final(self)),
            play_core_rel(*old(self), old(self).comets@, *final(self)),
            final(self).comet_spawn_timer == old(self).comet_spawn_timer,
    {
        let w = self.screen_w;
        let h = self.screen_h;
        let ghost pre = *self;
        let ghost cs0 = self.comets@;
        let ghost psa = self.projectiles@;

        // The player advances first.
        self.player.update(w, h);
        let ghost p1 = self.player;
        let ghost cs1 = stepped_comets(cs0, w as int, h as int);
        let ghost lives0 = pre.player_lives;
        let ghost inv0 = pre.invincibility_timer;

        // Every comet advances; overlaps knock the player back, and the
        // first overlap with the invincibility timer at zero costs a life.
        let mut stepped: Vec<Comet> = Vec::new();
        let mut i: usize = 0;
        while i < self.comets.len()
            invariant
                i <= cs0.len(),
                self.comets@ == cs0,
                self.projectiles@ == psa,
                cs1 == stepped_comets(cs0, w as int, h as int),
                cs1.len() == cs0.len(),
                forall|k: int| 0 <= k < cs0.len() ==> comet_wf(#[trigger] cs0[k]),
                0 < w <= SCREEN_LIM,
                0 < h <= SCREEN_LIM,
                self.screen_w == w,
                self.screen_h == h,
                stepped@.len() == i,
                forall|k: int| 0 <= k < i ==> stepped@[k] == cs1[k],
                forall|k: int| 0 <= k < i ==> comet_wf(#[trigger] stepped@[k]),
                player_wf(self.player),
                player_wf(p1),
                self.player.pos == p1.pos,
                self.player.dir == p1.dir,
                self.player.hit_box_radius == p1.hit_box_radius,
                self.player.vel == spec_impulse_fold(p1, cs1, i as int),
                1 <= lives0 <= START_LIVES,
                0 <= inv0 <= INVINCIBILITY_MS,
                (if hit_prefix(p1, cs1, i as int) && inv0 == 0 {
                    self.player_lives as int == lives0 - 1
                        && self.invincibility_timer == INVINCIBILITY_MS
                        && self.game_state == (if lives0 == 1 {
                            GamePhase::END
                        } else {
                            GamePhase::PLAY
                        })
                } else {
                    self.player_lives == lives0 && self.invincibility_timer == inv0
                        && self.game_state == GamePhase::PLAY
                }),
                self.score == pre.score,
                self.weapon_cd == pre.weapon_cd,
                self.comet_spawn_timer == pre.comet_spawn_timer,
                self.game_duration == pre.game_duration,
            decreases self.comets@.len() - i,
        {
            let mut c = self.comets[i];
            proof {
                assert(c == cs0[i as int]);
                assert(comet_wf(c));
            }
            c.update(w, h);
            proof {
                assert(c == cs1[i as int]);
            }
            stepped.push(c);
            let ghost fold_i = spec_impulse_fold(p1, cs1, i as int);
            if self.player.overlaps_shape(c.get_shape()) {
                let dir = self.player.get_pos().sub_sat(c.get_pos());
                proof {
                    assert(in_lim(dir));
                    assert(spec_overlaps(p1, cs1[i as int].shape));
                }
                self.player.give_impulse(dir, COLLISION_KNOCK_BACK);
                proof {
                    assert(self.player.vel == spec_vadd(
                        fold_i,
                        spec_norm_to(
                            spec_vsub(p1.pos, cs1[i as int].shape.pos),
                            COLLISION_KNOCK_BACK as int,
                        ),
                    ));
                    assert(self.player.vel == spec_impulse_fold(p1, cs1, i as int + 1));
                    assert(hit_prefix(p1, cs1, i as int + 1));
                }
                if self.invincibility_timer == 0 {
                    proof {
                        assert(!(hit_prefix(p1, cs1, i as int) && inv0 == 0));
                        assert(self.player_lives == lives0);
                    }
                    self.player_lives = self.player_lives - 1;
                    self.invincibility_timer = INVINCIBILITY_MS;
                    if self.player_lives == 0 {
                        self.game_state = GamePhase::END;
                    }
                }
            } else {
                proof {
                    assert(!spec_overlaps(p1, cs1[i as int].shape));
                    assert(spec_impulse_fold(p1, cs1, i as int + 1) == fold_i);
                    if hit_prefix(p1, cs1, i as int + 1) {
                        let k = choose|k: int|
                            0 <= k < i as int + 1 && spec_overlaps(p1, #[trigger] cs1[k].shape);
                        assert(k < i as int);
                        assert(hit_prefix(p1, cs1, i as int));
                    }
                }
            }
            i = i + 1;
        }
        proof {
            assert(stepped@ =~= cs1);
        }
        self.comets = stepped;
        let ghost after_a = *self;

        // The collision pass: each comet is destroyed by the first live
        // projectile whose tip it contains; the projectile dies with it and
        // the comet owes its split offspring.
        let ghost target = spec_resolve(cs1, psa);
        let mut resolved: Vec<Comet> = Vec::new();
        let mut new_comets: Vec<Comet> = Vec::new();
        let mut destroyed: usize = 0;
        let ghost mut offs_done: Seq<(Size, Vec2i)> = Seq::<(Size, Vec2i)>::empty();
        proof {
            assert(cs1.skip(0) =~= cs1);
            assert(resolved@ + spec_resolve(cs1, psa).0 =~= spec_resolve(cs1, psa).0);
            assert(offs_done + spec_resolve(cs1, psa).2 =~= spec_resolve(cs1, psa).2);
        }
        let mut i2: usize = 0;
        while i2 < self.comets.len()
            invariant
                i2 <= cs1.len(),
                self.comets@ == cs1,
                self.projectiles@.len() == psa.len(),
                forall|k: int| 0 <= k < cs1.len() ==> comet_wf(#[trigger] cs1[k]),
                forall|k: int|
                    0 <= k < self.projectiles@.len() ==> projectile_wf(
                        #[trigger] self.projectiles@[k],
                    ),
                resolved@.len() == i2,
                forall|k: int| 0 <= k < i2 ==> comet_wf(#[trigger] resolved@[k]),
                target == spec_resolve(cs1, psa),
                target.0 == resolved@ + spec_resolve(cs1.skip(i2 as int), self.projectiles@).0,
                target.1 == spec_resolve(cs1.skip(i2 as int), self.projectiles@).1,
                target.2 == offs_done + spec_resolve(cs1.skip(i2 as int), self.projectiles@).2,
                target.3 == destroyed + spec_resolve(cs1.skip(i2 as int), self.projectiles@).3,
                destroyed <= i2,
                new_comets@.len() == offs_done.len(),
                forall|k: int|
                    0 <= k < offs_done.len() ==> offspring_matches(
                        offs_done[k],
                        #[trigger] new_comets@[k],
                    ),
                forall|k: int| 0 <= k < new_comets@.len() ==> comet_wf(#[trigger] new_comets@[k]),
                0 < w <= SCREEN_LIM,
                0 < h <= SCREEN_LIM,
                self.screen_w == w,
                self.screen_h == h,
                self.player == after_a.player,
                self.player_lives == after_a.player_lives,
                self.invincibility_timer == after_a.invincibility_timer,
                self.game_state == after_a.game_state,
                self.score == after_a.score,
                self.weapon_cd == after_a.weapon_cd,
                self.comet_spawn_timer == after_a.comet_spawn_timer,
                self.game_duration == after_a.game_duration,
            decreases self.comets@.len() - i2,
        {
            let c = self.comets[i2];
            proof {
                assert(c == cs1[i2 as int]);
                assert(comet_wf(c));
            }
            let mut pj: usize = 0;
            let mut found = false;
            while pj < self.projectiles.len() && !found
                invariant
                    pj <= self.projectiles@.len(),
                    forall|k: int| 0 <= k < pj ==> !proj_hits(c, #[trigger] self.projectiles@[k]),
                    found ==> pj < self.projectiles@.len() && proj_hits(
                        c,
                        self.projectiles@[pj as int],
                    ),
                    forall|k: int|
                        0 <= k < self.projectiles@.len() ==> projectile_wf(
                            #[trigger] self.projectiles@[k],
                        ),
                    comet_wf(c),
                decreases self.projectiles@.len() - pj + (if found {
                    0int
                } else {
                    1int
                }),
            {
                let pr = self.projectiles[pj];
                let tip = pr.get_tip_pos();
                proof {
                    assert(in_lim(tip));
                }
                if pr.is_alive() && c.contains(tip) {
                    found = true;
                } else {
                    pj = pj + 1;
                }
            }
            let ghost ps_before = self.projectiles@;
            let ghost rest_i = spec_resolve(cs1.skip(i2 as int), ps_before);
            proof {
                assert(cs1.skip(i2 as int).len() > 0);
                assert(cs1.skip(i2 as int)[0] == cs1[i2 as int]);
                assert(cs1.skip(i2 as int).drop_first() =~= cs1.skip(i2 as int + 1));
            }
            if found {
                proof {
                    lemma_first_hit_some(c, ps_before, pj as int);
                }
                let pos = c.get_pos();
                let ghost nc_before = new_comets@;
                match c.get_size() {
                    Size::Three => {
                        let c1 = Comet::spawn(Size::Two, Some(pos), w, h);
                        new_comets.push(c1);
                        let c2 = Comet::spawn(Size::Two, Some(pos), w, h);
                        new_comets.push(c2);
                    },
                    Size::Two => {
                        let c1 = Comet::spawn(Size::One, Some(pos), w, h);
                        new_comets.push(c1);
                        let c2 = Comet::spawn(Size::One, Some(pos), w, h);
                        new_comets.push(c2);
                    },
                    Size::One => {},
                }
                proof {
                    offs_done = offs_done + spec_offspring_of(c);
                    assert(new_comets@.len() == offs_done.len());
                }
                let mut dead = c;
                dead.destroy();
                resolved.push(dead);
                kill_projectile_at(&mut self.projectiles, pj);
                destroyed = destroyed + 1;
                proof {
                    let ps1 = ps_before.update(
                        pj as int,
                        Projectile { alive: false, ..ps_before[pj as int] },
                    );
                    assert(self.projectiles@ == ps1);
                    let rest_n = spec_resolve(cs1.skip(i2 as int + 1), ps1);
                    assert(rest_i.0 == seq![Comet { alive: false, ..c }] + rest_n.0);
                    assert(resolved@.drop_last() + (seq![Comet { alive: false, ..c }] + rest_n.0)
                        =~= resolved@ + rest_n.0);
                    assert(offs_done.subrange(
                        0,
                        offs_done.len() - spec_offspring_of(c).len(),
                    ) + (spec_offspring_of(c) + rest_n.2) =~= offs_done + rest_n.2);
                }
            } else {
                proof {
                    lemma_first_hit_none(c, ps_before);
                    let rest_n = spec_resolve(cs1.skip(i2 as int + 1), ps_before);
                    assert(rest_i.0 == seq![c] + rest_n.0);
                    assert(resolved@ + (seq![c] + rest_n.0) =~= resolved@.push(c) + rest_n.0);
                }
                resolved.push(c);
            }
            i2 = i2 + 1;
        }
        proof {
            assert(cs1.skip(i2 as int) =~= Seq::<Comet>::empty());
            assert(target.0 =~= resolved@) by {
                assert(resolved@ + Seq::<Comet>::empty() =~= resolved@);
            }
            assert(target.1 == self.projectiles@);
            assert(target.2 =~= offs_done) by {
                assert(offs_done + Seq::<(Size, Vec2i)>::empty() =~= offs_done);
            }
            assert(target.3 == destroyed as int);
        }
        let ghost nc = new_comets@;
        self.comets = resolved;
        self.comets.append(&mut new_comets);

        // All projectiles advance; off-screen ones die and cost a point.
        let ghost psb = self.projectiles@;
        let mut advanced: Vec<Projectile> = Vec::new();
        let mut missed: usize = 0;
        let mut i3: usize = 0;
        while i3 < self.projectiles.len()
            invariant
                i3 <= psb.len(),
                self.projectiles@ == psb,
                forall|k: int| 0 <= k < psb.len() ==> projectile_wf(#[trigger] psb[k]),
                advanced@.len() == i3,
                forall|k: int|
                    0 <= k < i3 ==> advanced@[k] == spec_proj_advanced(psb[k], w as int, h as int),
                forall|k: int| 0 <= k < i3 ==> projectile_wf(#[trigger] advanced@[k]),
                missed as int == count_off(advanced@, w as int, h as int),
                missed <= i3,
                0 < w <= SCREEN_LIM,
                0 < h <= SCREEN_LIM,
                self.screen_w == w,
                self.screen_h == h,
            decreases self.projectiles@.len() - i3,
        {
            let mut pr = self.projectiles[i3];
            proof {
                assert(pr == psb[i3 as int]);
            }
            pr.update();
            let off = pr.is_off_screen(w, h);
            if off {
                pr.destroy();
            }
            let ghost prev_adv = advanced@;
            advanced.push(pr);
            if off {
                missed = missed + 1;
            }
            proof {
                lemma_count_off_push(prev_adv, pr, w as int, h as int);
                assert(pr == spec_proj_advanced(psb[i3 as int], w as int, h as int));
                assert(spec_off_screen(pr, w as int, h as int) == off);
            }
            i3 = i3 + 1;
        }
        proof {
            assert(advanced@ =~= advanced_projectiles(psb, w as int, h as int));
        }

        // Score: ten points per destroyed comet, one lost per miss.
        let total: i128 = self.score as i128 + 10 * (destroyed as i128) - (missed as i128);
        self.score = sat_narrow(total);

        // Purge: live projectiles and live comets keep their order.
        let ghost psc = advanced@;
        let mut live: Vec<Projectile> = Vec::new();
        let mut i4: usize = 0;
        proof {
            assert(psc.take(0) =~= Seq::<Projectile>::empty());
        }
        while i4 < advanced.len()
            invariant
                i4 <= psc.len(),
                advanced@ == psc,
                forall|k: int| 0 <= k < psc.len() ==> projectile_wf(#[trigger] psc[k]),
                live@ == live_projectiles(psc.take(i4 as int)),
                forall|k: int| 0 <= k < live@.len() ==> projectile_wf(#[trigger] live@[k]),
            decreases advanced@.len() - i4,
        {
            let pr = advanced[i4];
            proof {
                assert(psc.take(i4 as int + 1).drop_last() =~= psc.take(i4 as int));
                assert(psc.take(i4 as int + 1).last() == psc[i4 as int]);
            }
            if pr.is_alive() {
                live.push(pr);
            }
            i4 = i4 + 1;
        }
        proof {
            assert(psc.take(psc.len() as int) =~= psc);
        }
        self.projectiles = live;

        let ghost csb = self.comets@;
        let mut keep: Vec<Comet> = Vec::new();
        let mut i5: usize = 0;
        proof {
            assert(csb.take(0) =~= Seq::<Comet>::empty());
        }
        while i5 < self.comets.len()
            invariant
                i5 <= csb.len(),
                self.comets@ == csb,
                forall|k: int| 0 <= k < csb.len() ==> comet_wf(#[trigger] csb[k]),
                keep@ == survivors(csb.take(i5 as int)),
                forall|k: int| 0 <= k < keep@.len() ==> comet_wf(#[trigger] keep@[k]),
            decreases self.comets@.len() - i5,
        {
            let c = self.comets[i5];
            proof {
                assert(csb.take(i5 as int + 1).drop_last() =~= csb.take(i5 as int));
                assert(csb.take(i5 as int + 1).last() == csb[i5 as int]);
            }
            if c.is_alive() {
                keep.push(c);
            }
            i5 = i5 + 1;
        }
        proof {
            assert(csb.take(csb.len() as int) =~= csb);
        }
        self.comets = keep;

        // Assemble: the surviving comets are the survivors of the collision
        // pass followed by the offspring, which are all alive.
        proof {
            assert(csb == target.0 + nc);
            lemma_survivors_add(target.0, nc);
            assert forall|k: int| 0 <= k < nc.len() implies (#[trigger] nc[k]).alive by {
                assert(offspring_matches(offs_done[k], nc[k]));
            }
            lemma_survivors_all_alive(nc);
            assert(self.comets@ == survivors(target.0) + nc);
            let surv = survivors(target.0);
            assert(self.comets@.take(surv.len() as int) =~= surv);
            assert forall|k: int| 0 <= k < offs_done.len() implies offspring_matches(
                target.2[k],
                #[trigger] self.comets@[surv.len() + k],
            ) by {
                assert(self.comets@[surv.len() + k] == nc[k]);
                assert(target.2[k] == offs_done[k]);
            }
        }
    }

    /// One fixed simulation step: in the PLAY phase it spawns a comet when
    /// one is due and then runs the tick pipeline; in MENU and END it does
    /// nothing at all, so a finished game stays frozen.
    pub fn update(&mut self)
        requires
            state_wf(*old(self)),
        ensures
            state_wf(*final(self)),
            old(self).game_state != GamePhase::PLAY ==> *final(self) == *old(self),
            old(self).game_state == GamePhase::PLAY && !spawn_due(*old(self)) ==> final(self).comet_spawn_timer == old(self).comet_spawn_timer && play_core_rel(
                *old(self),
                old(self).comets@,
                *final(self),
            ),
            old(self).game_state == GamePhase::PLAY && spawn_due(*old(self)) ==> final(self).comet_spawn_timer == 0 && (exists|c: Comet|
                spawned_ok(c, Size::Three, old(self).screen_w as int, old(self).screen_h as int)
                    && play_core_rel(*old(self), old(self).comets@.push(c), *final(self))),
    {
        match self.game_state {
            GamePhase::PLAY => {},
            _ => {
                return ;
            },
        }
        self.spawn_comet_with_spawn_rate();
        let ghost mid = *self;
        self.play_tick();
        proof {
            if spawn_due(*old(self)) {
                let c = mid.comets@.last();
                assert(mid.comets@ =~= old(self).comets@.push(c));
                assert(spawned_ok(
                    c,
                    Size::Three,
                    old(self).screen_w as int,
                    old(self).screen_h as int,
                ));
                assert(play_core_rel(mid, mid.comets@, *self));
                assert(play_core_rel(*old(self), old(self).comets@.push(c), *self));
            } else {
                assert(play_core_rel(*old(self), old(self).comets@, *self));
            }
        }
    }

    /// The player after this frame's steering inputs, in the fixed order
    /// rotate-left, rotate-right, thrust, reverse thrust.
    pub open spec fn steered_player(p: Player, input: InputState) -> Player {
        let d1 = if input.left {
            spec_rotated(p.dir, ROT_COS as int, -(ROT_SIN as int))
        } else {
            p.dir
        };
        let d2 = if input.right {
            spec_rotated(d1, ROT_COS as int, ROT_SIN as int)
        } else {
            d1
        };
        let pa = Player { dir: d2, ..p };
        let pb = Player {
            vel: if input.up {
                spec_accelerated(pa, 1000)
            } else {
                pa.vel
            },
            ..pa
        };
        Player {
            vel: if input.down {
                spec_accelerated(pb, -500)
            } else {
                pb.vel
            },
            ..pb
        }
    }

    /// Applies one frame of decoded input. While playing: steering turns and
    /// thrusts the ship, fire shoots if the weapon is cold, and the debug
    /// spawn key pushes one random large comet. In MENU and END, confirm
    /// starts a fresh round; everything else is ignored.
    pub fn inputs(&mut self, input: &InputState)
        requires
            state_wf(*old(self)),
        ensures
            state_wf(*final(self)),
            old(self).game_state != GamePhase::PLAY ==> {
                &&& (input.confirm ==> reset_rel(*old(self), *final(self)))
                &&& (!input.confirm ==> *final(self) == *old(self))
            },
            old(self).game_state == GamePhase::PLAY ==> {
                let steered = GameState::steered_player(old(self).player, *input);
                &&& final(self).player == steered
                &&& (input.fire && old(self).weapon_cd == 0 ==> final(self).weapon_cd
                    == SHOOTING_COOLDOWN_MS && final(self).projectiles@ == old(self).projectiles@.push(spec_new_projectile(steered)))
                &&& (!(input.fire && old(self).weapon_cd == 0) ==> final(self).weapon_cd == old(self).weapon_cd && final(self).projectiles@ == old(self).projectiles@)
                &&& (input.spawn ==> final(self).comets@.len() == old(self).comets@.len() + 1
                    && final(self).comets@.subrange(0, old(self).comets@.len() as int) == old(self).comets@ && spawned_ok(
                    final(self).comets@[old(self).comets@.len() as int],
                    Size::Three,
                    old(self).screen_w as int,
                    old(self).screen_h as int,
                ))
                &&& (!input.spawn ==> final(self).comets@ == old(self).comets@)
                &&& final(self).game_state == GamePhase::PLAY
                &&& final(self).score == old(self).score
                &&& final(self).player_lives == old(self).player_lives
                &&& final(self).invincibility_timer == old(self).invincibility_timer
                &&& final(self).comet_spawn_timer == old(self).comet_spawn_timer
                &&& final(self).game_duration == old(self).game_duration
                &&& final(self).screen_w == old(self).screen_w
                &&& final(self).screen_h == old(self).screen_h
            },
    {
        match self.game_state {
            GamePhase::PLAY => {
                if input.left {
                    self.rotate(false);
                }
                if input.right {
                    self.rotate(true);
                }
                if input.up {
                    self.accelerate(1000);
                }
                if input.down {
                    self.accelerate(-500);
                }
                if input.fire {
                    self.shoot();
                }
                if input.spawn {
                    self.spawn_comet();
                }
            },
            _ => {
                if input.confirm {
                    self.reset();
                }
            },
        }
    }
}

} // verus!
