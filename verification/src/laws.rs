//! Laws of the game that span more than one operation, stated and proved
//! over the same spec functions the operations' own contracts use.

use vstd::prelude::*;
use crate::comet::Comet;
use crate::comet::Size;
use crate::comet::comet_wf;
use crate::comet::spec_comet_step;
use crate::game_state::GamePhase;
use crate::game_state::GameState;
use crate::game_state::INVINCIBILITY_MS;
use crate::game_state::count_down;
use crate::game_state::play_core_rel;
use crate::game_state::spec_offspring_of;
use crate::game_state::state_wf;
use crate::num::LIM;
use crate::projectile::SCREEN_LIM;
use crate::vec2::Vec2i;

verus! {

/// Splitting policy: a destroyed large comet owes exactly two medium
/// descriptors at its own position, a medium owes two small ones, and a
/// small comet owes none.
pub proof fn lemma_split_policy(c: Comet)
    ensures
        c.size == Size::Three ==> spec_offspring_of(c) == seq![
            (Size::Two, c.shape.pos),
            (Size::Two, c.shape.pos),
        ],
        c.size == Size::Two ==> spec_offspring_of(c) == seq![
            (Size::One, c.shape.pos),
            (Size::One, c.shape.pos),
        ],
        c.size == Size::One ==> spec_offspring_of(c).len() == 0,
{
}

/// Invincibility within a tick: a playing state whose invincibility timer
/// has not yet run out loses no life in the tick; a tick takes at most one
/// life; a life lost recharges the timer to the full window; and the phase
/// ends exactly when the lives reach zero — they never go negative.
pub proof fn lemma_invincibility_window(pre: GameState, cs0: Seq<Comet>, post: GameState)
    requires
        state_wf(pre),
        pre.game_state == GamePhase::PLAY,
        play_core_rel(pre, cs0, post),
    ensures
        pre.invincibility_timer > 0 ==> post.player_lives == pre.player_lives,
        pre.player_lives - 1 <= post.player_lives as int <= pre.player_lives as int,
        post.player_lives as int == pre.player_lives - 1 ==> post.invincibility_timer
            == INVINCIBILITY_MS,
        post.player_lives == 0 <==> post.game_state == GamePhase::END,
{
}

/// Invincibility across the real-time clock: refreshing the cooldowns by
/// less than the remaining window leaves the window open, so by the previous
/// law the following tick still loses no life.
pub proof fn lemma_invincibility_persists(inv: int, dt: int)
    requires
        0 <= dt < inv,
    ensures
        count_down(inv, dt) > 0,
{
}

/// Wraparound round trip: a comet that crosses the low x edge this tick is
/// relocated to the far edge plus its wrap margin in that same tick, and
/// after one further tick with its velocity reversed it sits exactly on the
/// near wrap boundary again, at its original y coordinate.
pub proof fn lemma_comet_wrap_round_trip(c: Comet, w: int, h: int)
    requires
        comet_wf(c),
        0 < w <= SCREEN_LIM as int,
        0 < h <= SCREEN_LIM as int,
        c.vel.x < 0,
        c.shape.pos.x + c.vel.x <= -(2 * c.shape.radius as int),
        -(LIM as int) <= c.shape.pos.x + c.vel.x,
        w + 2 * c.shape.radius - c.vel.x <= LIM as int,
        -(LIM as int) <= c.shape.pos.y + c.vel.y <= LIM as int,
    ensures
        spec_comet_step(c, w, h).shape.pos.x as int == w + 2 * c.shape.radius,
        spec_comet_step(c, w, h).shape.pos.y as int == c.shape.pos.y + c.vel.y,
        ({
            let c1 = spec_comet_step(c, w, h);
            let back = Comet {
                vel: Vec2i { x: (-c.vel.x as int) as i64, y: (-c.vel.y as int) as i64 },
                ..c1
            };
            let c2 = spec_comet_step(back, w, h);
            c2.shape.pos.x as int == -(2 * c.shape.radius as int) && c2.shape.pos.y
                == c.shape.pos.y
        }),
{
    let m = 2 * c.shape.radius as int;
    let c1 = spec_comet_step(c, w, h);
    assert(c1.shape.pos.x as int == w + m);
    assert(c1.shape.pos.y as int == c.shape.pos.y + c.vel.y);
    let back = Comet {
        vel: Vec2i { x: (-c.vel.x as int) as i64, y: (-c.vel.y as int) as i64 },
        ..c1
    };
    let c2 = spec_comet_step(back, w, h);
    assert(c1.shape.pos.x + back.vel.x == w + m - c.vel.x);
    assert(c2.shape.pos.x as int == -m);
    assert(c2.shape.pos.y == c.shape.pos.y);
}

} // verus!
