//! End-to-end and unit tests for the game core, in milli-units (one screen
//! unit = 1000) and milliseconds. The screen is 800 by 600 units throughout.

use asteroids::comet::{Comet, Size};
use asteroids::game_state::{GamePhase, GameState, InputState};
use asteroids::player::Player;
use asteroids::projectile::Projectile;
use asteroids::vec2::Vec2i;

const W: i64 = 800_000;
const H: i64 = 600_000;

fn no_input() -> InputState {
    InputState {
        left: false,
        right: false,
        up: false,
        down: false,
        fire: false,
        spawn: false,
        confirm: false,
    }
}

fn v(x: i64, y: i64) -> Vec2i {
    Vec2i { x, y }
}

fn len_sq(a: Vec2i) -> i128 {
    a.x as i128 * a.x as i128 + a.y as i128 * a.y as i128
}

#[test]
fn spawn_matches_tier_table() {
    for (size, radius, sides, speed, lo, hi) in [
        (Size::Three, 50_000i64, 7u32, 2i64, -50i64, 54i64),
        (Size::Two, 40_000, 5, 3, -100, 132),
        (Size::One, 30_000, 3, 5, -200, 232),
    ] {
        let c = Comet::spawn(size, None, W, H);
        assert_eq!(c.get_size(), size);
        assert!(c.is_alive());
        assert_eq!(c.get_shape().get_rad(), radius);
        assert_eq!(c.get_shape().sides, sides);
        assert!(lo <= c.rot_speed && c.rot_speed < hi);
        assert!(len_sq(c.vel) <= (speed * 1000) as i128 * (speed * 1000) as i128);
        let p = c.get_pos();
        assert!(0 <= p.x && p.x <= W && 0 <= p.y && p.y <= H);
        assert!(p.x == 0 || p.x == W || p.y == 0 || p.y == H);
        // the drift is biased inward from the spawn edge
        assert!(
            (p.x == 0 && c.vel.x >= 0)
                || (p.y == 0 && c.vel.y >= 0)
                || (p.x == W && c.vel.x <= 0)
                || (p.y == H && c.vel.y <= 0)
        );
    }
}

#[test]
fn hand_built_comet_scales_speed_and_size() {
    let c = Comet::new(5, 2000, W, H);
    assert_eq!(c.get_size(), Size::Three);
    assert!(c.is_alive());
    assert_eq!(c.get_shape().sides, 5);
    assert_eq!(c.get_shape().get_rad(), 50_000);
    assert!(-100 <= c.rot_speed && c.rot_speed < 132);
    assert!(len_sq(c.vel) <= 2000i128 * 2000);
}

#[test]
fn spawn_from_is_exact() {
    let c = Comet::spawn_from(Size::Two, v(123_000, 456_000), v(0, 1000), 77);
    assert_eq!(c.get_size(), Size::Two);
    assert_eq!(c.get_pos(), v(123_000, 456_000));
    assert_eq!(c.vel, v(0, 3000));
    assert_eq!(c.rot_speed, 77);
    assert_eq!(c.get_shape().get_rad(), 40_000);
    assert_eq!(c.get_shape().sides, 5);
    assert!(c.is_alive());
}

#[test]
fn projectile_into_large_comet_splits_to_two_medium() {
    let mut st = GameState::new(W, H);
    st.reset_with_comet(Comet::spawn_from(Size::Three, v(400_000, 200_000), v(0, 0), 0));
    st.shoot();
    assert_eq!(st.get_projectiles().len(), 1);
    st.update();
    st.update();
    st.update();
    assert_eq!(st.get_comets().len(), 2);
    for c in st.get_comets().iter() {
        assert_eq!(c.get_size(), Size::Two);
        assert_eq!(c.get_pos(), v(400_000, 200_000));
        assert_eq!(c.get_shape().get_rad(), 40_000);
        assert_eq!(c.get_shape().sides, 5);
        assert!(-100 <= c.rot_speed && c.rot_speed < 132);
        assert!(c.is_alive());
    }
    assert_eq!(st.get_projectiles().len(), 0);
    assert_eq!(st.score, 10);
    assert_eq!(st.player_lives, 3);
    assert_eq!(st.game_state, GamePhase::PLAY);
}

#[test]
fn splitting_medium_yields_small_and_small_yields_none() {
    let mut st = GameState::new(W, H);
    st.reset_with_comet(Comet::spawn_from(Size::Two, v(400_000, 200_000), v(0, 0), 0));
    st.shoot();
    for _ in 0..3 {
        st.update();
    }
    assert_eq!(st.get_comets().len(), 2);
    for c in st.get_comets().iter() {
        assert_eq!(c.get_size(), Size::One);
        assert_eq!(c.get_pos(), v(400_000, 200_000));
        assert!(-200 <= c.rot_speed && c.rot_speed < 232);
    }
    assert_eq!(st.score, 10);

    // a small comet is destroyed with no offspring
    let mut st2 = GameState::new(W, H);
    st2.reset_with_comet(Comet::spawn_from(Size::One, v(400_000, 200_000), v(0, 0), 0));
    st2.shoot();
    for _ in 0..4 {
        st2.update();
    }
    assert_eq!(st2.get_comets().len(), 0);
    assert_eq!(st2.get_projectiles().len(), 0);
    assert_eq!(st2.score, 10);
}

#[test]
fn missed_projectile_costs_one_point() {
    let mut st = GameState::new(W, H);
    // a far-away stationary comet that the shot can never reach
    st.reset_with_comet(Comet::spawn_from(Size::Three, v(100_000, 100_000), v(0, 0), 0));
    st.shoot();
    for _ in 0..14 {
        st.update();
    }
    assert_eq!(st.get_projectiles().len(), 0);
    assert_eq!(st.score, -1);
    assert_eq!(st.get_comets().len(), 1);
}

#[test]
fn accelerate_never_exceeds_max_speed() {
    let mut st = GameState::new(W, H);
    st.reset_with_comet(Comet::spawn_from(Size::Three, v(100_000, 100_000), v(0, 0), 0));
    for _ in 0..30 {
        st.accelerate(1000);
        assert!(len_sq(st.player.vel) <= 10_000i128 * 10_000);
    }
    let mut p = Player::new(W, H);
    for _ in 0..10 {
        p.accelerate(1_000_000);
        assert!(len_sq(p.vel) <= 10_000i128 * 10_000);
    }
}

#[test]
fn impulse_is_not_clamped() {
    let mut p = Player::new(W, H);
    p.give_impulse(v(0, -1000), 10_000);
    p.give_impulse(v(0, -1000), 10_000);
    assert_eq!(p.vel, v(0, -20_000));
    assert!(len_sq(p.vel) > 10_000i128 * 10_000);
}

#[test]
fn three_collisions_end_the_game_and_freeze_it() {
    let mut st = GameState::new(W, H);
    // a stationary comet sitting exactly on the ship: overlap every tick,
    // with zero knockback since the centres coincide
    st.reset_with_comet(Comet::spawn_from(Size::Three, v(400_000, 300_000), v(0, 0), 0));
    st.refresh_all_cool_downs(1000); // the starting invincibility runs out
    st.update();
    assert_eq!(st.player_lives, 2);
    assert_eq!(st.game_state, GamePhase::PLAY);
    // within the one-second window no further life is lost
    st.update();
    st.update();
    assert_eq!(st.player_lives, 2);
    st.refresh_all_cool_downs(1000);
    st.update();
    assert_eq!(st.player_lives, 1);
    st.refresh_all_cool_downs(1000);
    st.update();
    assert_eq!(st.player_lives, 0);
    assert_eq!(st.game_state, GamePhase::END);
    // the finished game is frozen: further updates change nothing
    let pos = st.player.get_pos();
    let n_comets = st.get_comets().len();
    let score = st.score;
    st.update();
    st.update();
    assert_eq!(st.player.get_pos(), pos);
    assert_eq!(st.get_comets().len(), n_comets);
    assert_eq!(st.score, score);
    assert_eq!(st.player_lives, 0);
}

#[test]
fn confirm_from_menu_starts_a_fresh_round() {
    let mut st = GameState::new(W, H);
    assert_eq!(st.game_state, GamePhase::MENU);
    let mut input = no_input();
    input.confirm = true;
    st.inputs(&input);
    assert_eq!(st.game_state, GamePhase::PLAY);
    assert_eq!(st.get_comets().len(), 1);
    assert_eq!(st.get_comets()[0].get_size(), Size::Three);
    assert_eq!(st.player.get_pos(), v(W / 2, H / 2));
    assert_eq!(st.player.vel, v(0, 0));
    assert_eq!(st.score, 0);
    assert_eq!(st.player_lives, 3);
    assert_eq!(st.get_projectiles().len(), 0);
}

#[test]
fn reset_from_game_over_restores_a_fresh_round() {
    let mut st = GameState::new(W, H);
    st.reset_with_comet(Comet::spawn_from(Size::Three, v(400_000, 300_000), v(0, 0), 0));
    for _ in 0..3 {
        st.refresh_all_cool_downs(1000);
        st.update();
    }
    assert_eq!(st.game_state, GamePhase::END);
    st.reset();
    assert_eq!(st.game_state, GamePhase::PLAY);
    assert_eq!(st.player_lives, 3);
    assert_eq!(st.score, 0);
    assert_eq!(st.get_comets().len(), 1);
    assert_eq!(st.get_comets()[0].get_size(), Size::Three);
    assert_eq!(st.get_projectiles().len(), 0);
    assert_eq!(st.game_duration, 0);
}

#[test]
fn comet_wraps_to_opposite_edge_and_back() {
    // crossing the low x edge lands on the far edge plus the wrap margin
    let mut c = Comet::spawn_from(Size::Three, v(-99_000, 300_000), v(-1000, 0), 0);
    assert_eq!(c.vel, v(-2000, 0));
    c.update(W, H);
    assert_eq!(c.get_pos(), v(W + 100_000, 300_000));
    // the reverse trip lands back on the near wrap boundary
    let mut back = Comet::spawn_from(Size::Three, c.get_pos(), v(1000, 0), 0);
    back.update(W, H);
    assert_eq!(back.get_pos(), v(-100_000, 300_000));
}

#[test]
fn player_wraps_one_axis_per_tick() {
    let mut p = Player::new(W, H);
    p.pos = v(0, 300_000);
    p.update(W, H);
    assert_eq!(p.get_pos(), v(W, 300_000));
    // a corner crossing corrects only the x axis that tick; with the x
    // checks always matching first, a resting corner ship oscillates along
    // x and its y is never corrected, a deliberate quirk
    let mut q = Player::new(W, H);
    q.pos = v(0, 0);
    q.update(W, H);
    assert_eq!(q.get_pos(), v(W, 0));
    q.update(W, H);
    assert_eq!(q.get_pos(), v(0, 0));
}

#[test]
fn drag_sheds_a_fifth_of_a_unit_per_tick() {
    let mut p = Player::new(W, H);
    p.vel = v(1000, 0);
    p.update(W, H);
    assert_eq!(p.vel, v(800, 0));
    assert_eq!(p.get_pos(), v(W / 2 + 1000, H / 2));
    // below the drag step the velocity zeroes outright
    let mut q = Player::new(W, H);
    q.vel = v(150, 0);
    q.update(W, H);
    assert_eq!(q.vel, v(0, 0));
}

#[test]
fn rotation_step_is_exact_fixed_point() {
    let mut st = GameState::new(W, H);
    st.reset_with_comet(Comet::spawn_from(Size::Three, v(100_000, 100_000), v(0, 0), 0));
    assert_eq!(st.player.get_dir(), v(0, -1000));
    st.rotate(true);
    assert_eq!(st.player.get_dir(), v(148, -988));
}

#[test]
fn timers_count_down_in_every_phase() {
    // the weapon cooldown and the invincibility timer drain even in the
    // menu and after a game over; only play time and the spawn timer are
    // gated on the PLAY phase
    let mut st = GameState::new(W, H);
    assert_eq!(st.game_state, GamePhase::MENU);
    assert_eq!(st.invincibility_timer, 1000);
    st.refresh_all_cool_downs(400);
    assert_eq!(st.invincibility_timer, 600);
    assert_eq!(st.game_duration, 0);
    assert_eq!(st.comet_spawn_timer, 0);
    st.refresh_all_cool_downs(700);
    assert_eq!(st.invincibility_timer, 0);
    // and likewise once the game is over
    let mut over = GameState::new(W, H);
    over.reset_with_comet(Comet::spawn_from(Size::Three, v(400_000, 300_000), v(0, 0), 0));
    for _ in 0..3 {
        over.refresh_all_cool_downs(1000);
        over.update();
    }
    assert_eq!(over.game_state, GamePhase::END);
    assert_eq!(over.invincibility_timer, 1000);
    let duration = over.game_duration;
    over.refresh_all_cool_downs(1000);
    assert_eq!(over.invincibility_timer, 0);
    assert_eq!(over.game_duration, duration);
}

#[test]
fn shoot_respects_the_cooldown() {
    let mut st = GameState::new(W, H);
    st.reset_with_comet(Comet::spawn_from(Size::Three, v(100_000, 100_000), v(0, 0), 0));
    st.shoot();
    st.shoot();
    assert_eq!(st.get_projectiles().len(), 1);
    assert_eq!(st.weapon_cd, 200);
    st.refresh_all_cool_downs(200);
    assert_eq!(st.weapon_cd, 0);
    st.shoot();
    assert_eq!(st.get_projectiles().len(), 2);
}

#[test]
fn spawn_comet_at_is_deterministic() {
    let mut st = GameState::new(W, H);
    st.reset_with_comet(Comet::spawn_from(Size::Three, v(100_000, 100_000), v(0, 0), 0));
    st.spawn_comet_at(Size::One, v(700_000, 500_000), v(-1000, 0), -3);
    assert_eq!(st.get_comets().len(), 2);
    let c = &st.get_comets()[1];
    assert_eq!(c.get_size(), Size::One);
    assert_eq!(c.get_pos(), v(700_000, 500_000));
    assert_eq!(c.vel, v(-5000, 0));
    assert_eq!(c.rot_speed, -3);
}

#[test]
fn spawn_rate_threshold_is_exact() {
    let mut st = GameState::new(W, H);
    st.reset_with_comet(Comet::spawn_from(Size::Three, v(100_000, 100_000), v(0, 0), 0));
    // twenty seconds on the timer at one second of play sits exactly on the
    // threshold
    st.comet_spawn_timer = 19_999;
    st.game_duration = 1_000;
    st.spawn_comet_with_spawn_rate();
    assert_eq!(st.get_comets().len(), 1);
    assert_eq!(st.comet_spawn_timer, 19_999);
    st.comet_spawn_timer = 20_000;
    st.spawn_comet_with_spawn_rate();
    assert_eq!(st.get_comets().len(), 2);
    assert_eq!(st.comet_spawn_timer, 0);
    // at zero duration no spawn is ever due
    st.comet_spawn_timer = 1_000_000_000;
    st.game_duration = 0;
    st.spawn_comet_with_spawn_rate();
    assert_eq!(st.get_comets().len(), 2);
}

#[test]
fn projectile_tip_and_off_screen_margin() {
    let pr = Projectile::new(30_000, v(0, -500), v(400_000, 300_000));
    assert_eq!(pr.dir, v(0, -1000));
    assert_eq!(pr.get_tip_pos(), v(400_000, 290_000));
    assert!(!pr.is_off_screen(W, H));
    let far = Projectile::new(30_000, v(0, -1000), v(400_000, -100_001));
    assert!(far.is_off_screen(W, H));
    let edge = Projectile::new(30_000, v(0, -1000), v(400_000, -100_000));
    assert!(!edge.is_off_screen(W, H));
}

#[test]
fn knockback_pushes_the_player_away() {
    let mut st = GameState::new(W, H);
    // a stationary comet just left of the ship: overlap, knockback along +x
    st.reset_with_comet(Comet::spawn_from(Size::Three, v(350_000, 300_000), v(0, 0), 0));
    st.update();
    assert_eq!(st.player.vel, v(10_000, 0));
    // the starting invincibility still runs, so no life was lost
    assert_eq!(st.player_lives, 3);
}

#[test]
fn triangle_points_follow_the_heading() {
    let p = Player::new(W, H);
    let (a, b, apex) = p.triangle_points();
    assert_eq!(apex, v(400_000, 300_000 - 20_000));
    assert_eq!(a, v(400_000 - 10_000, 300_000 + 10_000));
    assert_eq!(b, v(400_000 + 10_000, 300_000 + 10_000));
}

#[test]
fn steering_inputs_compose_in_order() {
    let mut st = GameState::new(W, H);
    st.reset_with_comet(Comet::spawn_from(Size::Three, v(100_000, 100_000), v(0, 0), 0));
    let mut input = no_input();
    input.right = true;
    input.up = true;
    input.fire = true;
    st.inputs(&input);
    assert_eq!(st.player.get_dir(), v(148, -988));
    // thrust follows the already-rotated heading
    assert_eq!(st.player.vel, v(148, -988));
    assert_eq!(st.get_projectiles().len(), 1);
    assert_eq!(st.weapon_cd, 200);
}
