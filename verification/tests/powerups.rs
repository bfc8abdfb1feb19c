//! Powerup draws, spawning, pickup effects and despawn.

use breakout_core::ball::Ball;
use breakout_core::config::{MainBox, BALL_TIMEOUT, PADDLE_TIMEOUT};
use breakout_core::geom::Vec2i;
use breakout_core::paddle::Paddle;
use breakout_core::pickup::check_powerups_collision;
use breakout_core::powerup::{check_powerups_out_of_bounds, make_powerup, powerup_from_draw,
    spawn_powerup, Powerup, PowerupClass};
use breakout_core::timer::GameTimer;

fn v(x: i64, y: i64) -> Vec2i {
    Vec2i { x, y }
}

fn ball_at(x: i64, y: i64, vx: i64, vy: i64) -> Ball {
    Ball { pos: v(x, y), vel: v(vx, vy), size: v(30_000, 30_000), attack: 1 }
}

fn powerup_over_paddle(class: PowerupClass) -> Powerup {
    make_powerup(class, v(0, -245_000))
}

fn paddle() -> Paddle {
    Paddle { pos: v(0, -250_000), size: v(120_000, 20_000) }
}

#[test]
fn draw_accepts_exactly_two_rolls_in_ten_per_class() {
    // Over the whole draw space of 3 classes x 10 rolls, exactly 2 rolls
    // accept each class: a 1/3 x 2/10 chance per class per destruction.
    let mut total = 0;
    let mut per_class = [0usize; 3];
    for index in 0..3u32 {
        for roll in 0..10u32 {
            if let Some(class) = powerup_from_draw(index, roll) {
                total += 1;
                match class {
                    PowerupClass::DuplicateBall => per_class[0] += 1,
                    PowerupClass::EnlargeBall => per_class[1] += 1,
                    PowerupClass::EnlargePaddle => per_class[2] += 1,
                }
                assert!(roll < 2);
            }
        }
    }
    assert_eq!(total, 6);
    assert_eq!(per_class, [2, 2, 2]);
}

#[test]
fn spawn_rate_is_about_one_in_five() {
    // Statistical: each destruction spawns with probability 0.2 overall
    // (2/10 acceptance after a uniform class pick). Over 3000 draws the
    // count concentrates far inside these bounds.
    let mut spawned = 0;
    let mut per_class = [0usize; 3];
    for _ in 0..3000 {
        if let Some(p) = spawn_powerup(v(0, 0)) {
            spawned += 1;
            match p.class {
                PowerupClass::DuplicateBall => per_class[0] += 1,
                PowerupClass::EnlargeBall => per_class[1] += 1,
                PowerupClass::EnlargePaddle => per_class[2] += 1,
            }
            assert_eq!(p.pos, v(0, 0));
            assert_eq!(p.size, v(15_000, 15_000));
            assert_eq!(p.vel, v(0, -50));
        }
    }
    assert!(300 < spawned && spawned < 1000, "spawned {} of 3000", spawned);
    for count in per_class {
        assert!(50 < count && count < 450, "class count {}", count);
    }
}

#[test]
fn pickup_duplicates_every_ball_in_play() {
    let mut powerups = vec![powerup_over_paddle(PowerupClass::DuplicateBall)];
    let mut balls = vec![ball_at(0, 0, 200, -200), ball_at(1_000, 2_000, -10, 30)];
    let mut paddle = paddle();
    let mut ball_timer: Option<GameTimer> = None;
    let mut paddle_timer: Option<GameTimer> = None;

    check_powerups_collision(
        &mut powerups,
        &mut balls,
        &mut paddle,
        &mut ball_timer,
        &mut paddle_timer,
    );

    assert_eq!(powerups.len(), 0);
    assert_eq!(balls.len(), 4);
    assert_eq!(balls[2].vel, v(-200, 200));
    assert_eq!(balls[3].vel, v(10, -30));
    assert_eq!(ball_timer, None);
}

#[test]
fn collecting_enlarge_ball_twice_keeps_one_fresh_countdown() {
    let mut powerups = vec![
        powerup_over_paddle(PowerupClass::EnlargeBall),
        powerup_over_paddle(PowerupClass::EnlargeBall),
    ];
    let mut balls = vec![ball_at(0, 0, 200, -200)];
    let mut paddle = paddle();
    let mut ball_timer: Option<GameTimer> = None;
    let mut paddle_timer: Option<GameTimer> = None;

    check_powerups_collision(
        &mut powerups,
        &mut balls,
        &mut paddle,
        &mut ball_timer,
        &mut paddle_timer,
    );

    assert_eq!(powerups.len(), 0);
    assert_eq!(balls[0].size, v(60_000, 60_000));
    assert_eq!(
        ball_timer,
        Some(GameTimer { elapsed: 0, duration: BALL_TIMEOUT, repeating: false })
    );
    assert_eq!(paddle_timer, None);
}

#[test]
fn pickup_enlarges_paddle_and_starts_its_countdown() {
    let mut powerups = vec![powerup_over_paddle(PowerupClass::EnlargePaddle)];
    let mut balls = vec![ball_at(0, 0, 200, -200)];
    let mut paddle = paddle();
    let mut ball_timer: Option<GameTimer> = None;
    let mut paddle_timer: Option<GameTimer> = None;

    check_powerups_collision(
        &mut powerups,
        &mut balls,
        &mut paddle,
        &mut ball_timer,
        &mut paddle_timer,
    );

    assert_eq!(paddle.size, v(240_000, 20_000));
    assert_eq!(
        paddle_timer,
        Some(GameTimer { elapsed: 0, duration: PADDLE_TIMEOUT, repeating: false })
    );
}

#[test]
fn powerup_missing_the_paddle_stays() {
    let mut powerups = vec![make_powerup(PowerupClass::DuplicateBall, v(400_000, 100_000))];
    let mut balls = vec![ball_at(0, 0, 200, -200)];
    let mut paddle = paddle();
    let mut ball_timer: Option<GameTimer> = None;
    let mut paddle_timer: Option<GameTimer> = None;

    check_powerups_collision(
        &mut powerups,
        &mut balls,
        &mut paddle,
        &mut ball_timer,
        &mut paddle_timer,
    );

    assert_eq!(powerups.len(), 1);
    assert_eq!(balls.len(), 1);
}

#[test]
fn powerups_below_the_playfield_despawn() {
    let mb = MainBox::standard();
    let mut powerups = vec![
        make_powerup(PowerupClass::EnlargeBall, v(0, -284_000)),
        make_powerup(PowerupClass::EnlargeBall, v(0, -286_000)),
    ];
    check_powerups_out_of_bounds(&mut powerups, &mb);
    assert_eq!(powerups.len(), 1);
    assert_eq!(powerups[0].pos, v(0, -284_000));
}
