//! Ball population effects, paddle movement, timers, blocks and
//! progression.

use breakout_core::ball::{duplicate_balls, enlarge_balls, handle_ball_timer, Ball};
use breakout_core::block::{block_go_down, spawn_blocks, spawn_column, spawn_new_blocks, Block};
use breakout_core::config::{MainBox, BALL_TIMEOUT, BLOCK_SIZE_X, BLOCK_SIZE_Y, GO_DOWN_PERIOD};
use breakout_core::geom::Vec2i;
use breakout_core::paddle::{exp_progress_permille, handle_paddle_timer, level_exp_cap, level_up,
    move_paddle, Level, Paddle};
use breakout_core::timer::GameTimer;

fn v(x: i64, y: i64) -> Vec2i {
    Vec2i { x, y }
}

fn ball_at(x: i64, y: i64, vx: i64, vy: i64) -> Ball {
    Ball { pos: v(x, y), vel: v(vx, vy), size: v(30_000, 30_000), attack: 1 }
}

#[test]
fn duplication_doubles_population_with_negated_velocities() {
    let mut balls = vec![
        ball_at(0, 0, 200, -200),
        ball_at(5_000, 1_000, -10, 30),
        ball_at(-2_000, 7_000, 0, -50),
    ];
    let originals = balls.clone();
    duplicate_balls(&mut balls);
    assert_eq!(balls.len(), 6);
    for i in 0..3 {
        assert_eq!(balls[i], originals[i]);
        assert_eq!(balls[3 + i].pos, originals[i].pos);
        assert_eq!(balls[3 + i].vel.x, -originals[i].vel.x);
        assert_eq!(balls[3 + i].vel.y, -originals[i].vel.y);
    }
}

#[test]
fn duplication_of_empty_population_is_empty() {
    let mut balls: Vec<Ball> = Vec::new();
    duplicate_balls(&mut balls);
    assert_eq!(balls.len(), 0);
}

#[test]
fn enlargement_reverts_exactly_once_at_single_expiry() {
    let mut balls = vec![ball_at(0, 0, 200, -200)];
    let mut timer: Option<GameTimer> = None;

    enlarge_balls(&mut balls, &mut timer);
    assert_eq!(balls[0].size, v(60_000, 60_000));
    // Collecting again restarts the single countdown instead of stacking.
    enlarge_balls(&mut balls, &mut timer);
    assert_eq!(
        timer,
        Some(GameTimer { elapsed: 0, duration: BALL_TIMEOUT, repeating: false })
    );

    // Not yet expired: size stays enlarged.
    handle_ball_timer(&mut timer, &mut balls, BALL_TIMEOUT - 1);
    assert_eq!(balls[0].size, v(60_000, 60_000));
    assert!(timer.is_some());

    // The advance that finishes the countdown reverts and drops it.
    handle_ball_timer(&mut timer, &mut balls, 1);
    assert_eq!(balls[0].size, v(30_000, 30_000));
    assert_eq!(timer, None);

    // A further advance changes nothing: the revert happened exactly once.
    balls[0].size = v(42, 42);
    handle_ball_timer(&mut timer, &mut balls, BALL_TIMEOUT);
    assert_eq!(balls[0].size, v(42, 42));
    assert_eq!(timer, None);
}

#[test]
fn paddle_timer_reverts_paddle_size() {
    let mut paddle = Paddle { pos: v(0, -250_000), size: v(240_000, 20_000) };
    let mut timer = Some(GameTimer { elapsed: 0, duration: 10_000, repeating: false });
    handle_paddle_timer(&mut timer, &mut paddle, 10_000);
    assert_eq!(paddle.size, v(120_000, 20_000));
    assert_eq!(timer, None);
}

#[test]
fn repeating_timer_wraps_and_reports_each_completion() {
    let mut t = GameTimer::new_repeating(GO_DOWN_PERIOD);
    assert!(!t.tick(GO_DOWN_PERIOD - 1));
    assert!(t.tick(1));
    assert_eq!(t.elapsed, 0);
    assert!(t.tick(GO_DOWN_PERIOD + 5));
    assert_eq!(t.elapsed, 5);
}

#[test]
fn once_timer_saturates_and_finishes_once() {
    let mut t = GameTimer::new_once(100);
    assert!(!t.tick(99));
    assert!(t.tick(50));
    assert_eq!(t.elapsed, 100);
    // Already finished: a further advance does not complete again.
    assert!(!t.tick(10));
}

#[test]
fn paddle_movement_clamps_at_playfield_edge() {
    let mb = MainBox::standard();
    let mut paddle = Paddle { pos: v(0, -250_000), size: v(120_000, 20_000) };
    move_paddle(&mut paddle, 1, 1_000, &mb);
    assert_eq!(paddle.pos.x, 500_000);
    move_paddle(&mut paddle, 1, 1_000, &mb);
    // (1_170_000 - 120_000) / 2 = 525_000 is the right edge for the paddle.
    assert_eq!(paddle.pos.x, 525_000);
    move_paddle(&mut paddle, 0, 1_000, &mb);
    assert_eq!(paddle.pos.x, 525_000);
    move_paddle(&mut paddle, -1, 1_000, &mb);
    assert_eq!(paddle.pos.x, 25_000);
}

#[test]
fn initial_formation_is_a_full_grid() {
    let mb = MainBox::standard();
    let blocks = spawn_blocks(&mb);
    assert_eq!(blocks.len(), 60);
    for b in &blocks {
        assert_eq!(b.size, v(BLOCK_SIZE_X, BLOCK_SIZE_Y));
        assert_eq!(b.health, 1);
    }
    // First block: top-left corner of the formation.
    assert_eq!(blocks[0].pos, v(-533_959, 267_500));
    // Second block of the first column sits two slots below the first.
    assert_eq!(blocks[1].pos, v(-533_959, 267_500 - 60_000));
    // First block of the second column sits one column width to the right.
    assert_eq!(blocks[5].pos, v(-533_959 + 97_083, 267_500));
}

#[test]
fn descent_shifts_blocks_and_every_second_descent_spawns_a_row() {
    let mb = MainBox::standard();
    let mut blocks = vec![Block {
        pos: v(0, 267_500),
        size: v(BLOCK_SIZE_X, BLOCK_SIZE_Y),
        health: 1,
    }];
    let mut timer = GameTimer::new_repeating(GO_DOWN_PERIOD);
    let mut counter: u32 = 0;

    let moved = block_go_down(&mut timer, &mut blocks, GO_DOWN_PERIOD);
    assert!(moved);
    assert_eq!(blocks[0].pos.y, 267_500 - 30_000);
    spawn_new_blocks(&mut counter, moved, &mut blocks, &mb);
    assert_eq!(counter, 1);
    assert_eq!(blocks.len(), 1);

    let moved = block_go_down(&mut timer, &mut blocks, GO_DOWN_PERIOD);
    assert!(moved);
    spawn_new_blocks(&mut counter, moved, &mut blocks, &mb);
    assert_eq!(counter, 0);
    assert_eq!(blocks.len(), 13);
    assert_eq!(blocks[1].pos, v(-533_959, 267_500));

    // No descent, no movement and no spawn.
    let moved = block_go_down(&mut timer, &mut blocks, 1);
    assert!(!moved);
    spawn_new_blocks(&mut counter, moved, &mut blocks, &mb);
    assert_eq!(blocks.len(), 13);
}

#[test]
fn spawn_column_is_one_full_width_row() {
    let mb = MainBox::standard();
    let row = spawn_column(&mb);
    assert_eq!(row.len(), 12);
    assert_eq!(row[0].pos, v(-533_959, 267_500));
    assert_eq!(row[11].pos, v(-533_959 + 11 * 97_083, 267_500));
}

#[test]
fn level_threshold_formula() {
    // base 50, growth 3/2: threshold = 50 * (1 + 1.5 * level), truncated.
    assert_eq!(level_exp_cap(0), 50);
    assert_eq!(level_exp_cap(1), 125);
    assert_eq!(level_exp_cap(2), 200);
    assert_eq!(level_exp_cap(10), 800);
}

#[test]
fn progression_carries_surplus_over() {
    let mut l = Level { level: 0, exp: 0 };
    let leveled = level_up(&mut l, 60);
    assert_eq!(l.level, 1);
    assert_eq!(l.exp, 10);
    assert_eq!(leveled, Some(1));
}

#[test]
fn progression_requires_strictly_more_than_the_threshold() {
    let mut l = Level { level: 0, exp: 0 };
    let leveled = level_up(&mut l, 50);
    assert_eq!(l.level, 0);
    assert_eq!(l.exp, 50);
    assert_eq!(leveled, None);
}

#[test]
fn exp_progress_is_measured_against_the_threshold() {
    assert_eq!(exp_progress_permille(&Level { level: 0, exp: 25 }), 500);
    assert_eq!(exp_progress_permille(&Level { level: 0, exp: 0 }), 0);
    assert_eq!(exp_progress_permille(&Level { level: 1, exp: 125 }), 1000);
}
