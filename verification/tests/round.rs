//! Collision resolution bookkeeping, round setup, the fixed tick and the
//! win/loss evaluation.

use breakout_core::ball::Ball;
use breakout_core::block::Block;
use breakout_core::config::MainBox;
use breakout_core::geom::Vec2i;
use breakout_core::paddle::{Level, Paddle};
use breakout_core::powerup::Powerup;
use breakout_core::resolve::check_ball_collision;
use breakout_core::timer::GameTimer;
use breakout_core::world::{check_ball_out_of_bound, setup_game, RoundState, Wall, World};

fn v(x: i64, y: i64) -> Vec2i {
    Vec2i { x, y }
}

fn ball_at(x: i64, y: i64, vx: i64, vy: i64) -> Ball {
    Ball { pos: v(x, y), vel: v(vx, vy), size: v(30_000, 30_000), attack: 1 }
}

fn far_paddle() -> Paddle {
    Paddle { pos: v(500_000, 500_000), size: v(10_000, 10_000) }
}

/// A bare world around the given populations, ready to tick.
fn world_with(balls: Vec<Ball>, blocks: Vec<Block>) -> World {
    World {
        balls,
        paddle: far_paddle(),
        walls: Vec::new(),
        blocks,
        powerups: Vec::new(),
        score: 0,
        level: Level { level: 0, exp: 0 },
        ball_timer: None,
        paddle_timer: None,
        descent_timer: GameTimer::new_repeating(10_000),
        descent_counter: 0,
        main_box: MainBox::standard(),
        state: RoundState::Playing,
    }
}

#[test]
fn block_destroyed_on_exactly_the_third_hit() {
    // A ball resting against a block of health 3 with attack 1: the block
    // survives two resolutions and is destroyed, and scored, on the third.
    let mut balls = vec![ball_at(0, 0, 0, -10)];
    let mut blocks = vec![Block { pos: v(0, -20_000), size: v(40_000, 20_000), health: 3 }];
    let paddle = far_paddle();
    let walls: Vec<Wall> = Vec::new();
    let mut score: u32 = 0;

    let ev = check_ball_collision(&mut balls, &mut blocks, &paddle, &walls, &mut score);
    assert_eq!(blocks.len(), 1);
    assert_eq!(blocks[0].health, 2);
    assert_eq!(score, 0);
    assert_eq!(ev.destroyed, 0);
    assert_eq!(ev.hits, 1);

    let ev = check_ball_collision(&mut balls, &mut blocks, &paddle, &walls, &mut score);
    assert_eq!(blocks[0].health, 1);
    assert_eq!(score, 0);
    assert_eq!(ev.destroyed, 0);

    let ev = check_ball_collision(&mut balls, &mut blocks, &paddle, &walls, &mut score);
    assert_eq!(blocks.len(), 0);
    assert_eq!(score, 1);
    assert_eq!(ev.destroyed, 1);
    assert_eq!(ev.sites, vec![v(0, -20_000)]);
}

#[test]
fn first_hit_reflects_only_the_approaching_component() {
    // The ball moves down onto the block's top side: the vertical component
    // negates and the horizontal stays.
    let mut balls = vec![ball_at(0, 0, 7, -10)];
    let mut blocks = vec![Block { pos: v(0, -20_000), size: v(40_000, 20_000), health: 2 }];
    let paddle = far_paddle();
    let walls: Vec<Wall> = Vec::new();
    let mut score: u32 = 0;

    check_ball_collision(&mut balls, &mut blocks, &paddle, &walls, &mut score);
    assert_eq!(balls[0].vel, v(7, 10));
}

#[test]
fn each_ball_resolves_at_most_one_collision_per_tick() {
    // One ball overlapping two blocks: only the first block in population
    // order is damaged this tick.
    let mut balls = vec![ball_at(0, 0, 0, -10)];
    let mut blocks = vec![
        Block { pos: v(0, -20_000), size: v(40_000, 20_000), health: 2 },
        Block { pos: v(0, 20_000), size: v(40_000, 20_000), health: 2 },
    ];
    let paddle = far_paddle();
    let walls: Vec<Wall> = Vec::new();
    let mut score: u32 = 0;

    let ev = check_ball_collision(&mut balls, &mut blocks, &paddle, &walls, &mut score);
    assert_eq!(ev.hits, 1);
    assert_eq!(blocks[0].health, 1);
    assert_eq!(blocks[1].health, 2);
}

#[test]
fn balls_below_the_playfield_despawn() {
    let mb = MainBox::standard();
    // Lower edge at y - 15_000 against the bound -285_000.
    let mut balls = vec![ball_at(0, -269_000, 0, 0), ball_at(0, -271_000, 0, 0)];
    check_ball_out_of_bound(&mut balls, &mb);
    assert_eq!(balls.len(), 1);
    assert_eq!(balls[0].pos, v(0, -269_000));
}

#[test]
fn setup_starts_a_fresh_round() {
    let w = setup_game();
    assert_eq!(w.balls.len(), 1);
    assert_eq!(w.balls[0].pos, v(-70_000, 1_000));
    assert_eq!(w.balls[0].vel, v(200, -200));
    assert_eq!(w.walls.len(), 4);
    assert_eq!(w.blocks.len(), 60);
    assert_eq!(w.powerups.len(), 0);
    assert_eq!(w.score, 0);
    assert_eq!(w.level, Level { level: 0, exp: 0 });
    assert_eq!(w.state, RoundState::Playing);
    assert_eq!(w.paddle.pos, v(0, -250_000));
}

#[test]
fn destroying_a_block_scores_and_grants_experience() {
    // One tick in which the only ball destroys a health-1 block out of a
    // population of two: score 1, experience 1, block count down by one.
    let ball = ball_at(0, -10, 0, 0);
    let blocks = vec![
        Block { pos: v(0, -20_000), size: v(40_000, 20_000), health: 1 },
        Block { pos: v(300_000, 0), size: v(40_000, 20_000), health: 1 },
    ];
    let mut w = world_with(vec![ball], blocks);
    let report = w.tick(1);
    assert_eq!(w.score, 1);
    assert_eq!(w.level.exp, 1);
    assert_eq!(w.blocks.len(), 1);
    assert_eq!(w.balls.len(), 1);
    assert_eq!(report.destroyed, 1);
    assert_eq!(report.collisions, 1);
    assert_eq!(report.level_up, None);
    assert_eq!(w.state, RoundState::Playing);
}

#[test]
fn losing_the_last_ball_ends_the_round_lost() {
    let ball = ball_at(0, -280_000, 0, 0);
    let blocks = vec![Block { pos: v(0, 0), size: v(40_000, 20_000), health: 1 }];
    let mut w = world_with(vec![ball], blocks);
    w.tick(1);
    assert_eq!(w.balls.len(), 0);
    assert_eq!(w.state, RoundState::Lost);
}

#[test]
fn destroying_the_last_block_ends_the_round_won() {
    let ball = ball_at(0, -10, 0, 0);
    let blocks = vec![Block { pos: v(0, -20_000), size: v(40_000, 20_000), health: 1 }];
    let mut w = world_with(vec![ball], blocks);
    w.tick(1);
    assert_eq!(w.blocks.len(), 0);
    assert_eq!(w.balls.len(), 1);
    assert_eq!(w.state, RoundState::Won);
}

#[test]
fn emptying_both_populations_in_one_tick_is_a_loss() {
    // The ball destroys the last block and falls below the bound in the
    // same tick: the loss check takes precedence over the win check.
    let ball = ball_at(0, -272_000, 0, 0);
    let blocks = vec![Block { pos: v(0, -280_000), size: v(40_000, 20_000), health: 1 }];
    let mut w = world_with(vec![ball], blocks);
    w.tick(1);
    assert_eq!(w.balls.len(), 0);
    assert_eq!(w.blocks.len(), 0);
    assert_eq!(w.state, RoundState::Lost);
}

#[test]
fn ticking_integrates_velocity() {
    let ball = ball_at(0, 0, 200, -200);
    let mut w = world_with(vec![ball], vec![Block {
        pos: v(400_000, 0),
        size: v(40_000, 20_000),
        health: 1,
    }]);
    w.tick(1000);
    assert_eq!(w.balls[0].pos, v(200_000, -200_000));
}
