//! The round's whole state and its fixed-step update: descent, motion,
//! collision resolution, despawns, pickups, progression and the win/loss
//! evaluation.

use vstd::prelude::*;
use crate::ball::{ball_size_two_valued, balls_after_timer, enlarge_timer_after,
    handle_ball_timer, Ball};
use crate::block::{block_go_down, column_spec, descended_seq, spawn_blocks, spawn_new_blocks,
    Block};
use crate::config::{GO_DOWN_PERIOD, MainBox, SPAWN_AFTER_GO_DOWN, WALL_HEIGHT, WALL_THICKNESS,
    WALL_WIDTH};
use crate::geom::{advance_point, advanced, Vec2i, DT_LIMIT};
use crate::paddle::{handle_paddle_timer, level_after_gain, level_up, paddle_after_timer,
    paddle_size_two_valued, paddle_timer_after, sat_u32, Level, Paddle};
use crate::pickup::{check_powerups_collision, lemma_pickups_keep_sizes_two_valued, pickups_upto,
    PickupState};
use crate::powerup::{check_powerups_out_of_bounds, kept_powerups, spawn_powerups, spawned_seq,
    Powerup, PowerupClass};
use crate::resolve::{check_ball_collision, lemma_resolve_upto_keeps_ball_fields, live_blocks,
    resolve_upto, HitState};
use crate::timer::GameTimer;

verus! {

/// One of the four static walls bounding the playfield.
#[derive(Clone, Copy, PartialEq, Eq, Structural, Debug)]
pub struct Wall {
    pub pos: Vec2i,
    pub size: Vec2i,
}

impl Wall {
    pub open spec fn wf(self) -> bool {
        &&& self.pos.wf_pos()
        &&& self.size.wf_size()
    }
}

/// Where the round stands: still running, lost (no balls left) or won
/// (no blocks left). `Lost` and `Won` are terminal.
#[derive(Clone, Copy, PartialEq, Eq, Structural, Debug)]
pub enum RoundState {
    Playing,
    Lost,
    Won,
}

/// The whole state of one round.
pub struct World {
    pub balls: Vec<Ball>,
    pub paddle: Paddle,
    pub walls: Vec<Wall>,
    pub blocks: Vec<Block>,
    pub powerups: Vec<Powerup>,
    pub score: u32,
    pub level: Level,
    pub ball_timer: Option<GameTimer>,
    pub paddle_timer: Option<GameTimer>,
    pub descent_timer: GameTimer,
    pub descent_counter: u32,
    pub main_box: MainBox,
    pub state: RoundState,
}

impl World {
    /// Well-formedness: every entity is in range, the timers are sound
    /// and the descent counter stays below its modulus.
    pub open spec fn wf(self) -> bool {
        &&& forall|k: int| 0 <= k < self.balls@.len() ==> (#[trigger] self.balls@[k]).wf()
        &&& self.paddle.wf()
        &&& forall|k: int| 0 <= k < self.walls@.len() ==> (#[trigger] self.walls@[k]).wf()
        &&& forall|k: int| 0 <= k < self.blocks@.len() ==> (#[trigger] self.blocks@[k]).wf()
        &&& forall|k: int| 0 <= k < self.powerups@.len() ==> (#[trigger] self.powerups@[k]).wf()
        &&& match self.ball_timer {
            Some(t) => t.wf(),
            None => true,
        }
        &&& match self.paddle_timer {
            Some(t) => t.wf(),
            None => true,
        }
        &&& self.descent_timer.wf()
        &&& self.descent_counter < SPAWN_AFTER_GO_DOWN
        &&& self.level.wf()
        &&& self.main_box.wf()
    }
}

/// A ball advanced by its velocity over `dt`.
pub open spec fn advanced_ball(b: Ball, dt: u32) -> Ball {
    Ball {
        pos: Vec2i {
            x: advanced(b.pos.x as int, b.vel.x as int, dt as int) as i64,
            y: advanced(b.pos.y as int, b.vel.y as int, dt as int) as i64,
        },
        ..b
    }
}

pub open spec fn advanced_balls(s: Seq<Ball>, dt: u32) -> Seq<Ball> {
    Seq::new(s.len(), |i: int| advanced_ball(s[i], dt))
}

/// A powerup advanced by its velocity over `dt`.
pub open spec fn advanced_powerup(p: Powerup, dt: u32) -> Powerup {
    Powerup {
        pos: Vec2i {
            x: advanced(p.pos.x as int, p.vel.x as int, dt as int) as i64,
            y: advanced(p.pos.y as int, p.vel.y as int, dt as int) as i64,
        },
        ..p
    }
}

pub open spec fn advanced_powerups(s: Seq<Powerup>, dt: u32) -> Seq<Powerup> {
    Seq::new(s.len(), |i: int| advanced_powerup(s[i], dt))
}

/// Advance every moving entity — balls and powerups — by its velocity
/// over `dt` milliseconds.
pub fn apply_velocity(balls: &mut Vec<Ball>, powerups: &mut Vec<Powerup>, dt: u32)
    requires
        forall|k: int| 0 <= k < old(balls)@.len() ==> #[trigger] old(balls)@[k].wf(),
        forall|k: int| 0 <= k < old(powerups)@.len() ==> #[trigger] old(powerups)@[k].wf(),
        dt <= DT_LIMIT,
    ensures
        final(balls)@ == advanced_balls(old(balls)@, dt),
        final(powerups)@ == advanced_powerups(old(powerups)@, dt),
        forall|k: int| 0 <= k < final(balls)@.len() ==> #[trigger] final(balls)@[k].wf(),
        forall|k: int| 0 <= k < final(powerups)@.len() ==> #[trigger] final(powerups)@[k].wf(),
{
    let n = balls.len();
    for i in 0..n
        invariant
            n == balls@.len(),
            balls@.len() == old(balls)@.len(),
            dt <= DT_LIMIT,
            forall|j: int| 0 <= j < old(balls)@.len() ==> #[trigger] old(balls)@[j].wf(),
            forall|j: int| 0 <= j < i ==> balls@[j] == advanced_ball(old(balls)@[j], dt),
            forall|j: int| 0 <= j < i ==> #[trigger] balls@[j].wf(),
            forall|j: int| i <= j < n ==> balls@[j] == old(balls)@[j],
    {
        let mut b = balls[i];
        proof {
            assert(old(balls)@[i as int].wf());
        }
        b.pos = advance_point(b.pos, b.vel, dt);
        balls.set(i, b);
    }
    proof {
        assert(balls@ =~= advanced_balls(old(balls)@, dt));
    }

    let m = powerups.len();
    for i in 0..m
        invariant
            m == powerups@.len(),
            powerups@.len() == old(powerups)@.len(),
            dt <= DT_LIMIT,
            forall|j: int| 0 <= j < old(powerups)@.len() ==> #[trigger] old(powerups)@[j].wf(),
            forall|j: int| 0 <= j < i ==> powerups@[j] == advanced_powerup(old(powerups)@[j], dt),
            forall|j: int| 0 <= j < i ==> #[trigger] powerups@[j].wf(),
            forall|j: int| i <= j < m ==> powerups@[j] == old(powerups)@[j],
    {
        let mut p = powerups[i];
        proof {
            assert(old(powerups)@[i as int].wf());
        }
        p.pos = advance_point(p.pos, p.vel, dt);
        powerups.set(i, p);
    }
    proof {
        assert(powerups@ =~= advanced_powerups(old(powerups)@, dt));
    }
}

/// The bottom bound below which a ball despawns: its top-to-center half
/// height must keep it above the playfield's lower edge.
pub open spec fn ball_min_y(mb: MainBox) -> int {
    -(mb.size.y / 2)
}

/// The balls that remain in play: those whose lower edge has not passed
/// below the playfield's bottom bound, in order.
pub open spec fn kept_balls(s: Seq<Ball>, min_y: int) -> Seq<Ball>
    decreases s.len(),
{
    if s.len() == 0 {
        Seq::empty()
    } else {
        let rest = kept_balls(s.drop_last(), min_y);
        if s.last().pos.y - s.last().size.y / 2 >= min_y {
            rest.push(s.last())
        } else {
            rest
        }
    }
}

/// Despawn every ball whose lower edge has left the playfield below its
/// bottom bound, keeping the rest in order.
pub fn check_ball_out_of_bound(balls: &mut Vec<Ball>, mb: &MainBox)
    requires
        mb.wf(),
        forall|k: int| 0 <= k < old(balls)@.len() ==> #[trigger] old(balls)@[k].wf(),
    ensures
        final(balls)@ == kept_balls(old(balls)@, ball_min_y(*mb)),
        forall|k: int| 0 <= k < final(balls)@.len() ==> #[trigger] final(balls)@[k].wf(),
{
    let min_y: i64 = -(mb.size.y / 2);
    let mut kept: Vec<Ball> = Vec::new();
    let n = balls.len();
    for i in 0..n
        invariant
            n == balls@.len(),
            balls@ == old(balls)@,
            min_y == ball_min_y(*mb),
            forall|k: int| 0 <= k < balls@.len() ==> #[trigger] balls@[k].wf(),
            kept@ == kept_balls(balls@.subrange(0, i as int), min_y as int),
            forall|k: int| 0 <= k < kept@.len() ==> #[trigger] kept@[k].wf(),
    {
        let b = balls[i];
        proof {
            assert(balls@[i as int].wf());
            assert(balls@.subrange(0, i + 1).drop_last() =~= balls@.subrange(0, i as int));
            assert(balls@.subrange(0, i + 1).last() == balls@[i as int]);
        }
        if b.pos.y - b.size.y / 2 >= min_y {
            kept.push(b);
        }
    }
    proof {
        assert(balls@.subrange(0, n as int) =~= balls@);
    }
    *balls = kept;
}

/// The four walls bounding the playfield, in population order: top,
/// bottom, right, left. The horizontal pair spans the full width plus one
/// thickness; the vertical pair spans the full height plus one thickness.
pub open spec fn walls_spec() -> Seq<Wall> {
    seq![
        Wall {
            pos: Vec2i { x: 0, y: (WALL_HEIGHT / 2) as i64 },
            size: Vec2i { x: (WALL_WIDTH + WALL_THICKNESS) as i64, y: WALL_THICKNESS },
        },
        Wall {
            pos: Vec2i { x: 0, y: (-(WALL_HEIGHT / 2)) as i64 },
            size: Vec2i { x: (WALL_WIDTH + WALL_THICKNESS) as i64, y: WALL_THICKNESS },
        },
        Wall {
            pos: Vec2i { x: (WALL_WIDTH / 2) as i64, y: 0 },
            size: Vec2i { x: WALL_THICKNESS, y: (WALL_HEIGHT + WALL_THICKNESS) as i64 },
        },
        Wall {
            pos: Vec2i { x: (-(WALL_WIDTH / 2)) as i64, y: 0 },
            size: Vec2i { x: WALL_THICKNESS, y: (WALL_HEIGHT + WALL_THICKNESS) as i64 },
        },
    ]
}

/// The round's outcome given the remaining populations: no balls is a
/// loss, otherwise no blocks is a win; losing takes precedence when both
/// populations empty in the same tick.
pub open spec fn round_outcome(balls_len: nat, blocks_len: nat) -> RoundState {
    if balls_len == 0 {
        RoundState::Lost
    } else if blocks_len == 0 {
        RoundState::Won
    } else {
        RoundState::Playing
    }
}

/// Round termination precedence: a tick that empties the ball population
/// resolves to a loss, however many blocks remain — in particular when
/// the block population empties in the same tick.
pub proof fn lemma_round_termination_precedence(blocks_len: nat)
    ensures
        round_outcome(0, blocks_len) == RoundState::Lost,
{
}

impl World {
    /// Evaluate the round's win and loss conditions against the current
    /// populations, loss first.
    pub fn check_game_over(&mut self)
        ensures
            final(self).state == round_outcome(
                old(self).balls@.len(),
                old(self).blocks@.len(),
            ),
            *final(self) == (World { state: final(self).state, ..*old(self) }),
    {
        self.state = if self.balls.len() == 0 {
            RoundState::Lost
        } else if self.blocks.len() == 0 {
            RoundState::Won
        } else {
            RoundState::Playing
        };
    }
}

impl World {
    /// Spec invariant on collision sizes: every ball's size and the
    /// paddle's size is one of exactly two fixed values, nominal or
    /// enlarged — there is no continuous scaling.
    pub open spec fn sizes_two_valued(self) -> bool {
        &&& forall|i: int| 0 <= i < self.balls@.len()
            ==> ball_size_two_valued(#[trigger] self.balls@[i])
        &&& paddle_size_two_valued(self.paddle)
    }
}

/// Despawning keeps sizes two-valued: the surviving balls are a
/// subsequence of the starting population.
proof fn lemma_kept_balls_two_valued(s: Seq<Ball>, min_y: int)
    requires
        forall|i: int| 0 <= i < s.len() ==> ball_size_two_valued(#[trigger] s[i]),
    ensures
        forall|i: int| 0 <= i < kept_balls(s, min_y).len()
            ==> ball_size_two_valued(#[trigger] kept_balls(s, min_y)[i]),
    decreases s.len(),
{
    if s.len() == 0 {
    } else {
        assert forall|i: int| 0 <= i < s.drop_last().len() implies ball_size_two_valued(
            #[trigger] s.drop_last()[i],
        ) by {
            assert(ball_size_two_valued(s[i]));
        }
        lemma_kept_balls_two_valued(s.drop_last(), min_y);
        let rest = kept_balls(s.drop_last(), min_y);
        assert forall|i: int| 0 <= i < kept_balls(s, min_y).len() implies ball_size_two_valued(
            #[trigger] kept_balls(s, min_y)[i],
        ) by {
            if i < rest.len() {
                assert(ball_size_two_valued(rest[i]));
            } else {
                assert(kept_balls(s, min_y)[i] == s.last());
                assert(ball_size_two_valued(s.last()));
            }
        }
    }
}

/// What one tick reports for outside consumers: how many collisions were
/// resolved (audio cues), how many blocks were destroyed, and the new
/// level if one was reached.
#[derive(Clone, Copy, Debug)]
pub struct TickReport {
    pub collisions: usize,
    pub destroyed: usize,
    pub level_up: Option<u32>,
}

/// The value of every round field after one tick, as a function of the
/// starting state, the advance `dt` and the tick's powerup spawn
/// decisions.
pub struct TickModel {
    pub balls: Seq<Ball>,
    pub blocks: Seq<Block>,
    pub powerups: Seq<Powerup>,
    pub paddle: Paddle,
    pub score: int,
    pub level: Level,
    pub ball_timer: Option<GameTimer>,
    pub paddle_timer: Option<GameTimer>,
    pub descent_timer: GameTimer,
    pub descent_counter: int,
    pub state: RoundState,
    pub hits: nat,
    pub destroyed: nat,
    pub sites: Seq<Vec2i>,
    pub level_up: Option<u32>,
}

/// One fixed tick, phase by phase: enlargement expiry, block descent and
/// respawn, velocity integration, ball collision resolution, despawns,
/// powerup spawns and pickups, experience accumulation, and the win/loss
/// evaluation with loss first.
pub open spec fn tick_model(w: World, dt: u32, ds: Seq<Option<PowerupClass>>) -> TickModel {
    let ball_timer1 = enlarge_timer_after(w.ball_timer, dt);
    let balls0 = balls_after_timer(w.balls@, w.ball_timer, dt);
    let paddle_timer1 = paddle_timer_after(w.paddle_timer, dt);
    let paddle0 = paddle_after_timer(w.paddle, w.paddle_timer, dt);

    let moved = w.descent_timer.completes(dt);
    let descent_timer1 = w.descent_timer.ticked(dt);
    let blocks1 = if moved {
        descended_seq(w.blocks@)
    } else {
        w.blocks@
    };
    let counter1 = if moved {
        (w.descent_counter + 1) % (SPAWN_AFTER_GO_DOWN as int)
    } else {
        w.descent_counter as int
    };
    let blocks2 = if moved && counter1 == 0 {
        blocks1 + column_spec(w.main_box)
    } else {
        blocks1
    };

    let balls1 = advanced_balls(balls0, dt);
    let powerups1 = advanced_powerups(w.powerups@, dt);

    let r = resolve_upto(
        HitState::init(balls1, blocks2),
        paddle0,
        w.walls@,
        balls1.len() as int,
    );
    let blocks3 = live_blocks(r.blocks, r.alive);
    let score1 = sat_u32(w.score + r.destroyed);

    let balls2 = kept_balls(r.balls, ball_min_y(w.main_box));

    let powerups2 = powerups1 + spawned_seq(r.sites, ds);
    let powerups3 = kept_powerups(powerups2, -(w.main_box.size.y / 2));

    let pk = pickups_upto(
        PickupState::init(balls2, paddle0, ball_timer1, paddle_timer1),
        powerups3,
        powerups3.len() as int,
    );
    let balls3 = pk.balls + pk.pending;

    let level1 = level_after_gain(w.level, sat_u32(r.destroyed as int) as u32);
    let lu = if level1.level != w.level.level {
        Some(level1.level)
    } else {
        None
    };

    TickModel {
        balls: balls3,
        blocks: blocks3,
        powerups: pk.kept,
        paddle: pk.paddle,
        score: score1,
        level: level1,
        ball_timer: pk.ball_timer,
        paddle_timer: pk.paddle_timer,
        descent_timer: descent_timer1,
        descent_counter: counter1,
        state: round_outcome(balls3.len(), blocks3.len()),
        hits: r.hits,
        destroyed: r.destroyed,
        sites: r.sites,
        level_up: lu,
    }
}

/// One tick keeps the collision sizes two-valued, whatever the spawn
/// decisions: no phase scales a ball or the paddle to anything but the
/// nominal or the enlarged size.
pub proof fn lemma_tick_model_keeps_sizes(w: World, dt: u32, ds: Seq<Option<PowerupClass>>)
    requires
        w.sizes_two_valued(),
    ensures
        forall|i: int| 0 <= i < tick_model(w, dt, ds).balls.len()
            ==> ball_size_two_valued(#[trigger] tick_model(w, dt, ds).balls[i]),
        paddle_size_two_valued(tick_model(w, dt, ds).paddle),
{
    let ball_timer1 = enlarge_timer_after(w.ball_timer, dt);
    let balls0 = balls_after_timer(w.balls@, w.ball_timer, dt);
    let paddle_timer1 = paddle_timer_after(w.paddle_timer, dt);
    let paddle0 = paddle_after_timer(w.paddle, w.paddle_timer, dt);

    assert forall|i: int| 0 <= i < balls0.len() implies ball_size_two_valued(
        #[trigger] balls0[i],
    ) by {
        match w.ball_timer {
            None => {
                assert(ball_size_two_valued(w.balls@[i]));
            },
            Some(t0) => {
                if !t0.ticked(dt).finished_spec() {
                    assert(ball_size_two_valued(w.balls@[i]));
                }
            },
        }
    }

    let moved = w.descent_timer.completes(dt);
    let blocks1 = if moved {
        descended_seq(w.blocks@)
    } else {
        w.blocks@
    };
    let counter1 = if moved {
        (w.descent_counter + 1) % (SPAWN_AFTER_GO_DOWN as int)
    } else {
        w.descent_counter as int
    };
    let blocks2 = if moved && counter1 == 0 {
        blocks1 + column_spec(w.main_box)
    } else {
        blocks1
    };

    let balls1 = advanced_balls(balls0, dt);
    assert forall|i: int| 0 <= i < balls1.len() implies ball_size_two_valued(
        #[trigger] balls1[i],
    ) by {
        assert(balls1[i].size == balls0[i].size);
        assert(ball_size_two_valued(balls0[i]));
    }

    let powerups1 = advanced_powerups(w.powerups@, dt);
    let st0 = HitState::init(balls1, blocks2);
    let r = resolve_upto(st0, paddle0, w.walls@, balls1.len() as int);
    lemma_resolve_upto_keeps_ball_fields(st0, paddle0, w.walls@, balls1.len() as int);
    assert forall|i: int| 0 <= i < r.balls.len() implies ball_size_two_valued(
        #[trigger] r.balls[i],
    ) by {
        assert(r.balls[i].size == balls1[i].size);
        assert(ball_size_two_valued(balls1[i]));
    }

    let balls2 = kept_balls(r.balls, ball_min_y(w.main_box));
    lemma_kept_balls_two_valued(r.balls, ball_min_y(w.main_box));

    let powerups2 = powerups1 + spawned_seq(r.sites, ds);
    let powerups3 = kept_powerups(powerups2, -(w.main_box.size.y / 2));
    let pst0 = PickupState::init(balls2, paddle0, ball_timer1, paddle_timer1);
    let pk = pickups_upto(pst0, powerups3, powerups3.len() as int);
    lemma_pickups_keep_sizes_two_valued(pst0, powerups3, powerups3.len() as int);

    let balls3 = pk.balls + pk.pending;
    assert forall|i: int| 0 <= i < balls3.len() implies ball_size_two_valued(
        #[trigger] balls3[i],
    ) by {
        if i < pk.balls.len() {
            assert(balls3[i] == pk.balls[i]);
            assert(ball_size_two_valued(pk.balls[i]));
        } else {
            assert(balls3[i] == pk.pending[i - pk.balls.len()]);
            assert(ball_size_two_valued(pk.pending[i - pk.balls.len()]));
        }
    }

    assert(tick_model(w, dt, ds).balls == balls3);
    assert(tick_model(w, dt, ds).paddle == pk.paddle);
}

/// The tick's contract: the ending state and report agree with
/// [`tick_model`] under the given spawn decisions, one per destroyed
/// block, and the walls and playfield are untouched.
pub open spec fn tick_matches(
    w0: World,
    w1: World,
    dt: u32,
    ds: Seq<Option<PowerupClass>>,
    report: TickReport,
) -> bool {
    let m = tick_model(w0, dt, ds);
    &&& ds.len() == m.sites.len()
    &&& w1.balls@ == m.balls
    &&& w1.blocks@ == m.blocks
    &&& w1.powerups@ == m.powerups
    &&& w1.paddle == m.paddle
    &&& w1.score == m.score
    &&& w1.level == m.level
    &&& w1.ball_timer == m.ball_timer
    &&& w1.paddle_timer == m.paddle_timer
    &&& w1.descent_timer == m.descent_timer
    &&& w1.descent_counter == m.descent_counter
    &&& w1.state == m.state
    &&& w1.walls@ == w0.walls@
    &&& w1.main_box == w0.main_box
    &&& report.collisions as nat == m.hits
    &&& report.destroyed as nat == m.destroyed
    &&& report.level_up == m.level_up
}

impl World {
    /// Advance the round by one fixed tick of `dt` milliseconds. The
    /// powerup spawn draws are random; everything else is the exact
    /// function of the starting state given by [`tick_model`].
    pub fn tick(&mut self, dt: u32) -> (report: TickReport)
        requires
            old(self).wf(),
            old(self).state == RoundState::Playing,
            dt <= DT_LIMIT,
        ensures
            exists|ds: Seq<Option<PowerupClass>>|
                tick_matches(*old(self), *final(self), dt, ds, report),
            final(self).wf(),
            old(self).sizes_two_valued() ==> final(self).sizes_two_valued(),
    {
        handle_ball_timer(&mut self.ball_timer, &mut self.balls, dt);
        handle_paddle_timer(&mut self.paddle_timer, &mut self.paddle, dt);

        let moved = block_go_down(&mut self.descent_timer, &mut self.blocks, dt);
        spawn_new_blocks(&mut self.descent_counter, moved, &mut self.blocks, &self.main_box);

        apply_velocity(&mut self.balls, &mut self.powerups, dt);

        let ev = check_ball_collision(
            &mut self.balls,
            &mut self.blocks,
            &self.paddle,
            &self.walls,
            &mut self.score,
        );

        check_ball_out_of_bound(&mut self.balls, &self.main_box);

        let ds = spawn_powerups(&mut self.powerups, &ev.sites);

        check_powerups_out_of_bounds(&mut self.powerups, &self.main_box);

        check_powerups_collision(
            &mut self.powerups,
            &mut self.balls,
            &mut self.paddle,
            &mut self.ball_timer,
            &mut self.paddle_timer,
        );

        let gain: u32 = if ev.destroyed > u32::MAX as usize {
            u32::MAX
        } else {
            ev.destroyed as u32
        };
        let leveled = level_up(&mut self.level, gain);

        self.check_game_over();

        let report = TickReport { collisions: ev.hits, destroyed: ev.destroyed, level_up: leveled };
        proof {
            assert(tick_matches(*old(self), *self, dt, ds@, report));
            if old(self).sizes_two_valued() {
                lemma_tick_model_keeps_sizes(*old(self), dt, ds@);
            }
        }
        report
    }
}

/// Set up a fresh round: one paddle, one ball, the four walls, the full
/// block formation, and cleared score, progression, timers and counters.
pub fn setup_game() -> (w: World)
    ensures
        w.balls@ =~= seq![Ball::initial_spec()],
        w.paddle == Paddle::initial_spec(),
        w.walls@ =~= walls_spec(),
        w.blocks@.len() == crate::config::BLOCK_COLUMNS * crate::block::BLOCK_ROW_SLOTS,
        forall|k: int| 0 <= k < w.blocks@.len() ==> #[trigger] w.blocks@[k]
            == crate::block::fresh_block(
            k / (crate::block::BLOCK_ROW_SLOTS as int),
            2 * (k % (crate::block::BLOCK_ROW_SLOTS as int)),
            MainBox::standard_spec(),
        ),
        w.powerups@ =~= Seq::<Powerup>::empty(),
        w.score == 0,
        w.level == (Level { level: 0, exp: 0 }),
        w.ball_timer is None,
        w.paddle_timer is None,
        w.descent_timer == (GameTimer { elapsed: 0, duration: GO_DOWN_PERIOD, repeating: true }),
        w.descent_counter == 0,
        w.main_box == MainBox::standard_spec(),
        w.state == RoundState::Playing,
        w.wf(),
        w.sizes_two_valued(),
{
    let main_box = MainBox::standard();

    let mut balls: Vec<Ball> = Vec::new();
    balls.push(Ball::initial());

    let mut walls: Vec<Wall> = Vec::new();
    walls.push(Wall {
        pos: Vec2i { x: 0, y: WALL_HEIGHT / 2 },
        size: Vec2i { x: WALL_WIDTH + WALL_THICKNESS, y: WALL_THICKNESS },
    });
    walls.push(Wall {
        pos: Vec2i { x: 0, y: -(WALL_HEIGHT / 2) },
        size: Vec2i { x: WALL_WIDTH + WALL_THICKNESS, y: WALL_THICKNESS },
    });
    walls.push(Wall {
        pos: Vec2i { x: WALL_WIDTH / 2, y: 0 },
        size: Vec2i { x: WALL_THICKNESS, y: WALL_HEIGHT + WALL_THICKNESS },
    });
    walls.push(Wall {
        pos: Vec2i { x: -(WALL_WIDTH / 2), y: 0 },
        size: Vec2i { x: WALL_THICKNESS, y: WALL_HEIGHT + WALL_THICKNESS },
    });
    proof {
        assert(walls@ =~= walls_spec());
    }

    let blocks = spawn_blocks(&main_box);

    World {
        balls,
        paddle: Paddle::initial(),
        walls,
        blocks,
        powerups: Vec::new(),
        score: 0,
        level: Level { level: 0, exp: 0 },
        ball_timer: None,
        paddle_timer: None,
        descent_timer: GameTimer::new_repeating(GO_DOWN_PERIOD),
        descent_counter: 0,
        main_box,
        state: RoundState::Playing,
    }
}

} // verus!
