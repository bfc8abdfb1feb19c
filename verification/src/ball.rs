//! Balls: their state, reflection off obstacles, redirection off the
//! paddle, duplication, enlargement and enlargement expiry.

use vstd::prelude::*;
use vstd::arithmetic::div_mod::lemma_div_nonincreasing;
use crate::config::{BALL_ATTACK, BALL_ENLARGED_SIZE, BALL_SIZE, BALL_START_X, BALL_START_Y,
    BALL_TIMEOUT, BALL_VEL_X, BALL_VEL_Y};
use crate::geom::{clamp_i64, clamp_spec, lemma_square_bound, Collision, Vec2i, COORD_LIMIT,
    VEL_LIMIT};
use crate::num::{isqrt, lemma_sqrt_floor_component, sqrt_floor};
use crate::timer::GameTimer;

verus! {

/// A ball in play: center position, velocity per millisecond, square
/// bounding size and the damage it deals to blocks.
#[derive(Clone, Copy, PartialEq, Eq, Structural, Debug)]
pub struct Ball {
    pub pos: Vec2i,
    pub vel: Vec2i,
    pub size: Vec2i,
    pub attack: u32,
}

impl Ball {
    pub open spec fn wf(self) -> bool {
        &&& self.pos.wf_pos()
        &&& self.vel.wf_vel()
        &&& self.size.wf_size()
    }

    /// The nominal square size of a ball.
    pub open spec fn nominal_size() -> Vec2i {
        Vec2i { x: BALL_SIZE, y: BALL_SIZE }
    }

    /// The square size of a ball while enlarged.
    pub open spec fn enlarged_size() -> Vec2i {
        Vec2i { x: BALL_ENLARGED_SIZE, y: BALL_ENLARGED_SIZE }
    }

    /// The ball a round starts with.
    pub open spec fn initial_spec() -> Ball {
        Ball {
            pos: Vec2i { x: BALL_START_X, y: BALL_START_Y },
            vel: Vec2i { x: BALL_VEL_X, y: BALL_VEL_Y },
            size: Ball::nominal_size(),
            attack: BALL_ATTACK,
        }
    }

    pub fn initial() -> (b: Ball)
        ensures
            b == Ball::initial_spec(),
    {
        Ball {
            pos: Vec2i { x: BALL_START_X, y: BALL_START_Y },
            vel: Vec2i { x: BALL_VEL_X, y: BALL_VEL_Y },
            size: Vec2i { x: BALL_SIZE, y: BALL_SIZE },
            attack: BALL_ATTACK,
        }
    }
}

/// A ball's collision size is one of exactly two fixed values: nominal
/// or enlarged — there is no continuous scaling.
pub open spec fn ball_size_two_valued(b: Ball) -> bool {
    b.size == Ball::nominal_size() || b.size == Ball::enlarged_size()
}

/// The mirror image of a ball: same position, negated velocity, nominal
/// size and attack.
pub open spec fn mirror_spec(b: Ball) -> Ball {
    Ball {
        pos: b.pos,
        vel: Vec2i { x: (-b.vel.x) as i64, y: (-b.vel.y) as i64 },
        size: Ball::nominal_size(),
        attack: BALL_ATTACK,
    }
}

/// The mirror images of a whole population, in population order.
pub open spec fn mirrors_spec(s: Seq<Ball>) -> Seq<Ball> {
    Seq::new(s.len(), |i: int| mirror_spec(s[i]))
}

/// Every ball resized to `size`, all else unchanged.
pub open spec fn resized_spec(s: Seq<Ball>, size: Vec2i) -> Seq<Ball> {
    Seq::new(s.len(), |i: int| Ball { size, ..s[i] })
}

/// A velocity reflected off the struck side of a stationary rectangle:
/// the component pointing at the surface is negated; a velocity already
/// moving away from the surface is unchanged.
pub open spec fn reflect_spec(v: Vec2i, side: Collision) -> Vec2i {
    match side {
        Collision::Bottom => if v.y > 0 {
            Vec2i { x: v.x, y: (-v.y) as i64 }
        } else {
            v
        },
        Collision::Top => if v.y < 0 {
            Vec2i { x: v.x, y: (-v.y) as i64 }
        } else {
            v
        },
        Collision::Right => if v.x < 0 {
            Vec2i { x: (-v.x) as i64, y: v.y }
        } else {
            v
        },
        Collision::Left => if v.x > 0 {
            Vec2i { x: (-v.x) as i64, y: v.y }
        } else {
            v
        },
    }
}

/// Reflection correctness: a velocity moving toward the struck side has
/// that component negated and the other kept — striking Top while moving
/// down, or Bottom while moving up, turns `(vx, vy)` into `(vx, -vy)` —
/// and a velocity already moving away from the struck side is unchanged.
pub proof fn lemma_reflection_correctness(v: Vec2i)
    requires
        v.wf_vel(),
    ensures
        v.y < 0 ==> reflect_spec(v, Collision::Top) == (Vec2i { x: v.x, y: (-v.y) as i64 }),
        v.y > 0 ==> reflect_spec(v, Collision::Bottom) == (Vec2i { x: v.x, y: (-v.y) as i64 }),
        v.y >= 0 ==> reflect_spec(v, Collision::Top) == v,
        v.y <= 0 ==> reflect_spec(v, Collision::Bottom) == v,
        v.x < 0 ==> reflect_spec(v, Collision::Right) == (Vec2i { x: (-v.x) as i64, y: v.y }),
        v.x > 0 ==> reflect_spec(v, Collision::Left) == (Vec2i { x: (-v.x) as i64, y: v.y }),
        v.x <= 0 ==> reflect_spec(v, Collision::Left) == v,
        v.x >= 0 ==> reflect_spec(v, Collision::Right) == v,
{
}

/// Reflect a velocity off the struck side of an obstacle, negating only a
/// component that is moving toward the surface.
pub fn reflect_velocity(v: Vec2i, side: Collision) -> (w: Vec2i)
    requires
        v.wf_vel(),
    ensures
        w == reflect_spec(v, side),
        w.wf_vel(),
{
    match side {
        Collision::Bottom => if v.y > 0 {
            Vec2i { x: v.x, y: -v.y }
        } else {
            v
        },
        Collision::Top => if v.y < 0 {
            Vec2i { x: v.x, y: -v.y }
        } else {
            v
        },
        Collision::Right => if v.x < 0 {
            Vec2i { x: -v.x, y: v.y }
        } else {
            v
        },
        Collision::Left => if v.x > 0 {
            Vec2i { x: -v.x, y: v.y }
        } else {
            v
        },
    }
}

/// A nonnegative magnitude scaled by `s / dist`, applied away from zero,
/// then reapplied with the sign of `d`.
pub open spec fn scaled_component(d: int, s: int, dist: int) -> int {
    if d < 0 {
        -((-d * s) / dist)
    } else {
        (d * s) / dist
    }
}

/// A bounce component saturated at the velocity bound.
pub open spec fn vel_clamped(t: int) -> int {
    clamp_spec(t, -VEL_LIMIT as int, VEL_LIMIT as int)
}

/// The ball's speed: the integer length of its velocity.
pub open spec fn speed_spec(v: Vec2i) -> int {
    sqrt_floor((v.x * v.x + v.y * v.y) as nat) as int
}

/// The velocity after a paddle hit: redirected to point from the paddle
/// center toward the ball center, with the speed preserved (up to integer
/// rounding and the velocity bound). Coinciding centers fall back to
/// straight up.
pub open spec fn paddle_bounce_spec(ball_pos: Vec2i, paddle_pos: Vec2i, v: Vec2i) -> Vec2i {
    let dx = ball_pos.x - paddle_pos.x;
    let dy = ball_pos.y - paddle_pos.y;
    let speed = speed_spec(v);
    if dx == 0 && dy == 0 {
        Vec2i { x: 0, y: vel_clamped(speed) as i64 }
    } else {
        let dist = sqrt_floor((dx * dx + dy * dy) as nat) as int;
        Vec2i {
            x: vel_clamped(scaled_component(dx, speed, dist)) as i64,
            y: vel_clamped(scaled_component(dy, speed, dist)) as i64,
        }
    }
}

/// Redirect a ball's velocity away from the paddle center, preserving its
/// speed up to integer rounding.
pub fn paddle_bounce(ball_pos: Vec2i, paddle_pos: Vec2i, v: Vec2i) -> (w: Vec2i)
    requires
        ball_pos.wf_pos(),
        paddle_pos.wf_pos(),
        v.wf_vel(),
    ensures
        w == paddle_bounce_spec(ball_pos, paddle_pos, v),
        w.wf_vel(),
{
    proof {
        lemma_square_bound(v.x as int, VEL_LIMIT as int);
        lemma_square_bound(v.y as int, VEL_LIMIT as int);
    }
    let sq: i64 = v.x * v.x + v.y * v.y;
    let speed: u64 = isqrt(sq as u64);
    proof {
        if speed > 1_414_214 {
            assert(1_414_214 * 1_414_214 <= speed * speed) by (nonlinear_arith)
                requires
                    1_414_214 <= speed,
            ;
        }
    }

    let dx: i64 = ball_pos.x - paddle_pos.x;
    let dy: i64 = ball_pos.y - paddle_pos.y;
    if dx == 0 && dy == 0 {
        return Vec2i { x: 0, y: clamp_i64(speed as i64, -VEL_LIMIT, VEL_LIMIT) };
    }

    proof {
        lemma_square_bound(dx as int, 2 * COORD_LIMIT as int);
        lemma_square_bound(dy as int, 2 * COORD_LIMIT as int);
    }
    let dsq: i64 = dx * dx + dy * dy;
    let dist: u64 = isqrt(dsq as u64);
    proof {
        lemma_sqrt_floor_component(dx as int, dy as int);
        lemma_sqrt_floor_component(dy as int, dx as int);
        assert(dx * dx + dy * dy == dy * dy + dx * dx) by (nonlinear_arith);
        assert(dist >= 1);
    }

    let adx: u64 = if dx < 0 { (-dx) as u64 } else { dx as u64 };
    let ady: u64 = if dy < 0 { (-dy) as u64 } else { dy as u64 };
    proof {
        assert(adx * speed <= 2_000_000_000 * 1_414_214u64) by (nonlinear_arith)
            requires
                0 <= adx <= 2_000_000_000u64 && 0 <= speed <= 1_414_214u64,
        ;
        assert(ady * speed <= 2_000_000_000 * 1_414_214u64) by (nonlinear_arith)
            requires
                0 <= ady <= 2_000_000_000u64 && 0 <= speed <= 1_414_214u64,
        ;
        lemma_div_nonincreasing((adx * speed) as int, dist as int);
        lemma_div_nonincreasing((ady * speed) as int, dist as int);
    }
    let qx: u64 = adx * speed / dist;
    let qy: u64 = ady * speed / dist;
    let rx: i64 = if dx < 0 { -(qx as i64) } else { qx as i64 };
    let ry: i64 = if dy < 0 { -(qy as i64) } else { qy as i64 };
    Vec2i {
        x: clamp_i64(rx, -VEL_LIMIT, VEL_LIMIT),
        y: clamp_i64(ry, -VEL_LIMIT, VEL_LIMIT),
    }
}

/// The mirror images of the given balls, in order.
pub fn mirrored_balls(balls: &Vec<Ball>) -> (m: Vec<Ball>)
    requires
        forall|i: int| 0 <= i < balls@.len() ==> #[trigger] balls@[i].wf(),
    ensures
        m@ == mirrors_spec(balls@),
        forall|i: int| 0 <= i < m@.len() ==> #[trigger] m@[i].wf(),
{
    let mut m: Vec<Ball> = Vec::new();
    let n = balls.len();
    for i in 0..n
        invariant
            n == balls@.len(),
            m@.len() == i,
            forall|j: int| 0 <= j < i ==> m@[j] == mirror_spec(balls@[j]),
            forall|j: int| 0 <= j < i ==> #[trigger] m@[j].wf(),
            forall|j: int| 0 <= j < n ==> #[trigger] balls@[j].wf(),
    {
        let b = balls[i];
        proof {
            assert(balls@[i as int].wf());
        }
        m.push(Ball {
            pos: b.pos,
            vel: Vec2i { x: -b.vel.x, y: -b.vel.y },
            size: Vec2i { x: BALL_SIZE, y: BALL_SIZE },
            attack: BALL_ATTACK,
        });
    }
    proof {
        assert(m@ =~= mirrors_spec(balls@));
    }
    m
}

/// For every ball in play, add a mirror ball at the same position with the
/// velocity negated, doubling the population; the originals are unchanged.
pub fn duplicate_balls(balls: &mut Vec<Ball>)
    requires
        forall|i: int| 0 <= i < old(balls)@.len() ==> #[trigger] old(balls)@[i].wf(),
        old(balls)@.len() <= usize::MAX / 2,
    ensures
        final(balls)@.len() == 2 * old(balls)@.len(),
        forall|i: int| 0 <= i < old(balls)@.len() ==> final(balls)@[i] == old(balls)@[i],
        forall|i: int| 0 <= i < old(balls)@.len()
            ==> final(balls)@[old(balls)@.len() + i] == mirror_spec(old(balls)@[i]),
{
    let mut m = mirrored_balls(balls);
    balls.append(&mut m);
}

/// Set every ball to the enlarged size and (re)start the single
/// enlargement countdown, replacing any countdown already running.
pub fn enlarge_balls(balls: &mut Vec<Ball>, timer: &mut Option<GameTimer>)
    requires
        forall|i: int| 0 <= i < old(balls)@.len() ==> #[trigger] old(balls)@[i].wf(),
    ensures
        final(balls)@ == resized_spec(old(balls)@, Ball::enlarged_size()),
        *final(timer) == Some(GameTimer { elapsed: 0, duration: BALL_TIMEOUT, repeating: false }),
        forall|i: int| 0 <= i < final(balls)@.len() ==> #[trigger] final(balls)@[i].wf(),
{
    let n = balls.len();
    for i in 0..n
        invariant
            n == balls@.len(),
            balls@.len() == old(balls)@.len(),
            forall|j: int| 0 <= j < old(balls)@.len() ==> #[trigger] old(balls)@[j].wf(),
            forall|j: int| 0 <= j < i ==> balls@[j]
                == (Ball { size: Ball::enlarged_size(), ..old(balls)@[j] }),
            forall|j: int| i <= j < n ==> balls@[j] == old(balls)@[j],
    {
        let mut b = balls[i];
        b.size = Vec2i { x: BALL_ENLARGED_SIZE, y: BALL_ENLARGED_SIZE };
        balls.set(i, b);
    }
    *timer = Some(GameTimer::new_once(BALL_TIMEOUT));
    proof {
        assert(balls@ =~= resized_spec(old(balls)@, Ball::enlarged_size()));
        assert forall|i: int| 0 <= i < balls@.len() implies #[trigger] balls@[i].wf() by {
            assert(old(balls)@[i].wf());
        }
    }
}

/// The enlargement countdown after an advance of `dt`: gone once it
/// finishes, otherwise ticked forward.
pub open spec fn enlarge_timer_after(t: Option<GameTimer>, dt: u32) -> Option<GameTimer> {
    match t {
        None => None,
        Some(t0) => if t0.ticked(dt).finished_spec() {
            None
        } else {
            Some(t0.ticked(dt))
        },
    }
}

/// The ball population after the countdown advance: reverted to nominal
/// size exactly when the countdown finishes.
pub open spec fn balls_after_timer(s: Seq<Ball>, t: Option<GameTimer>, dt: u32) -> Seq<Ball> {
    match t {
        None => s,
        Some(t0) => if t0.ticked(dt).finished_spec() {
            resized_spec(s, Ball::nominal_size())
        } else {
            s
        },
    }
}

/// The enlargement reverts every ball to nominal size exactly once, at
/// the countdown's single expiry: the advance that finishes it performs
/// the revert and drops the countdown, and any further advance leaves the
/// population and the absent countdown unchanged.
pub proof fn lemma_single_expiry(balls: Seq<Ball>, t: GameTimer, d1: u32, d2: u32)
    requires
        !t.repeating,
        t.ticked(d1).finished_spec(),
    ensures
        balls_after_timer(balls, Some(t), d1) == resized_spec(balls, Ball::nominal_size()),
        enlarge_timer_after(Some(t), d1) == None::<GameTimer>,
        balls_after_timer(
            resized_spec(balls, Ball::nominal_size()),
            enlarge_timer_after(Some(t), d1),
            d2,
        ) == resized_spec(balls, Ball::nominal_size()),
        enlarge_timer_after(enlarge_timer_after(Some(t), d1), d2) == None::<GameTimer>,
{
}

/// Advance the ball enlargement countdown; on expiry revert every ball to
/// nominal size and drop the countdown.
pub fn handle_ball_timer(timer: &mut Option<GameTimer>, balls: &mut Vec<Ball>, dt: u32)
    requires
        match *old(timer) {
            Some(t) => t.wf(),
            None => true,
        },
        forall|i: int| 0 <= i < old(balls)@.len() ==> #[trigger] old(balls)@[i].wf(),
    ensures
        *final(timer) == enlarge_timer_after(*old(timer), dt),
        final(balls)@ == balls_after_timer(old(balls)@, *old(timer), dt),
        match *final(timer) {
            Some(t) => t.wf(),
            None => true,
        },
        forall|i: int| 0 <= i < final(balls)@.len() ==> #[trigger] final(balls)@[i].wf(),
{
    match *timer {
        None => {},
        Some(mut t) => {
            t.tick(dt);
            if t.finished() {
                let n = balls.len();
                for i in 0..n
                    invariant
                        n == balls@.len(),
                        balls@.len() == old(balls)@.len(),
                        forall|j: int| 0 <= j < old(balls)@.len()
                            ==> #[trigger] old(balls)@[j].wf(),
                        forall|j: int| 0 <= j < i ==> balls@[j]
                            == (Ball { size: Ball::nominal_size(), ..old(balls)@[j] }),
                        forall|j: int| i <= j < n ==> balls@[j] == old(balls)@[j],
                {
                    let mut b = balls[i];
                    b.size = Vec2i { x: BALL_SIZE, y: BALL_SIZE };
                    balls.set(i, b);
                }
                *timer = None;
                proof {
                    assert(balls@ =~= resized_spec(old(balls)@, Ball::nominal_size()));
                    assert forall|i: int| 0 <= i < balls@.len()
                        implies #[trigger] balls@[i].wf() by {
                        assert(old(balls)@[i].wf());
                    }
                }
            } else {
                *timer = Some(t);
            }
        },
    }
}

} // verus!
