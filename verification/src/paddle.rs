//! The paddle: movement under directional input, enlargement and its
//! expiry; and the player's progression (experience, level, thresholds).

use vstd::prelude::*;
use crate::config::{GROWTH_DEN, GROWTH_NUM, LEVEL_CAP_BASE, LEVEL_LIMIT, MainBox,
    PADDLE_ENLARGED_SIZE_X, PADDLE_SIZE_X, PADDLE_SIZE_Y, PADDLE_SPEED, PADDLE_START_Y,
    PADDLE_TIMEOUT};
use crate::geom::{clamp_i64, clamp_spec, Vec2i, DT_LIMIT};
use crate::timer::GameTimer;

verus! {

/// The player's paddle: center position and collision size.
#[derive(Clone, Copy, PartialEq, Eq, Structural, Debug)]
pub struct Paddle {
    pub pos: Vec2i,
    pub size: Vec2i,
}

impl Paddle {
    pub open spec fn wf(self) -> bool {
        &&& self.pos.wf_pos()
        &&& self.size.wf_size()
    }

    /// The nominal paddle size.
    pub open spec fn nominal_size() -> Vec2i {
        Vec2i { x: PADDLE_SIZE_X, y: PADDLE_SIZE_Y }
    }

    /// The paddle size while enlarged: doubled width, same height.
    pub open spec fn enlarged_size() -> Vec2i {
        Vec2i { x: PADDLE_ENLARGED_SIZE_X, y: PADDLE_SIZE_Y }
    }

    /// The paddle a round starts with.
    pub open spec fn initial_spec() -> Paddle {
        Paddle { pos: Vec2i { x: 0, y: PADDLE_START_Y }, size: Paddle::nominal_size() }
    }

    pub fn initial() -> (p: Paddle)
        ensures
            p == Paddle::initial_spec(),
    {
        Paddle {
            pos: Vec2i { x: 0, y: PADDLE_START_Y },
            size: Vec2i { x: PADDLE_SIZE_X, y: PADDLE_SIZE_Y },
        }
    }
}

/// The paddle's collision size is one of exactly two fixed values:
/// nominal or enlarged — there is no continuous scaling.
pub open spec fn paddle_size_two_valued(p: Paddle) -> bool {
    p.size == Paddle::nominal_size() || p.size == Paddle::enlarged_size()
}

/// The paddle's horizontal position after moving under a directional
/// input for `dt` milliseconds, clamped so the paddle stays inside the
/// playfield interior.
pub open spec fn moved_paddle_x(p: Paddle, direction: i64, dt: u32, mb: MainBox) -> int {
    clamp_spec(
        p.pos.x + direction * PADDLE_SPEED * dt,
        -((mb.size.x - p.size.x) / 2),
        (mb.size.x - p.size.x) / 2,
    )
}

/// Move the paddle under a directional intent of -1, 0 or +1, keeping it
/// inside the playfield interior.
pub fn move_paddle(p: &mut Paddle, direction: i64, dt: u32, mb: &MainBox)
    requires
        old(p).wf(),
        -1 <= direction <= 1,
        dt <= DT_LIMIT,
        mb.wf(),
        old(p).size.x <= mb.size.x,
    ensures
        final(p).pos.x == moved_paddle_x(*old(p), direction, dt, *mb),
        final(p).pos.y == old(p).pos.y,
        final(p).size == old(p).size,
        final(p).wf(),
{
    let half_range: i64 = (mb.size.x - p.size.x) / 2;
    proof {
        assert(-(PADDLE_SPEED as int) * DT_LIMIT as int <= direction * PADDLE_SPEED * dt
            <= PADDLE_SPEED as int * DT_LIMIT as int) by (nonlinear_arith)
            requires
                -1 <= direction <= 1 && 0 <= dt <= DT_LIMIT && PADDLE_SPEED > 0,
        ;
    }
    let step: i64 = direction * PADDLE_SPEED * dt as i64;
    p.pos.x = clamp_i64(p.pos.x + step, -half_range, half_range);
}

/// Set the paddle to the enlarged size and (re)start the single
/// enlargement countdown, replacing any countdown already running.
pub fn enlarge_paddle(p: &mut Paddle, timer: &mut Option<GameTimer>)
    requires
        old(p).wf(),
    ensures
        final(p).wf(),
        final(p).size == Paddle::enlarged_size(),
        final(p).pos == old(p).pos,
        *final(timer) == Some(
            GameTimer { elapsed: 0, duration: PADDLE_TIMEOUT, repeating: false },
        ),
{
    p.size = Vec2i { x: PADDLE_ENLARGED_SIZE_X, y: PADDLE_SIZE_Y };
    *timer = Some(GameTimer::new_once(PADDLE_TIMEOUT));
}

/// The enlargement countdown after an advance of `dt`: gone once it
/// finishes, otherwise ticked forward.
pub open spec fn paddle_timer_after(t: Option<GameTimer>, dt: u32) -> Option<GameTimer> {
    match t {
        None => None,
        Some(t0) => if t0.ticked(dt).finished_spec() {
            None
        } else {
            Some(t0.ticked(dt))
        },
    }
}

/// The paddle after the countdown advance: reverted to nominal size
/// exactly when the countdown finishes.
pub open spec fn paddle_after_timer(p: Paddle, t: Option<GameTimer>, dt: u32) -> Paddle {
    match t {
        None => p,
        Some(t0) => if t0.ticked(dt).finished_spec() {
            Paddle { size: Paddle::nominal_size(), ..p }
        } else {
            p
        },
    }
}

/// Advance the paddle enlargement countdown; on expiry revert the paddle
/// to nominal size and drop the countdown.
pub fn handle_paddle_timer(timer: &mut Option<GameTimer>, p: &mut Paddle, dt: u32)
    requires
        match *old(timer) {
            Some(t) => t.wf(),
            None => true,
        },
        old(p).wf(),
    ensures
        *final(timer) == paddle_timer_after(*old(timer), dt),
        *final(p) == paddle_after_timer(*old(p), *old(timer), dt),
        match *final(timer) {
            Some(t) => t.wf(),
            None => true,
        },
        final(p).wf(),
{
    match *timer {
        None => {},
        Some(mut t) => {
            t.tick(dt);
            if t.finished() {
                p.size = Vec2i { x: PADDLE_SIZE_X, y: PADDLE_SIZE_Y };
                *timer = None;
            } else {
                *timer = Some(t);
            }
        },
    }
}

/// The player's progression: experience toward the next level, and the
/// level reached so far.
#[derive(Clone, Copy, PartialEq, Eq, Structural, Debug, Default)]
pub struct Level {
    pub level: u32,
    pub exp: u32,
}

impl Level {
    pub open spec fn wf(self) -> bool {
        self.level <= LEVEL_LIMIT
    }
}

/// The experience threshold of a level: the base cap scaled by
/// `1 + level * 3/2`, truncated to an integer.
pub open spec fn level_exp_cap_spec(level: int) -> int {
    LEVEL_CAP_BASE * (GROWTH_DEN + level * GROWTH_NUM) / (GROWTH_DEN as int)
}

/// The experience needed to pass the given level.
pub fn level_exp_cap(level: u32) -> (cap: u32)
    requires
        level <= LEVEL_LIMIT,
    ensures
        cap == level_exp_cap_spec(level as int),
{
    proof {
        assert(LEVEL_CAP_BASE == 50 && GROWTH_NUM == 3 && GROWTH_DEN == 2);
        assert(level as int * GROWTH_NUM as int <= LEVEL_LIMIT as int * 3) by (nonlinear_arith)
            requires
                level <= LEVEL_LIMIT && LEVEL_LIMIT == 50_000_000u32,
        ;
    }
    let wide: u64 = LEVEL_CAP_BASE as u64 * (GROWTH_DEN as u64 + level as u64 * GROWTH_NUM as u64)
        / GROWTH_DEN as u64;
    wide as u32
}

/// How far the player has progressed into the current level, in
/// thousandths of the level's threshold; can exceed 1000 while surplus
/// experience is waiting for the next threshold check.
pub fn exp_progress_permille(l: &Level) -> (r: u64)
    requires
        l.wf(),
    ensures
        r == 1000 * l.exp / level_exp_cap_spec(l.level as int),
{
    let cap = level_exp_cap(l.level);
    1000u64 * l.exp as u64 / cap as u64
}

/// An integer saturated at the greatest `u32` value.
pub open spec fn sat_u32(x: int) -> int {
    if x > u32::MAX {
        u32::MAX as int
    } else {
        x
    }
}

/// The progression after gaining experience: the gain is added (saturating
/// at the counter's range); if the total strictly exceeds the level's
/// threshold and the level cap is not yet reached, the threshold is
/// subtracted (carry-over) and the level increments.
pub open spec fn level_after_gain(l: Level, gained: u32) -> Level {
    let total = l.exp + gained;
    let cap = level_exp_cap_spec(l.level as int);
    if total > cap && l.level < LEVEL_LIMIT {
        Level { level: (l.level + 1) as u32, exp: sat_u32(total - cap) as u32 }
    } else {
        Level { level: l.level, exp: sat_u32(total) as u32 }
    }
}

/// Accumulate gained experience and evaluate the level threshold once,
/// carrying surplus experience over; reports the new level when it rose.
pub fn level_up(l: &mut Level, gained: u32) -> (leveled: Option<u32>)
    requires
        old(l).wf(),
    ensures
        *final(l) == level_after_gain(*old(l), gained),
        leveled == (if final(l).level != old(l).level {
            Some(final(l).level)
        } else {
            None::<u32>
        }),
        final(l).wf(),
{
    let total: u64 = l.exp as u64 + gained as u64;
    let cap: u32 = level_exp_cap(l.level);
    if total > cap as u64 && l.level < LEVEL_LIMIT {
        let rest: u64 = total - cap as u64;
        l.exp = if rest > u32::MAX as u64 {
            u32::MAX
        } else {
            rest as u32
        };
        l.level = l.level + 1;
        Some(l.level)
    } else {
        l.exp = if total > u32::MAX as u64 {
            u32::MAX
        } else {
            total as u32
        };
        None
    }
}

} // verus!
