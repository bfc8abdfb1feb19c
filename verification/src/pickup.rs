//! Powerup pickup: every powerup overlapping the paddle this tick
//! triggers its effect and despawns. Ball duplication is buffered and
//! applied at the phase boundary, so two pickups in one tick each mirror
//! the same population; size effects and countdown restarts apply at
//! once.

use vstd::prelude::*;
use crate::ball::{ball_size_two_valued, enlarge_balls, mirror_spec, mirrored_balls, mirrors_spec,
    resized_spec, Ball};
use crate::config::{BALL_TIMEOUT, PADDLE_TIMEOUT};
use crate::geom::{collide_volume, rects_intersect, Rect, Volume};
use crate::paddle::{enlarge_paddle, paddle_size_two_valued, Paddle};
use crate::powerup::{Powerup, PowerupClass};
use crate::resolve::paddle_rect;
use crate::timer::GameTimer;

verus! {

/// The pickup extent a powerup presents to the paddle overlap test.
pub open spec fn powerup_rect(p: Powerup) -> Rect {
    Rect { center: p.pos, size: p.size }
}

/// The pickup phase's running state: the powerups not collected so far,
/// the current ball population and paddle, the buffered mirror balls, and
/// the enlargement countdowns.
pub struct PickupState {
    pub kept: Seq<Powerup>,
    pub balls: Seq<Ball>,
    pub pending: Seq<Ball>,
    pub paddle: Paddle,
    pub ball_timer: Option<GameTimer>,
    pub paddle_timer: Option<GameTimer>,
}

impl PickupState {
    /// The state before any powerup has been considered.
    pub open spec fn init(
        balls: Seq<Ball>,
        paddle: Paddle,
        ball_timer: Option<GameTimer>,
        paddle_timer: Option<GameTimer>,
    ) -> PickupState {
        PickupState {
            kept: Seq::empty(),
            balls,
            pending: Seq::empty(),
            paddle,
            ball_timer,
            paddle_timer,
        }
    }
}

/// Consider one powerup: one not overlapping the paddle stays; an
/// overlapping one despawns and applies its class's effect — duplication
/// buffers one mirror per ball now in play, each enlargement sets the
/// affected sizes and (re)starts its single countdown.
pub open spec fn apply_pickup(st: PickupState, p: Powerup) -> PickupState {
    if !rects_intersect(powerup_rect(p), paddle_rect(st.paddle)) {
        PickupState { kept: st.kept.push(p), ..st }
    } else {
        match p.class {
            PowerupClass::DuplicateBall => PickupState {
                pending: st.pending + mirrors_spec(st.balls),
                ..st
            },
            PowerupClass::EnlargeBall => PickupState {
                balls: resized_spec(st.balls, Ball::enlarged_size()),
                ball_timer: Some(
                    GameTimer { elapsed: 0, duration: BALL_TIMEOUT, repeating: false },
                ),
                ..st
            },
            PowerupClass::EnlargePaddle => PickupState {
                paddle: Paddle { size: Paddle::enlarged_size(), ..st.paddle },
                paddle_timer: Some(
                    GameTimer { elapsed: 0, duration: PADDLE_TIMEOUT, repeating: false },
                ),
                ..st
            },
        }
    }
}

/// The state after the first `n` powerups have been considered, in order.
pub open spec fn pickups_upto(st0: PickupState, ps: Seq<Powerup>, n: int) -> PickupState
    decreases n,
{
    if n <= 0 {
        st0
    } else {
        apply_pickup(pickups_upto(st0, ps, n - 1), ps[n - 1])
    }
}

/// Timer exclusivity: collecting the ball-enlargement powerup twice in
/// quick succession leaves exactly one active countdown, freshly
/// restarted — the second collection replaces the first countdown rather
/// than stacking a second one beside it.
pub proof fn lemma_timer_exclusivity(st: PickupState, p1: Powerup, p2: Powerup)
    requires
        p1.class is EnlargeBall,
        p2.class is EnlargeBall,
        rects_intersect(powerup_rect(p1), paddle_rect(st.paddle)),
        rects_intersect(powerup_rect(p2), paddle_rect(st.paddle)),
    ensures
        apply_pickup(apply_pickup(st, p1), p2).ball_timer == Some(
            GameTimer { elapsed: 0, duration: BALL_TIMEOUT, repeating: false },
        ),
        apply_pickup(apply_pickup(st, p1), p2).ball_timer == apply_pickup(st, p1).ball_timer,
{
}

/// Pickups keep the two-valued size discipline: enlargements set exactly
/// the enlarged size, mirror balls spawn at exactly the nominal size, and
/// nothing else touches a size.
pub proof fn lemma_pickups_keep_sizes_two_valued(st0: PickupState, ps: Seq<Powerup>, n: int)
    requires
        forall|i: int| 0 <= i < st0.balls.len()
            ==> ball_size_two_valued(#[trigger] st0.balls[i]),
        forall|i: int| 0 <= i < st0.pending.len()
            ==> ball_size_two_valued(#[trigger] st0.pending[i]),
        paddle_size_two_valued(st0.paddle),
    ensures
        forall|i: int| 0 <= i < pickups_upto(st0, ps, n).balls.len()
            ==> ball_size_two_valued(#[trigger] pickups_upto(st0, ps, n).balls[i]),
        forall|i: int| 0 <= i < pickups_upto(st0, ps, n).pending.len()
            ==> ball_size_two_valued(#[trigger] pickups_upto(st0, ps, n).pending[i]),
        paddle_size_two_valued(pickups_upto(st0, ps, n).paddle),
    decreases n,
{
    if n <= 0 {
    } else {
        lemma_pickups_keep_sizes_two_valued(st0, ps, n - 1);
        let r1 = pickups_upto(st0, ps, n - 1);
        let r2 = apply_pickup(r1, ps[n - 1]);
        assert(pickups_upto(st0, ps, n) == r2);
        assert forall|i: int| 0 <= i < r2.balls.len() implies ball_size_two_valued(
            #[trigger] r2.balls[i],
        ) by {
            if r2.balls == resized_spec(r1.balls, Ball::enlarged_size()) {
                assert(r2.balls[i].size == Ball::enlarged_size());
            } else {
                assert(ball_size_two_valued(r1.balls[i]));
            }
        }
        assert forall|i: int| 0 <= i < r2.pending.len() implies ball_size_two_valued(
            #[trigger] r2.pending[i],
        ) by {
            if i < r1.pending.len() {
                assert(ball_size_two_valued(r1.pending[i]));
            } else if r2.pending != r1.pending {
                assert(r2.pending[i] == mirror_spec(r1.balls[i - r1.pending.len()]));
            }
        }
    }
}

/// Scan the powerups in population order against the paddle; apply and
/// despawn every overlapping one, then release the buffered mirror balls
/// into play.
pub fn check_powerups_collision(
    powerups: &mut Vec<Powerup>,
    balls: &mut Vec<Ball>,
    paddle: &mut Paddle,
    ball_timer: &mut Option<GameTimer>,
    paddle_timer: &mut Option<GameTimer>,
)
    requires
        forall|k: int| 0 <= k < old(powerups)@.len() ==> #[trigger] old(powerups)@[k].wf(),
        forall|k: int| 0 <= k < old(balls)@.len() ==> #[trigger] old(balls)@[k].wf(),
        old(paddle).wf(),
        match *old(ball_timer) {
            Some(t) => t.wf(),
            None => true,
        },
        match *old(paddle_timer) {
            Some(t) => t.wf(),
            None => true,
        },
    ensures
        match *final(ball_timer) {
            Some(t) => t.wf(),
            None => true,
        },
        match *final(paddle_timer) {
            Some(t) => t.wf(),
            None => true,
        },
        ({
            let r = pickups_upto(
                PickupState::init(
                    old(balls)@,
                    *old(paddle),
                    *old(ball_timer),
                    *old(paddle_timer),
                ),
                old(powerups)@,
                old(powerups)@.len() as int,
            );
            &&& final(powerups)@ == r.kept
            &&& final(balls)@ == r.balls + r.pending
            &&& *final(paddle) == r.paddle
            &&& *final(ball_timer) == r.ball_timer
            &&& *final(paddle_timer) == r.paddle_timer
        }),
        forall|k: int| 0 <= k < final(balls)@.len() ==> #[trigger] final(balls)@[k].wf(),
        forall|k: int| 0 <= k < final(powerups)@.len() ==> #[trigger] final(powerups)@[k].wf(),
        final(paddle).wf(),
{
    let ghost st0 = PickupState::init(balls@, *paddle, *ball_timer, *paddle_timer);

    let mut kept: Vec<Powerup> = Vec::new();
    let mut pending: Vec<Ball> = Vec::new();
    let n = powerups.len();
    for i in 0..n
        invariant
            n == powerups@.len(),
            powerups@ == old(powerups)@,
            forall|k: int| 0 <= k < powerups@.len() ==> #[trigger] powerups@[k].wf(),
            forall|k: int| 0 <= k < balls@.len() ==> #[trigger] balls@[k].wf(),
            forall|k: int| 0 <= k < pending@.len() ==> #[trigger] pending@[k].wf(),
            forall|k: int| 0 <= k < kept@.len() ==> #[trigger] kept@[k].wf(),
            paddle.wf(),
            match *ball_timer {
                Some(t) => t.wf(),
                None => true,
            },
            match *paddle_timer {
                Some(t) => t.wf(),
                None => true,
            },
            ({
                let r = pickups_upto(st0, powerups@, i as int);
                &&& kept@ == r.kept
                &&& balls@ == r.balls
                &&& pending@ == r.pending
                &&& *paddle == r.paddle
                &&& *ball_timer == r.ball_timer
                &&& *paddle_timer == r.paddle_timer
            }),
            st0 == PickupState::init(old(balls)@, *old(paddle), *old(ball_timer), *old(paddle_timer)),
    {
        let p = powerups[i];
        proof {
            assert(powerups@[i as int].wf());
        }
        let pv = Volume::Rect { rect: Rect { center: p.pos, size: p.size } };
        let pr = Rect { center: paddle.pos, size: paddle.size };
        if collide_volume(&pv, &pr).is_none() {
            kept.push(p);
        } else {
            match p.class {
                PowerupClass::DuplicateBall => {
                    let mut m = mirrored_balls(balls);
                    pending.append(&mut m);
                },
                PowerupClass::EnlargeBall => {
                    enlarge_balls(balls, ball_timer);
                },
                PowerupClass::EnlargePaddle => {
                    enlarge_paddle(paddle, paddle_timer);
                },
            }
        }
    }

    *powerups = kept;
    balls.append(&mut pending);
}

} // verus!
