//! Powerups: the three pickup classes, the probabilistic spawn draw made
//! on block destruction, and the despawn of powerups that fall out of the
//! playfield.

use vstd::prelude::*;
use rand::Rng;
use crate::config::{MainBox, POWERUP_SIZE, POWERUP_VEL_Y};
use crate::geom::Vec2i;

verus! {

/// How many powerup classes exist.
pub const CLASS_COUNT: u32 = 3;

/// A drawn class is accepted with probability `ACCEPT_NUM / ACCEPT_DEN`.
pub const ACCEPT_NUM: u32 = 2;

pub const ACCEPT_DEN: u32 = 10;

/// The closed set of pickup effects.
#[derive(Clone, Copy, PartialEq, Eq, Structural, Debug)]
pub enum PowerupClass {
    DuplicateBall,
    EnlargeBall,
    EnlargePaddle,
}

/// A powerup drifting down toward the paddle.
#[derive(Clone, Copy, PartialEq, Eq, Structural, Debug)]
pub struct Powerup {
    pub pos: Vec2i,
    pub vel: Vec2i,
    pub size: Vec2i,
    pub class: PowerupClass,
}

impl Powerup {
    pub open spec fn wf(self) -> bool {
        &&& self.pos.wf_pos()
        &&& self.vel.wf_vel()
        &&& self.size.wf_size()
    }
}

/// The class drawn by a uniform index: the classes in declaration order.
pub open spec fn class_of_index(index: int) -> PowerupClass {
    if index == 0 {
        PowerupClass::DuplicateBall
    } else if index == 1 {
        PowerupClass::EnlargeBall
    } else {
        PowerupClass::EnlargePaddle
    }
}

/// What a pair of draws yields: the uniformly drawn class, kept only when
/// the acceptance roll lands below the trigger threshold.
pub open spec fn draw_spec(index: int, roll: int) -> Option<PowerupClass> {
    if roll < ACCEPT_NUM {
        Some(class_of_index(index))
    } else {
        None
    }
}

/// Relies on `rand::Rng::gen_range` over the range `0..n`: it returns a
/// value of that range, and panics only when the range is empty.
#[verifier::external_body]
fn random_below(n: u32) -> (r: u32)
    requires
        n >= 1,
    ensures
        r < n,
{
    rand::thread_rng().gen_range(0..n)
}

/// The deterministic part of the spawn policy: which powerup, if any, a
/// pair of uniform draws produces. The class index is drawn from
/// `0..CLASS_COUNT`, the acceptance roll from `0..ACCEPT_DEN`, and the
/// draw is accepted exactly when the roll lands below `ACCEPT_NUM`.
pub fn powerup_from_draw(index: u32, roll: u32) -> (r: Option<PowerupClass>)
    requires
        index < CLASS_COUNT,
        roll < ACCEPT_DEN,
    ensures
        r == draw_spec(index as int, roll as int),
{
    if roll < ACCEPT_NUM {
        if index == 0 {
            Some(PowerupClass::DuplicateBall)
        } else if index == 1 {
            Some(PowerupClass::EnlargeBall)
        } else {
            Some(PowerupClass::EnlargePaddle)
        }
    } else {
        None
    }
}

/// Draw one powerup class at random: a uniform class pick, then an
/// independent acceptance roll. The outcome is random; every outcome is a
/// valid draw.
pub fn next_rng() -> (r: Option<PowerupClass>)
{
    let index = random_below(CLASS_COUNT);
    let roll = random_below(ACCEPT_DEN);
    powerup_from_draw(index, roll)
}

/// The powerup of a class as it spawns at a destroyed block's position:
/// constant downward drift and pickup size.
pub open spec fn powerup_at(class: PowerupClass, pos: Vec2i) -> Powerup {
    Powerup {
        pos,
        vel: Vec2i { x: 0, y: POWERUP_VEL_Y },
        size: Vec2i { x: POWERUP_SIZE, y: POWERUP_SIZE },
        class,
    }
}

/// Build the powerup of a class at a spawn position.
pub fn make_powerup(class: PowerupClass, pos: Vec2i) -> (p: Powerup)
    ensures
        p == powerup_at(class, pos),
{
    Powerup {
        pos,
        vel: Vec2i { x: 0, y: POWERUP_VEL_Y },
        size: Vec2i { x: POWERUP_SIZE, y: POWERUP_SIZE },
        class,
    }
}

/// Spawn a powerup at a destroyed block's position with the configured
/// probability. The draw is random; whatever comes back is either nothing
/// or the standard powerup of its class at `pos`.
pub fn spawn_powerup(pos: Vec2i) -> (r: Option<Powerup>)
    ensures
        match r {
            Some(p) => p == powerup_at(p.class, pos),
            None => true,
        },
{
    match next_rng() {
        Some(class) => Some(make_powerup(class, pos)),
        None => None,
    }
}

/// The powerups produced by the tick's spawn decisions: at each destroyed
/// block's position, in order, either one standard powerup of the decided
/// class or nothing.
pub open spec fn spawned_seq(sites: Seq<Vec2i>, ds: Seq<Option<PowerupClass>>) -> Seq<Powerup>
    decreases sites.len(),
{
    if sites.len() == 0 {
        Seq::empty()
    } else {
        let rest = spawned_seq(sites.drop_last(), ds.drop_last());
        match ds.last() {
            Some(c) => rest.push(powerup_at(c, sites.last())),
            None => rest,
        }
    }
}

/// Make one random spawn draw per destroyed-block site, appending the
/// accepted powerups in site order. The draws are random; the returned
/// ghost decisions witness which sites spawned what.
pub fn spawn_powerups(powerups: &mut Vec<Powerup>, sites: &Vec<Vec2i>) -> (ds: Ghost<
    Seq<Option<PowerupClass>>,
>)
    requires
        forall|k: int| 0 <= k < old(powerups)@.len() ==> #[trigger] old(powerups)@[k].wf(),
        forall|k: int| 0 <= k < sites@.len() ==> (#[trigger] sites@[k]).wf_pos(),
    ensures
        ds@.len() == sites@.len(),
        final(powerups)@ == old(powerups)@ + spawned_seq(sites@, ds@),
        forall|k: int| 0 <= k < final(powerups)@.len() ==> #[trigger] final(powerups)@[k].wf(),
{
    let ghost mut decisions: Seq<Option<PowerupClass>> = Seq::empty();
    let n = sites.len();
    for i in 0..n
        invariant
            n == sites@.len(),
            decisions.len() == i,
            powerups@ == old(powerups)@ + spawned_seq(sites@.subrange(0, i as int), decisions),
            forall|k: int| 0 <= k < powerups@.len() ==> #[trigger] powerups@[k].wf(),
            forall|k: int| 0 <= k < sites@.len() ==> (#[trigger] sites@[k]).wf_pos(),
    {
        let site = sites[i];
        proof {
            assert(sites@[i as int].wf_pos());
            assert(sites@.subrange(0, i + 1).drop_last() =~= sites@.subrange(0, i as int));
            assert(sites@.subrange(0, i + 1).last() == sites@[i as int]);
        }
        match spawn_powerup(site) {
            Some(p) => {
                powerups.push(p);
                proof {
                    let prev = decisions;
                    decisions = decisions.push(Some(p.class));
                    assert(decisions.drop_last() =~= prev);
                }
            },
            None => {
                proof {
                    let prev = decisions;
                    decisions = decisions.push(None);
                    assert(decisions.drop_last() =~= prev);
                }
            },
        }
    }
    proof {
        assert(sites@.subrange(0, n as int) =~= sites@);
    }
    Ghost(decisions)
}

/// The powerups still above the playfield's bottom bound, in order.
pub open spec fn kept_powerups(s: Seq<Powerup>, min_y: int) -> Seq<Powerup>
    decreases s.len(),
{
    if s.len() == 0 {
        Seq::empty()
    } else {
        let rest = kept_powerups(s.drop_last(), min_y);
        if s.last().pos.y >= min_y {
            rest.push(s.last())
        } else {
            rest
        }
    }
}

/// Despawn every powerup that has fallen past the playfield's bottom
/// bound, keeping the rest in order.
pub fn check_powerups_out_of_bounds(powerups: &mut Vec<Powerup>, mb: &MainBox)
    requires
        mb.wf(),
        forall|i: int| 0 <= i < old(powerups)@.len() ==> #[trigger] old(powerups)@[i].wf(),
    ensures
        final(powerups)@ == kept_powerups(old(powerups)@, -(mb.size.y / 2) as int),
        forall|i: int| 0 <= i < final(powerups)@.len() ==> #[trigger] final(powerups)@[i].wf(),
{
    let min_y: i64 = -(mb.size.y / 2);
    let mut kept: Vec<Powerup> = Vec::new();
    let n = powerups.len();
    for i in 0..n
        invariant
            n == powerups@.len(),
            powerups@ == old(powerups)@,
            min_y == -(mb.size.y / 2) as int,
            kept@ == kept_powerups(powerups@.subrange(0, i as int), min_y as int),
            forall|k: int| 0 <= k < powerups@.len() ==> #[trigger] powerups@[k].wf(),
            forall|k: int| 0 <= k < kept@.len() ==> #[trigger] kept@[k].wf(),
    {
        let p = powerups[i];
        proof {
            assert(powerups@[i as int].wf());
            assert(powerups@.subrange(0, i + 1).drop_last() =~= powerups@.subrange(0, i as int));
            assert(powerups@.subrange(0, i + 1).last() == powerups@[i as int]);
        }
        if p.pos.y >= min_y {
            kept.push(p);
        }
    }
    proof {
        assert(powerups@.subrange(0, n as int) =~= powerups@);
    }
    *powerups = kept;
}

} // verus!
