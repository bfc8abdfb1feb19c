//! Ball collision resolution: for each ball, in population order, the
//! first collider struck this tick (paddle, then walls, then live blocks)
//! determines exactly one outcome — a paddle redirection, an axis
//! reflection, block damage, or block destruction with its score,
//! experience and powerup-site effects.

use vstd::prelude::*;
use crate::ball::{paddle_bounce, paddle_bounce_spec, reflect_spec, reflect_velocity, Ball};
use crate::block::Block;
use crate::geom::{collide_spec, collide_volume, offset_x, offset_y, side_of_offset, Collision,
    Rect, Vec2i, Volume};
use crate::paddle::{sat_u32, Paddle};
use crate::world::Wall;

verus! {

/// The bounding circle a ball presents to intersection tests.
pub open spec fn ball_volume(b: Ball) -> Volume {
    Volume::Circle { center: b.pos, radius: (b.size.x / 2) as i64 }
}

pub open spec fn paddle_rect(p: Paddle) -> Rect {
    Rect { center: p.pos, size: p.size }
}

pub open spec fn wall_rect(w: Wall) -> Rect {
    Rect { center: w.pos, size: w.size }
}

pub open spec fn block_rect(b: Block) -> Rect {
    Rect { center: b.pos, size: b.size }
}

/// The side of `r` a ball strikes, read off the offset of the ball's
/// center from its nearest point of `r`.
pub open spec fn hit_side(b: Ball, r: Rect) -> Collision {
    side_of_offset(offset_x(b.pos, r), offset_y(b.pos, r))
}

/// The first collider a ball strikes this tick, if any.
#[derive(Clone, Copy, PartialEq, Eq, Structural, Debug)]
pub enum BallHit {
    Miss,
    OnPaddle,
    OnWall { idx: usize },
    OnBlock { idx: usize },
}

/// The first wall at or after index `i` that the ball intersects.
pub open spec fn scan_walls(b: Ball, walls: Seq<Wall>, i: int) -> BallHit
    decreases walls.len() - i,
{
    if i < 0 || i >= walls.len() {
        BallHit::Miss
    } else if collide_spec(ball_volume(b), wall_rect(walls[i])) is Some {
        BallHit::OnWall { idx: i as usize }
    } else {
        scan_walls(b, walls, i + 1)
    }
}

/// The first live block at or after index `i` that the ball intersects;
/// blocks destroyed earlier this tick no longer participate.
pub open spec fn scan_blocks(b: Ball, blocks: Seq<Block>, alive: Seq<bool>, i: int) -> BallHit
    decreases blocks.len() - i,
{
    if i < 0 || i >= blocks.len() {
        BallHit::Miss
    } else if alive[i] && collide_spec(ball_volume(b), block_rect(blocks[i])) is Some {
        BallHit::OnBlock { idx: i as usize }
    } else {
        scan_blocks(b, blocks, alive, i + 1)
    }
}

/// The first collider the ball strikes, in population order: the paddle,
/// then the walls, then the live blocks.
pub open spec fn first_hit(
    b: Ball,
    paddle: Paddle,
    walls: Seq<Wall>,
    blocks: Seq<Block>,
    alive: Seq<bool>,
) -> BallHit {
    if collide_spec(ball_volume(b), paddle_rect(paddle)) is Some {
        BallHit::OnPaddle
    } else {
        let wh = scan_walls(b, walls, 0);
        if wh is Miss {
            scan_blocks(b, blocks, alive, 0)
        } else {
            wh
        }
    }
}

/// A wall scan yields either a miss or an in-range wall the ball strikes.
proof fn lemma_scan_walls_props(b: Ball, walls: Seq<Wall>, i: int)
    requires
        walls.len() <= usize::MAX,
    ensures
        match scan_walls(b, walls, i) {
            BallHit::OnWall { idx } => i <= idx < walls.len() && collide_spec(
                ball_volume(b),
                wall_rect(walls[idx as int]),
            ) is Some,
            BallHit::Miss => true,
            _ => false,
        },
    decreases walls.len() - i,
{
    if i < 0 || i >= walls.len() {
    } else if collide_spec(ball_volume(b), wall_rect(walls[i])) is Some {
    } else {
        lemma_scan_walls_props(b, walls, i + 1);
    }
}

/// A block scan yields either a miss or an in-range live block the ball
/// strikes.
proof fn lemma_scan_blocks_props(b: Ball, blocks: Seq<Block>, alive: Seq<bool>, i: int)
    requires
        blocks.len() <= usize::MAX,
    ensures
        match scan_blocks(b, blocks, alive, i) {
            BallHit::OnBlock { idx } => i <= idx < blocks.len() && alive[idx as int]
                && collide_spec(ball_volume(b), block_rect(blocks[idx as int])) is Some,
            BallHit::Miss => true,
            _ => false,
        },
    decreases blocks.len() - i,
{
    if i < 0 || i >= blocks.len() {
    } else if alive[i] && collide_spec(ball_volume(b), block_rect(blocks[i])) is Some {
    } else {
        lemma_scan_blocks_props(b, blocks, alive, i + 1);
    }
}

/// What each first-hit outcome certifies about the struck collider.
proof fn lemma_first_hit_props(
    b: Ball,
    paddle: Paddle,
    walls: Seq<Wall>,
    blocks: Seq<Block>,
    alive: Seq<bool>,
)
    requires
        walls.len() <= usize::MAX,
        blocks.len() <= usize::MAX,
    ensures
        match first_hit(b, paddle, walls, blocks, alive) {
            BallHit::Miss => true,
            BallHit::OnPaddle => collide_spec(ball_volume(b), paddle_rect(paddle)) is Some,
            BallHit::OnWall { idx } => 0 <= idx < walls.len() && collide_spec(
                ball_volume(b),
                wall_rect(walls[idx as int]),
            ) is Some,
            BallHit::OnBlock { idx } => 0 <= idx < blocks.len() && alive[idx as int]
                && collide_spec(ball_volume(b), block_rect(blocks[idx as int])) is Some,
        },
{
    lemma_scan_walls_props(b, walls, 0);
    lemma_scan_blocks_props(b, blocks, alive, 0);
}

/// The resolver's running state over one tick: the ball and block
/// populations, which blocks remain live, and the tick's tallies —
/// resolved collisions, destroyed blocks and their positions.
pub struct HitState {
    pub balls: Seq<Ball>,
    pub blocks: Seq<Block>,
    pub alive: Seq<bool>,
    pub hits: nat,
    pub destroyed: nat,
    pub sites: Seq<Vec2i>,
}

impl HitState {
    /// The state before any ball has been resolved.
    pub open spec fn init(balls: Seq<Ball>, blocks: Seq<Block>) -> HitState {
        HitState {
            balls,
            blocks,
            alive: Seq::new(blocks.len(), |i: int| true),
            hits: 0,
            destroyed: 0,
            sites: Seq::empty(),
        }
    }
}

/// Resolve ball `i` against its first struck collider: a paddle hit
/// redirects the ball away from the paddle center; a wall hit reflects
/// the approaching velocity component; a block hit reflects and then
/// deals the ball's attack — a surviving block keeps the difference, a
/// destroyed block goes dead and records one destruction at its position.
pub open spec fn apply_hit(st: HitState, i: int, paddle: Paddle, walls: Seq<Wall>) -> HitState {
    let b = st.balls[i];
    match first_hit(b, paddle, walls, st.blocks, st.alive) {
        BallHit::Miss => st,
        BallHit::OnPaddle => HitState {
            balls: st.balls.update(
                i,
                Ball { vel: paddle_bounce_spec(b.pos, paddle.pos, b.vel), ..b },
            ),
            hits: st.hits + 1,
            ..st
        },
        BallHit::OnWall { idx } => HitState {
            balls: st.balls.update(
                i,
                Ball { vel: reflect_spec(b.vel, hit_side(b, wall_rect(walls[idx as int]))), ..b },
            ),
            hits: st.hits + 1,
            ..st
        },
        BallHit::OnBlock { idx } => {
            let blk = st.blocks[idx as int];
            let balls2 = st.balls.update(
                i,
                Ball { vel: reflect_spec(b.vel, hit_side(b, block_rect(blk))), ..b },
            );
            if blk.health > b.attack {
                HitState {
                    balls: balls2,
                    blocks: st.blocks.update(
                        idx as int,
                        Block { health: (blk.health - b.attack) as u32, ..blk },
                    ),
                    hits: st.hits + 1,
                    ..st
                }
            } else {
                HitState {
                    balls: balls2,
                    alive: st.alive.update(idx as int, false),
                    hits: st.hits + 1,
                    destroyed: st.destroyed + 1,
                    sites: st.sites.push(blk.pos),
                    ..st
                }
            }
        },
    }
}

/// The state after the first `n` balls have been resolved, in order.
pub open spec fn resolve_upto(st0: HitState, paddle: Paddle, walls: Seq<Wall>, n: int) -> HitState
    decreases n,
{
    if n <= 0 {
        st0
    } else {
        apply_hit(resolve_upto(st0, paddle, walls, n - 1), n - 1, paddle, walls)
    }
}

/// Collision resolution changes only ball velocities: every ball keeps
/// its position, size and attack.
pub proof fn lemma_resolve_upto_keeps_ball_fields(
    st0: HitState,
    paddle: Paddle,
    walls: Seq<Wall>,
    n: int,
)
    requires
        0 <= n <= st0.balls.len(),
    ensures
        resolve_upto(st0, paddle, walls, n).balls.len() == st0.balls.len(),
        forall|i: int| 0 <= i < st0.balls.len()
            ==> (#[trigger] resolve_upto(st0, paddle, walls, n).balls[i]).pos
            == st0.balls[i].pos,
        forall|i: int| 0 <= i < st0.balls.len()
            ==> (#[trigger] resolve_upto(st0, paddle, walls, n).balls[i]).size
            == st0.balls[i].size,
        forall|i: int| 0 <= i < st0.balls.len()
            ==> (#[trigger] resolve_upto(st0, paddle, walls, n).balls[i]).attack
            == st0.balls[i].attack,
    decreases n,
{
    if n <= 0 {
    } else {
        lemma_resolve_upto_keeps_ball_fields(st0, paddle, walls, n - 1);
        let r1 = resolve_upto(st0, paddle, walls, n - 1);
        let r2 = apply_hit(r1, n - 1, paddle, walls);
        assert(resolve_upto(st0, paddle, walls, n) == r2);
        assert forall|i: int| 0 <= i < st0.balls.len() implies {
            &&& (#[trigger] r2.balls[i]).pos == st0.balls[i].pos
            &&& r2.balls[i].size == st0.balls[i].size
            &&& r2.balls[i].attack == st0.balls[i].attack
        } by {
            assert(r1.balls[i].pos == st0.balls[i].pos);
            assert(r1.balls[i].size == st0.balls[i].size);
            assert(r1.balls[i].attack == st0.balls[i].attack);
        }
    }
}

/// The blocks that survive the tick, in order: those still live.
pub open spec fn live_blocks(blocks: Seq<Block>, alive: Seq<bool>) -> Seq<Block>
    decreases blocks.len(),
{
    if blocks.len() == 0 {
        Seq::empty()
    } else {
        let rest = live_blocks(blocks.drop_last(), alive.drop_last());
        if alive.len() == blocks.len() && alive.last() {
            rest.push(blocks.last())
        } else {
            rest
        }
    }
}

/// Find the first collider this ball strikes: the paddle, then the walls
/// in order, then the live blocks in order.
fn find_first_hit(
    b: &Ball,
    paddle: &Paddle,
    walls: &Vec<Wall>,
    blocks: &Vec<Block>,
    alive: &Vec<bool>,
) -> (h: BallHit)
    requires
        b.wf(),
        paddle.wf(),
        forall|k: int| 0 <= k < walls@.len() ==> #[trigger] walls@[k].wf(),
        forall|k: int| 0 <= k < blocks@.len() ==> #[trigger] blocks@[k].wf(),
        alive@.len() == blocks@.len(),
    ensures
        h == first_hit(*b, *paddle, walls@, blocks@, alive@),
{
    let bv = Volume::Circle { center: b.pos, radius: b.size.x / 2 };
    let pr = Rect { center: paddle.pos, size: paddle.size };
    if collide_volume(&bv, &pr).is_some() {
        return BallHit::OnPaddle;
    }

    let nw = walls.len();
    let mut i: usize = 0;
    while i < nw
        invariant
            nw == walls@.len(),
            0 <= i <= nw,
            bv == ball_volume(*b),
            b.wf(),
            forall|k: int| 0 <= k < walls@.len() ==> #[trigger] walls@[k].wf(),
            scan_walls(*b, walls@, 0) == scan_walls(*b, walls@, i as int),
            collide_spec(ball_volume(*b), paddle_rect(*paddle)) is None,
        decreases nw - i,
    {
        let w = &walls[i];
        proof {
            assert(walls@[i as int].wf());
        }
        let wr = Rect { center: w.pos, size: w.size };
        if collide_volume(&bv, &wr).is_some() {
            return BallHit::OnWall { idx: i };
        }
        i = i + 1;
    }

    let nb = blocks.len();
    let mut j: usize = 0;
    while j < nb
        invariant
            nb == blocks@.len(),
            alive@.len() == blocks@.len(),
            0 <= j <= nb,
            bv == ball_volume(*b),
            b.wf(),
            forall|k: int| 0 <= k < blocks@.len() ==> #[trigger] blocks@[k].wf(),
            scan_walls(*b, walls@, 0) is Miss,
            scan_blocks(*b, blocks@, alive@, 0) == scan_blocks(*b, blocks@, alive@, j as int),
            collide_spec(ball_volume(*b), paddle_rect(*paddle)) is None,
        decreases nb - j,
    {
        if alive[j] {
            let blk = &blocks[j];
            proof {
                assert(blocks@[j as int].wf());
            }
            let br = Rect { center: blk.pos, size: blk.size };
            if collide_volume(&bv, &br).is_some() {
                return BallHit::OnBlock { idx: j };
            }
        }
        j = j + 1;
    }

    BallHit::Miss
}

/// What one tick of collision resolution reported: how many collisions
/// were resolved (each one is an audio cue), how many blocks were
/// destroyed (each one is a point and an experience unit), and where.
pub struct CollisionEvents {
    pub hits: usize,
    pub destroyed: usize,
    pub sites: Vec<Vec2i>,
}

/// Resolve every ball against the colliders in population order, apply
/// block damage and destruction, remove destroyed blocks, and add one
/// score point per destruction (saturating at the counter's range).
pub fn check_ball_collision(
    balls: &mut Vec<Ball>,
    blocks: &mut Vec<Block>,
    paddle: &Paddle,
    walls: &Vec<Wall>,
    score: &mut u32,
) -> (ev: CollisionEvents)
    requires
        forall|k: int| 0 <= k < old(balls)@.len() ==> #[trigger] old(balls)@[k].wf(),
        forall|k: int| 0 <= k < old(blocks)@.len() ==> #[trigger] old(blocks)@[k].wf(),
        paddle.wf(),
        forall|k: int| 0 <= k < walls@.len() ==> #[trigger] walls@[k].wf(),
    ensures
        ({
            let r = resolve_upto(
                HitState::init(old(balls)@, old(blocks)@),
                *paddle,
                walls@,
                old(balls)@.len() as int,
            );
            &&& final(balls)@ == r.balls
            &&& final(blocks)@ == live_blocks(r.blocks, r.alive)
            &&& *final(score) == sat_u32(*old(score) + r.destroyed)
            &&& ev.hits as nat == r.hits
            &&& ev.destroyed as nat == r.destroyed
            &&& ev.sites@ == r.sites
        }),
        forall|k: int| 0 <= k < final(balls)@.len() ==> #[trigger] final(balls)@[k].wf(),
        forall|k: int| 0 <= k < final(blocks)@.len() ==> #[trigger] final(blocks)@[k].wf(),
        forall|k: int| 0 <= k < ev.sites@.len() ==> (#[trigger] ev.sites@[k]).wf_pos(),
{
    let ghost st0 = HitState::init(balls@, blocks@);

    let mut alive: Vec<bool> = Vec::new();
    let nb = blocks.len();
    for k in 0..nb
        invariant
            alive@.len() == k,
            forall|t: int| 0 <= t < k ==> alive@[t] == true,
    {
        alive.push(true);
    }
    proof {
        assert(alive@ =~= Seq::new(blocks@.len(), |i: int| true));
    }

    let mut sites: Vec<Vec2i> = Vec::new();
    let mut hits: usize = 0;
    let mut destroyed: usize = 0;

    let nw = walls.len();
    let n = balls.len();
    for i in 0..n
        invariant
            n == balls@.len(),
            nw == walls@.len(),
            blocks@.len() <= usize::MAX,
            balls@.len() == old(balls)@.len(),
            blocks@.len() == old(blocks)@.len(),
            alive@.len() == blocks@.len(),
            paddle.wf(),
            forall|k: int| 0 <= k < walls@.len() ==> #[trigger] walls@[k].wf(),
            forall|k: int| 0 <= k < balls@.len() ==> #[trigger] balls@[k].wf(),
            forall|k: int| 0 <= k < blocks@.len() ==> #[trigger] blocks@[k].wf(),
            hits <= i,
            destroyed <= i,
            ({
                let r = resolve_upto(st0, *paddle, walls@, i as int);
                &&& balls@ == r.balls
                &&& blocks@ == r.blocks
                &&& alive@ == r.alive
                &&& hits as nat == r.hits
                &&& destroyed as nat == r.destroyed
                &&& sites@ == r.sites
            }),
            forall|k: int| 0 <= k < sites@.len() ==> (#[trigger] sites@[k]).wf_pos(),
            st0 == HitState::init(old(balls)@, old(blocks)@),
    {
        let b = balls[i];
        proof {
            assert(balls@[i as int].wf());
        }
        let h = find_first_hit(&b, paddle, walls, blocks, &alive);
        proof {
            lemma_first_hit_props(b, *paddle, walls@, blocks@, alive@);
        }
        match h {
            BallHit::Miss => {},
            BallHit::OnPaddle => {
                let v2 = paddle_bounce(b.pos, paddle.pos, b.vel);
                let mut b2 = b;
                b2.vel = v2;
                balls.set(i, b2);
                hits = hits + 1;
            },
            BallHit::OnWall { idx } => {
                proof {
                    assert(walls@[idx as int].wf());
                }
                let w = &walls[idx];
                let wr = Rect { center: w.pos, size: w.size };
                let bv = Volume::Circle { center: b.pos, radius: b.size.x / 2 };
                let side = match collide_volume(&bv, &wr) {
                    Some(s) => s,
                    None => {
                        proof {
                            assert(false);
                        }
                        Collision::Bottom
                    },
                };
                let mut b2 = b;
                b2.vel = reflect_velocity(b.vel, side);
                balls.set(i, b2);
                hits = hits + 1;
            },
            BallHit::OnBlock { idx } => {
                proof {
                    assert(blocks@[idx as int].wf());
                }
                let blk = blocks[idx];
                let br = Rect { center: blk.pos, size: blk.size };
                let bv = Volume::Circle { center: b.pos, radius: b.size.x / 2 };
                let side = match collide_volume(&bv, &br) {
                    Some(s) => s,
                    None => {
                        proof {
                            assert(false);
                        }
                        Collision::Bottom
                    },
                };
                let mut b2 = b;
                b2.vel = reflect_velocity(b.vel, side);
                balls.set(i, b2);
                if blk.health > b.attack {
                    let mut blk2 = blk;
                    blk2.health = blk.health - b.attack;
                    blocks.set(idx, blk2);
                } else {
                    alive.set(idx, false);
                    destroyed = destroyed + 1;
                    sites.push(blk.pos);
                }
                hits = hits + 1;
            },
        }
    }

    let ghost r = resolve_upto(st0, *paddle, walls@, n as int);

    let mut kept: Vec<Block> = Vec::new();
    for j in 0..nb
        invariant
            nb == blocks@.len(),
            alive@.len() == blocks@.len(),
            forall|k: int| 0 <= k < blocks@.len() ==> #[trigger] blocks@[k].wf(),
            kept@ == live_blocks(blocks@.subrange(0, j as int), alive@.subrange(0, j as int)),
            forall|k: int| 0 <= k < kept@.len() ==> #[trigger] kept@[k].wf(),
    {
        proof {
            assert(blocks@.subrange(0, j + 1).drop_last() =~= blocks@.subrange(0, j as int));
            assert(alive@.subrange(0, j + 1).drop_last() =~= alive@.subrange(0, j as int));
            assert(blocks@[j as int].wf());
        }
        if alive[j] {
            kept.push(blocks[j]);
        }
    }
    proof {
        assert(blocks@.subrange(0, nb as int) =~= blocks@);
        assert(alive@.subrange(0, nb as int) =~= alive@);
    }
    *blocks = kept;

    let d32: u32 = if destroyed > u32::MAX as usize {
        u32::MAX
    } else {
        destroyed as u32
    };
    let wide: u64 = *score as u64 + d32 as u64;
    *score = if wide > u32::MAX as u64 {
        u32::MAX
    } else {
        wide as u32
    };

    CollisionEvents { hits, destroyed, sites }
}

} // verus!
