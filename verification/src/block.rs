//! Blocks: the destructible grid, its initial layout, the periodic
//! descent and the incremental respawn of new rows.

use vstd::prelude::*;
use crate::config::{BLOCK_COLUMNS, BLOCK_HEALTH, BLOCK_PADDING, BLOCK_SIZE_X, BLOCK_SIZE_Y,
    MainBox, SPAWN_AFTER_GO_DOWN};
use crate::geom::{clamp_i64, clamp_spec, Vec2i, COORD_LIMIT};
use crate::timer::GameTimer;

verus! {

/// Number of occupied vertical slots in the initial formation: every
/// second of the grid's slots, so `(BLOCK_ROWS + 1) / 2`.
pub const BLOCK_ROW_SLOTS: i64 = 5;

/// A destructible block: center position, collision size and remaining
/// health (at least 1 while the block exists).
#[derive(Clone, Copy, PartialEq, Eq, Structural, Debug)]
pub struct Block {
    pub pos: Vec2i,
    pub size: Vec2i,
    pub health: u32,
}

impl Block {
    pub open spec fn wf(self) -> bool {
        &&& self.pos.wf_pos()
        &&& self.size.wf_size()
        &&& self.health >= 1
    }

    /// The size every block shares.
    pub open spec fn standard_size() -> Vec2i {
        Vec2i { x: BLOCK_SIZE_X, y: BLOCK_SIZE_Y }
    }
}

/// The grid position of the block in column `w`, slot `h`: columns run
/// right from the playfield's inner left edge, slots run down from its
/// inner top edge, one padding gap between neighbors.
pub open spec fn block_grid_pos(w: int, h: int, mb: MainBox) -> Vec2i {
    Vec2i {
        x: (w * (BLOCK_SIZE_X + BLOCK_PADDING) + BLOCK_SIZE_X / 2 + BLOCK_PADDING
            - mb.size.x / 2) as i64,
        y: (mb.size.y / 2 - BLOCK_SIZE_Y / 2 - BLOCK_PADDING
            - h * (BLOCK_SIZE_Y + BLOCK_PADDING)) as i64,
    }
}

/// A full-health block at grid position `(w, h)`.
pub open spec fn fresh_block(w: int, h: int, mb: MainBox) -> Block {
    Block { pos: block_grid_pos(w, h, mb), size: Block::standard_size(), health: BLOCK_HEALTH }
}

/// One full-width row of fresh blocks at the top of the formation.
pub open spec fn column_spec(mb: MainBox) -> Seq<Block> {
    Seq::new(BLOCK_COLUMNS as nat, |w: int| fresh_block(w, 0, mb))
}

/// Build one block at grid position `(w, h)`.
fn make_block(w: i64, h: i64, mb: &MainBox) -> (b: Block)
    requires
        0 <= w < BLOCK_COLUMNS,
        0 <= h < 2 * BLOCK_ROW_SLOTS,
        mb.wf(),
    ensures
        b == fresh_block(w as int, h as int, *mb),
        b.wf(),
{
    proof {
        assert(0 <= w * (BLOCK_SIZE_X + BLOCK_PADDING) <= 12 * 97_083) by (nonlinear_arith)
            requires
                0 <= w <= 12 && BLOCK_SIZE_X + BLOCK_PADDING == 97_083,
        ;
        assert(0 <= h * (BLOCK_SIZE_Y + BLOCK_PADDING) <= 10 * 30_000) by (nonlinear_arith)
            requires
                0 <= h <= 10 && BLOCK_SIZE_Y + BLOCK_PADDING == 30_000,
        ;
    }
    Block {
        pos: Vec2i {
            x: w * (BLOCK_SIZE_X + BLOCK_PADDING) + BLOCK_SIZE_X / 2 + BLOCK_PADDING
                - mb.size.x / 2,
            y: mb.size.y / 2 - BLOCK_SIZE_Y / 2 - BLOCK_PADDING
                - h * (BLOCK_SIZE_Y + BLOCK_PADDING),
        },
        size: Vec2i { x: BLOCK_SIZE_X, y: BLOCK_SIZE_Y },
        health: BLOCK_HEALTH,
    }
}

/// The initial formation: every column filled at every second vertical
/// slot, row-major by column.
pub fn spawn_blocks(mb: &MainBox) -> (blocks: Vec<Block>)
    requires
        mb.wf(),
    ensures
        blocks@.len() == BLOCK_COLUMNS * BLOCK_ROW_SLOTS,
        forall|k: int| 0 <= k < blocks@.len() ==> #[trigger] blocks@[k] == fresh_block(
            k / (BLOCK_ROW_SLOTS as int),
            2 * (k % (BLOCK_ROW_SLOTS as int)),
            *mb,
        ),
        forall|k: int| 0 <= k < blocks@.len() ==> #[trigger] blocks@[k].wf(),
{
    let mut blocks: Vec<Block> = Vec::new();
    let mut w: i64 = 0;
    while w < BLOCK_COLUMNS
        invariant
            0 <= w <= BLOCK_COLUMNS,
            mb.wf(),
            blocks@.len() == w * BLOCK_ROW_SLOTS,
            forall|k: int| 0 <= k < blocks@.len() ==> #[trigger] blocks@[k] == fresh_block(
                k / (BLOCK_ROW_SLOTS as int),
                2 * (k % (BLOCK_ROW_SLOTS as int)),
                *mb,
            ),
            forall|k: int| 0 <= k < blocks@.len() ==> #[trigger] blocks@[k].wf(),
        decreases BLOCK_COLUMNS - w,
    {
        let mut j: i64 = 0;
        while j < BLOCK_ROW_SLOTS
            invariant
                0 <= w < BLOCK_COLUMNS,
                0 <= j <= BLOCK_ROW_SLOTS,
                mb.wf(),
                blocks@.len() == w * BLOCK_ROW_SLOTS + j,
                forall|k: int| 0 <= k < blocks@.len() ==> #[trigger] blocks@[k] == fresh_block(
                    k / (BLOCK_ROW_SLOTS as int),
                    2 * (k % (BLOCK_ROW_SLOTS as int)),
                    *mb,
                ),
                forall|k: int| 0 <= k < blocks@.len() ==> #[trigger] blocks@[k].wf(),
            decreases BLOCK_ROW_SLOTS - j,
        {
            proof {
                vstd::arithmetic::div_mod::lemma_fundamental_div_mod_converse_div(
                    w * BLOCK_ROW_SLOTS + j,
                    BLOCK_ROW_SLOTS as int,
                    w as int,
                    j as int,
                );
                vstd::arithmetic::div_mod::lemma_fundamental_div_mod_converse_mod(
                    w * BLOCK_ROW_SLOTS + j,
                    BLOCK_ROW_SLOTS as int,
                    w as int,
                    j as int,
                );
            }
            blocks.push(make_block(w, 2 * j, mb));
            j = j + 1;
        }
        w = w + 1;
    }
    blocks
}

/// How far the formation drops on each descent: one block height plus one
/// padding gap.
pub open spec fn descent_step() -> int {
    BLOCK_SIZE_Y + BLOCK_PADDING
}

/// A block shifted down by one descent step, saturating at the
/// representable coordinate range.
pub open spec fn descended_block(b: Block) -> Block {
    Block {
        pos: Vec2i {
            x: b.pos.x,
            y: clamp_spec(
                b.pos.y - descent_step(),
                -COORD_LIMIT as int,
                COORD_LIMIT as int,
            ) as i64,
        },
        ..b
    }
}

/// The whole formation shifted down by one descent step.
pub open spec fn descended_seq(s: Seq<Block>) -> Seq<Block> {
    Seq::new(s.len(), |i: int| descended_block(s[i]))
}

/// Advance the descent timer; each time it fires, shift every block down
/// by one descent step. Reports whether it fired during this advance.
pub fn block_go_down(timer: &mut GameTimer, blocks: &mut Vec<Block>, dt: u32) -> (moved: bool)
    requires
        old(timer).wf(),
        forall|i: int| 0 <= i < old(blocks)@.len() ==> #[trigger] old(blocks)@[i].wf(),
    ensures
        forall|i: int| 0 <= i < final(blocks)@.len() ==> #[trigger] final(blocks)@[i].wf(),
        *final(timer) == old(timer).ticked(dt),
        final(timer).wf(),
        moved == old(timer).completes(dt),
        final(blocks)@ == (if moved {
            descended_seq(old(blocks)@)
        } else {
            old(blocks)@
        }),
{
    let moved = timer.tick(dt);
    if !moved {
        return false;
    }
    let n = blocks.len();
    for i in 0..n
        invariant
            n == blocks@.len(),
            blocks@.len() == old(blocks)@.len(),
            forall|j: int| 0 <= j < i ==> blocks@[j] == descended_block(old(blocks)@[j]),
            forall|j: int| i <= j < n ==> blocks@[j] == old(blocks)@[j],
            forall|j: int| 0 <= j < n ==> #[trigger] old(blocks)@[j].wf(),
            forall|j: int| 0 <= j < i ==> #[trigger] blocks@[j].wf(),
    {
        let mut b = blocks[i];
        proof {
            assert(old(blocks)@[i as int].wf());
        }
        b.pos.y = clamp_i64(b.pos.y - (BLOCK_SIZE_Y + BLOCK_PADDING), -COORD_LIMIT, COORD_LIMIT);
        blocks.set(i, b);
    }
    proof {
        assert(blocks@ =~= descended_seq(old(blocks)@));
    }
    true
}

/// When a descent has just fired, advance the modular spawn counter; each
/// time it wraps to zero, append one fresh full-width row at the top.
pub fn spawn_new_blocks(counter: &mut u32, descended: bool, blocks: &mut Vec<Block>, mb: &MainBox)
    requires
        *old(counter) < SPAWN_AFTER_GO_DOWN,
        mb.wf(),
        forall|i: int| 0 <= i < old(blocks)@.len() ==> #[trigger] old(blocks)@[i].wf(),
    ensures
        forall|i: int| 0 <= i < final(blocks)@.len() ==> #[trigger] final(blocks)@[i].wf(),
        descended ==> *final(counter) == (*old(counter) + 1) % (SPAWN_AFTER_GO_DOWN as int),
        !descended ==> *final(counter) == *old(counter) && final(blocks)@ == old(blocks)@,
        *final(counter) < SPAWN_AFTER_GO_DOWN,
        final(blocks)@ == (if descended && (*old(counter) + 1) % (SPAWN_AFTER_GO_DOWN as int) == 0 {
            old(blocks)@ + column_spec(*mb)
        } else {
            old(blocks)@
        }),
{
    if !descended {
        return ;
    }

    *counter = (*counter + 1) % SPAWN_AFTER_GO_DOWN;
    if *counter != 0 {
        return ;
    }

    let mut row = spawn_column(mb);
    blocks.append(&mut row);
}

/// Build one fresh full-width row for the top of the formation.
pub fn spawn_column(mb: &MainBox) -> (row: Vec<Block>)
    requires
        mb.wf(),
    ensures
        row@ == column_spec(*mb),
        forall|k: int| 0 <= k < row@.len() ==> #[trigger] row@[k].wf(),
{
    let mut row: Vec<Block> = Vec::new();
    let mut w: i64 = 0;
    while w < BLOCK_COLUMNS
        invariant
            0 <= w <= BLOCK_COLUMNS,
            mb.wf(),
            row@.len() == w,
            forall|u: int| 0 <= u < w ==> row@[u] == fresh_block(u, 0, *mb),
            forall|k: int| 0 <= k < row@.len() ==> #[trigger] row@[k].wf(),
        decreases BLOCK_COLUMNS - w,
    {
        row.push(make_block(w, 0, mb));
        w = w + 1;
    }
    proof {
        assert(row@ =~= column_spec(*mb));
    }
    row
}

} // verus!
