use vstd::prelude::*;

verus! {

/// Rows of blocks in a fresh wall.
pub const BLOCK_ROWS: u32 = 5;

/// Width of one block, in cells.
pub const BLOCK_WIDTH: u32 = 3;

/// Screen row of the wall's top row.
pub const BLOCK_TOP: u32 = 3;

/// The colour of a block, picked by its row.
#[derive(Clone, Copy, Debug, PartialEq, Eq, Structural)]
pub enum BlockColor {
    Cyan,
    Blue,
    Magenta,
}

/// One block of the wall: `width` cells from column `x` on row `y`.
#[derive(Clone, Copy, Debug, PartialEq, Eq, Structural)]
pub struct Block {
    pub x: u32,
    pub y: u32,
    pub width: u32,
    pub color: BlockColor,
    pub hit: bool,
}

/// Blocks in one row of a wall on a playfield `width` cells wide.
pub open spec fn columns(width: int) -> int {
    width / BLOCK_WIDTH as int
}

/// Number of blocks in a wall on a playfield `width` cells wide.
pub open spec fn block_count(width: int) -> int {
    BLOCK_ROWS * columns(width)
}

/// The colour of the blocks of a row, cycling through three colours.
pub open spec fn row_color(row: int) -> BlockColor {
    if row % 3 == 0 {
        BlockColor::Cyan
    } else if row % 3 == 1 {
        BlockColor::Blue
    } else {
        BlockColor::Magenta
    }
}

/// The `i`-th block of a fresh wall, row by row from the top, left to right.
pub open spec fn fresh_block(width: int, i: int) -> Block {
    let row = i / columns(width);
    let col = i % columns(width);
    Block {
        x: (col * BLOCK_WIDTH) as u32,
        y: (row + BLOCK_TOP) as u32,
        width: BLOCK_WIDTH,
        color: row_color(row),
        hit: false,
    }
}

/// The blocks of a fresh wall on a playfield `width` cells wide.
pub open spec fn fresh_wall(width: int) -> Seq<Block> {
    Seq::new(block_count(width) as nat, |i: int| fresh_block(width, i))
}

/// Number of blocks of `s` that have been hit.
pub open spec fn hits(s: Seq<Block>) -> nat
    decreases s.len(),
{
    if s.len() == 0 {
        0
    } else {
        hits(s.drop_last()) + if s.last().hit {
            1nat
        } else {
            0nat
        }
    }
}

/// Every block of `s` has been hit.
pub open spec fn all_hit(s: Seq<Block>) -> bool {
    forall|i: int| 0 <= i < s.len() ==> #[trigger] s[i].hit
}

/// Replacing one block changes the count of hits by what the two blocks differ in.
pub proof fn lemma_hits_update(s: Seq<Block>, i: int, b: Block)
    requires
        0 <= i < s.len(),
    ensures
        hits(s.update(i, b)) + (if s[i].hit {
            1int
        } else {
            0int
        }) == hits(s) + (if b.hit {
            1int
        } else {
            0int
        }),
    decreases s.len(),
{
    let t = s.update(i, b);
    if i == s.len() - 1 {
        assert(t.drop_last() =~= s.drop_last());
    } else {
        lemma_hits_update(s.drop_last(), i, b);
        assert(t.drop_last() =~= s.drop_last().update(i, b));
    }
}

/// No more blocks are hit than there are blocks.
pub proof fn lemma_hits_bounded(s: Seq<Block>)
    ensures
        hits(s) <= s.len(),
    decreases s.len(),
{
    if s.len() > 0 {
        lemma_hits_bounded(s.drop_last());
    }
}

/// All blocks are hit exactly when the count of hits is the number of blocks.
pub proof fn lemma_all_hit_count(s: Seq<Block>)
    ensures
        all_hit(s) <==> hits(s) == s.len(),
    decreases s.len(),
{
    lemma_hits_bounded(s);
    if s.len() > 0 {
        let t = s.drop_last();
        lemma_all_hit_count(t);
        lemma_hits_bounded(t);
        if all_hit(s) {
            assert forall|i: int| 0 <= i < t.len() implies #[trigger] t[i].hit by {
                assert(s[i].hit);
            }
            assert(s[s.len() - 1].hit);
        }
        if hits(s) == s.len() {
            assert forall|i: int| 0 <= i < s.len() implies #[trigger] s[i].hit by {
                if i < s.len() - 1 {
                    assert(t[i].hit);
                }
            }
        }
    }
}

/// Tells whether every block has been hit.
pub fn all_blocks_hit(blocks: &Vec<Block>) -> (r: bool)
    ensures
        r == all_hit(blocks@),
{
    let mut i: usize = 0;
    while i < blocks.len()
        invariant
            i <= blocks@.len(),
            forall|j: int| 0 <= j < i ==> #[trigger] blocks@[j].hit,
        decreases blocks@.len() - i,
    {
        if !blocks[i].hit {
            return false;
        }
        i = i + 1;
    }
    true
}

/// No block of a fresh wall has been hit.
pub proof fn lemma_fresh_hits(s: Seq<Block>)
    requires
        forall|i: int| 0 <= i < s.len() ==> !(#[trigger] s[i].hit),
    ensures
        hits(s) == 0,
    decreases s.len(),
{
    if s.len() > 0 {
        lemma_fresh_hits(s.drop_last());
    }
}

/// Lays out a fresh wall for a playfield `width` cells wide: `BLOCK_ROWS` rows of
/// `width / BLOCK_WIDTH` blocks, from row `BLOCK_TOP` down, coloured by row.
pub fn create_blocks(width: u16) -> (r: Vec<Block>)
    ensures
        r@ == fresh_wall(width as int),
{
    let cols: u32 = width as u32 / BLOCK_WIDTH;
    let n: u32 = BLOCK_ROWS * cols;
    let mut blocks: Vec<Block> = Vec::new();
    let mut i: u32 = 0;
    while i < n
        invariant
            cols as int == columns(width as int),
            n as int == block_count(width as int),
            i <= n,
            blocks@.len() == i,
            forall|j: int| 0 <= j < i ==> blocks@[j] == fresh_block(width as int, j),
        decreases n - i,
    {
        let row: u32 = i / cols;
        let col: u32 = i % cols;
        proof {
            assert(row < BLOCK_ROWS) by (nonlinear_arith)
                requires row == i / cols, i < BLOCK_ROWS * cols, cols > 0;
            assert(col < cols) by (nonlinear_arith)
                requires col == i % cols, cols > 0;
        }
        let color = if row % 3 == 0 {
            BlockColor::Cyan
        } else if row % 3 == 1 {
            BlockColor::Blue
        } else {
            BlockColor::Magenta
        };
        blocks.push(Block { x: col * BLOCK_WIDTH, y: row + BLOCK_TOP, width: BLOCK_WIDTH, color, hit: false });
        i = i + 1;
    }
    assert(blocks@ =~= fresh_wall(width as int));
    blocks
}

} // verus!
