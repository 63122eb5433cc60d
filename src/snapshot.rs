use vstd::prelude::*;

use crate::game::{Game, GameView, CELL, PADDLE_WIDTH};
use crate::grid::Block;

verus! {

/// Which message is laid over the playfield.
#[derive(Clone, Copy, Debug, PartialEq, Eq, Structural)]
pub enum OverlayKind {
    GameOver,
    Won,
}

/// What a renderer draws for one frame; every position is a cell of the playfield.
pub struct Snapshot {
    /// Leftmost cell of the paddle, its row and its width in cells.
    pub paddle_x: u16,
    pub paddle_y: u16,
    pub paddle_width: u16,
    /// The ball's cell.
    pub ball_x: u16,
    pub ball_y: u16,
    /// Which of the ball's glyphs to show.
    pub ball_frame: u32,
    /// The ball shows its second colour in this half of its blink.
    pub ball_blink: bool,
    /// The blocks still standing, in wall order.
    pub blocks: Vec<Block>,
    /// The status line, `Score: <score>  Lives: <lives>`.
    pub status: Vec<char>,
    /// The message to show, and its row, once the game is over or won.
    pub overlay: Option<(OverlayKind, u16)>,
}

/// A decimal digit.
pub open spec fn digit_char(d: int) -> char {
    ((d + 48) as u8) as char
}

/// The decimal numeral of `n`, without leading zeros.
pub open spec fn decimal(n: nat) -> Seq<char>
    decreases n,
{
    if n < 10 {
        seq![digit_char(n as int)]
    } else {
        decimal(n / 10).push(digit_char((n % 10) as int))
    }
}

/// The status line for a score and a count of lives.
pub open spec fn status_text(score: nat, lives: nat) -> Seq<char> {
    seq!['S', 'c', 'o', 'r', 'e', ':', ' '] + decimal(score) + seq![' ', ' ', 'L', 'i', 'v', 'e', 's', ':', ' ']
        + decimal(lives)
}

/// The blocks of `s` still standing, in order.
pub open spec fn standing(s: Seq<Block>) -> Seq<Block> {
    s.filter(|b: Block| !b.hit)
}

/// The column at which a text `len` characters long is centred on a playfield `width`
/// cells wide; a text wider than the playfield starts at its left edge.
pub open spec fn centred_column(width: int, len: int) -> int {
    if width >= len {
        (width - len) / 2
    } else {
        0
    }
}

/// Appends the decimal numeral of `n` to `out`.
fn push_decimal(out: &mut Vec<char>, n: u64)
    ensures
        final(out)@ == old(out)@ + decimal(n as nat),
    decreases n,
{
    if n >= 10 {
        push_decimal(out, n / 10);
    }
    let d: u8 = (n % 10) as u8;
    out.push((d + 48) as char);
    proof {
        if n >= 10 {
            assert(old(out)@ + decimal(n as nat) =~= old(out)@ + decimal((n / 10) as nat) + seq![
                digit_char((n % 10) as int),
            ]);
        } else {
            assert(old(out)@ + decimal(n as nat) =~= old(out)@ + seq![digit_char(n as int)]);
        }
    }
}

/// The status line `Score: <score>  Lives: <lives>`.
pub fn status_line(score: u64, lives: u32) -> (r: Vec<char>)
    ensures
        r@ == status_text(score as nat, lives as nat),
{
    let mut out: Vec<char> = Vec::new();
    out.push('S');
    out.push('c');
    out.push('o');
    out.push('r');
    out.push('e');
    out.push(':');
    out.push(' ');
    push_decimal(&mut out, score);
    out.push(' ');
    out.push(' ');
    out.push('L');
    out.push('i');
    out.push('v');
    out.push('e');
    out.push('s');
    out.push(':');
    out.push(' ');
    push_decimal(&mut out, lives as u64);
    assert(out@ =~= status_text(score as nat, lives as nat));
    out
}

/// The column at which a text `len` characters long is centred on a playfield `width`
/// cells wide, see [`centred_column`].
pub fn centre_column(width: u16, len: usize) -> (r: u16)
    ensures
        r as int == centred_column(width as int, len as int),
{
    if width as usize >= len {
        ((width as usize - len) / 2) as u16
    } else {
        0
    }
}

/// The blocks of `blocks` still standing, in order.
pub fn standing_blocks(blocks: &Vec<Block>) -> (r: Vec<Block>)
    ensures
        r@ == standing(blocks@),
{
    let mut out: Vec<Block> = Vec::new();
    let mut i: usize = 0;
    while i < blocks.len()
        invariant
            i <= blocks@.len(),
            out@ == standing(blocks@.subrange(0, i as int)),
        decreases blocks@.len() - i,
    {
        let b = blocks[i];
        proof {
            let s = blocks@.subrange(0, i as int + 1);
            assert(s.drop_last() =~= blocks@.subrange(0, i as int));
            reveal(Seq::filter);
        }
        if !b.hit {
            out.push(b);
        }
        i = i + 1;
    }
    assert(blocks@.subrange(0, blocks@.len() as int) =~= blocks@);
    out
}

impl Game {
    /// What a renderer draws for the current state: the paddle, the ball with its glyph
    /// and blink, the standing blocks, the status line, and the row of the overlay once
    /// the game is over (that message first) or won.
    pub fn snapshot(&self) -> (r: Snapshot)
        requires
            self@.wf(),
        ensures
            r.paddle_x as int == self.paddle_x as int / (CELL as int),
            r.paddle_y as int == self.height - 2,
            r.paddle_width == PADDLE_WIDTH,
            r.ball_x as int == self.ball_x as int / (CELL as int),
            r.ball_y as int == self.ball_y as int / (CELL as int),
            r.ball_frame == self.ball_frame,
            r.ball_blink == (self.animation_counter % 10 >= 5),
            r.blocks@ == standing(self.blocks@),
            r.status@ == status_text(self.score as nat, self.lives as nat),
            r.overlay == if self.game_over {
                Some((OverlayKind::GameOver, self.height / 2))
            } else if self.game_won {
                Some((OverlayKind::Won, self.height / 2))
            } else {
                None::<(OverlayKind, u16)>
            },
    {
        let overlay = if self.game_over {
            Some((OverlayKind::GameOver, self.height / 2))
        } else if self.game_won {
            Some((OverlayKind::Won, self.height / 2))
        } else {
            None
        };
        Snapshot {
            paddle_x: (self.paddle_x as u64 / CELL as u64) as u16,
            paddle_y: self.height - 2,
            paddle_width: PADDLE_WIDTH,
            ball_x: (self.ball_x as u64 / CELL as u64) as u16,
            ball_y: (self.ball_y as u64 / CELL as u64) as u16,
            ball_frame: self.ball_frame,
            ball_blink: self.animation_counter % 10 >= 5,
            blocks: standing_blocks(&self.blocks),
            status: status_line(self.score, self.lives),
            overlay,
        }
    }
}

} // verus!
