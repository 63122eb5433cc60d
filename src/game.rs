use vstd::prelude::*;

use crate::direction::{
    heading_dir, heading_direction, hit_angle, hit_angle_spec, is_unit, lemma_heading_unit,
    lemma_hit_angle_monotonic, lemma_reflection_keeps_unit, DIR_SCALE,
};
use crate::grid::{
    all_blocks_hit, all_hit, block_count, create_blocks, fresh_block, fresh_wall, hits,
    lemma_fresh_hits, lemma_hits_bounded, lemma_hits_update, Block,
};

verus! {

/// Sub-cell units in one cell: positions are kept at this precision.
pub const CELL: i64 = 1000;

/// Width of the paddle, in cells.
pub const PADDLE_WIDTH: u16 = 10;

/// Speed of the ball, in cells per second.
pub const BALL_SPEED: i64 = 20;

/// Speed of the paddle, in cells per second.
pub const PADDLE_SPEED: i64 = 500;

/// Time steps are given in microseconds.
pub const MICROS_PER_SECOND: i64 = 1000000;

/// Lives at the start of a game.
pub const START_LIVES: u32 = 3;

/// Score for each block destroyed.
pub const POINTS_PER_BLOCK: u64 = 10;

/// Number of glyphs the ball cycles through.
pub const BALL_FRAMES: u32 = 4;

/// The ball's glyph changes on every tick whose count is a multiple of this.
pub const FRAME_PERIOD: u64 = 5;

/// Heading of the ball at the start of a game: up and to the right.
pub const LAUNCH_HEADING: u32 = 45;

/// Least angle above the horizontal at which a ball is put back in play: just steeper
/// than 30 degrees.
pub const RELAUNCH_MIN: u32 = 31;

/// Greatest angle above the horizontal at which a ball is put back in play: just short
/// of 150 degrees.
pub const RELAUNCH_MAX: u32 = 149;

/// A logical input event, decoded from key presses by the caller.
#[derive(Clone, Copy, Debug, PartialEq, Eq, Structural)]
pub enum Input {
    MoveLeft,
    MoveRight,
    Restart,
    Quit,
}

/// The way the paddle moves.
#[derive(Clone, Copy, Debug, PartialEq, Eq, Structural)]
pub enum Direction {
    Left,
    Right,
}

/// How a lost ball is put back in play: `angle` degrees above the horizontal, as a
/// heading when `mirrored` is false and reflected left to right when it is true.
#[derive(Clone, Copy, Debug, PartialEq, Eq, Structural)]
pub struct Relaunch {
    pub angle: u32,
    pub mirrored: bool,
}

impl Relaunch {
    pub open spec fn valid(self) -> bool {
        RELAUNCH_MIN <= self.angle <= RELAUNCH_MAX
    }

    /// The heading the ball takes, in degrees anticlockwise from rightwards.
    pub open spec fn heading(self) -> int {
        if self.mirrored {
            180 - self.angle
        } else {
            self.angle as int
        }
    }
}

/// The state of a game. Positions and the paddle are in `CELL`ths of a cell, with `x`
/// growing rightwards and `y` downwards; `(ball_dx, ball_dy)` is the ball's direction,
/// a unit vector scaled by `DIR_SCALE`.
pub struct Game {
    pub width: u16,
    pub height: u16,
    pub paddle_x: i64,
    pub ball_x: i64,
    pub ball_y: i64,
    pub ball_dx: i64,
    pub ball_dy: i64,
    pub ball_frame: u32,
    pub blocks: Vec<Block>,
    pub score: u64,
    pub lives: u32,
    pub game_over: bool,
    pub game_won: bool,
    pub animation_counter: u64,
}

/// The mathematical value of a [`Game`].
pub struct GameView {
    pub width: int,
    pub height: int,
    pub paddle_x: int,
    pub ball_x: int,
    pub ball_y: int,
    pub ball_dx: int,
    pub ball_dy: int,
    pub ball_frame: int,
    pub blocks: Seq<Block>,
    pub score: int,
    pub lives: int,
    pub game_over: bool,
    pub game_won: bool,
    pub animation_counter: int,
}

impl View for Game {
    type V = GameView;

    open spec fn view(&self) -> GameView {
        GameView {
            width: self.width as int,
            height: self.height as int,
            paddle_x: self.paddle_x as int,
            ball_x: self.ball_x as int,
            ball_y: self.ball_y as int,
            ball_dx: self.ball_dx as int,
            ball_dy: self.ball_dy as int,
            ball_frame: self.ball_frame as int,
            blocks: self.blocks@,
            score: self.score as int,
            lives: self.lives as int,
            game_over: self.game_over,
            game_won: self.game_won,
            animation_counter: self.animation_counter as int,
        }
    }
}

/// The paddle's row, in sub-cell units: two cells above the bottom.
pub open spec fn paddle_row(height: int) -> int {
    (height - 2) * CELL
}

/// Width of the paddle, in sub-cell units.
pub open spec fn paddle_span() -> int {
    PADDLE_WIDTH * CELL
}

/// The rightmost position of the paddle's left end.
pub open spec fn paddle_max(width: int) -> int {
    (width - PADDLE_WIDTH) * CELL
}

/// The distance, in sub-cell units, that the paddle covers in `dt` microseconds.
pub open spec fn paddle_step(dt: int) -> int {
    dt * (PADDLE_SPEED * CELL) / (MICROS_PER_SECOND as int)
}

/// The distance along one axis that the ball covers in `dt` microseconds when `v` is
/// that component of its direction; rounded towards zero.
pub open spec fn ball_step(v: int, dt: int) -> int {
    if v >= 0 {
        v * BALL_SPEED * CELL * dt / (DIR_SCALE as int * MICROS_PER_SECOND)
    } else {
        -((-v) * BALL_SPEED * CELL * dt / (DIR_SCALE as int * MICROS_PER_SECOND))
    }
}

/// A block that the ball in cell `(cx, cy)` strikes.
pub open spec fn struck(b: Block, cx: int, cy: int) -> bool {
    &&& !b.hit
    &&& b.y == cy
    &&& b.x <= cx < b.x + b.width
}

/// Block `i` is the first of `s` that the ball in cell `(cx, cy)` strikes.
pub open spec fn is_first_struck(s: Seq<Block>, cx: int, cy: int, i: int) -> bool {
    &&& 0 <= i < s.len()
    &&& struck(s[i], cx, cy)
    &&& forall|j: int| 0 <= j < i ==> !struck(#[trigger] s[j], cx, cy)
}

impl GameView {
    /// What holds of every reachable state.
    pub open spec fn wf(self) -> bool {
        &&& PADDLE_WIDTH <= self.width <= u16::MAX
        &&& 3 <= self.height <= u16::MAX
        &&& 0 <= self.paddle_x <= paddle_max(self.width)
        &&& 0 <= self.ball_x < self.width * CELL
        &&& 0 <= self.ball_y < self.height * CELL
        &&& is_unit(self.ball_dx, self.ball_dy)
        &&& 0 <= self.ball_frame < BALL_FRAMES
        &&& 0 <= self.lives <= START_LIVES
        &&& self.game_over == (self.lives == 0)
        &&& !(self.game_over && self.game_won)
        &&& self.blocks.len() == block_count(self.width)
        &&& forall|i: int|
            0 <= i < self.blocks.len() ==> #[trigger] self.blocks[i] == (Block {
                hit: self.blocks[i].hit,
                ..fresh_block(self.width, i)
            })
        &&& self.score == POINTS_PER_BLOCK * hits(self.blocks)
        &&& self.game_won == all_hit(self.blocks)
        &&& 0 <= self.animation_counter <= u64::MAX
    }

    pub open spec fn playing(self) -> bool {
        !self.game_over && !self.game_won
    }

    /// The ball's position one step of `dt` microseconds ahead.
    pub open spec fn next_x(self, dt: int) -> int {
        self.ball_x + ball_step(self.ball_dx, dt)
    }

    pub open spec fn next_y(self, dt: int) -> int {
        self.ball_y + ball_step(self.ball_dy, dt)
    }

    /// The step leaves the playfield sideways.
    pub open spec fn hits_side(self, dt: int) -> bool {
        self.next_x(dt) < 0 || self.next_x(dt) >= self.width * CELL
    }

    /// The step leaves the playfield at the top.
    pub open spec fn hits_top(self, dt: int) -> bool {
        self.next_y(dt) < 0
    }

    /// The step crosses the paddle's row within the paddle's span.
    pub open spec fn hits_paddle(self, dt: int) -> bool {
        &&& self.next_y(dt) >= paddle_row(self.height)
        &&& self.ball_y < paddle_row(self.height)
        &&& self.paddle_x <= self.next_x(dt) < self.paddle_x + paddle_span()
    }

    /// The step leaves the playfield at the bottom.
    pub open spec fn hits_bottom(self, dt: int) -> bool {
        self.next_y(dt) >= self.height * CELL
    }

    /// The step is lost: no side, top or paddle bounce comes first, and the ball
    /// falls out at the bottom.
    pub open spec fn misses(self, dt: int) -> bool {
        !self.hits_side(dt) && !self.hits_top(dt) && !self.hits_paddle(dt) && self.hits_bottom(
            dt,
        )
    }
}

/// The state at the start of a game on a playfield `width` by `height` cells, with the
/// ball showing glyph `frame`.
pub open spec fn initial_view(width: int, height: int, frame: int) -> GameView {
    GameView {
        width,
        height,
        paddle_x: paddle_max(width) / 2,
        ball_x: width * CELL / 2,
        ball_y: paddle_row(height) - CELL,
        ball_dx: heading_dir(LAUNCH_HEADING as int).0,
        ball_dy: heading_dir(LAUNCH_HEADING as int).1,
        ball_frame: frame,
        blocks: fresh_wall(width),
        score: 0,
        lives: START_LIVES as int,
        game_over: false,
        game_won: false,
        animation_counter: 0,
    }
}

/// A game begun anew, keeping its playfield and the ball's glyph.
pub open spec fn reset_spec(g: GameView) -> GameView {
    initial_view(g.width, g.height, g.ball_frame)
}

/// The paddle moved for `dt` microseconds, stopping at either edge.
pub open spec fn paddle_moved(g: GameView, dir: Direction, dt: int) -> GameView {
    let p = match dir {
        Direction::Left => if g.paddle_x - paddle_step(dt) < 0 {
            0
        } else {
            g.paddle_x - paddle_step(dt)
        },
        Direction::Right => if g.paddle_x + paddle_step(dt) > paddle_max(g.width) {
            paddle_max(g.width)
        } else {
            g.paddle_x + paddle_step(dt)
        },
    };
    GameView { paddle_x: p, ..g }
}

/// The first block that the ball strikes is destroyed: it scores and the ball turns
/// back vertically. With no block struck nothing changes.
pub open spec fn collide_spec(g: GameView) -> GameView {
    let cx = g.ball_x / (CELL as int);
    let cy = g.ball_y / (CELL as int);
    if exists|i: int| is_first_struck(g.blocks, cx, cy, i) {
        let i = choose|i: int| is_first_struck(g.blocks, cx, cy, i);
        GameView {
            blocks: g.blocks.update(i, Block { hit: true, ..g.blocks[i] }),
            score: g.score + POINTS_PER_BLOCK,
            ball_dy: -g.ball_dy,
            ..g
        }
    } else {
        g
    }
}

/// The ball's glyph after one more step.
pub open spec fn next_frame(g: GameView) -> int {
    if g.animation_counter % FRAME_PERIOD as int == 0 {
        (g.ball_frame + 1) % BALL_FRAMES as int
    } else {
        g.ball_frame
    }
}

/// One step of the ball over `dt` microseconds. Exactly one of these happens: a side
/// bounce, a top bounce, a paddle bounce, a lost ball, or a move followed by the
/// block check and the win check. A game that is over or won does not change.
pub open spec fn advance_spec(g: GameView, dt: int, relaunch: Relaunch) -> GameView {
    if !g.playing() {
        g
    } else {
        let g1 = GameView { ball_frame: next_frame(g), ..g };
        let nx = g.next_x(dt);
        let ny = g.next_y(dt);
        if g.hits_side(dt) {
            let x = if nx < 0 {
                0
            } else {
                (g.width - 1) * CELL
            };
            GameView { ball_dx: -g.ball_dx, ball_x: x, ..g1 }
        } else if g.hits_top(dt) {
            GameView { ball_dy: -g.ball_dy, ball_y: 0, ..g1 }
        } else if g.hits_paddle(dt) {
            let d = heading_dir(180 - hit_angle_spec(nx - g.paddle_x, paddle_span()));
            GameView { ball_dx: d.0, ball_dy: d.1, ball_y: paddle_row(g.height) - CELL, ..g1 }
        } else if g.hits_bottom(dt) {
            if g.lives - 1 == 0 {
                GameView { lives: 0, game_over: true, ..g1 }
            } else {
                let d = heading_dir(relaunch.heading());
                GameView {
                    lives: g.lives - 1,
                    ball_x: g.paddle_x + paddle_span() / 2,
                    ball_y: paddle_row(g.height) - CELL,
                    ball_dx: d.0,
                    ball_dy: d.1,
                    ..g1
                }
            }
        } else {
            let g2 = collide_spec(GameView { ball_x: nx, ball_y: ny, ..g1 });
            GameView { game_won: all_hit(g2.blocks), ..g2 }
        }
    }
}

/// One tick: the input (movement while playing, a restart once the game is over or
/// won), then a step of the ball while playing, then the tick count moves on.
pub open spec fn tick_spec(g: GameView, input: Option<Input>, dt: int, relaunch: Relaunch) -> GameView {
    let g1 = match input {
        Some(Input::MoveLeft) => if g.playing() {
            paddle_moved(g, Direction::Left, dt)
        } else {
            g
        },
        Some(Input::MoveRight) => if g.playing() {
            paddle_moved(g, Direction::Right, dt)
        } else {
            g
        },
        Some(Input::Restart) => if !g.playing() {
            reset_spec(g)
        } else {
            g
        },
        _ => g,
    };
    let g2 = advance_spec(g1, dt, relaunch);
    GameView {
        animation_counter: if g2.animation_counter == u64::MAX {
            0
        } else {
            g2.animation_counter + 1
        },
        ..g2
    }
}

/// The block check keeps a well-formed state well-formed once the win flag is brought
/// up to date, and adds `POINTS_PER_BLOCK` exactly when a block is destroyed.
pub proof fn lemma_collide_wf(g: GameView)
    requires
        g.wf(),
    ensures
        ({
            let g2 = collide_spec(g);
            &&& !g.game_over ==> (GameView { game_won: all_hit(g2.blocks), ..g2 }).wf()
            &&& g2.score == g.score || g2.score == g.score + POINTS_PER_BLOCK
            &&& g2.ball_x == g.ball_x && g2.ball_y == g.ball_y
        }),
{
    let cx = g.ball_x / (CELL as int);
    let cy = g.ball_y / (CELL as int);
    let g2 = collide_spec(g);
    lemma_hits_bounded(g.blocks);
    if exists|i: int| is_first_struck(g.blocks, cx, cy, i) {
        let i = choose|i: int| is_first_struck(g.blocks, cx, cy, i);
        let b = Block { hit: true, ..g.blocks[i] };
        lemma_hits_update(g.blocks, i, b);
        lemma_reflection_keeps_unit(g.ball_dx, g.ball_dy);
        assert forall|k: int| 0 <= k < g2.blocks.len() implies #[trigger] g2.blocks[k] == (Block {
            hit: g2.blocks[k].hit,
            ..fresh_block(g2.width, k)
        }) by {
            assert(g.blocks[k] == (Block { hit: g.blocks[k].hit, ..fresh_block(g.width, k) }));
        }
    }
}

/// The state at the start of a game is well-formed.
pub proof fn lemma_initial_wf(width: int, height: int, frame: int)
    requires
        PADDLE_WIDTH <= width <= u16::MAX,
        3 <= height <= u16::MAX,
        0 <= frame < BALL_FRAMES,
    ensures
        initial_view(width, height, frame).wf(),
{
    let g = initial_view(width, height, frame);
    lemma_heading_unit(LAUNCH_HEADING as int);
    lemma_fresh_hits(g.blocks);
    assert(block_count(width) > 0);
    assert(!g.blocks[0].hit);
}

/// Moving the paddle keeps a well-formed state well-formed.
pub proof fn lemma_paddle_wf(g: GameView, dir: Direction, dt: int)
    requires
        g.wf(),
        dt >= 0,
    ensures
        paddle_moved(g, dir, dt).wf(),
        0 <= paddle_moved(g, dir, dt).paddle_x <= paddle_max(g.width),
{
    assert(paddle_step(dt) >= 0) by (nonlinear_arith)
        requires dt >= 0;
}

/// A step of the ball keeps a well-formed state well-formed.
pub proof fn lemma_advance_wf(g: GameView, dt: int, relaunch: Relaunch)
    requires
        g.wf(),
        relaunch.valid(),
    ensures
        advance_spec(g, dt, relaunch).wf(),
{
    if g.playing() {
        let g1 = GameView { ball_frame: next_frame(g), ..g };
        let nx = g.next_x(dt);
        let ny = g.next_y(dt);
        lemma_reflection_keeps_unit(g.ball_dx, g.ball_dy);
        if g.hits_side(dt) {
        } else if g.hits_top(dt) {
        } else if g.hits_paddle(dt) {
            let span = paddle_span();
            let off = nx - g.paddle_x;
            lemma_hit_angle_monotonic(0, off, span);
            lemma_hit_angle_monotonic(off, span, span);
            lemma_heading_unit(180 - hit_angle_spec(off, span));
        } else if g.hits_bottom(dt) {
            lemma_heading_unit(relaunch.heading());
        } else {
            let g2 = GameView { ball_x: nx, ball_y: ny, ..g1 };
            assert(g2.wf());
            lemma_collide_wf(g2);
        }
    }
}

/// A tick keeps a well-formed state well-formed, on the same playfield.
pub proof fn lemma_tick_wf(g: GameView, input: Option<Input>, dt: int, relaunch: Relaunch)
    requires
        g.wf(),
        relaunch.valid(),
        dt >= 0,
    ensures
        tick_spec(g, input, dt, relaunch).wf(),
        tick_spec(g, input, dt, relaunch).width == g.width,
        tick_spec(g, input, dt, relaunch).height == g.height,
{
    let g1 = match input {
        Some(Input::MoveLeft) => if g.playing() {
            paddle_moved(g, Direction::Left, dt)
        } else {
            g
        },
        Some(Input::MoveRight) => if g.playing() {
            paddle_moved(g, Direction::Right, dt)
        } else {
            g
        },
        Some(Input::Restart) => if !g.playing() {
            reset_spec(g)
        } else {
            g
        },
        _ => g,
    };
    lemma_paddle_wf(g, Direction::Left, dt);
    lemma_paddle_wf(g, Direction::Right, dt);
    lemma_initial_wf(g.width, g.height, g.ball_frame);
    assert(g1.wf());
    lemma_advance_wf(g1, dt, relaunch);
}

/// The distance along one axis that the ball covers in `dt` microseconds, see
/// [`ball_step`].
fn ball_step_exec(v: i64, dt: u64) -> (r: i64)
    requires
        -DIR_SCALE <= v <= DIR_SCALE,
    ensures
        r as int == ball_step(v as int, dt as int),
        -400000000000000000 <= r <= 400000000000000000,
{
    let mag: u128 = if v >= 0 {
        v as u128
    } else {
        (-v) as u128
    };
    let k: u128 = (BALL_SPEED * CELL) as u128;
    let d: u128 = (DIR_SCALE * MICROS_PER_SECOND) as u128;
    proof {
        assert(mag * k <= 200000000);
        assert(mag * k * dt <= 200000000 * (dt as int)) by (nonlinear_arith)
            requires mag * k <= 200000000, dt >= 0, mag >= 0, k >= 0;
        let x = mag * k * dt;
        assert((x / (d as int)) * 50 <= dt) by (nonlinear_arith)
            requires x <= 200000000 * (dt as int), d == 10000000000, dt >= 0, x >= 0;
        assert(dt <= u64::MAX);
    }
    let m: u128 = mag * k * dt as u128 / d;
    if v >= 0 {
        m as i64
    } else {
        -(m as i64)
    }
}

impl Game {
    /// A game on a playfield `width` by `height` cells: the paddle centred two rows
    /// above the bottom, the ball just above the middle of that row heading up and to
    /// the right, a fresh wall, no score and `START_LIVES` lives.
    pub fn new(width: u16, height: u16) -> (r: Game)
        requires
            width >= PADDLE_WIDTH,
            height >= 3,
        ensures
            r@ == initial_view(width as int, height as int, 0),
            r@.wf(),
    {
        proof {
            lemma_initial_wf(width as int, height as int, 0);
        }
        let d = heading_direction(LAUNCH_HEADING);
        Game {
            width,
            height,
            paddle_x: (((width - PADDLE_WIDTH) as u64 * CELL as u64) / 2) as i64,
            ball_x: ((width as u64 * CELL as u64) / 2) as i64,
            ball_y: (height as i64 - 3) * CELL,
            ball_dx: d.0,
            ball_dy: d.1,
            ball_frame: 0,
            blocks: create_blocks(width),
            score: 0,
            lives: START_LIVES,
            game_over: false,
            game_won: false,
            animation_counter: 0,
        }
    }

    /// Starts the game again on the same playfield, as [`Game::new`] would; the ball
    /// keeps its glyph.
    pub fn reset_game(&mut self)
        requires
            old(self)@.wf(),
        ensures
            final(self)@ == reset_spec(old(self)@),
            final(self)@.wf(),
    {
        proof {
            lemma_initial_wf(self.width as int, self.height as int, self.ball_frame as int);
        }
        let d = heading_direction(LAUNCH_HEADING);
        self.paddle_x = (((self.width - PADDLE_WIDTH) as u64 * CELL as u64) / 2) as i64;
        self.ball_x = ((self.width as u64 * CELL as u64) / 2) as i64;
        self.ball_y = (self.height as i64 - 3) * CELL;
        self.ball_dx = d.0;
        self.ball_dy = d.1;
        self.blocks = create_blocks(self.width);
        self.score = 0;
        self.lives = START_LIVES;
        self.game_over = false;
        self.game_won = false;
        self.animation_counter = 0;
    }

    /// Moves the paddle for `dt` microseconds at `PADDLE_SPEED`, stopping at either
    /// edge of the playfield.
    pub fn update_paddle(&mut self, direction: Direction, dt: u64)
        requires
            old(self)@.wf(),
        ensures
            final(self)@ == paddle_moved(old(self)@, direction, dt as int),
            final(self)@.wf(),
            0 <= final(self).paddle_x <= paddle_max(final(self).width as int),
    {
        proof {
            lemma_paddle_wf(self@, direction, dt as int);
        }
        proof {
            assert(dt * 500000 <= 500000 * u64::MAX) by (nonlinear_arith)
                requires dt <= u64::MAX;
            assert(dt * 500000 / 1000000 <= dt) by (nonlinear_arith)
                requires dt >= 0;
        }
        let step: u128 = dt as u128 * (PADDLE_SPEED * CELL) as u128 / MICROS_PER_SECOND as u128;
        assert(step == paddle_step(dt as int));
        let max: i64 = (self.width - PADDLE_WIDTH) as i64 * CELL;
        match direction {
            Direction::Left => {
                if step >= self.paddle_x as u128 {
                    self.paddle_x = 0;
                } else {
                    self.paddle_x = self.paddle_x - step as i64;
                }
            },
            Direction::Right => {
                if step >= (max - self.paddle_x) as u128 {
                    self.paddle_x = max;
                } else {
                    self.paddle_x = self.paddle_x + step as i64;
                }
            },
        }
    }

    /// Destroys the first block, in wall order, that the ball's cell lies in: the block
    /// is marked hit, `POINTS_PER_BLOCK` is scored and the ball turns back vertically.
    /// At most one block goes per call.
    pub fn check_block_collisions(&mut self)
        requires
            old(self)@.wf(),
        ensures
            final(self)@ == collide_spec(old(self)@),
    {
        let ghost g = self@;
        proof {
            lemma_collide_wf(g);
            lemma_hits_bounded(g.blocks);
            assert(block_count(g.width) <= 5 * 21845);
        }
        let cx: u64 = self.ball_x as u64 / CELL as u64;
        let cy: u64 = self.ball_y as u64 / CELL as u64;
        let mut i: usize = 0;
        while i < self.blocks.len()
            invariant
                self@ == g,
                old(self)@ == g,
                g.wf(),
                hits(g.blocks) <= g.blocks.len() <= 5 * 21845,
                cx as int == g.ball_x / (CELL as int),
                cy as int == g.ball_y / (CELL as int),
                i <= g.blocks.len(),
                forall|j: int| 0 <= j < i ==> !struck(#[trigger] g.blocks[j], cx as int, cy as int),
            decreases g.blocks.len() - i,
        {
            let b = self.blocks[i];
            if !b.hit && b.y as u64 == cy && b.x as u64 <= cx && cx < b.x as u64 + b.width as u64 {
                proof {
                    assert(is_first_struck(g.blocks, cx as int, cy as int, i as int));
                    assert forall|k: int| is_first_struck(g.blocks, cx as int, cy as int, k) implies k == i by {
                        if k < i {
                        } else if k > i {
                            assert(!struck(g.blocks[i as int], cx as int, cy as int));
                        }
                    }
                }
                self.blocks.set(i, Block { hit: true, ..b });
                self.score = self.score + POINTS_PER_BLOCK;
                self.ball_dy = -self.ball_dy;
                assert(self@.blocks =~= collide_spec(g).blocks);
                return;
            }
            i = i + 1;
        }
        proof {
            assert forall|k: int| !is_first_struck(g.blocks, cx as int, cy as int, k) by {
                if 0 <= k < g.blocks.len() {
                    assert(!struck(g.blocks[k], cx as int, cy as int));
                }
            }
        }
    }

    /// One step of the ball over `dt` microseconds, see [`advance_spec`]: a side wall,
    /// the top wall or the paddle turns it back, a ball that falls out at the bottom
    /// costs a life and is put back in play as `relaunch` says, and any other move is
    /// made and followed by the block check and the win check. A game that is over or
    /// won does not change.
    pub fn update_ball(&mut self, dt: u64, relaunch: Relaunch)
        requires
            old(self)@.wf(),
            relaunch.valid(),
        ensures
            final(self)@ == advance_spec(old(self)@, dt as int, relaunch),
            final(self)@.wf(),
    {
        proof {
            lemma_advance_wf(self@, dt as int, relaunch);
            lemma_reflection_keeps_unit(self.ball_dx as int, self.ball_dy as int);
        }
        if self.game_over || self.game_won {
            return;
        }
        if self.animation_counter % FRAME_PERIOD == 0 {
            self.ball_frame = (self.ball_frame + 1) % BALL_FRAMES;
        }
        let nx: i64 = self.ball_x + ball_step_exec(self.ball_dx, dt);
        let ny: i64 = self.ball_y + ball_step_exec(self.ball_dy, dt);
        let right: i64 = self.width as i64 * CELL;
        if nx < 0 || nx >= right {
            self.ball_dx = -self.ball_dx;
            self.ball_x = if nx < 0 {
                0
            } else {
                (self.width as i64 - 1) * CELL
            };
            return;
        }
        if ny < 0 {
            self.ball_dy = -self.ball_dy;
            self.ball_y = 0;
            return;
        }
        let row: i64 = (self.height as i64 - 2) * CELL;
        let span: i64 = PADDLE_WIDTH as i64 * CELL;
        if ny >= row && self.ball_y < row && nx >= self.paddle_x && nx < self.paddle_x + span {
            let angle: u32 = hit_angle((nx - self.paddle_x) as u32, span as u32);
            let d = heading_direction(180 - angle);
            self.ball_dx = d.0;
            self.ball_dy = d.1;
            self.ball_y = row - CELL;
            return;
        }
        if ny >= self.height as i64 * CELL {
            self.lives = self.lives - 1;
            if self.lives == 0 {
                self.game_over = true;
            } else {
                let heading: u32 = if relaunch.mirrored {
                    180 - relaunch.angle
                } else {
                    relaunch.angle
                };
                let d = heading_direction(heading);
                self.ball_x = self.paddle_x + span / 2;
                self.ball_y = row - CELL;
                self.ball_dx = d.0;
                self.ball_dy = d.1;
            }
            return;
        }
        self.ball_x = nx;
        self.ball_y = ny;
        let ghost moved = self@;
        assert(moved.wf());
        self.check_block_collisions();
        self.game_won = all_blocks_hit(&self.blocks);
    }

    /// One tick of the game, see [`tick_spec`]: `input` moves the paddle while the game
    /// is on and restarts it once it is over or won, the ball takes a step while the
    /// game is on, and the tick count moves on.
    pub fn tick(&mut self, input: Option<Input>, dt: u64, relaunch: Relaunch)
        requires
            old(self)@.wf(),
            relaunch.valid(),
        ensures
            final(self)@ == tick_spec(old(self)@, input, dt as int, relaunch),
            final(self)@.wf(),
    {
        let playing = !self.game_over && !self.game_won;
        match input {
            Some(Input::MoveLeft) => {
                if playing {
                    self.update_paddle(Direction::Left, dt);
                }
            },
            Some(Input::MoveRight) => {
                if playing {
                    self.update_paddle(Direction::Right, dt);
                }
            },
            Some(Input::Restart) => {
                if !playing {
                    self.reset_game();
                }
            },
            _ => {},
        }
        self.update_ball(dt, relaunch);
        self.animation_counter = if self.animation_counter == u64::MAX {
            0
        } else {
            self.animation_counter + 1
        };
    }
}

} // verus!
