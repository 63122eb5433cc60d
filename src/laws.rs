use vstd::prelude::*;

use crate::direction::{
    heading_dir, hit_angle_spec, is_unit, lemma_heading_dx_falls, lemma_heading_unit,
    lemma_hit_angle_monotonic,
    lemma_reflection_keeps_unit, DIR_SCALE, DIR_TOLERANCE,
};
use crate::game::{
    advance_spec, initial_view, lemma_collide_wf, lemma_tick_wf, next_frame, paddle_max,
    paddle_moved, paddle_span, reset_spec, tick_spec, Direction, GameView, Input, Relaunch,
    LAUNCH_HEADING, POINTS_PER_BLOCK, START_LIVES,
};
use crate::grid::{all_hit, fresh_wall, hits, lemma_all_hit_count};

verus! {

/// Whatever the inputs, the paddle's left end stays between the playfield's left edge
/// and `paddle_max`, so the whole paddle stays on the playfield.
pub proof fn lemma_paddle_stays_on_field(
    g: GameView,
    input: Option<Input>,
    dt: int,
    relaunch: Relaunch,
)
    requires
        g.wf(),
        relaunch.valid(),
        dt >= 0,
    ensures
        0 <= tick_spec(g, input, dt, relaunch).paddle_x <= paddle_max(g.width),
{
    lemma_tick_wf(g, input, dt, relaunch);
}

/// The ball's direction stays a unit vector, up to `DIR_TOLERANCE` in its squared
/// length, tick after tick.
pub proof fn lemma_direction_stays_unit(
    g: GameView,
    input: Option<Input>,
    dt: int,
    relaunch: Relaunch,
)
    requires
        g.wf(),
        relaunch.valid(),
        dt >= 0,
    ensures
        ({
            let r = tick_spec(g, input, dt, relaunch);
            &&& is_unit(r.ball_dx, r.ball_dy)
            &&& DIR_SCALE * DIR_SCALE - DIR_TOLERANCE <= r.ball_dx * r.ball_dx + r.ball_dy
                * r.ball_dy <= DIR_SCALE * DIR_SCALE + DIR_TOLERANCE
        }),
{
    lemma_tick_wf(g, input, dt, relaunch);
}

/// A bounce off a side wall reverses the horizontal component of the direction and
/// keeps the vertical one; a bounce off the top reverses the vertical one and keeps the
/// horizontal one. Either keeps the direction's length exactly.
pub proof fn lemma_wall_bounce_reverses(g: GameView, dt: int, relaunch: Relaunch)
    requires
        g.wf(),
        g.playing(),
        g.hits_side(dt) || g.hits_top(dt),
    ensures
        ({
            let r = advance_spec(g, dt, relaunch);
            &&& g.hits_side(dt) ==> r.ball_dx == -g.ball_dx && r.ball_dy == g.ball_dy
            &&& !g.hits_side(dt) ==> r.ball_dy == -g.ball_dy && r.ball_dx == g.ball_dx
            &&& g.ball_dx > 0 && g.hits_side(dt) ==> r.ball_dx < 0
            &&& g.ball_dx < 0 && g.hits_side(dt) ==> r.ball_dx > 0
            &&& g.ball_dy > 0 && !g.hits_side(dt) ==> r.ball_dy < 0
            &&& g.ball_dy < 0 && !g.hits_side(dt) ==> r.ball_dy > 0
            &&& r.ball_dx * r.ball_dx + r.ball_dy * r.ball_dy == g.ball_dx * g.ball_dx + g.ball_dy
                * g.ball_dy
        }),
{
    lemma_reflection_keeps_unit(g.ball_dx, g.ball_dy);
}

/// A paddle bounce sends the ball off at `180 - hit_angle_spec(offset, span)` degrees,
/// where `offset` is how far along the paddle the ball strikes: up and to the left off
/// the left half, straight up or to the right off the rest, and always upwards.
pub proof fn lemma_paddle_bounce_steers(g: GameView, dt: int, relaunch: Relaunch)
    requires
        g.wf(),
        g.playing(),
        !g.hits_side(dt),
        !g.hits_top(dt),
        g.hits_paddle(dt),
    ensures
        ({
            let r = advance_spec(g, dt, relaunch);
            let offset = g.next_x(dt) - g.paddle_x;
            let angle = hit_angle_spec(offset, paddle_span());
            &&& 45 <= angle <= 135
            &&& (r.ball_dx, r.ball_dy) == heading_dir(180 - angle)
            &&& r.ball_dy < 0
            &&& 2 * offset < paddle_span() ==> r.ball_dx < 0
            &&& 2 * offset >= paddle_span() ==> r.ball_dx >= 0
            &&& r.lives == g.lives && r.score == g.score
        }),
{
    let span = paddle_span();
    let offset = g.next_x(dt) - g.paddle_x;
    lemma_hit_angle_monotonic(0, offset, span);
    lemma_hit_angle_monotonic(offset, span, span);
    lemma_heading_unit(180 - hit_angle_spec(offset, span));
    if 2 * offset < span {
        assert(90 * offset / span < 45) by (nonlinear_arith)
            requires 2 * offset < span, 0 <= offset, span > 0;
    } else {
        assert(90 * offset / span >= 45) by (nonlinear_arith)
            requires 2 * offset >= span, 0 <= offset, span > 0;
    }
}

/// The further right along the paddle the ball strikes, the further right it goes: the
/// horizontal component of the bounce never falls as the point of impact moves right,
/// and rises with every whole degree that the bounce angle gains.
pub proof fn lemma_paddle_bounce_monotonic(a: int, b: int)
    requires
        0 <= a <= b <= paddle_span(),
    ensures
        heading_dir(180 - hit_angle_spec(a, paddle_span())).0 <= heading_dir(
            180 - hit_angle_spec(b, paddle_span()),
        ).0,
        hit_angle_spec(a, paddle_span()) < hit_angle_spec(b, paddle_span()) ==> heading_dir(
            180 - hit_angle_spec(a, paddle_span()),
        ).0 < heading_dir(180 - hit_angle_spec(b, paddle_span())).0,
{
    let span = paddle_span();
    lemma_hit_angle_monotonic(a, b, span);
    lemma_hit_angle_monotonic(0, a, span);
    lemma_hit_angle_monotonic(b, span, span);
    lemma_heading_dx_falls(180 - hit_angle_spec(b, span), 180 - hit_angle_spec(a, span));
}

/// A lost ball costs exactly one life. While lives remain, the ball comes back above
/// the paddle's centre heading upwards at the relaunch angle, strictly between 30 and
/// 150 degrees from the horizontal, so never flat and never downwards: it rises faster
/// than half its speed.
pub proof fn lemma_miss_costs_one_life(g: GameView, dt: int, relaunch: Relaunch)
    requires
        g.wf(),
        g.playing(),
        g.misses(dt),
        relaunch.valid(),
    ensures
        ({
            let r = advance_spec(g, dt, relaunch);
            &&& r.lives == g.lives - 1
            &&& r.score == g.score
            &&& r.lives > 0 ==> {
                &&& !r.game_over
                &&& 30 < relaunch.heading() < 150
                &&& (r.ball_dx, r.ball_dy) == heading_dir(relaunch.heading())
                &&& r.ball_dy < -(DIR_SCALE / 2)
                &&& r.ball_x == g.paddle_x + paddle_span() / 2
            }
        }),
{
    lemma_heading_unit(relaunch.heading());
}

/// Losing the last life ends the game, and a game that is over stays as it is: no step
/// of the ball changes it, and no tick moves the ball or changes lives or score until a
/// restart.
pub proof fn lemma_game_over_halts(g: GameView, input: Option<Input>, dt: int, relaunch: Relaunch)
    requires
        g.wf(),
        relaunch.valid(),
        dt >= 0,
    ensures
        g.playing() && g.misses(dt) && g.lives == 1 ==> advance_spec(g, dt, relaunch).game_over
            && advance_spec(g, dt, relaunch).lives == 0,
        g.game_over ==> advance_spec(g, dt, relaunch) == g,
        g.game_over && input != Some(Input::Restart) ==> {
            let r = tick_spec(g, input, dt, relaunch);
            &&& r.game_over
            &&& r.ball_x == g.ball_x && r.ball_y == g.ball_y
            &&& r.ball_dx == g.ball_dx && r.ball_dy == g.ball_dy
            &&& r.lives == 0 && r.score == g.score && r.blocks == g.blocks
        },
{
}

/// The score is always `POINTS_PER_BLOCK` for each destroyed block, and the game is won
/// exactly when every block is destroyed, that is when the score reaches
/// `POINTS_PER_BLOCK` times the number of blocks. A tick without an accepted restart never
/// lowers the score and raises it by at most one block's worth.
pub proof fn lemma_score_counts_blocks(
    g: GameView,
    input: Option<Input>,
    dt: int,
    relaunch: Relaunch,
)
    requires
        g.wf(),
        relaunch.valid(),
        dt >= 0,
    ensures
        g.score == POINTS_PER_BLOCK * hits(g.blocks),
        g.game_won == all_hit(g.blocks),
        g.game_won <==> g.score == POINTS_PER_BLOCK * g.blocks.len(),
        ({
            let r = tick_spec(g, input, dt, relaunch);
            &&& r.score == POINTS_PER_BLOCK * hits(r.blocks)
            &&& r.game_won == all_hit(r.blocks)
            &&& input != Some(Input::Restart) ==> g.score <= r.score <= g.score + POINTS_PER_BLOCK
        }),
{
    lemma_tick_wf(g, input, dt, relaunch);
    lemma_all_hit_count(g.blocks);
    if input != Some(Input::Restart) && g.playing() {
        let g1 = moved_by(g, input, dt);
        assert(g1.wf() && g1.score == g.score && g1.playing());
        lemma_advance_score(g1, dt, relaunch);
    }
}

/// The state after the movement that `input` asks for, in a game that is on.
spec fn moved_by(g: GameView, input: Option<Input>, dt: int) -> GameView {
    match input {
        Some(Input::MoveLeft) => paddle_moved(g, Direction::Left, dt),
        Some(Input::MoveRight) => paddle_moved(g, Direction::Right, dt),
        _ => g,
    }
}

/// A step of the ball never lowers the score and adds at most one block's worth.
proof fn lemma_advance_score(g: GameView, dt: int, relaunch: Relaunch)
    requires
        g.wf(),
        relaunch.valid(),
    ensures
        g.score <= advance_spec(g, dt, relaunch).score <= g.score + POINTS_PER_BLOCK,
{
    if g.playing() && !g.hits_side(dt) && !g.hits_top(dt) && !g.hits_paddle(dt) && !g.hits_bottom(
        dt,
    ) {
        let g1 = GameView { ball_frame: next_frame(g), ..g };
        let g2 = GameView { ball_x: g.next_x(dt), ball_y: g.next_y(dt), ..g1 };
        assert(g2.wf());
        lemma_collide_wf(g2);
    }
}

/// A restart gives the state that a new game on the same playfield starts in (the
/// ball's glyph aside): `START_LIVES` lives, no score, neither flag, a fresh wall, and
/// the ball above the centre heading up and to the right at `LAUNCH_HEADING` degrees.
pub proof fn lemma_reset_is_fresh(g: GameView)
    requires
        g.wf(),
    ensures
        reset_spec(g) == (GameView { ball_frame: g.ball_frame, ..initial_view(g.width, g.height, 0) }),
        reset_spec(g).lives == START_LIVES,
        reset_spec(g).score == 0,
        !reset_spec(g).game_over && !reset_spec(g).game_won,
        reset_spec(g).blocks == fresh_wall(g.width),
        (reset_spec(g).ball_dx, reset_spec(g).ball_dy) == heading_dir(LAUNCH_HEADING as int),
        reset_spec(g).ball_dx > 0 && reset_spec(g).ball_dy < 0,
{
    lemma_heading_unit(LAUNCH_HEADING as int);
}

} // verus!
