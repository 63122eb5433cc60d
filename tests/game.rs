use block_breaker::direction::{heading_direction, hit_angle};
use block_breaker::game::{Direction, Game, Input, Relaunch, CELL};
use block_breaker::grid::{all_blocks_hit, create_blocks, BlockColor};
use block_breaker::random::random_relaunch;
use block_breaker::snapshot::{centre_column, status_line, OverlayKind};

const STRAIGHT_UP: Relaunch = Relaunch { angle: 90, mirrored: false };

fn text(v: &[char]) -> String {
    v.iter().collect()
}

#[test]
fn new_game_starts_centred() {
    let g = Game::new(80, 24);
    assert_eq!(g.paddle_x, 35 * CELL);
    assert_eq!(g.ball_x, 40 * CELL);
    assert_eq!(g.ball_y, 21 * CELL);
    assert_eq!((g.ball_dx, g.ball_dy), (7071, -7071));
    assert_eq!(g.lives, 3);
    assert_eq!(g.score, 0);
    assert!(!g.game_over && !g.game_won);
    assert_eq!(g.blocks.len(), 5 * 26);
}

#[test]
fn first_tick_moves_along_launch_direction() {
    let mut g = Game::new(80, 24);
    g.tick(None, 50_000, STRAIGHT_UP);
    // 20 cells/s for 0.05 s along (cos 45, -sin 45): 0.707 cells each way.
    assert_eq!(g.ball_x, 40_707);
    assert_eq!(g.ball_y, 20_293);
    assert_eq!((g.ball_dx, g.ball_dy), (7071, -7071));
    assert!(!g.game_over && !g.game_won);
    assert_eq!(g.lives, 3);
    assert_eq!(g.score, 0);
    assert_eq!(g.animation_counter, 1);
}

#[test]
fn last_life_lost_at_bottom_ends_game() {
    let mut g = Game::new(80, 24);
    g.lives = 1;
    g.ball_x = 5 * CELL;
    g.ball_y = 23 * CELL;
    g.ball_dx = 0;
    g.ball_dy = 10_000;
    g.tick(None, 50_000, STRAIGHT_UP);
    assert!(g.game_over);
    assert_eq!(g.lives, 0);
    let (x, y) = (g.ball_x, g.ball_y);
    for _ in 0..10 {
        g.update_ball(50_000, STRAIGHT_UP);
        g.tick(Some(Input::MoveLeft), 50_000, STRAIGHT_UP);
    }
    assert_eq!((g.ball_x, g.ball_y), (x, y));
    assert_eq!(g.paddle_x, 35 * CELL);
    assert!(g.game_over);
}

#[test]
fn paddle_stays_on_field() {
    let mut g = Game::new(80, 24);
    for _ in 0..100 {
        g.update_paddle(Direction::Left, 10_000);
        assert!(g.paddle_x >= 0);
    }
    assert_eq!(g.paddle_x, 0);
    for _ in 0..100 {
        g.update_paddle(Direction::Right, 10_000);
        assert!(g.paddle_x <= 70 * CELL);
    }
    assert_eq!(g.paddle_x, 70 * CELL);
}

#[test]
fn paddle_moves_at_its_speed() {
    let mut g = Game::new(80, 24);
    // 500 cells/s for 4 ms: 2 cells.
    g.update_paddle(Direction::Left, 4_000);
    assert_eq!(g.paddle_x, 33 * CELL);
    g.tick(Some(Input::MoveRight), 2_000, STRAIGHT_UP);
    assert_eq!(g.paddle_x, 34 * CELL);
}

#[test]
fn side_wall_reverses_horizontal_component() {
    let mut g = Game::new(80, 24);
    g.ball_x = 79_900;
    g.ball_y = 15 * CELL;
    g.tick(None, 50_000, STRAIGHT_UP);
    assert_eq!((g.ball_dx, g.ball_dy), (-7071, -7071));
    assert_eq!(g.ball_x, 79 * CELL);
    assert_eq!(g.ball_y, 15 * CELL);
}

#[test]
fn top_wall_reverses_vertical_component() {
    let mut g = Game::new(80, 24);
    g.ball_x = 40 * CELL;
    g.ball_y = 100;
    g.tick(None, 50_000, STRAIGHT_UP);
    assert_eq!((g.ball_dx, g.ball_dy), (7071, 7071));
    assert_eq!(g.ball_y, 0);
    assert_eq!(g.ball_x, 40 * CELL);
}

#[test]
fn hit_angle_spans_quarter_turn() {
    assert_eq!(hit_angle(0, 10_000), 45);
    assert_eq!(hit_angle(5_000, 10_000), 90);
    assert_eq!(hit_angle(10_000, 10_000), 135);
    let mut last = 0;
    for o in (0..=10_000).step_by(250) {
        let a = hit_angle(o, 10_000);
        assert!(a >= last);
        last = a;
    }
}

#[test]
fn heading_directions() {
    assert_eq!(heading_direction(0), (10_000, 0));
    assert_eq!(heading_direction(90), (0, -10_000));
    assert_eq!(heading_direction(180), (-10_000, 0));
    assert_eq!(heading_direction(120), (-5_000, -8_660));
    for d in 0..=180 {
        let (x, y) = heading_direction(d);
        let m = x * x + y * y;
        assert!((m - 100_000_000).abs() <= 20_000);
    }
}

#[test]
fn paddle_bounce_steers_ball() {
    // Left end of the paddle: up and to the left at 45 degrees.
    let mut g = Game::new(80, 24);
    g.ball_x = 35 * CELL;
    g.ball_y = 21_900;
    g.ball_dx = 0;
    g.ball_dy = 10_000;
    g.tick(None, 10_000, STRAIGHT_UP);
    assert_eq!((g.ball_dx, g.ball_dy), (-7071, -7071));
    assert_eq!(g.ball_y, 21 * CELL);
    // Centre: straight up.
    let mut g = Game::new(80, 24);
    g.ball_x = 40 * CELL;
    g.ball_y = 21_900;
    g.ball_dx = 0;
    g.ball_dy = 10_000;
    g.tick(None, 10_000, STRAIGHT_UP);
    assert_eq!((g.ball_dx, g.ball_dy), (0, -10_000));
    // Near the right end: up and to the right.
    let mut g = Game::new(80, 24);
    g.ball_x = 44_900;
    g.ball_y = 21_900;
    g.ball_dx = 0;
    g.ball_dy = 10_000;
    g.tick(None, 10_000, STRAIGHT_UP);
    assert!(g.ball_dx > 0 && g.ball_dy < 0);
    assert_eq!(g.lives, 3);
}

#[test]
fn missed_ball_costs_one_life_and_relaunches() {
    let mut g = Game::new(80, 24);
    g.ball_x = 5 * CELL;
    g.ball_y = 23 * CELL;
    g.ball_dx = 0;
    g.ball_dy = 10_000;
    g.tick(None, 50_000, Relaunch { angle: 60, mirrored: true });
    assert_eq!(g.lives, 2);
    assert!(!g.game_over);
    assert_eq!(g.ball_x, 40 * CELL);
    assert_eq!(g.ball_y, 21 * CELL);
    assert_eq!((g.ball_dx, g.ball_dy), (-5_000, -8_660));
}

#[test]
fn relaunch_at_least_angle_rises_steeper_than_thirty_degrees() {
    let mut g = Game::new(80, 24);
    g.ball_x = 5 * CELL;
    g.ball_y = 23 * CELL;
    g.ball_dx = 0;
    g.ball_dy = 10_000;
    g.tick(None, 50_000, Relaunch { angle: 31, mirrored: false });
    assert_eq!(g.lives, 2);
    assert_eq!((g.ball_dx, g.ball_dy), (8_572, -5_150));
    assert!(-g.ball_dy > 5_000);
}

#[test]
fn block_hit_scores_and_reflects() {
    let mut g = Game::new(80, 24);
    // Just below block (col 2, row 7): cells 6..9 of row 7.
    g.ball_x = 7_500;
    g.ball_y = 8_100;
    g.ball_dx = 0;
    g.ball_dy = -10_000;
    g.tick(None, 10_000, STRAIGHT_UP);
    assert_eq!(g.ball_y, 7_900);
    assert_eq!(g.score, 10);
    assert_eq!(g.ball_dy, 10_000);
    let hit: Vec<usize> = (0..g.blocks.len()).filter(|&i| g.blocks[i].hit).collect();
    assert_eq!(hit, vec![4 * 26 + 2]);
    assert!(!g.game_won);
}

#[test]
fn destroying_last_block_wins() {
    let mut g = Game::new(80, 24);
    let n = g.blocks.len();
    for i in 0..n - 1 {
        g.blocks[i].hit = true;
    }
    g.score = 10 * (n as u64 - 1);
    let last = g.blocks[n - 1];
    g.ball_x = last.x as i64 * CELL + 500;
    g.ball_y = (last.y as i64 + 1) * CELL + 100;
    g.ball_dx = 0;
    g.ball_dy = -10_000;
    g.tick(None, 10_000, STRAIGHT_UP);
    assert!(g.game_won);
    assert_eq!(g.score, 10 * n as u64);
    assert!(all_blocks_hit(&g.blocks));
    let (x, y) = (g.ball_x, g.ball_y);
    g.tick(Some(Input::MoveLeft), 10_000, STRAIGHT_UP);
    assert_eq!((g.ball_x, g.ball_y), (x, y));
}

#[test]
fn restart_only_after_game_ends() {
    let mut g = Game::new(80, 24);
    g.tick(Some(Input::Restart), 0, STRAIGHT_UP);
    assert_eq!(g.animation_counter, 1);
    g.lives = 0;
    g.game_over = true;
    g.blocks[3].hit = true;
    g.score = 10;
    g.paddle_x = 0;
    g.tick(Some(Input::Restart), 0, STRAIGHT_UP);
    let fresh = Game::new(80, 24);
    assert_eq!(g.lives, 3);
    assert_eq!(g.score, 0);
    assert!(!g.game_over && !g.game_won);
    assert_eq!(g.blocks, fresh.blocks);
    assert_eq!(g.paddle_x, fresh.paddle_x);
    assert_eq!((g.ball_x, g.ball_y), (fresh.ball_x, fresh.ball_y));
    assert_eq!((g.ball_dx, g.ball_dy), (fresh.ball_dx, fresh.ball_dy));
    assert_eq!(g.animation_counter, 1);
}

#[test]
fn reset_game_restores_start() {
    let mut g = Game::new(40, 20);
    g.blocks[0].hit = true;
    g.score = 10;
    g.lives = 1;
    g.reset_game();
    let fresh = Game::new(40, 20);
    assert_eq!(g.blocks, fresh.blocks);
    assert_eq!((g.score, g.lives), (0, 3));
}

#[test]
fn wall_layout() {
    let b = create_blocks(80);
    assert_eq!(b.len(), 130);
    assert_eq!((b[0].x, b[0].y, b[0].width, b[0].color), (0, 3, 3, BlockColor::Cyan));
    assert_eq!((b[27].x, b[27].y, b[27].color), (3, 4, BlockColor::Blue));
    assert_eq!((b[52].x, b[52].y, b[52].color), (0, 5, BlockColor::Magenta));
    assert_eq!((b[129].x, b[129].y, b[129].color), (75, 7, BlockColor::Blue));
    assert!(b.iter().all(|x| !x.hit));
    assert_eq!(create_blocks(2).len(), 0);
}

#[test]
fn status_line_text() {
    assert_eq!(text(&status_line(0, 3)), "Score: 0  Lives: 3");
    assert_eq!(text(&status_line(1230, 10)), "Score: 1230  Lives: 10");
}

#[test]
fn centre_column_values() {
    assert_eq!(centre_column(80, 46), 17);
    assert_eq!(centre_column(20, 46), 0);
}

#[test]
fn snapshot_of_running_and_ended_game() {
    let mut g = Game::new(80, 24);
    g.blocks[1].hit = true;
    g.score = 10;
    let s = g.snapshot();
    assert_eq!((s.paddle_x, s.paddle_y, s.paddle_width), (35, 22, 10));
    assert_eq!((s.ball_x, s.ball_y), (40, 21));
    assert_eq!(s.blocks.len(), 129);
    assert_eq!(s.blocks[1].x, 6);
    assert_eq!(text(&s.status), "Score: 10  Lives: 3");
    assert_eq!(s.overlay, None);
    assert!(!s.ball_blink);
    g.animation_counter = 7;
    g.lives = 0;
    g.game_over = true;
    let s = g.snapshot();
    assert!(s.ball_blink);
    assert_eq!(s.overlay, Some((OverlayKind::GameOver, 12)));
}

#[test]
fn random_relaunch_in_range() {
    for _ in 0..200 {
        let r = random_relaunch();
        assert!((31..=149).contains(&r.angle));
    }
    let mut g = Game::new(80, 24);
    for _ in 0..50 {
        g.tick_random(None, 20_000);
    }
    assert_eq!(g.animation_counter, 50);
}

#[test]
fn ball_frame_cycles() {
    let mut g = Game::new(80, 24);
    g.tick(None, 1_000, STRAIGHT_UP);
    assert_eq!(g.ball_frame, 1);
    for _ in 0..4 {
        g.tick(None, 1_000, STRAIGHT_UP);
    }
    assert_eq!(g.ball_frame, 1);
    g.tick(None, 1_000, STRAIGHT_UP);
    assert_eq!(g.ball_frame, 2);
}
