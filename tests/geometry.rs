use breakout::ball::{Ball, Color};
use breakout::block::{Block, BlockType};
use breakout::geom::{isqrt, normalize, Rect, Vec2, PIXEL, UNIT};
use breakout::player::Player;
use breakout::scale::Scale;

const SCREEN_W: i64 = 800 * PIXEL;

fn ball_at(x: i64, y: i64, d: i64) -> Ball {
    Ball::with_direction(Vec2 { x, y }, 16 * PIXEL, 0, false, d)
}

fn magnitude_sq(v: Vec2) -> i64 {
    v.x * v.x + v.y * v.y
}

#[test]
fn isqrt_exact_values() {
    assert_eq!(isqrt(0), 0);
    assert_eq!(isqrt(15), 3);
    assert_eq!(isqrt(16), 4);
    assert_eq!(isqrt(1_000_000_000_000), 1_000_000);
}

#[test]
fn normalize_exact_values() {
    assert_eq!(normalize(Vec2 { x: 3, y: 4 }), Vec2 { x: 600, y: 800 });
    assert_eq!(normalize(Vec2 { x: 0, y: 5 }), Vec2 { x: 0, y: UNIT });
    assert_eq!(normalize(Vec2 { x: -7, y: 0 }), Vec2 { x: -UNIT, y: 0 });
    assert_eq!(normalize(Vec2 { x: 0, y: 0 }), Vec2 { x: 0, y: 0 });
}

#[test]
fn velocity_is_unit_after_update() {
    for d in [-1000, -999, -500, -1, 0, 1, 333, 999] {
        let mut b = ball_at(100 * PIXEL, 100 * PIXEL, d);
        b.speed = 400 * PIXEL;
        b.update(16_667, SCREEN_W);
        let m = magnitude_sq(b.vel) as f64;
        let unit = (UNIT * UNIT) as f64;
        assert!((m - unit).abs() / unit < 0.005, "magnitude {} for {}", m, d);
    }
}

#[test]
fn velocity_is_unit_after_wall_correction() {
    let mut b = ball_at(-30 * PIXEL, 100 * PIXEL, -800);
    b.update(0, SCREEN_W);
    let m = magnitude_sq(b.vel) as f64;
    let unit = (UNIT * UNIT) as f64;
    assert!((m - unit).abs() / unit < 0.005);
}

#[test]
fn ball_left_of_screen_turns_right() {
    let mut b = ball_at(-20 * PIXEL, 100 * PIXEL, -900);
    b.update(0, SCREEN_W);
    assert!(b.vel.x > 0);
}

#[test]
fn ball_right_of_screen_turns_left() {
    let mut b = ball_at(SCREEN_W + PIXEL, 100 * PIXEL, 900);
    b.update(0, SCREEN_W);
    assert!(b.vel.x < 0);
}

#[test]
fn ball_above_screen_turns_down() {
    let mut b = ball_at(100 * PIXEL, -20 * PIXEL, 0);
    b.vel = Vec2 { x: 0, y: -UNIT };
    b.update(0, SCREEN_W);
    assert!(b.vel.y > 0);
}

#[test]
fn ball_moves_by_speed_and_time() {
    let mut b = ball_at(100 * PIXEL, 100 * PIXEL, 0);
    assert_eq!(b.vel, Vec2 { x: 0, y: UNIT });
    b.speed = 400 * PIXEL;
    b.update(500_000, SCREEN_W);
    assert_eq!(b.rect.y, 100 * PIXEL + 200 * PIXEL);
    assert_eq!(b.rect.x, 100 * PIXEL);
}

#[test]
fn bounce_without_overlap_changes_nothing() {
    let mut b = ball_at(0, 0, 300);
    let before = b;
    let body = Rect::new(50 * PIXEL, 50 * PIXEL, 10 * PIXEL, 10 * PIXEL);
    assert!(!b.bounce(&body, 100));
    assert_eq!(b, before);
}

#[test]
fn bounce_wide_overlap_is_vertical() {
    // ball moving down onto a paddle below it
    let mut b = ball_at(100 * PIXEL, 100 * PIXEL, 0);
    b.vel = Vec2 { x: 200, y: 900 };
    let paddle = Rect::new(90 * PIXEL, 114 * PIXEL, 150 * PIXEL, 20 * PIXEL);
    assert!(b.bounce(&paddle, 150));
    assert_eq!(b.vel.y, -900);
    assert_eq!(b.vel.x, 350);
    assert_eq!(b.rect.y, 100 * PIXEL - 2 * PIXEL);
}

#[test]
fn bounce_tall_overlap_is_horizontal() {
    let mut b = ball_at(100 * PIXEL, 100 * PIXEL, 0);
    b.vel = Vec2 { x: 700, y: 700 };
    let wall = Rect::new(113 * PIXEL, 80 * PIXEL, 40 * PIXEL, 60 * PIXEL);
    assert!(b.bounce(&wall, 150));
    assert_eq!(b.vel.x, -700);
    assert_eq!(b.vel.y, 700);
    assert_eq!(b.rect.x, 100 * PIXEL - 3 * PIXEL);
}

#[test]
fn bounce_square_overlap_is_horizontal() {
    let mut b = ball_at(100 * PIXEL, 100 * PIXEL, 0);
    b.vel = Vec2 { x: -600, y: 800 };
    let body = Rect::new(80 * PIXEL, 110 * PIXEL, 26 * PIXEL, 26 * PIXEL);
    assert!(b.bounce(&body, 0));
    assert_eq!(b.vel.x, 600);
    assert_eq!(b.vel.y, 800);
}

#[test]
fn touching_rectangles_intersect() {
    let a = Rect::new(0, 0, 10, 10);
    let b = Rect::new(10, 0, 10, 10);
    assert_eq!(a.intersect(&b), Some(Rect::new(10, 0, 0, 10)));
    assert!(a.overlaps(&b));
    assert_eq!(a.intersect(&Rect::new(11, 0, 5, 5)), None);
}

#[test]
fn block_loses_one_life_per_normal_hit() {
    let mut blk = Block::new(Vec2 { x: 0, y: 0 }, BlockType::Regular, 30 * PIXEL);
    assert_eq!(blk.lives, 2);
    blk.hit(false);
    assert_eq!(blk.lives, 1);
    blk.hit(false);
    assert_eq!(blk.lives, 0);
    blk.hit(false);
    assert_eq!(blk.lives, -1);
}

#[test]
fn super_ball_hit_leaves_no_lives() {
    for lives in [5, 2, 1, 0, -3] {
        let mut blk = Block::new(Vec2 { x: 0, y: 0 }, BlockType::Upgrade, 30 * PIXEL);
        blk.lives = lives;
        blk.hit(true);
        assert_eq!(blk.lives, 0);
    }
}

#[test]
fn block_colors_follow_lives() {
    let mut blk = Block::new(Vec2 { x: 0, y: 0 }, BlockType::Regular, 30 * PIXEL);
    assert_eq!(blk.color(), Color::Red);
    blk.lives = 1;
    assert_eq!(blk.color(), Color::Orange);
    blk.block_type = BlockType::Upgrade;
    assert_eq!(blk.color(), Color::Lime);
    blk.lives = 2;
    assert_eq!(blk.color(), Color::Green);
    blk.lives = 0;
    assert_eq!(blk.color(), Color::Black);
}

#[test]
fn ball_colors() {
    let b = ball_at(0, 0, 0);
    assert_eq!(b.color(), Color::Blue);
    let s = Ball::new_super_ball(Vec2 { x: 0, y: 0 }, 10, 10);
    assert_eq!(s.color(), Color::Gold);
    assert!(s.super_ball);
}

#[test]
fn new_balls_head_down_in_varied_directions() {
    let mut xs = Vec::new();
    for _ in 0..50 {
        let b = Ball::new(Vec2 { x: 0, y: 0 }, 10, 10);
        assert!(b.vel.y > 0);
        assert!(!b.super_ball);
        xs.push(b.vel.x);
    }
    assert!(xs.iter().any(|x| *x != xs[0]));
}

#[test]
fn scale_follows_screen_width() {
    let s = Scale::new(800, 800 * PIXEL, 800 * PIXEL);
    assert_eq!(s.screen_scale, 1000);
    assert_eq!(s.total_scale, 800);
    let mut t = s;
    t.update(1600 * PIXEL);
    assert_eq!(t.screen_scale, 2000);
    assert_eq!(t.total_scale, 1600);
}

#[test]
fn player_starts_centred_and_stays_on_screen() {
    let mut p = Player::new(Vec2 { x: 150 * PIXEL, y: 20 * PIXEL }, 750 * PIXEL, 50 * PIXEL, SCREEN_W, 600 * PIXEL);
    assert_eq!(p.rect, Rect::new(325 * PIXEL, 550 * PIXEL, 150 * PIXEL, 20 * PIXEL));
    p.update(100_000, true, false, SCREEN_W);
    assert_eq!(p.rect.x, 250 * PIXEL);
    p.update(100_000, true, true, SCREEN_W);
    assert_eq!(p.rect.x, 250 * PIXEL);
    p.update(1_000_000, true, false, SCREEN_W);
    assert_eq!(p.rect.x, 0);
    p.update(2_000_000, false, true, SCREEN_W);
    assert_eq!(p.rect.x, SCREEN_W - 150 * PIXEL);
}

#[test]
fn normalize_keeps_small_components() {
    assert_eq!(normalize(Vec2 { x: 2000, y: 1 }), Vec2 { x: UNIT, y: 1 });
    assert_eq!(normalize(Vec2 { x: -1, y: -2000 }), Vec2 { x: -1, y: -UNIT });
}

#[test]
fn nearly_horizontal_ball_keeps_falling() {
    let mut b = ball_at(100 * PIXEL, 100 * PIXEL, 0);
    b.vel = Vec2 { x: 2000, y: 1 };
    b.update(0, SCREEN_W);
    assert!(b.vel.y > 0);
    assert!(b.vel.x > 0);
}
