use breakout::ball::Ball;
use breakout::block::{Block, BlockType};
use breakout::game::{
    generate_blocks, FrameInput, Game, GameState, Sound, BLOCK_PADDING, SCALE, SCREEN_SCALE_FACTOR,
    START_LIVES,
};
use breakout::geom::{Rect, Vec2, PIXEL};
use breakout::scale::Scale;
use breakout::upgrades::{upgrade_from_index, UpgradeCoin, UpgradeType, Upgrades};

const SCREEN_W: i64 = 800 * PIXEL;
const SCREEN_H: i64 = 600 * PIXEL;

fn new_game() -> Game {
    Game::new(Scale::new(SCALE, SCREEN_SCALE_FACTOR, SCREEN_W), SCREEN_W, SCREEN_H)
}

fn input(confirm: bool) -> FrameInput {
    FrameInput { dt: 16_667, confirm, left: false, right: false, screen_width: SCREEN_W, screen_height: SCREEN_H }
}

/// A still ball centred on `r`.
fn ball_centred_on(r: Rect, super_ball: bool) -> Ball {
    let size = 16 * PIXEL;
    let pos = Vec2 { x: r.x + (r.w - size) / 2, y: r.y + (r.h - size) / 2 };
    Ball::with_direction(pos, size, 0, super_ball, 0)
}

#[test]
fn new_game_starts_at_menu() {
    let g = new_game();
    assert_eq!(g.state, GameState::Menu);
    assert_eq!(g.score, 0);
    assert_eq!(g.lives, START_LIVES);
    assert_eq!(g.balls.len(), 1);
    assert_eq!(g.blocks.len(), 90);
    assert!(g.blocks.iter().all(|b| b.lives == 2));
    assert!(!g.upgrades.magnet_active);
}

#[test]
fn block_grid_layout() {
    let scale = Scale::new(SCALE, SCREEN_SCALE_FACTOR, SCREEN_W);
    let blocks = generate_blocks(SCREEN_W, &scale);
    assert_eq!(blocks.len(), 90);
    let size = 32 * PIXEL;
    let step = size + BLOCK_PADDING;
    let start_x = SCREEN_W / 2 - 15 * step / 2;
    assert_eq!(blocks[0].rect, Rect::new(start_x, 50 * PIXEL, size, size));
    assert_eq!(blocks[16].rect, Rect::new(start_x + step, 50 * PIXEL + step, size, size));
    assert_eq!(blocks[89].rect, Rect::new(start_x + 14 * step, 50 * PIXEL + 5 * step, size, size));
    let upgrades = blocks.iter().filter(|b| b.block_type == BlockType::Upgrade).count();
    assert!(upgrades >= 1 && upgrades <= 53);
}

#[test]
fn super_ball_destroys_one_block_of_full_grid() {
    let mut g = new_game();
    g.state = GameState::Game;
    for b in g.blocks.iter_mut() {
        b.block_type = BlockType::Regular;
    }
    assert_eq!(g.blocks.len(), 90);
    let target = g.blocks[0];
    g.balls = vec![ball_centred_on(target.rect, true)];
    let sounds = g.frame(&input(false));
    assert_eq!(g.blocks.len(), 89);
    assert_eq!(g.score, 10);
    assert!(g.blocks.iter().all(|b| b.rect != target.rect));
    assert!(sounds.contains(&Sound::HitBlock));
    assert_eq!(g.state, GameState::Game);
    assert!(g.upgrades.falling_upgrades.is_empty());
}

#[test]
fn normal_ball_only_damages_block() {
    let mut g = new_game();
    g.state = GameState::Game;
    let target = g.blocks[20];
    g.balls = vec![ball_centred_on(target.rect, false)];
    g.frame(&input(false));
    assert_eq!(g.blocks.len(), 90);
    assert_eq!(g.blocks[20].lives, 1);
    assert_eq!(g.score, 0);
}

#[test]
fn destroyed_upgrade_block_drops_coin() {
    let mut g = new_game();
    g.state = GameState::Game;
    g.blocks[5].block_type = BlockType::Upgrade;
    let target = g.blocks[5];
    g.balls = vec![ball_centred_on(target.rect, true)];
    g.frame(&input(false));
    assert_eq!(g.score, 10);
    assert_eq!(g.upgrades.falling_upgrades.len(), 1);
    assert_eq!(g.upgrades.falling_upgrades[0].rect.x, target.rect.x);
    assert_eq!(g.upgrades.falling_upgrades[0].rect.y, target.rect.y + PIXEL);
}

#[test]
fn two_balls_on_one_block_score_once() {
    let mut g = new_game();
    g.state = GameState::Game;
    let target = g.blocks[3];
    g.balls = vec![ball_centred_on(target.rect, true), ball_centred_on(target.rect, false)];
    g.frame(&input(false));
    assert_eq!(g.blocks.len(), 89);
    assert_eq!(g.score, 10);
}

#[test]
fn last_ball_lost_with_last_life_ends_game() {
    let mut g = new_game();
    g.state = GameState::Game;
    g.lives = 1;
    g.balls = vec![Ball::with_direction(Vec2 { x: 100 * PIXEL, y: SCREEN_H + PIXEL }, 16 * PIXEL, 0, false, 0)];
    let sounds = g.frame(&input(false));
    assert_eq!(g.lives, 0);
    assert_eq!(g.state, GameState::GameOver);
    assert!(g.balls.is_empty());
    assert!(sounds.contains(&Sound::HitFloor));
}

#[test]
fn last_ball_lost_with_lives_left_waits_for_launch() {
    let mut g = new_game();
    g.state = GameState::Game;
    g.upgrades.magnet_active = true;
    g.balls = vec![Ball::with_direction(Vec2 { x: 100 * PIXEL, y: SCREEN_H + PIXEL }, 16 * PIXEL, 0, false, 0)];
    g.frame(&input(false));
    assert_eq!(g.lives, 2);
    assert_eq!(g.state, GameState::LaunchNewBall);
    assert!(!g.upgrades.magnet_active);
    g.frame(&input(false));
    assert_eq!(g.state, GameState::LaunchNewBall);
    assert!(g.balls.is_empty());
    g.frame(&input(true));
    assert_eq!(g.state, GameState::Game);
    assert_eq!(g.balls.len(), 1);
}

#[test]
fn clearing_last_block_completes_level() {
    let mut g = new_game();
    g.state = GameState::Game;
    let mut last = g.blocks[0];
    last.lives = 1;
    last.block_type = BlockType::Regular;
    g.blocks = vec![last];
    g.balls = vec![ball_centred_on(last.rect, false)];
    g.frame(&input(false));
    assert!(g.blocks.is_empty());
    assert_eq!(g.state, GameState::LevelCompleted);
    assert_eq!(g.score, 10);
    assert_eq!(g.lives, START_LIVES);
}

#[test]
fn confirm_after_level_resets_to_menu() {
    let mut g = new_game();
    g.state = GameState::LevelCompleted;
    g.score = 500;
    g.lives = 1;
    g.blocks.clear();
    g.frame(&input(false));
    assert_eq!(g.state, GameState::LevelCompleted);
    g.frame(&input(true));
    assert_eq!(g.state, GameState::Menu);
    assert_eq!(g.score, 0);
    assert_eq!(g.lives, START_LIVES);
    assert_eq!(g.blocks.len(), 90);
    assert_eq!(g.balls.len(), 1);
}

#[test]
fn confirm_after_game_over_resets_to_menu() {
    let mut g = new_game();
    g.state = GameState::GameOver;
    g.lives = 0;
    g.frame(&input(true));
    assert_eq!(g.state, GameState::Menu);
    assert_eq!(g.lives, START_LIVES);
}

#[test]
fn ball_multiplier_doubles_balls() {
    let mut g = new_game();
    let a = Ball::with_direction(Vec2 { x: 100 * PIXEL, y: 300 * PIXEL }, 16 * PIXEL, 320 * PIXEL, true, 0);
    let b = Ball::with_direction(Vec2 { x: 300 * PIXEL, y: 200 * PIXEL }, 16 * PIXEL, 320 * PIXEL, false, 0);
    g.balls = vec![a, b];
    g.upgrades.active_upgrades = vec![UpgradeType::BallMultiplier];
    g.activate_upgrades();
    assert_eq!(g.balls.len(), 4);
    assert_eq!(g.balls[0], a);
    assert_eq!(g.balls[1], b);
    assert!(g.balls[2].super_ball);
    assert!(!g.balls[3].super_ball);
    assert_eq!(g.balls[2].rect, a.rect);
    assert_eq!(g.balls[3].rect, b.rect);
    assert_eq!(g.balls[3].speed, b.speed);
    assert!(g.upgrades.active_upgrades.is_empty());
}

#[test]
fn other_upgrades_take_effect() {
    let mut g = new_game();
    g.upgrades.active_upgrades = vec![
        UpgradeType::ExtraLife,
        UpgradeType::AddBall,
        UpgradeType::SuperBall,
        UpgradeType::Magnet,
        UpgradeType::SpaceInvader,
    ];
    g.activate_upgrades();
    assert_eq!(g.lives, START_LIVES + 1);
    assert_eq!(g.balls.len(), 3);
    assert!(!g.balls[1].super_ball);
    assert!(g.balls[2].super_ball);
    assert!(g.upgrades.magnet_active);
    assert!(g.upgrades.space_invader_active);
}

#[test]
fn confirm_in_menu_only_starts_game() {
    let mut g = new_game();
    let balls = g.balls.clone();
    let blocks = g.blocks.clone();
    let player = g.player;
    g.frame(&input(false));
    assert_eq!(g.state, GameState::Menu);
    let sounds = g.frame(&input(true));
    assert_eq!(g.state, GameState::Game);
    assert!(sounds.is_empty());
    assert_eq!(g.balls, balls);
    assert_eq!(g.blocks, blocks);
    assert_eq!(g.player, player);
    assert_eq!(g.score, 0);
    assert_eq!(g.lives, START_LIVES);
}

#[test]
fn coins_fall_and_leave_screen() {
    let mut u = Upgrades::new();
    u.spawn_upgrade(Rect::new(0, SCREEN_H - PIXEL / 2, 10 * PIXEL, 10 * PIXEL));
    u.spawn_upgrade(Rect::new(0, 0, 10 * PIXEL, 10 * PIXEL));
    let paddle = Rect::new(400 * PIXEL, 550 * PIXEL, 150 * PIXEL, 20 * PIXEL);
    u.update(paddle, SCREEN_H);
    assert_eq!(u.falling_upgrades.len(), 1);
    assert_eq!(u.falling_upgrades[0].rect.y, PIXEL);
    assert!(u.active_upgrades.is_empty());
}

#[test]
fn every_coin_touching_paddle_is_collected() {
    let mut u = Upgrades::new();
    let paddle = Rect::new(400 * PIXEL, 550 * PIXEL, 150 * PIXEL, 20 * PIXEL);
    u.falling_upgrades.push(UpgradeCoin::new(Some(UpgradeType::Magnet), Rect::new(410 * PIXEL, 545 * PIXEL, 10 * PIXEL, 10 * PIXEL)));
    u.falling_upgrades.push(UpgradeCoin::new(Some(UpgradeType::ExtraLife), Rect::new(100 * PIXEL, 100 * PIXEL, 10 * PIXEL, 10 * PIXEL)));
    u.falling_upgrades.push(UpgradeCoin::new(Some(UpgradeType::AddBall), Rect::new(500 * PIXEL, 545 * PIXEL, 10 * PIXEL, 10 * PIXEL)));
    u.update(paddle, SCREEN_H);
    assert_eq!(u.active_upgrades, vec![UpgradeType::Magnet, UpgradeType::AddBall]);
    assert_eq!(u.falling_upgrades.len(), 1);
    assert_eq!(u.falling_upgrades[0].upgrade_type, UpgradeType::ExtraLife);
}

#[test]
fn magnet_pulls_coins_toward_paddle() {
    let mut u = Upgrades::new();
    u.magnet_active = true;
    u.falling_upgrades.push(UpgradeCoin::new(Some(UpgradeType::AddBall), Rect::new(0, 100 * PIXEL, 10 * PIXEL, 10 * PIXEL)));
    let paddle = Rect::new(400 * PIXEL, 100 * PIXEL, 150 * PIXEL, 20 * PIXEL);
    u.update(paddle, SCREEN_H);
    // centre is (475 px, 110 px); the direction is (475, 10) scaled to unit length
    assert_eq!(u.falling_upgrades[0].rect.x, 2 * 999);
    assert_eq!(u.falling_upgrades[0].rect.y, 100 * PIXEL + 2 * 21);
    u.reset();
    assert!(u.falling_upgrades.is_empty());
    assert!(!u.magnet_active);
}

#[test]
fn upgrade_kinds_by_index() {
    assert_eq!(upgrade_from_index(0), UpgradeType::Magnet);
    assert_eq!(upgrade_from_index(1), UpgradeType::BallMultiplier);
    assert_eq!(upgrade_from_index(2), UpgradeType::AddBall);
    assert_eq!(upgrade_from_index(3), UpgradeType::SuperBall);
    assert_eq!(upgrade_from_index(4), UpgradeType::ExtraLife);
    assert_eq!(upgrade_from_index(5), UpgradeType::SpaceInvader);
}

#[test]
fn random_coin_kinds_vary() {
    let r = Rect::new(0, 0, 10, 10);
    let kinds: Vec<UpgradeType> = (0..60).map(|_| UpgradeCoin::new(None, r).upgrade_type).collect();
    assert!(kinds.iter().any(|k| *k != kinds[0]));
    assert_eq!(UpgradeCoin::new(None, r).rect, r);
}

#[test]
fn block_new_has_full_lives() {
    let b = Block::new(Vec2 { x: 5, y: 6 }, BlockType::Upgrade, 7);
    assert_eq!(b.rect, Rect::new(5, 6, 7, 7));
    assert_eq!(b.lives, 2);
    assert!(b.is_alive());
}

#[test]
fn two_blocks_destroyed_in_one_frame_score_twenty() {
    let mut g = new_game();
    g.state = GameState::Game;
    for b in g.blocks.iter_mut() {
        b.block_type = BlockType::Regular;
    }
    let first = g.blocks[0];
    let second = g.blocks[47];
    g.balls = vec![ball_centred_on(first.rect, true), ball_centred_on(second.rect, true)];
    g.frame(&input(false));
    assert_eq!(g.blocks.len(), 88);
    assert_eq!(g.score, 20);
}

#[test]
fn hit_block_scores_only_on_the_killing_hit() {
    let mut g = new_game();
    g.hit_block(7, false);
    assert_eq!(g.blocks[7].lives, 1);
    assert_eq!(g.score, 0);
    g.hit_block(7, false);
    assert_eq!(g.blocks[7].lives, 0);
    assert_eq!(g.score, 10);
    g.hit_block(7, true);
    assert_eq!(g.blocks[7].lives, 0);
    assert_eq!(g.score, 10);
}

#[test]
fn score_saturates() {
    let mut g = new_game();
    g.score = u64::MAX - 3;
    g.hit_block(0, true);
    assert_eq!(g.score, u64::MAX);
}

#[test]
fn scaled_sizes() {
    assert_eq!(breakout::game::scaled_size(20 * PIXEL, 800), 16 * PIXEL);
    assert_eq!(breakout::game::scaled_size(5, 0), 1);
    assert_eq!(breakout::game::scaled_size(40 * PIXEL, 2000), 80 * PIXEL);
}

#[test]
fn reset_restores_session() {
    let mut g = new_game();
    g.score = 70;
    g.lives = 0;
    g.blocks.truncate(3);
    g.upgrades.magnet_active = true;
    g.player.rect.x = 0;
    g.reset(SCREEN_W);
    assert_eq!(g.score, 0);
    assert_eq!(g.lives, START_LIVES);
    assert_eq!(g.blocks.len(), 90);
    assert_eq!(g.balls.len(), 1);
    assert!(!g.upgrades.magnet_active);
    assert_eq!(g.player.rect.x, 325 * PIXEL);
    // the new ball sits centred above the paddle
    assert_eq!(g.balls[0].rect.x, 325 * PIXEL + 75 * PIXEL - 10 * PIXEL);
    assert_eq!(g.balls[0].rect.y, 550 * PIXEL - 20 * PIXEL);
}

#[test]
fn collisions_use_the_given_nudges() {
    let mut g = new_game();
    let paddle = g.player.rect;
    // a ball sitting on the paddle's top edge, moving down
    let mut b = Ball::with_direction(Vec2 { x: paddle.x + 10 * PIXEL, y: paddle.y - 14 * PIXEL }, 16 * PIXEL, 0, false, 0);
    b.vel = Vec2 { x: 100, y: 990 };
    g.balls = vec![b];
    let sounds = g.resolve_collisions_with(&vec![150]);
    assert_eq!(g.balls[0].vel.x, 250);
    assert_eq!(g.balls[0].vel.y, -990);
    assert_eq!(g.balls[0].rect.y, paddle.y - 16 * PIXEL);
    assert_eq!(sounds, vec![Sound::HitPlayer]);
    assert_eq!(g.score, 0);
}

#[test]
fn collision_pass_damages_blocks_in_ball_order() {
    let mut g = new_game();
    let target = g.blocks[10];
    g.balls = vec![ball_centred_on(target.rect, false), ball_centred_on(target.rect, false)];
    g.resolve_collisions_with(&vec![0, 0]);
    assert_eq!(g.blocks.len(), 90);
    assert_eq!(g.blocks[10].lives, 0);
    assert_eq!(g.score, 10);
    assert_eq!(g.blocks[11].lives, 2);
}

#[test]
fn marking_upgrades_follows_picks() {
    let mut blocks = vec![
        Block::new(Vec2 { x: 0, y: 0 }, BlockType::Regular, 5),
        Block::new(Vec2 { x: 10, y: 0 }, BlockType::Regular, 5),
        Block::new(Vec2 { x: 20, y: 0 }, BlockType::Regular, 5),
    ];
    breakout::game::mark_upgrades(&mut blocks, &vec![2, 0, 2]);
    assert_eq!(blocks[0].block_type, BlockType::Upgrade);
    assert_eq!(blocks[1].block_type, BlockType::Regular);
    assert_eq!(blocks[2].block_type, BlockType::Upgrade);
    assert_eq!(blocks[2].lives, 2);
}

#[test]
fn single_upgrades_take_effect() {
    let mut g = new_game();
    let before = g.balls.len();
    g.activate_upgrade(UpgradeType::SuperBall);
    assert_eq!(g.balls.len(), before + 1);
    assert!(g.balls[before].super_ball);
    g.activate_upgrade(UpgradeType::BallMultiplier);
    assert_eq!(g.balls.len(), 2 * (before + 1));
    assert_eq!(g.balls[before + 1].rect, g.balls[0].rect);
    g.activate_upgrade(UpgradeType::ExtraLife);
    assert_eq!(g.lives, START_LIVES + 1);
    g.activate_upgrade(UpgradeType::SpaceInvader);
    assert!(g.upgrades.space_invader_active);
}
