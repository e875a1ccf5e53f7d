use vstd::prelude::*;
use crate::ball::Ball;
use crate::block::{Block, BlockType, BLOCK_LIVES};
use crate::geom::{clamp, clamp_coord, Rect, Vec2, COORD_LIMIT, PIXEL, UNIT};
use crate::player::Player;
use crate::random::random_range;
use crate::scale::{Scale, PER_MILLE};
use crate::upgrades::{UpgradeType, Upgrades};

verus! {

/// Scale of the game's sizes, in thousandths.
pub const SCALE: i64 = 800;
/// Screen width, in world units, at which the screen scale is one.
pub const SCREEN_SCALE_FACTOR: i64 = 800 * PIXEL;
/// Side of a block before scaling.
pub const BLOCK_SIZE: i64 = 40 * PIXEL;
/// Gap between neighbouring blocks.
pub const BLOCK_PADDING: i64 = 5 * PIXEL;
/// Top of the block grid.
pub const BOARD_TOP: i64 = 50 * PIXEL;
/// Blocks per row of the grid.
pub const GRID_COLUMNS: usize = 15;
/// Rows of the grid.
pub const GRID_ROWS: usize = 6;
/// Random picks of blocks that become upgrade blocks.
pub const UPGRADE_PICKS: usize = 53;
pub const PLAYER_WIDTH: i64 = 150 * PIXEL;
pub const PLAYER_HEIGHT: i64 = 20 * PIXEL;
/// Paddle speed, in world units per second.
pub const PLAYER_SPEED: i64 = 750 * PIXEL;
/// Height of the paddle's top above the bottom of the screen.
pub const PLAYER_RELATIVE_POS_Y: i64 = 50 * PIXEL;
/// Side of a ball before scaling.
pub const BALL_SIZE: i64 = 20 * PIXEL;
/// Ball speed before scaling, in world units per second.
pub const BALL_SPEED: i64 = 400 * PIXEL;
/// Lives at the start of a session.
pub const START_LIVES: i64 = 3;
/// Points for each destroyed block.
pub const BLOCK_POINTS: u64 = 10;
/// Upper bound (exclusive) of the random sideways nudge of a paddle bounce.
pub const PADDLE_JITTER: u32 = 200;
/// Scaled sizes and speeds are held within `1 ..= MAX_SIZE`.
pub const MAX_SIZE: i64 = 1_000_000_000;
/// Power-ups add no ball beyond this many.
pub const MAX_BALLS: usize = 1_048_576;

/// The screens of the game.
#[derive(Clone, Copy, Debug, PartialEq, Eq, Structural)]
pub enum GameState {
    Menu,
    Game,
    LaunchNewBall,
    LevelCompleted,
    GameOver,
}

/// Sounds a frame asks to play.
#[derive(Clone, Copy, Debug, PartialEq, Eq, Structural)]
pub enum Sound {
    HitBlock,
    HitPlayer,
    HitFloor,
}

/// What the host reports for one frame: elapsed microseconds, the keys held,
/// and the screen size in world units.
#[derive(Clone, Copy, Debug, PartialEq, Eq, Structural)]
pub struct FrameInput {
    pub dt: u32,
    pub confirm: bool,
    pub left: bool,
    pub right: bool,
    pub screen_width: i64,
    pub screen_height: i64,
}

impl FrameInput {
    pub open spec fn wf(self) -> bool {
        &&& 0 <= self.screen_width <= COORD_LIMIT
        &&& 0 <= self.screen_height <= COORD_LIMIT
    }
}

/// `base` times a scale in thousandths, held within `1 ..= MAX_SIZE`.
pub open spec fn scaled(base: int, total_scale: int) -> int {
    let v = base * total_scale / (PER_MILLE as int);
    if v < 1 {
        1
    } else if v > MAX_SIZE {
        MAX_SIZE as int
    } else {
        v
    }
}

pub fn scaled_size(base: i64, total_scale: i64) -> (r: i64)
    requires
        0 <= base <= MAX_SIZE,
        0 <= total_scale,
    ensures
        r == scaled(base as int, total_scale as int),
        1 <= r <= MAX_SIZE,
{
    assert(0 <= (base as int) * (total_scale as int)) by (nonlinear_arith)
        requires
            0 <= base,
            0 <= total_scale,
    ;
    assert((base as int) * (total_scale as int) <= 1_000_000_000 * 9_223_372_036_854_775_807)
        by (nonlinear_arith)
        requires
            0 <= base <= 1_000_000_000,
            0 <= total_scale <= 9_223_372_036_854_775_807,
    ;
    let v = (base as i128) * (total_scale as i128) / (PER_MILLE as i128);
    if v < 1 {
        1
    } else if v > MAX_SIZE as i128 {
        MAX_SIZE
    } else {
        v as i64
    }
}

/// The side of a block of the grid.
pub open spec fn grid_block_size(total_scale: int) -> int {
    scaled(BLOCK_SIZE as int, total_scale)
}

/// The rectangle of block `i` of the grid, filled row by row and centred
/// horizontally.
pub open spec fn grid_rect(i: int, screen_width: int, total_scale: int) -> Rect {
    let size = grid_block_size(total_scale);
    let step = size + BLOCK_PADDING;
    let start_x = screen_width / 2 - (GRID_COLUMNS * step) / 2;
    Rect {
        x: (start_x + (i % (GRID_COLUMNS as int)) * step) as i64,
        y: (BOARD_TOP + (i / (GRID_COLUMNS as int)) * step) as i64,
        w: size as i64,
        h: size as i64,
    }
}

/// The block grid of a new level.
pub open spec fn is_block_grid(blocks: Seq<Block>, screen_width: int, total_scale: int) -> bool {
    &&& blocks.len() == GRID_COLUMNS * GRID_ROWS
    &&& forall|i: int|
        0 <= i < blocks.len() ==> {
            &&& (#[trigger] blocks[i]).rect == grid_rect(i, screen_width, total_scale)
            &&& blocks[i].lives == BLOCK_LIVES
            &&& blocks[i].wf()
        }
}

/// Lays out the grid of regular blocks, then turns `UPGRADE_PICKS` randomly
/// picked blocks (a block may be picked twice) into upgrade blocks.
pub fn generate_blocks(screen_width: i64, scale: &Scale) -> (r: Vec<Block>)
    requires
        0 <= screen_width <= COORD_LIMIT,
        0 <= scale.total_scale,
    ensures
        is_block_grid(r@, screen_width as int, scale.total_scale as int),
        exists|picks: Seq<usize>|
            picks.len() == UPGRADE_PICKS && (forall|k: int| 0 <= k < picks.len() ==> #[trigger] picks[k]
                < GRID_COLUMNS * GRID_ROWS) && #[trigger] upgrade_picks_applied(r@, picks),
{
    let size = scaled_size(BLOCK_SIZE, scale.total_scale);
    let step = size + BLOCK_PADDING;
    let start_x = screen_width / 2 - (GRID_COLUMNS as i64 * step) / 2;
    let n = GRID_COLUMNS * GRID_ROWS;
    let mut blocks: Vec<Block> = Vec::new();
    let mut i: usize = 0;
    while i < n
        invariant
            n == GRID_COLUMNS * GRID_ROWS,
            0 <= i <= n,
            size == grid_block_size(scale.total_scale as int),
            1 <= size <= MAX_SIZE,
            step == size + BLOCK_PADDING,
            start_x == screen_width / 2 - (GRID_COLUMNS * step) / 2,
            0 <= screen_width <= COORD_LIMIT,
            blocks@.len() == i,
            forall|k: int| 0 <= k < i ==> (#[trigger] blocks@[k]).block_type == BlockType::Regular,
            forall|k: int|
                0 <= k < i ==> {
                    &&& (#[trigger] blocks@[k]).rect == grid_rect(
                        k,
                        screen_width as int,
                        scale.total_scale as int,
                    )
                    &&& blocks@[k].lives == BLOCK_LIVES
                    &&& blocks@[k].wf()
                },
        decreases n - i,
    {
        let col = (i % GRID_COLUMNS) as i64;
        let row = (i / GRID_COLUMNS) as i64;
        assert(0 <= col * step <= 14 * (MAX_SIZE + BLOCK_PADDING)) by (nonlinear_arith)
            requires
                0 <= col <= 14,
                1 <= step <= MAX_SIZE + BLOCK_PADDING,
        ;
        assert(0 <= row * step <= 5 * (MAX_SIZE + BLOCK_PADDING)) by (nonlinear_arith)
            requires
                0 <= row <= 5,
                1 <= step <= MAX_SIZE + BLOCK_PADDING,
        ;
        let pos = Vec2 { x: start_x + col * step, y: BOARD_TOP + row * step };
        blocks.push(Block::new(pos, BlockType::Regular, size));
        i = i + 1;
    }
    let mut picks: Vec<usize> = Vec::new();
    while picks.len() < UPGRADE_PICKS
        invariant
            n == GRID_COLUMNS * GRID_ROWS,
            picks@.len() <= UPGRADE_PICKS,
            forall|k: int| 0 <= k < picks@.len() ==> #[trigger] picks@[k] < n,
        decreases UPGRADE_PICKS - picks@.len(),
    {
        picks.push(random_range(0, n as u32) as usize);
    }
    mark_upgrades(&mut blocks, &picks);
    proof {
        assert(picks@.len() == UPGRADE_PICKS && (forall|k: int| 0 <= k < picks@.len() ==> #[trigger] picks@[k] < n)
            && upgrade_picks_applied(blocks@, picks@));
    }
    blocks
}

/// Each block is an upgrade block exactly when its index is among `picks`.
pub open spec fn upgrade_picks_applied(blocks: Seq<Block>, picks: Seq<usize>) -> bool {
    forall|i: int|
        0 <= i < blocks.len() ==> (#[trigger] blocks[i]).block_type == (if picks.contains(i as usize) {
            BlockType::Upgrade
        } else {
            BlockType::Regular
        })
}

/// Turns the blocks at the indices `picks` (repeats allowed) into upgrade
/// blocks, leaving everything else as it is.
pub fn mark_upgrades(blocks: &mut Vec<Block>, picks: &Vec<usize>)
    requires
        forall|k: int| 0 <= k < picks@.len() ==> #[trigger] picks@[k] < old(blocks)@.len(),
        old(blocks)@.len() <= usize::MAX,
    ensures
        final(blocks)@.len() == old(blocks)@.len(),
        forall|i: int|
            0 <= i < final(blocks)@.len() ==> {
                &&& (#[trigger] final(blocks)@[i]).rect == old(blocks)@[i].rect
                &&& final(blocks)@[i].lives == old(blocks)@[i].lives
                &&& final(blocks)@[i].block_type == (if picks@.contains(i as usize) {
                    BlockType::Upgrade
                } else {
                    old(blocks)@[i].block_type
                })
            },
{
    let mut p: usize = 0;
    while p < picks.len()
        invariant
            0 <= p <= picks@.len(),
            blocks@.len() == old(blocks)@.len(),
            old(blocks)@.len() <= usize::MAX,
            forall|k: int| 0 <= k < picks@.len() ==> #[trigger] picks@[k] < old(blocks)@.len(),
            forall|i: int|
                0 <= i < blocks@.len() ==> {
                    &&& (#[trigger] blocks@[i]).rect == old(blocks)@[i].rect
                    &&& blocks@[i].lives == old(blocks)@[i].lives
                    &&& blocks@[i].block_type == (if picks@.take(p as int).contains(i as usize) {
                        BlockType::Upgrade
                    } else {
                        old(blocks)@[i].block_type
                    })
                },
        decreases picks@.len() - p,
    {
        let idx = picks[p];
        let b = blocks[idx];
        let ghost prev = blocks@;
        blocks.set(idx, Block { block_type: BlockType::Upgrade, ..b });
        proof {
            let t = picks@.take(p as int + 1);
            assert(t =~= picks@.take(p as int).push(idx));
            assert(t[p as int] == idx);
            assert(t.len() == p + 1);
            assert forall|i: int| 0 <= i < blocks@.len() implies (#[trigger] blocks@[i]).block_type == (
            if t.contains(i as usize) {
                BlockType::Upgrade
            } else {
                old(blocks)@[i].block_type
            }) by {
                if i == idx as int {
                    assert(t[p as int] == idx);
                    assert(t.contains(i as usize));
                } else {
                    assert(blocks@[i] == prev[i]);
                    assert(prev[i].block_type == (if picks@.take(p as int).contains(i as usize) {
                        BlockType::Upgrade
                    } else {
                        old(blocks)@[i].block_type
                    }));
                    if t.contains(i as usize) {
                        let w = choose|w: int| 0 <= w < t.len() && t[w] == i as usize;
                        assert(0 <= i < old(blocks)@.len());
                        if w == p as int {
                            assert(t[p as int] == idx);
                            assert((i as usize) as int == i);
                        }
                        assert(w < p);
                        assert(picks@.take(p as int)[w] == i as usize);
                    }
                    if picks@.take(p as int).contains(i as usize) {
                        let w = choose|w: int| 0 <= w < p && picks@.take(p as int)[w] == i as usize;
                        assert(t[w] == i as usize);
                    }
                }
            }
        }
        p = p + 1;
    }
    proof {
        assert(picks@.take(picks@.len() as int) =~= picks@);
    }
}

/// Number of blocks with no lives left.
pub open spec fn dead_count(blocks: Seq<Block>) -> nat
    decreases blocks.len(),
{
    if blocks.len() == 0 {
        0
    } else {
        dead_count(blocks.drop_last()) + if blocks.last().lives <= 0 {
            1nat
        } else {
            0nat
        }
    }
}

/// The blocks that still have lives, in order.
pub open spec fn living_blocks(blocks: Seq<Block>) -> Seq<Block>
    decreases blocks.len(),
{
    if blocks.len() == 0 {
        Seq::empty()
    } else if blocks.last().lives > 0 {
        living_blocks(blocks.drop_last()).push(blocks.last())
    } else {
        living_blocks(blocks.drop_last())
    }
}

/// `score` plus `BLOCK_POINTS` for each of `n` blocks, saturating at the
/// largest `u64`.
pub open spec fn add_points(score: int, n: int) -> int {
    let s = score + BLOCK_POINTS * n;
    if s > u64::MAX { u64::MAX as int } else { s }
}

proof fn lemma_dead_count_update(s: Seq<Block>, j: int, b: Block)
    requires
        0 <= j < s.len(),
    ensures
        dead_count(s.update(j, b)) + (if s[j].lives <= 0 { 1int } else { 0int })
            == dead_count(s) + (if b.lives <= 0 { 1int } else { 0int }),
    decreases s.len(),
{
    if j == s.len() - 1 {
        assert(s.update(j, b).drop_last() =~= s.drop_last());
    } else {
        lemma_dead_count_update(s.drop_last(), j, b);
        assert(s.update(j, b).drop_last() =~= s.drop_last().update(j, b));
    }
}

proof fn lemma_none_dead(s: Seq<Block>)
    requires
        forall|i: int| 0 <= i < s.len() ==> (#[trigger] s[i]).lives > 0,
    ensures
        dead_count(s) == 0,
        dead_upgrade_count(s) == 0,
        living_blocks(s) == s,
    decreases s.len(),
{
    if s.len() > 0 {
        lemma_none_dead(s.drop_last());
        assert(s.drop_last().push(s.last()) =~= s);
    }
}

/// Every block is either dead or still in the living blocks.
pub proof fn lemma_living_plus_dead(s: Seq<Block>)
    ensures
        living_blocks(s).len() + dead_count(s) == s.len(),
    decreases s.len(),
{
    if s.len() > 0 {
        lemma_living_plus_dead(s.drop_last());
    }
}

/// The balls still above the bottom of the screen, in order.
pub open spec fn balls_in_play(balls: Seq<Ball>, screen_height: int) -> Seq<Ball>
    decreases balls.len(),
{
    if balls.len() == 0 {
        Seq::empty()
    } else if balls.last().rect.y < screen_height {
        balls_in_play(balls.drop_last(), screen_height).push(balls.last())
    } else {
        balls_in_play(balls.drop_last(), screen_height)
    }
}

/// One life less, saturating at the smallest `i64`.
pub open spec fn one_life_less(lives: int) -> int {
    if lives > i64::MIN { lives - 1 } else { lives }
}

/// How many of `kinds` are `kind`.
pub open spec fn count_of(kinds: Seq<UpgradeType>, kind: UpgradeType) -> nat
    decreases kinds.len(),
{
    if kinds.len() == 0 {
        0
    } else {
        count_of(kinds.drop_last(), kind) + if kinds.last() == kind {
            1nat
        } else {
            0nat
        }
    }
}

/// `lives` plus `n`, saturating at the largest `i64`.
pub open spec fn add_lives(lives: int, n: int) -> int {
    if lives + n > i64::MAX { i64::MAX as int } else { lives + n }
}

/// The number of balls after activating `kinds` in order, starting from `n`:
/// an added ball is one more and a multiplier doubles, never beyond
/// `MAX_BALLS`.
pub open spec fn ball_count_after(n: int, kinds: Seq<UpgradeType>) -> int
    decreases kinds.len(),
{
    if kinds.len() == 0 {
        n
    } else {
        let m = ball_count_after(n, kinds.drop_last());
        match kinds.last() {
            UpgradeType::AddBall | UpgradeType::SuperBall => if m < MAX_BALLS { m + 1 } else { m },
            UpgradeType::BallMultiplier => if 2 * m < MAX_BALLS { 2 * m } else { MAX_BALLS as int },
            _ => m,
        }
    }
}

/// `n` nudges, each in `0 .. PADDLE_JITTER`.
pub open spec fn valid_jitters(js: Seq<i64>, n: int) -> bool {
    &&& js.len() == n
    &&& forall|i: int| 0 <= i < n ==> 0 <= #[trigger] js[i] < PADDLE_JITTER
}

/// A block after one hit by a ball.
pub open spec fn hit_result(b: Block, super_ball: bool) -> Block {
    Block { lives: crate::block::lives_after_hit(b.lives as int, super_ball) as i64, ..b }
}

/// A ball and the blocks after the ball has met blocks `0 .. j` in order.
pub open spec fn pass_blocks(ball: Ball, blocks: Seq<Block>, j: nat) -> (Ball, Seq<Block>)
    decreases j,
{
    if j == 0 {
        (ball, blocks)
    } else {
        let prev = pass_blocks(ball, blocks, (j - 1) as nat);
        let bounced = prev.0.spec_bounce(prev.1[j - 1].rect, 0);
        if bounced.1 {
            (bounced.0, prev.1.update(j - 1, hit_result(prev.1[j - 1], bounced.0.super_ball)))
        } else {
            (bounced.0, prev.1)
        }
    }
}

/// The balls and blocks after balls `0 .. i` have, in order, bounced off the
/// paddle with their nudge and then met every block.
pub open spec fn collide_all(
    balls: Seq<Ball>,
    blocks: Seq<Block>,
    paddle: Rect,
    jitters: Seq<i64>,
    i: nat,
) -> (Seq<Ball>, Seq<Block>)
    decreases i,
{
    if i == 0 {
        (balls, blocks)
    } else {
        let prev = collide_all(balls, blocks, paddle, jitters, (i - 1) as nat);
        let b1 = prev.0[i - 1].spec_bounce(paddle, jitters[i - 1] as int).0;
        let after = pass_blocks(b1, prev.1, prev.1.len());
        (prev.0.update(i - 1, after.0), after.1)
    }
}

proof fn lemma_pass_blocks_len(ball: Ball, blocks: Seq<Block>, j: nat)
    requires
        j <= blocks.len(),
    ensures
        pass_blocks(ball, blocks, j).1.len() == blocks.len(),
    decreases j,
{
    if j > 0 {
        lemma_pass_blocks_len(ball, blocks, (j - 1) as nat);
    }
}

proof fn lemma_collide_all_len(balls: Seq<Ball>, blocks: Seq<Block>, paddle: Rect, jitters: Seq<i64>, i: nat)
    requires
        i <= balls.len(),
    ensures
        collide_all(balls, blocks, paddle, jitters, i).0.len() == balls.len(),
        collide_all(balls, blocks, paddle, jitters, i).1.len() == blocks.len(),
    decreases i,
{
    if i > 0 {
        lemma_collide_all_len(balls, blocks, paddle, jitters, (i - 1) as nat);
        let prev = collide_all(balls, blocks, paddle, jitters, (i - 1) as nat);
        let b1 = prev.0[i - 1].spec_bounce(paddle, jitters[i - 1] as int).0;
        lemma_pass_blocks_len(b1, prev.1, prev.1.len());
    }
}

/// Number of upgrade blocks with no lives left.
pub open spec fn dead_upgrade_count(blocks: Seq<Block>) -> nat
    decreases blocks.len(),
{
    if blocks.len() == 0 {
        0
    } else {
        dead_upgrade_count(blocks.drop_last()) + if blocks.last().lives <= 0 && blocks.last().block_type
            == BlockType::Upgrade {
            1nat
        } else {
            0nat
        }
    }
}

proof fn lemma_dead_upgrade_count_update(s: Seq<Block>, j: int, b: Block)
    requires
        0 <= j < s.len(),
    ensures
        dead_upgrade_count(s.update(j, b)) + (if s[j].lives <= 0 && s[j].block_type == BlockType::Upgrade {
            1int
        } else {
            0int
        }) == dead_upgrade_count(s) + (if b.lives <= 0 && b.block_type == BlockType::Upgrade {
            1int
        } else {
            0int
        }),
    decreases s.len(),
{
    if j == s.len() - 1 {
        assert(s.update(j, b).drop_last() =~= s.drop_last());
    } else {
        lemma_dead_upgrade_count_update(s.drop_last(), j, b);
        assert(s.update(j, b).drop_last() =~= s.drop_last().update(j, b));
    }
}

/// Every ball after one update step.
pub open spec fn moved_balls(balls: Seq<Ball>, dt: int, screen_width: int) -> Seq<Ball> {
    balls.map_values(|b: Ball| b.spec_update(dt, screen_width))
}

/// The paddle's rectangle after it moved for one frame.
pub open spec fn paddle_after(p: Player, input: FrameInput) -> Rect {
    Rect {
        x: p.spec_next_x(input.dt as int, input.left, input.right, input.screen_width as int) as i64,
        ..p.rect
    }
}

/// What one frame of play makes of `before`, given the paddle nudges `js`:
/// the balls move and collide, the balls below the screen and the dead
/// blocks go, every dead block scores, and losing the last ball costs a life
/// and the power-ups. Balls added by power-ups follow the surviving ones.
pub open spec fn play_outcome(before: Game, after: Game, input: FrameInput, js: Seq<i64>) -> bool {
    let c = collide_all(
        moved_balls(before.balls@, input.dt as int, input.screen_width as int),
        before.blocks@,
        paddle_after(before.player, input),
        js,
        before.balls@.len() as nat,
    );
    let kept = balls_in_play(c.0, input.screen_height as int);
    let lost = c.0.len() > 0 && kept.len() == 0;
    &&& after.player.rect == paddle_after(before.player, input)
    &&& after.blocks@ == living_blocks(c.1)
    &&& after.score == add_points(before.score as int, dead_count(c.1) as int)
    &&& kept.len() <= after.balls@.len()
    &&& after.balls@.take(kept.len() as int) == kept
    &&& lost ==> {
        &&& after.balls@.len() == 0
        &&& after.lives == one_life_less(before.lives as int)
        &&& after.upgrades.is_empty()
    }
    &&& !lost ==> after.lives >= before.lives
    &&& after.blocks@.len() == 0 ==> after.state == GameState::LevelCompleted
    &&& lost && after.blocks@.len() > 0 ==> after.state == (if after.lives <= 0 {
        GameState::GameOver
    } else {
        GameState::LaunchNewBall
    })
    &&& !lost && after.blocks@.len() > 0 ==> after.state == before.state
}

/// The menu after one frame: a confirm press starts the game; nothing else
/// changes.
pub open spec fn menu_outcome(before: Game, after: Game, input: FrameInput) -> bool {
    &&& after.state == (if input.confirm { GameState::Game } else { before.state })
    &&& after.player == before.player
    &&& after.balls == before.balls
    &&& after.blocks == before.blocks
    &&& after.score == before.score
    &&& after.lives == before.lives
    &&& after.scale == before.scale
    &&& after.upgrades == before.upgrades
}

/// Waiting for a new ball after one frame: the paddle moves, and a confirm
/// press (with room for a ball) adds a normal ball above the paddle and
/// resumes play.
pub open spec fn launch_outcome(before: Game, after: Game, input: FrameInput) -> bool {
    let launch = input.confirm && before.balls@.len() < MAX_BALLS;
    &&& after.player.rect == paddle_after(before.player, input)
    &&& launch ==> {
        &&& after.state == GameState::Game
        &&& after.balls@.len() == before.balls@.len() + 1
        &&& after.balls@.drop_last() == before.balls@
        &&& after.balls@.last().spawned(
            spawn_point(after.player.rect),
            before.ball_size() as i64,
            before.ball_speed() as i64,
            false,
        )
    }
    &&& !launch ==> after.state == before.state && after.balls == before.balls
    &&& after.blocks == before.blocks
    &&& after.score == before.score
    &&& after.lives == before.lives
    &&& after.scale == before.scale
    &&& after.upgrades == before.upgrades
}

/// The win or game-over screen after one frame: a confirm press goes back to
/// the menu with a fresh session (score and lives, scale, paddle, one ball,
/// a new grid, no power-ups); otherwise nothing changes.
pub open spec fn end_screen_outcome(before: Game, after: Game, input: FrameInput) -> bool {
    &&& input.confirm ==> {
        &&& after.state == GameState::Menu
        &&& after.score == 0
        &&& after.lives == START_LIVES
        &&& after.upgrades.is_empty()
        &&& after.scale.scale == before.scale.scale
        &&& after.scale.screen_scale_factor == before.scale.screen_scale_factor
        &&& after.scale.screen_scale == crate::scale::screen_scale_of(
            input.screen_width as int,
            before.scale.screen_scale_factor as int,
        )
        &&& after.scale.total_scale == crate::scale::total_scale_of(
            before.scale.scale as int,
            after.scale.screen_scale as int,
        )
        &&& after.player.rect == (Rect {
            x: (input.screen_width / 2 - PLAYER_WIDTH / 2) as i64,
            ..before.player.rect
        })
        &&& after.balls@.len() == 1
        &&& after.balls@[0].spawned(
            spawn_point(after.player.rect),
            after.ball_size() as i64,
            after.ball_speed() as i64,
            false,
        )
        &&& is_block_grid(after.blocks@, input.screen_width as int, after.scale.total_scale as int)
    }
    &&& !input.confirm ==> {
        &&& after.state == before.state
        &&& after.player == before.player
        &&& after.balls == before.balls
        &&& after.blocks == before.blocks
        &&& after.score == before.score
        &&& after.lives == before.lives
        &&& after.scale == before.scale
        &&& after.upgrades == before.upgrades
    }
}

/// `c` copies `src` in place, size, speed and kind, with a launch direction.
pub open spec fn is_clone_of(c: Ball, src: Ball) -> bool {
    &&& c.rect == src.rect
    &&& c.speed == src.speed
    &&& c.super_ball == src.super_ball
    &&& exists|d: int| -UNIT <= d < UNIT && c.vel == crate::ball::launch_direction(d)
}

/// Ball `k` of `balls` is one that a power-up adds to `g`: a new ball of
/// either kind above the paddle, or a copy of an earlier ball.
pub open spec fn is_added_ball(g: Game, balls: Seq<Ball>, k: int) -> bool {
    ||| balls[k].spawned(spawn_point(g.player.rect), g.ball_size() as i64, g.ball_speed() as i64, false)
    ||| balls[k].spawned(spawn_point(g.player.rect), g.ball_size() as i64, g.ball_speed() as i64, true)
    ||| exists|m: int| 0 <= m < k && is_clone_of(balls[k], #[trigger] balls[m])
}

/// The game after one power-up of `kind` takes effect.
pub open spec fn upgrade_outcome(before: Game, after: Game, kind: UpgradeType) -> bool {
    let n = before.balls@.len() as int;
    &&& after.state == before.state
    &&& after.player == before.player
    &&& after.blocks == before.blocks
    &&& after.score == before.score
    &&& after.scale == before.scale
    &&& after.upgrades.falling_upgrades == before.upgrades.falling_upgrades
    &&& after.upgrades.active_upgrades == before.upgrades.active_upgrades
    &&& after.lives == (if kind == UpgradeType::ExtraLife {
        add_lives(before.lives as int, 1)
    } else {
        before.lives as int
    })
    &&& after.upgrades.magnet_active == (before.upgrades.magnet_active || kind == UpgradeType::Magnet)
    &&& after.upgrades.space_invader_active == (before.upgrades.space_invader_active || kind
        == UpgradeType::SpaceInvader)
    &&& (kind == UpgradeType::AddBall || kind == UpgradeType::SuperBall) ==> if n < MAX_BALLS {
        &&& after.balls@.len() == n + 1
        &&& after.balls@.drop_last() == before.balls@
        &&& after.balls@.last().spawned(
            spawn_point(before.player.rect),
            before.ball_size() as i64,
            before.ball_speed() as i64,
            kind == UpgradeType::SuperBall,
        )
    } else {
        after.balls == before.balls
    }
    &&& kind == UpgradeType::BallMultiplier ==> {
        &&& after.balls@.len() == (if 2 * n < MAX_BALLS { 2 * n } else { MAX_BALLS as int })
        &&& forall|k: int| 0 <= k < n ==> (#[trigger] after.balls@[k]) == before.balls@[k]
        &&& forall|k: int| n <= k < after.balls@.len() ==> is_clone_of(#[trigger] after.balls@[k], before.balls@[k - n])
    }
    &&& (kind == UpgradeType::ExtraLife || kind == UpgradeType::Magnet || kind
        == UpgradeType::SpaceInvader) ==> after.balls == before.balls
}

/// Where a ball next to the paddle starts: centred above it.
pub open spec fn spawn_point(player: Rect) -> Vec2 {
    Vec2 {
        x: clamp_coord(player.x + player.w / 2 - BALL_SIZE / 2) as i64,
        y: clamp_coord(player.y - PLAYER_HEIGHT) as i64,
    }
}

/// The whole session: paddle, balls, blocks, counters, screen and power-ups.
pub struct Game {
    pub state: GameState,
    pub player: Player,
    pub balls: Vec<Ball>,
    pub blocks: Vec<Block>,
    pub score: u64,
    pub lives: i64,
    pub scale: Scale,
    pub upgrades: Upgrades,
}

impl Game {
    /// Every entity is well formed, every block still has lives, and the
    /// ball count is within `MAX_BALLS`.
    pub open spec fn wf(&self) -> bool {
        &&& self.player.wf()
        &&& self.scale.wf()
        &&& self.upgrades.wf()
        &&& self.balls@.len() <= MAX_BALLS
        &&& forall|i: int| 0 <= i < self.balls@.len() ==> (#[trigger] self.balls@[i]).wf()
        &&& forall|i: int|
            0 <= i < self.blocks@.len() ==> (#[trigger] self.blocks@[i]).wf() && self.blocks@[i].lives > 0
    }

    pub open spec fn ball_size(&self) -> int {
        scaled(BALL_SIZE as int, self.scale.total_scale as int)
    }

    pub open spec fn ball_speed(&self) -> int {
        scaled(BALL_SPEED as int, self.scale.total_scale as int)
    }

    /// A new session at the menu.
    pub fn new(scale: Scale, screen_width: i64, screen_height: i64) -> (r: Game)
        requires
            scale.wf(),
            0 <= screen_width <= COORD_LIMIT,
            0 <= screen_height <= COORD_LIMIT,
        ensures
            r.wf(),
            r.state == GameState::Menu,
            r.score == 0,
            r.lives == START_LIVES,
            r.scale == scale,
            r.upgrades.is_empty(),
            r.player.rect == Rect::spec_new(
                (screen_width / 2 - PLAYER_WIDTH / 2) as i64,
                (screen_height - PLAYER_RELATIVE_POS_Y) as i64,
                PLAYER_WIDTH,
                PLAYER_HEIGHT,
            ),
            r.balls@.len() == 1,
            r.balls@[0].spawned(
                Vec2 {
                    x: (screen_width / 2) as i64,
                    y: (screen_height - PLAYER_RELATIVE_POS_Y - PLAYER_HEIGHT) as i64,
                },
                r.ball_size() as i64,
                r.ball_speed() as i64,
                false,
            ),
            is_block_grid(r.blocks@, screen_width as int, scale.total_scale as int),
    {
        let position = Vec2 {
            x: screen_width / 2,
            y: screen_height - PLAYER_RELATIVE_POS_Y - PLAYER_HEIGHT,
        };
        let ball = Ball::new(
            position,
            scaled_size(BALL_SIZE, scale.total_scale),
            scaled_size(BALL_SPEED, scale.total_scale),
        );
        let mut balls: Vec<Ball> = Vec::new();
        balls.push(ball);
        Game {
            state: GameState::Menu,
            player: Player::new(
                Vec2 { x: PLAYER_WIDTH, y: PLAYER_HEIGHT },
                PLAYER_SPEED,
                PLAYER_RELATIVE_POS_Y,
                screen_width,
                screen_height,
            ),
            balls,
            blocks: generate_blocks(screen_width, &scale),
            score: 0,
            lives: START_LIVES,
            scale,
            upgrades: Upgrades::new(),
        }
    }

    /// A normal ball centred above the paddle.
    pub fn new_ball_next_to_player(&self) -> (r: Ball)
        requires
            self.player.wf(),
            self.scale.wf(),
        ensures
            r.wf(),
            r.spawned(spawn_point(self.player.rect), self.ball_size() as i64, self.ball_speed() as i64, false),
    {
        let p = self.player.rect;
        let position = Vec2 {
            x: clamp(p.x as i128 + (p.w / 2) as i128 - (BALL_SIZE / 2) as i128),
            y: clamp(p.y as i128 - PLAYER_HEIGHT as i128),
        };
        Ball::new(
            position,
            scaled_size(BALL_SIZE, self.scale.total_scale),
            scaled_size(BALL_SPEED, self.scale.total_scale),
        )
    }

    /// A super ball centred above the paddle.
    pub fn new_super_ball_next_to_player(&self) -> (r: Ball)
        requires
            self.player.wf(),
            self.scale.wf(),
        ensures
            r.wf(),
            r.spawned(spawn_point(self.player.rect), self.ball_size() as i64, self.ball_speed() as i64, true),
    {
        let p = self.player.rect;
        let position = Vec2 {
            x: clamp(p.x as i128 + (p.w / 2) as i128 - (BALL_SIZE / 2) as i128),
            y: clamp(p.y as i128 - PLAYER_HEIGHT as i128),
        };
        Ball::new_super_ball(
            position,
            scaled_size(BALL_SIZE, self.scale.total_scale),
            scaled_size(BALL_SPEED, self.scale.total_scale),
        )
    }

    /// Adds a normal ball above the paddle.
    pub fn spawn_ball_next_to_player(&mut self)
        requires
            old(self).wf(),
            old(self).balls@.len() < MAX_BALLS,
        ensures
            final(self).wf(),
            final(self).balls@.len() == old(self).balls@.len() + 1,
            final(self).balls@.drop_last() == old(self).balls@,
            final(self).balls@.last().spawned(
                spawn_point(old(self).player.rect),
                old(self).ball_size() as i64,
                old(self).ball_speed() as i64,
                false,
            ),
            final(self).state == old(self).state,
            final(self).player == old(self).player,
            final(self).blocks == old(self).blocks,
            final(self).score == old(self).score,
            final(self).lives == old(self).lives,
            final(self).scale == old(self).scale,
            final(self).upgrades == old(self).upgrades,
    {
        let b = self.new_ball_next_to_player();
        self.balls.push(b);
        assert(self.balls@.drop_last() =~= old(self).balls@);
    }

    /// Adds a normal ball with its top-left corner at `point`.
    pub fn spawn_ball(&mut self, point: Vec2)
        requires
            old(self).wf(),
            old(self).balls@.len() < MAX_BALLS,
            -COORD_LIMIT <= point.x <= COORD_LIMIT,
            -COORD_LIMIT <= point.y <= COORD_LIMIT,
        ensures
            final(self).wf(),
            final(self).balls@.len() == old(self).balls@.len() + 1,
            final(self).balls@.drop_last() == old(self).balls@,
            final(self).balls@.last().spawned(
                point,
                old(self).ball_size() as i64,
                old(self).ball_speed() as i64,
                false,
            ),
            final(self).state == old(self).state,
            final(self).player == old(self).player,
            final(self).blocks == old(self).blocks,
            final(self).score == old(self).score,
            final(self).lives == old(self).lives,
            final(self).scale == old(self).scale,
    {
        let b = Ball::new(
            point,
            scaled_size(BALL_SIZE, self.scale.total_scale),
            scaled_size(BALL_SPEED, self.scale.total_scale),
        );
        self.balls.push(b);
        assert(self.balls@.drop_last() =~= old(self).balls@);
    }

    /// One hit on block `index` by a ball: the block loses a life, or all of
    /// them to a super ball. A block whose lives run out with this hit scores
    /// `BLOCK_POINTS` and, if it is an upgrade block, drops a coin.
    pub fn hit_block(&mut self, index: usize, super_ball: bool)
        requires
            index < old(self).blocks@.len(),
            old(self).blocks@[index as int].lives > i64::MIN,
            old(self).blocks@[index as int].wf(),
            old(self).upgrades.wf(),
        ensures
            ({
                let before = old(self).blocks@[index as int];
                let after = Block {
                    lives: crate::block::lives_after_hit(before.lives as int, super_ball) as i64,
                    ..before
                };
                let destroyed = before.lives > 0 && after.lives <= 0;
                &&& final(self).blocks@ == old(self).blocks@.update(index as int, after)
                &&& final(self).score == (if destroyed {
                    add_points(old(self).score as int, 1)
                } else {
                    old(self).score as int
                })
                &&& if destroyed && before.block_type == BlockType::Upgrade {
                    &&& final(self).upgrades.falling_upgrades@.len()
                        == old(self).upgrades.falling_upgrades@.len() + 1
                    &&& final(self).upgrades.falling_upgrades@.drop_last()
                        == old(self).upgrades.falling_upgrades@
                    &&& final(self).upgrades.falling_upgrades@.last().rect == before.rect
                } else {
                    final(self).upgrades.falling_upgrades@ == old(self).upgrades.falling_upgrades@
                }
            }),
            final(self).upgrades.wf(),
            final(self).upgrades.active_upgrades == old(self).upgrades.active_upgrades,
            final(self).upgrades.magnet_active == old(self).upgrades.magnet_active,
            final(self).upgrades.space_invader_active == old(self).upgrades.space_invader_active,
            final(self).state == old(self).state,
            final(self).player == old(self).player,
            final(self).balls == old(self).balls,
            final(self).lives == old(self).lives,
            final(self).scale == old(self).scale,
    {
        let mut b = self.blocks[index];
        let before = b.lives;
        b.hit(super_ball);
        self.blocks.set(index, b);
        if before > 0 && b.lives <= 0 {
            self.score = self.score.saturating_add(BLOCK_POINTS);
            if b.block_type == BlockType::Upgrade {
                self.upgrades.spawn_upgrade(b.rect);
            }
        }
    }

    /// Bounces every ball, in order, off the paddle with the sideways nudge
    /// `jitters[i]` and then off every block in order, damaging each block
    /// it hits. Blocks stay in place, dead or not, until all balls are done;
    /// a block that dies scores `BLOCK_POINTS` and an upgrade block drops a
    /// coin.
    pub fn resolve_collisions_with(&mut self, jitters: &Vec<i64>) -> (sounds: Vec<Sound>)
        requires
            old(self).wf(),
            forall|i: int| 0 <= i < old(self).balls@.len() ==> -UNIT <= (#[trigger] old(self).balls@[i]).vel.x <= UNIT,
            valid_jitters(jitters@, old(self).balls@.len() as int),
        ensures
            (final(self).balls@, final(self).blocks@) == collide_all(
                old(self).balls@,
                old(self).blocks@,
                old(self).player.rect,
                jitters@,
                old(self).balls@.len() as nat,
            ),
            final(self).score == add_points(old(self).score as int, dead_count(final(self).blocks@) as int),
            final(self).upgrades.falling_upgrades@.len() == old(self).upgrades.falling_upgrades@.len()
                + dead_upgrade_count(final(self).blocks@),
            final(self).upgrades.falling_upgrades@.take(old(self).upgrades.falling_upgrades@.len() as int)
                == old(self).upgrades.falling_upgrades@,
            final(self).upgrades.wf(),
            forall|i: int| 0 <= i < final(self).balls@.len() ==> (#[trigger] final(self).balls@[i]).wf(),
            forall|i: int|
                0 <= i < final(self).blocks@.len() ==> {
                    &&& (#[trigger] final(self).blocks@[i]).rect == old(self).blocks@[i].rect
                    &&& final(self).blocks@[i].block_type == old(self).blocks@[i].block_type
                    &&& final(self).blocks@[i].wf()
                },
            final(self).upgrades.active_upgrades == old(self).upgrades.active_upgrades,
            final(self).upgrades.magnet_active == old(self).upgrades.magnet_active,
            final(self).upgrades.space_invader_active == old(self).upgrades.space_invader_active,
            final(self).state == old(self).state,
            final(self).player == old(self).player,
            final(self).lives == old(self).lives,
            final(self).scale == old(self).scale,
    {
        let mut sounds: Vec<Sound> = Vec::new();
        proof {
            lemma_none_dead(self.blocks@);
        }
        let ghost coins0 = self.upgrades.falling_upgrades@;
        let ghost paddle = self.player.rect;
        assert(self.upgrades.falling_upgrades@.take(coins0.len() as int) =~= coins0);
        let n = self.balls.len();
        let m = self.blocks.len();
        let mut i: usize = 0;
        while i < n
            invariant
                n == self.balls@.len(),
                m == self.blocks@.len(),
                m == old(self).blocks@.len(),
                n == old(self).balls@.len(),
                n <= MAX_BALLS,
                0 <= i <= n,
                paddle == self.player.rect,
                valid_jitters(jitters@, n as int),
                (self.balls@, self.blocks@) == collide_all(
                    old(self).balls@,
                    old(self).blocks@,
                    paddle,
                    jitters@,
                    i as nat,
                ),
                self.upgrades.wf(),
                self.player == old(self).player,
                self.player.wf(),
                self.scale == old(self).scale,
                self.state == old(self).state,
                self.lives == old(self).lives,
                self.upgrades.active_upgrades == old(self).upgrades.active_upgrades,
                self.upgrades.magnet_active == old(self).upgrades.magnet_active,
                self.upgrades.space_invader_active == old(self).upgrades.space_invader_active,
                forall|k: int| 0 <= k < n ==> (#[trigger] self.balls@[k]).wf(),
                forall|k: int| i <= k < n ==> (#[trigger] self.balls@[k]) == old(self).balls@[k],
                forall|k: int| i <= k < n ==> -UNIT <= (#[trigger] old(self).balls@[k]).vel.x <= UNIT,
                forall|k: int|
                    0 <= k < m ==> {
                        &&& (#[trigger] self.blocks@[k]).rect == old(self).blocks@[k].rect
                        &&& self.blocks@[k].block_type == old(self).blocks@[k].block_type
                        &&& self.blocks@[k].wf()
                        &&& self.blocks@[k].lives >= 1 - i
                    },
                self.score == add_points(old(self).score as int, dead_count(self.blocks@) as int),
                self.upgrades.falling_upgrades@.len() == coins0.len() + dead_upgrade_count(self.blocks@),
                self.upgrades.falling_upgrades@.take(coins0.len() as int) == coins0,
                coins0 == old(self).upgrades.falling_upgrades@,
            decreases n - i,
        {
            let mut ball = self.balls[i];
            let jitter = jitters[i];
            if ball.bounce(&self.player.rect, jitter) {
                sounds.push(Sound::HitPlayer);
            }
            let ghost first = ball;
            let ghost blocks_i = self.blocks@;
            let ghost balls_i = self.balls@;
            let mut j: usize = 0;
            while j < m
                invariant
                    n == self.balls@.len(),
                    m == self.blocks@.len(),
                    m == blocks_i.len(),
                    m == old(self).blocks@.len(),
                    n <= MAX_BALLS,
                    0 <= i < n,
                    0 <= j <= m,
                    ball.wf(),
                    ball.super_ball == first.super_ball,
                    (ball, self.blocks@) == pass_blocks(first, blocks_i, j as nat),
                    self.balls@ == balls_i,
                    self.upgrades.wf(),
                    self.player == old(self).player,
                    self.player.wf(),
                    self.scale == old(self).scale,
                    self.state == old(self).state,
                    self.lives == old(self).lives,
                    self.upgrades.active_upgrades == old(self).upgrades.active_upgrades,
                    self.upgrades.magnet_active == old(self).upgrades.magnet_active,
                    self.upgrades.space_invader_active == old(self).upgrades.space_invader_active,
                    forall|k: int| 0 <= k < n ==> (#[trigger] self.balls@[k]).wf(),
                    forall|k: int|
                        0 <= k < m ==> {
                            &&& (#[trigger] self.blocks@[k]).rect == old(self).blocks@[k].rect
                            &&& self.blocks@[k].block_type == old(self).blocks@[k].block_type
                            &&& self.blocks@[k].wf()
                            &&& self.blocks@[k].lives >= 0 - i
                            &&& (k >= j ==> self.blocks@[k].lives >= 1 - i)
                            &&& (k >= j ==> self.blocks@[k] == blocks_i[k])
                        },
                    self.score == add_points(old(self).score as int, dead_count(self.blocks@) as int),
                    self.upgrades.falling_upgrades@.len() == coins0.len() + dead_upgrade_count(self.blocks@),
                    self.upgrades.falling_upgrades@.take(coins0.len() as int) == coins0,
                decreases m - j,
            {
                let rect = self.blocks[j].rect;
                if ball.bounce(&rect, 0) {
                    sounds.push(Sound::HitBlock);
                    let ghost before = self.blocks@;
                    let ghost coins_before = self.upgrades.falling_upgrades@;
                    self.hit_block(j, ball.super_ball);
                    proof {
                        lemma_dead_count_update(before, j as int, self.blocks@[j as int]);
                        lemma_dead_upgrade_count_update(before, j as int, self.blocks@[j as int]);
                        assert(self.blocks@ == before.update(j as int, self.blocks@[j as int]));
                        assert(self.upgrades.falling_upgrades@.take(coins0.len() as int) =~= coins0) by {
                            if self.upgrades.falling_upgrades@.len() > coins_before.len() {
                                assert(self.upgrades.falling_upgrades@.drop_last() == coins_before);
                                assert forall|k: int| 0 <= k < coins0.len() implies
                                    self.upgrades.falling_upgrades@[k] == coins0[k] by {
                                    assert(self.upgrades.falling_upgrades@[k]
                                        == self.upgrades.falling_upgrades@.drop_last()[k]);
                                    assert(coins_before[k] == coins_before.take(coins0.len() as int)[k]);
                                }
                            }
                        }
                    }
                }
                j = j + 1;
            }
            self.balls.set(i, ball);
            proof {
                assert(self.balls@ == balls_i.update(i as int, ball));
            }
            i = i + 1;
        }
        sounds
    }

    /// `resolve_collisions_with` on nudges drawn uniformly from
    /// `0 .. PADDLE_JITTER`, one per ball.
    pub fn resolve_collisions(&mut self) -> (sounds: Vec<Sound>)
        requires
            old(self).wf(),
            forall|i: int| 0 <= i < old(self).balls@.len() ==> -UNIT <= (#[trigger] old(self).balls@[i]).vel.x <= UNIT,
        ensures
            exists|js: Seq<i64>|
                {
                    &&& valid_jitters(js, old(self).balls@.len() as int)
                    &&& (final(self).balls@, final(self).blocks@) == #[trigger] collide_all(
                        old(self).balls@,
                        old(self).blocks@,
                        old(self).player.rect,
                        js,
                        old(self).balls@.len() as nat,
                    )
                },
            final(self).score == add_points(old(self).score as int, dead_count(final(self).blocks@) as int),
            final(self).upgrades.falling_upgrades@.len() == old(self).upgrades.falling_upgrades@.len()
                + dead_upgrade_count(final(self).blocks@),
            final(self).upgrades.falling_upgrades@.take(old(self).upgrades.falling_upgrades@.len() as int)
                == old(self).upgrades.falling_upgrades@,
            final(self).upgrades.wf(),
            forall|i: int| 0 <= i < final(self).balls@.len() ==> (#[trigger] final(self).balls@[i]).wf(),
            final(self).balls@.len() == old(self).balls@.len(),
            final(self).blocks@.len() == old(self).blocks@.len(),
            forall|i: int|
                0 <= i < final(self).blocks@.len() ==> {
                    &&& (#[trigger] final(self).blocks@[i]).rect == old(self).blocks@[i].rect
                    &&& final(self).blocks@[i].block_type == old(self).blocks@[i].block_type
                    &&& final(self).blocks@[i].wf()
                },
            final(self).upgrades.active_upgrades == old(self).upgrades.active_upgrades,
            final(self).upgrades.magnet_active == old(self).upgrades.magnet_active,
            final(self).upgrades.space_invader_active == old(self).upgrades.space_invader_active,
            final(self).state == old(self).state,
            final(self).player == old(self).player,
            final(self).lives == old(self).lives,
            final(self).scale == old(self).scale,
    {
        let n = self.balls.len();
        let mut jitters: Vec<i64> = Vec::new();
        let mut i: usize = 0;
        while i < n
            invariant
                0 <= i <= n,
                valid_jitters(jitters@, i as int),
            decreases n - i,
        {
            jitters.push(random_range(0, PADDLE_JITTER) as i64);
            i = i + 1;
        }
        let r = self.resolve_collisions_with(&jitters);
        proof {
            lemma_collide_all_len(old(self).balls@, old(self).blocks@, old(self).player.rect, jitters@, n as nat);
        }
        r
    }

    /// Moves every ball one step.
    pub fn update_balls(&mut self, dt: u32, screen_width: i64)
        requires
            old(self).wf(),
        ensures
            final(self).wf(),
            final(self).balls@.len() == old(self).balls@.len(),
            forall|i: int|
                0 <= i < final(self).balls@.len() ==> (#[trigger] final(self).balls@[i]) == old(
                    self,
                ).balls@[i].spec_update(dt as int, screen_width as int),
            forall|i: int|
                0 <= i < final(self).balls@.len() ==> -UNIT <= (#[trigger] final(self).balls@[i]).vel.x
                    <= UNIT,
            final(self).state == old(self).state,
            final(self).player == old(self).player,
            final(self).blocks == old(self).blocks,
            final(self).score == old(self).score,
            final(self).lives == old(self).lives,
            final(self).scale == old(self).scale,
            final(self).upgrades == old(self).upgrades,
    {
        let n = self.balls.len();
        let mut i: usize = 0;
        while i < n
            invariant
                n == self.balls@.len(),
                0 <= i <= n,
                n <= MAX_BALLS,
                self.state == old(self).state,
                self.player == old(self).player,
                self.blocks == old(self).blocks,
                self.score == old(self).score,
                self.lives == old(self).lives,
                self.scale == old(self).scale,
                self.upgrades == old(self).upgrades,
                forall|k: int| 0 <= k < n ==> (#[trigger] self.balls@[k]).wf(),
                forall|k: int|
                    0 <= k < i ==> (#[trigger] self.balls@[k]) == old(self).balls@[k].spec_update(
                        dt as int,
                        screen_width as int,
                    ) && -UNIT <= self.balls@[k].vel.x <= UNIT,
                forall|k: int| i <= k < n ==> (#[trigger] self.balls@[k]) == old(self).balls@[k],
            decreases n - i,
        {
            let mut b = self.balls[i];
            b.update(dt, screen_width);
            self.balls.set(i, b);
            i = i + 1;
        }
    }

    /// Removes the balls below the screen. When that leaves none, a life is
    /// lost, the power-ups are cleared, and the game waits for a new ball, or
    /// is over when no lives remain. Returns whether a life was lost.
    pub fn remove_lost_balls(&mut self, screen_height: i64) -> (lost: bool)
        requires
            forall|i: int| 0 <= i < old(self).balls@.len() ==> (#[trigger] old(self).balls@[i]).wf(),
        ensures
            forall|i: int| 0 <= i < final(self).balls@.len() ==> (#[trigger] final(self).balls@[i]).wf(),
            final(self).balls@.len() <= old(self).balls@.len(),
            old(self).upgrades.wf() ==> final(self).upgrades.wf(),
            final(self).balls@ == balls_in_play(old(self).balls@, screen_height as int),
            lost == (old(self).balls@.len() > 0 && final(self).balls@.len() == 0),
            lost ==> {
                &&& final(self).lives == one_life_less(old(self).lives as int)
                &&& final(self).state == (if final(self).lives <= 0 {
                    GameState::GameOver
                } else {
                    GameState::LaunchNewBall
                })
                &&& final(self).upgrades.is_empty()
            },
            !lost ==> {
                &&& final(self).lives == old(self).lives
                &&& final(self).state == old(self).state
                &&& final(self).upgrades == old(self).upgrades
            },
            final(self).player == old(self).player,
            final(self).blocks == old(self).blocks,
            final(self).score == old(self).score,
            final(self).scale == old(self).scale,
    {
        let n = self.balls.len();
        let mut kept: Vec<Ball> = Vec::new();
        let mut i: usize = 0;
        while i < n
            invariant
                n == self.balls@.len(),
                0 <= i <= n,
                self.balls == old(self).balls,
                forall|k: int| 0 <= k < n ==> (#[trigger] self.balls@[k]).wf(),
                kept@ == balls_in_play(self.balls@.take(i as int), screen_height as int),
                kept@.len() <= i,
                forall|k: int| 0 <= k < kept@.len() ==> (#[trigger] kept@[k]).wf(),
            decreases n - i,
        {
            let b = self.balls[i];
            proof {
                assert(self.balls@.take(i as int + 1).drop_last() =~= self.balls@.take(i as int));
            }
            if b.rect.y < screen_height {
                kept.push(b);
            }
            i = i + 1;
        }
        proof {
            assert(self.balls@.take(n as int) =~= self.balls@);
        }
        self.balls = kept;
        let lost = n > 0 && self.balls.len() == 0;
        if lost {
            if self.lives > i64::MIN {
                self.lives = self.lives - 1;
            }
            self.state = if self.lives <= 0 {
                GameState::GameOver
            } else {
                GameState::LaunchNewBall
            };
            self.upgrades.reset();
        }
        lost
    }

    /// Removes the blocks without lives; the level is completed when none is
    /// left.
    pub fn remove_dead_blocks(&mut self)
        requires
            forall|i: int| 0 <= i < old(self).blocks@.len() ==> (#[trigger] old(self).blocks@[i]).wf(),
        ensures
            final(self).blocks@ == living_blocks(old(self).blocks@),
            forall|i: int|
                0 <= i < final(self).blocks@.len() ==> (#[trigger] final(self).blocks@[i]).wf()
                    && final(self).blocks@[i].lives > 0,
            final(self).state == (if final(self).blocks@.len() == 0 {
                GameState::LevelCompleted
            } else {
                old(self).state
            }),
            final(self).player == old(self).player,
            final(self).balls == old(self).balls,
            final(self).score == old(self).score,
            final(self).lives == old(self).lives,
            final(self).scale == old(self).scale,
            final(self).upgrades == old(self).upgrades,
    {
        let n = self.blocks.len();
        let mut kept: Vec<Block> = Vec::new();
        let mut i: usize = 0;
        while i < n
            invariant
                n == self.blocks@.len(),
                0 <= i <= n,
                self.blocks == old(self).blocks,
                forall|k: int| 0 <= k < n ==> (#[trigger] self.blocks@[k]).wf(),
                kept@ == living_blocks(self.blocks@.take(i as int)),
                forall|k: int| 0 <= k < kept@.len() ==> (#[trigger] kept@[k]).wf() && kept@[k].lives > 0,
            decreases n - i,
        {
            let b = self.blocks[i];
            proof {
                assert(self.blocks@.take(i as int + 1).drop_last() =~= self.blocks@.take(i as int));
            }
            if b.lives > 0 {
                kept.push(b);
            }
            i = i + 1;
        }
        proof {
            assert(self.blocks@.take(n as int) =~= self.blocks@);
        }
        self.blocks = kept;
        if self.blocks.len() == 0 {
            self.state = GameState::LevelCompleted;
        }
    }

    /// Adds, for every ball, a copy at the same place with the same size,
    /// speed and kind heading in a fresh random direction, while fewer than
    /// `MAX_BALLS` balls are in play.
    pub fn multiply_balls(&mut self)
        requires
            old(self).wf(),
        ensures
            final(self).wf(),
            ({
                let n = old(self).balls@.len() as int;
                &&& final(self).balls@.len() == (if 2 * n < MAX_BALLS { 2 * n } else { MAX_BALLS as int })
                &&& forall|k: int| 0 <= k < n ==> (#[trigger] final(self).balls@[k]) == old(self).balls@[k]
                &&& forall|k: int|
                    n <= k < final(self).balls@.len() ==> {
                        let c = #[trigger] final(self).balls@[k];
                        let src = old(self).balls@[k - n];
                        &&& c.rect == src.rect
                        &&& c.speed == src.speed
                        &&& c.super_ball == src.super_ball
                        &&& exists|d: int| -UNIT <= d < UNIT && c.vel == crate::ball::launch_direction(d)
                    }
            }),
            final(self).state == old(self).state,
            final(self).player == old(self).player,
            final(self).blocks == old(self).blocks,
            final(self).score == old(self).score,
            final(self).lives == old(self).lives,
            final(self).scale == old(self).scale,
            final(self).upgrades == old(self).upgrades,
    {
        let n = self.balls.len();
        let mut i: usize = 0;
        while i < n && self.balls.len() < MAX_BALLS
            invariant
                n == old(self).balls@.len(),
                n <= MAX_BALLS,
                0 <= i <= n,
                self.balls@.len() == n + i,
                self.balls@.len() <= MAX_BALLS,
                forall|k: int| 0 <= k < n ==> (#[trigger] self.balls@[k]) == old(self).balls@[k],
                forall|k: int| 0 <= k < self.balls@.len() ==> (#[trigger] self.balls@[k]).wf(),
                forall|k: int|
                    n <= k < self.balls@.len() ==> {
                        let c = #[trigger] self.balls@[k];
                        let src = old(self).balls@[k - n];
                        &&& c.rect == src.rect
                        &&& c.speed == src.speed
                        &&& c.super_ball == src.super_ball
                        &&& exists|d: int| -UNIT <= d < UNIT && c.vel == crate::ball::launch_direction(d)
                    },
                self.state == old(self).state,
                self.player == old(self).player,
                self.blocks == old(self).blocks,
                self.score == old(self).score,
                self.lives == old(self).lives,
                self.scale == old(self).scale,
                self.upgrades == old(self).upgrades,
            decreases n - i,
        {
            let mut c = self.balls[i];
            c.random_direction();
            self.balls.push(c);
            i = i + 1;
        }
    }

    /// Applies one power-up: an added ball or super ball above the paddle
    /// (while fewer than `MAX_BALLS` balls are in play), a multiplied set of
    /// balls, an extra life, or a lasting magnet or space-invader effect.
    pub fn activate_upgrade(&mut self, kind: UpgradeType)
        requires
            old(self).wf(),
        ensures
            final(self).wf(),
            upgrade_outcome(*old(self), *final(self), kind),
    {
        match kind {
            UpgradeType::AddBall => {
                if self.balls.len() < MAX_BALLS {
                    self.spawn_ball_next_to_player();
                }
            },
            UpgradeType::ExtraLife => {
                if self.lives < i64::MAX {
                    self.lives = self.lives + 1;
                }
            },
            UpgradeType::SuperBall => {
                if self.balls.len() < MAX_BALLS {
                    let b = self.new_super_ball_next_to_player();
                    self.balls.push(b);
                    assert(self.balls@.drop_last() =~= old(self).balls@);
                }
            },
            UpgradeType::BallMultiplier => {
                self.multiply_balls();
            },
            UpgradeType::SpaceInvader => {
                self.upgrades.space_invader_active = true;
            },
            UpgradeType::Magnet => {
                self.upgrades.magnet_active = true;
            },
        }
    }

    /// Applies every collected power-up in order, then clears the list: an
    /// added ball or super ball above the paddle, a multiplied set of balls,
    /// an extra life, or a lasting magnet or space-invader effect.
    pub fn activate_upgrades(&mut self)
        requires
            old(self).wf(),
        ensures
            final(self).wf(),
            ({
                let kinds = old(self).upgrades.active_upgrades@;
                &&& final(self).balls@.len() == ball_count_after(old(self).balls@.len() as int, kinds)
                &&& forall|k: int|
                    0 <= k < old(self).balls@.len() ==> (#[trigger] final(self).balls@[k]) == old(
                        self,
                    ).balls@[k]
                &&& final(self).lives == add_lives(
                    old(self).lives as int,
                    count_of(kinds, UpgradeType::ExtraLife) as int,
                )
                &&& final(self).upgrades.magnet_active == (old(self).upgrades.magnet_active
                    || count_of(kinds, UpgradeType::Magnet) > 0)
                &&& final(self).upgrades.space_invader_active == (
                old(self).upgrades.space_invader_active || count_of(kinds, UpgradeType::SpaceInvader)
                    > 0)
            }),
            final(self).balls@.len() >= old(self).balls@.len(),
            forall|k: int|
                old(self).balls@.len() <= k < final(self).balls@.len() ==> is_added_ball(
                    *old(self),
                    final(self).balls@,
                    k,
                ),
            final(self).upgrades.active_upgrades@.len() == 0,
            final(self).upgrades.falling_upgrades == old(self).upgrades.falling_upgrades,
            final(self).state == old(self).state,
            final(self).player == old(self).player,
            final(self).blocks == old(self).blocks,
            final(self).score == old(self).score,
            final(self).scale == old(self).scale,
    {
        let ghost kinds = old(self).upgrades.active_upgrades@;
        let ghost n0 = old(self).balls@.len() as int;
        let n = self.upgrades.active_upgrades.len();
        let mut i: usize = 0;
        while i < n
            invariant
                n == kinds.len(),
                0 <= i <= n,
                self.wf(),
                self.upgrades.active_upgrades@ == kinds,
                self.upgrades.falling_upgrades == old(self).upgrades.falling_upgrades,
                self.balls@.len() == ball_count_after(n0, kinds.take(i as int)),
                forall|k: int| 0 <= k < n0 ==> (#[trigger] self.balls@[k]) == old(self).balls@[k],
                forall|k: int| n0 <= k < self.balls@.len() ==> is_added_ball(*old(self), self.balls@, k),
                n0 <= self.balls@.len(),
                n0 == old(self).balls@.len(),
                self.lives == add_lives(
                    old(self).lives as int,
                    count_of(kinds.take(i as int), UpgradeType::ExtraLife) as int,
                ),
                self.upgrades.magnet_active == (old(self).upgrades.magnet_active || count_of(
                    kinds.take(i as int),
                    UpgradeType::Magnet,
                ) > 0),
                self.upgrades.space_invader_active == (old(self).upgrades.space_invader_active
                    || count_of(kinds.take(i as int), UpgradeType::SpaceInvader) > 0),
                self.state == old(self).state,
                self.player == old(self).player,
                self.blocks == old(self).blocks,
                self.score == old(self).score,
                self.scale == old(self).scale,
            decreases n - i,
        {
            let kind = self.upgrades.active_upgrades[i];
            let ghost start = self.balls@;
            assert(forall|k: int| 0 <= k < n0 ==> start[k] == old(self).balls@[k]);
            proof {
                assert(kinds.take(i as int + 1).drop_last() =~= kinds.take(i as int));
                assert(kinds.take(i as int + 1).last() == kind);
            }
            self.activate_upgrade(kind);
            proof {
                let cur = self.balls@;
                if cur.len() > start.len() && kind != UpgradeType::BallMultiplier {
                    assert forall|k: int| 0 <= k < n0 implies cur[k] == start[k] by {
                        assert(cur.drop_last()[k] == cur[k]);
                    }
                }
                assert forall|k: int| n0 <= k < cur.len() implies is_added_ball(*old(self), cur, k) by {
                    if k < start.len() {
                        assert(is_added_ball(*old(self), start, k));
                        if kind != UpgradeType::BallMultiplier && cur.len() > start.len() {
                            assert(cur.drop_last() == start);
                            assert(cur[k] == start[k]);
                            assert forall|m: int| 0 <= m < k implies cur[m] == start[m] by {
                                assert(cur.drop_last()[m] == cur[m]);
                            }
                        } else {
                            assert(cur[k] == start[k]);
                            assert forall|m: int| 0 <= m < k implies cur[m] == start[m] by {
                            }
                        }
                        if exists|m: int| 0 <= m < k && is_clone_of(start[k], #[trigger] start[m]) {
                            let m = choose|m: int| 0 <= m < k && is_clone_of(start[k], #[trigger] start[m]);
                            assert(is_clone_of(cur[k], cur[m]));
                        }
                    } else if kind == UpgradeType::BallMultiplier {
                        assert(is_clone_of(cur[k], cur[k - start.len()]));
                    }
                }
            }
            assert(forall|k: int| 0 <= k < n0 ==> (#[trigger] self.balls@[k]) == start[k]);
            i = i + 1;
        }
        proof {
            assert(kinds.take(n as int) =~= kinds);
        }
        self.upgrades.active_upgrades.clear();
    }

    /// The menu: a confirm press starts the game and changes nothing else.
    pub fn state_menu(&mut self, input: &FrameInput)
        ensures
            menu_outcome(*old(self), *final(self), *input),
    {
        if input.confirm {
            self.state = GameState::Game;
        }
    }

    /// One frame of play: move the paddle and the balls, resolve collisions,
    /// remove lost balls and dead blocks, move and collect power-up coins,
    /// and apply what was collected. Returns the sounds to play.
    pub fn state_game(&mut self, input: &FrameInput) -> (sounds: Vec<Sound>)
        requires
            old(self).wf(),
            input.wf(),
        ensures
            final(self).wf(),
            exists|js: Seq<i64>|
                valid_jitters(js, old(self).balls@.len() as int) && #[trigger] play_outcome(
                    *old(self),
                    *final(self),
                    *input,
                    js,
                ),
            final(self).score == add_points(
                old(self).score as int,
                old(self).blocks@.len() - final(self).blocks@.len(),
            ),
            final(self).scale == old(self).scale,
    {
        self.player.update(input.dt, input.left, input.right, input.screen_width);
        self.update_balls(input.dt, input.screen_width);
        proof {
            assert(self.balls@ =~= moved_balls(old(self).balls@, input.dt as int, input.screen_width as int));
        }
        let ghost g1 = *self;
        let mut sounds = self.resolve_collisions();
        let ghost js = choose|js: Seq<i64>|
            {
                &&& valid_jitters(js, g1.balls@.len() as int)
                &&& (self.balls@, self.blocks@) == #[trigger] collide_all(
                    g1.balls@,
                    g1.blocks@,
                    g1.player.rect,
                    js,
                    g1.balls@.len() as nat,
                )
            };
        let ghost mid = self.blocks@;
        let ghost collided = self.balls@;
        let lost = self.remove_lost_balls(input.screen_height);
        if lost {
            sounds.push(Sound::HitFloor);
        }
        self.remove_dead_blocks();
        proof {
            lemma_living_plus_dead(mid);
        }
        let player_rect = self.player.rect;
        self.upgrades.update(player_rect, input.screen_height);
        proof {
            if lost {
                assert(self.upgrades.active_upgrades@ =~= Seq::<UpgradeType>::empty() + Seq::empty());
                assert(self.upgrades.falling_upgrades@ =~= Seq::<crate::upgrades::UpgradeCoin>::empty());
            }
        }
        let ghost kinds = self.upgrades.active_upgrades@;
        let ghost kept = self.balls@;
        self.activate_upgrades();
        proof {
            if lost {
                assert(kinds.len() == 0);
                assert(count_of(kinds, UpgradeType::ExtraLife) == 0);
            }
            assert(self.balls@.take(kept.len() as int) =~= kept);
            assert(play_outcome(*old(self), *self, *input, js));
        }
        sounds
    }

    /// Waiting for a new ball: the paddle moves, and a confirm press adds a
    /// ball above it and resumes play.
    pub fn state_launch_new_ball(&mut self, input: &FrameInput)
        requires
            old(self).wf(),
            input.wf(),
        ensures
            final(self).wf(),
            launch_outcome(*old(self), *final(self), *input),
    {
        self.player.update(input.dt, input.left, input.right, input.screen_width);
        if input.confirm && self.balls.len() < MAX_BALLS {
            self.state = GameState::Game;
            self.spawn_ball_next_to_player();
        }
    }

    /// The win screen: a confirm press goes back to the menu with a fresh
    /// session.
    pub fn state_level_completed(&mut self, input: &FrameInput)
        requires
            old(self).wf(),
            input.wf(),
        ensures
            final(self).wf(),
            end_screen_outcome(*old(self), *final(self), *input),
    {
        if input.confirm {
            self.state = GameState::Menu;
            self.reset(input.screen_width);
        }
    }

    /// The game-over screen behaves as the win screen.
    pub fn state_game_over(&mut self, input: &FrameInput)
        requires
            old(self).wf(),
            input.wf(),
        ensures
            final(self).wf(),
            end_screen_outcome(*old(self), *final(self), *input),
    {
        self.state_level_completed(input);
    }

    /// Runs the handler of the current state for one frame and returns the
    /// sounds to play.
    pub fn frame(&mut self, input: &FrameInput) -> (sounds: Vec<Sound>)
        requires
            old(self).wf(),
            input.wf(),
        ensures
            final(self).wf(),
            old(self).state == GameState::Menu ==> menu_outcome(*old(self), *final(self), *input)
                && sounds@.len() == 0,
            old(self).state == GameState::Game ==> exists|js: Seq<i64>|
                valid_jitters(js, old(self).balls@.len() as int) && #[trigger] play_outcome(
                    *old(self),
                    *final(self),
                    *input,
                    js,
                ),
            old(self).state == GameState::LaunchNewBall ==> launch_outcome(*old(self), *final(self), *input),
            old(self).state == GameState::LevelCompleted || old(self).state == GameState::GameOver
                ==> end_screen_outcome(*old(self), *final(self), *input),
    {
        match self.state {
            GameState::Menu => {
                self.state_menu(input);
                Vec::new()
            },
            GameState::Game => self.state_game(input),
            GameState::LevelCompleted => {
                self.state_level_completed(input);
                Vec::new()
            },
            GameState::GameOver => {
                self.state_game_over(input);
                Vec::new()
            },
            GameState::LaunchNewBall => {
                self.state_launch_new_ball(input);
                Vec::new()
            },
        }
    }

    /// Starts the session over: score and lives, scale, paddle position, one
    /// ball above the paddle, a new grid of blocks and no power-ups.
    pub fn reset(&mut self, screen_width: i64)
        requires
            old(self).wf(),
            0 <= screen_width <= COORD_LIMIT,
        ensures
            final(self).wf(),
            final(self).state == old(self).state,
            final(self).score == 0,
            final(self).lives == START_LIVES,
            final(self).scale.scale == old(self).scale.scale,
            final(self).scale.screen_scale_factor == old(self).scale.screen_scale_factor,
            final(self).scale.screen_scale == crate::scale::screen_scale_of(
                screen_width as int,
                old(self).scale.screen_scale_factor as int,
            ),
            final(self).scale.total_scale == crate::scale::total_scale_of(
                old(self).scale.scale as int,
                final(self).scale.screen_scale as int,
            ),
            final(self).player.rect == (Rect {
                x: (screen_width / 2 - PLAYER_WIDTH / 2) as i64,
                ..old(self).player.rect
            }),
            final(self).balls@.len() == 1,
            final(self).balls@[0].spawned(
                spawn_point(final(self).player.rect),
                final(self).ball_size() as i64,
                final(self).ball_speed() as i64,
                false,
            ),
            is_block_grid(final(self).blocks@, screen_width as int, final(self).scale.total_scale as int),
            final(self).upgrades.is_empty(),
    {
        self.score = 0;
        self.lives = START_LIVES;
        self.scale.update(screen_width);
        self.player.rect.x = screen_width / 2 - PLAYER_WIDTH / 2;
        let b = self.new_ball_next_to_player();
        let mut balls: Vec<Ball> = Vec::new();
        balls.push(b);
        self.balls = balls;
        self.blocks = generate_blocks(screen_width, &self.scale);
        self.upgrades = Upgrades::new();
    }
}

} // verus!
