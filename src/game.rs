use vstd::prelude::*;
use crate::ball::{ball_step, Ball, BALL_SIZE};
use crate::block::{Block, BlockType, BLOCK_H, BLOCK_LIVES, BLOCK_W};
use crate::geometry::{clamp, guarded_outcome, min, resolve_if_fits, Rect, Vec2};
use crate::player::{player_start, player_step, Player};

verus! {

pub const GRID_COLS: i32 = 6;

pub const GRID_ROWS: i32 = 6;

/// Gap between neighbouring blocks of the grid.
pub const BLOCK_PADDING: i32 = 5;

/// Height of the grid's top row.
pub const GRID_TOP: i32 = 50;

pub const START_LIVES: i32 = 3;

/// Points awarded for each destroyed block.
pub const BLOCK_BONUS: u32 = 10;

/// Height above the paddle at which a replacement ball appears.
pub const SPAWN_LIFT: i32 = 50;

/// The coarse phase of a session.
#[derive(Clone, Copy, Debug, PartialEq, Eq, Structural)]
pub enum GameState {
    Menu,
    Game,
    LevelCompleted,
    Dead,
}

/// A whole session: phase, counters, paddle, blocks and balls, and the screen size.
pub struct Game {
    pub state: GameState,
    pub score: u32,
    pub lives: i32,
    pub player: Player,
    pub blocks: Vec<Block>,
    pub balls: Vec<Ball>,
    pub screen_w: i32,
    pub screen_h: i32,
}

/// Block `i` of the level grid: six per row, left to right then top to bottom, the
/// grid centered horizontally on a screen `screen_w` wide.
pub open spec fn grid_block(screen_w: int, i: int) -> Block {
    let step_x = BLOCK_W + BLOCK_PADDING;
    let step_y = BLOCK_H + BLOCK_PADDING;
    Block {
        rect: Rect {
            x: (screen_w / 2 - GRID_COLS * step_x / 2 + (i % GRID_COLS as int) * step_x) as i32,
            y: (GRID_TOP + (i / GRID_COLS as int) * step_y) as i32,
            w: BLOCK_W,
            h: BLOCK_H,
        },
        lives: BLOCK_LIVES,
        block_type: BlockType::Regular,
    }
}

pub open spec fn grid(screen_w: int) -> Seq<Block> {
    Seq::new((GRID_COLS * GRID_ROWS) as nat, |i: int| grid_block(screen_w, i))
}

/// The ball a session starts with: centered horizontally, halfway down the screen.
pub open spec fn start_ball(screen_w: int, screen_h: int, vel: Vec2) -> Ball {
    Ball {
        rect: Rect {
            x: (screen_w / 2 - BALL_SIZE / 2) as i32,
            y: (screen_h / 2) as i32,
            w: BALL_SIZE,
            h: BALL_SIZE,
        },
        vel,
    }
}

/// The ball that replaces a lost last ball: centered above the paddle.
pub open spec fn respawn_ball(paddle: Rect, vel: Vec2) -> Ball {
    Ball {
        rect: Rect {
            x: clamp(
                paddle.x + paddle.w / 2 - BALL_SIZE / 2,
                i32::MIN as int,
                i32::MAX - BALL_SIZE,
            ) as i32,
            y: clamp(paddle.y - SPAWN_LIFT, i32::MIN as int, i32::MAX - BALL_SIZE) as i32,
            w: BALL_SIZE,
            h: BALL_SIZE,
        },
        vel,
    }
}

/// `score` after `k` more destroyed blocks, saturating at the largest `u32`.
pub open spec fn add_bonus(score: int, k: int) -> int {
    min(score + BLOCK_BONUS * k, u32::MAX as int)
}

/// One ball meeting one block: a hit takes a hit-point from a block that still has
/// one; the flag tells whether that hit took its last.
pub open spec fn hit_block(ball: Ball, block: Block) -> (Ball, Block, bool) {
    let (r, v, hit) = guarded_outcome(ball.rect, ball.vel, block.rect);
    let lives = if hit && block.lives > 0 {
        (block.lives - 1) as i32
    } else {
        block.lives
    };
    (Ball { rect: r, vel: v }, Block { lives, ..block }, hit && block.lives == 1)
}

/// One ball meeting the first `n` blocks in order; also counts the blocks destroyed.
pub open spec fn sweep_blocks(ball: Ball, blocks: Seq<Block>, n: nat) -> (Ball, Seq<Block>, nat)
    decreases n,
{
    if n == 0 {
        (ball, blocks, 0)
    } else {
        let (b1, bs1, k1) = sweep_blocks(ball, blocks, (n - 1) as nat);
        let (b2, blk, crossed) = hit_block(b1, bs1[n - 1]);
        (b2, bs1.update(n - 1, blk), if crossed {
            k1 + 1
        } else {
            k1
        })
    }
}

/// One ball meeting the paddle and then every block.
pub open spec fn ball_round(ball: Ball, paddle: Rect, blocks: Seq<Block>) -> (Ball, Seq<Block>, nat) {
    let (r, v, _) = guarded_outcome(ball.rect, ball.vel, paddle);
    sweep_blocks(Ball { rect: r, vel: v }, blocks, blocks.len())
}

/// The first `n` balls, in order, each meeting the paddle and every block.
pub open spec fn sweep_balls(balls: Seq<Ball>, paddle: Rect, blocks: Seq<Block>, n: nat) -> (
    Seq<Ball>,
    Seq<Block>,
    nat,
)
    decreases n,
{
    if n == 0 {
        (balls, blocks, 0)
    } else {
        let (bs1, blks1, k1) = sweep_balls(balls, paddle, blocks, (n - 1) as nat);
        let (b, blks2, k2) = ball_round(bs1[n - 1], paddle, blks1);
        (bs1.update(n - 1, b), blks2, k1 + k2)
    }
}

pub open spec fn stepped_balls(balls: Seq<Ball>, dt_ms: int, screen_w: int) -> Seq<Ball> {
    Seq::new(balls.len(), |i: int| ball_step(balls[i], dt_ms, screen_w))
}

/// A ball that has not yet passed the bottom of a screen `screen_h` high.
pub open spec fn on_screen(screen_h: int) -> spec_fn(Ball) -> bool {
    |b: Ball| b.rect.y < screen_h
}

/// A block with hit-points left.
pub open spec fn standing() -> spec_fn(Block) -> bool {
    |b: Block| b.lives > 0
}

/// `n` is `g` after one frame of play: the paddle and the balls move, every ball meets
/// the paddle and then every block, balls below the screen leave (a lost last ball
/// costs a life and is replaced above the paddle, and the last life lost ends the
/// game), destroyed blocks leave, and an empty grid completes the level.
pub open spec fn frame_post(
    g: Game,
    n: Game,
    dt_ms: int,
    left: bool,
    right: bool,
    spawn_vel: Vec2,
) -> bool {
    let sw = g.screen_w as int;
    let sh = g.screen_h as int;
    let balls1 = stepped_balls(g.balls@, dt_ms, sw);
    let swept = sweep_balls(balls1, n.player.rect, g.blocks@, balls1.len());
    let kept = swept.0.filter(on_screen(sh));
    let lost_last = swept.0.len() == 1 && kept.len() == 0;
    let lives = if lost_last {
        g.lives - 1
    } else {
        g.lives as int
    };
    let blocks = swept.1.filter(standing());
    &&& n.screen_w == g.screen_w
    &&& n.screen_h == g.screen_h
    &&& n.player == player_step(g.player, dt_ms, left, right, sw)
    &&& n.score == add_bonus(g.score as int, swept.2 as int)
    &&& n.lives == lives
    &&& n.balls@ == if lost_last {
        kept.push(respawn_ball(n.player.rect, spawn_vel))
    } else {
        kept
    }
    &&& n.blocks@ == blocks
    &&& n.state == if blocks.len() == 0 {
        GameState::LevelCompleted
    } else if lost_last && lives <= 0 {
        GameState::Dead
    } else {
        GameState::Game
    }
}

proof fn lemma_add_bonus_steps(score: int, k1: int, k2: int)
    requires
        0 <= score <= u32::MAX,
        0 <= k1,
        0 <= k2,
    ensures
        add_bonus(add_bonus(score, k1), k2) == add_bonus(score, k1 + k2),
{
    assert(BLOCK_BONUS * k1 + BLOCK_BONUS * k2 == BLOCK_BONUS * (k1 + k2)) by (nonlinear_arith);
    assert(0 <= BLOCK_BONUS * k2) by (nonlinear_arith)
        requires
            0 <= k2,
    ;
}

fn bonus_once(score: u32) -> (r: u32)
    ensures
        r == add_bonus(score as int, 1),
{
    if score > u32::MAX - BLOCK_BONUS {
        u32::MAX
    } else {
        score + BLOCK_BONUS
    }
}

fn clamp_coord(v: i64, hi: i32) -> (r: i32)
    ensures
        r == clamp(v as int, i32::MIN as int, hi as int),
{
    if v < i32::MIN as i64 {
        i32::MIN
    } else if v > hi as i64 {
        hi
    } else {
        v as i32
    }
}

/// Appends the level grid for a screen `screen_w` wide to `blocks`.
pub fn init_blocks(blocks: &mut Vec<Block>, screen_w: i32)
    requires
        0 <= screen_w,
    ensures
        final(blocks)@ == old(blocks)@ + grid(screen_w as int),
{
    let ghost start = blocks@;
    let count: i32 = GRID_COLS * GRID_ROWS;
    let mut i: i32 = 0;
    while i < count
        invariant
            0 <= i <= count,
            count == GRID_COLS * GRID_ROWS,
            0 <= screen_w,
            blocks@ == start + grid(screen_w as int).take(i as int),
        decreases count - i,
    {
        let step_x: i32 = BLOCK_W + BLOCK_PADDING;
        let step_y: i32 = BLOCK_H + BLOCK_PADDING;
        let x: i32 = screen_w / 2 - GRID_COLS * step_x / 2 + (i % GRID_COLS) * step_x;
        let y: i32 = GRID_TOP + (i / GRID_COLS) * step_y;
        blocks.push(Block::new(Vec2 { x, y }, BlockType::Regular));
        proof {
            assert(grid(screen_w as int).take(i + 1) =~= grid(screen_w as int).take(i as int).push(
                grid_block(screen_w as int, i as int),
            ));
        }
        i = i + 1;
    }
    assert(grid(screen_w as int).take(count as int) =~= grid(screen_w as int));
}

/// Runs one ball against the paddle and then every block in order, taking a
/// hit-point from each block it hits and adding the bonus to `score` for each block
/// whose last hit-point it takes.
pub fn collide_ball(ball: &mut Ball, paddle: &Rect, blocks: &mut Vec<Block>, score: &mut u32)
    requires
        old(ball).wf(),
        paddle.wf(),
        forall|j: int| 0 <= j < old(blocks)@.len() ==> (#[trigger] old(blocks)@[j]).wf(),
    ensures
        ({
            let (b, bs, k) = ball_round(*old(ball), *paddle, old(blocks)@);
            &&& *final(ball) == b
            &&& final(blocks)@ == bs
            &&& *final(score) == add_bonus(*old(score) as int, k as int)
        }),
        final(ball).wf(),
        final(blocks)@.len() == old(blocks)@.len(),
        forall|j: int| 0 <= j < final(blocks)@.len() ==> (#[trigger] final(blocks)@[j]).wf(),
{
    let mut rect = ball.rect;
    let mut vel = ball.vel;
    resolve_if_fits(&mut rect, &mut vel, paddle);
    ball.rect = rect;
    ball.vel = vel;
    let ghost b0 = *ball;
    let ghost blocks0 = blocks@;
    let ghost score0 = *score as int;
    let ghost mut k: nat = 0;
    let mut i: usize = 0;
    while i < blocks.len()
        invariant
            0 <= i <= blocks@.len(),
            blocks@.len() == blocks0.len(),
            blocks0 == old(blocks)@,
            (*ball, blocks@, k) == sweep_blocks(b0, blocks0, i as nat),
            *score == add_bonus(score0, k as int),
            0 <= score0 <= u32::MAX,
            ball.wf(),
            paddle.wf(),
            forall|j: int| 0 <= j < blocks@.len() ==> (#[trigger] blocks@[j]).wf(),
        decreases blocks@.len() - i,
    {
        let mut blk = blocks[i];
        let mut rect = ball.rect;
        let mut vel = ball.vel;
        let hit = resolve_if_fits(&mut rect, &mut vel, &blk.rect);
        ball.rect = rect;
        ball.vel = vel;
        let last = hit && blk.lives == 1;
        if hit && blk.lives > 0 {
            blk.lives = blk.lives - 1;
        }
        blocks.set(i, blk);
        if last {
            proof {
                lemma_add_bonus_steps(score0, k as int, 1);
                k = k + 1;
            }
            *score = bonus_once(*score);
        }
        i = i + 1;
    }
}

impl Game {
    pub open spec fn wf(self) -> bool {
        &&& 0 <= self.screen_w
        &&& 0 <= self.screen_h
        &&& self.player.wf()
        &&& forall|i: int| 0 <= i < self.balls@.len() ==> (#[trigger] self.balls@[i]).wf()
        &&& forall|i: int| 0 <= i < self.blocks@.len() ==> (#[trigger] self.blocks@[i]).wf()
        &&& 0 <= self.lives
        &&& (self.state == GameState::Menu || self.state == GameState::Game) ==> 1 <= self.lives
    }

    /// Score, lives, paddle, grid and the single starting ball as at the start of a
    /// session (the phase aside).
    pub open spec fn is_reset(self, vel: Vec2) -> bool {
        &&& self.score == 0
        &&& self.lives == START_LIVES
        &&& self.player == player_start(self.screen_w as int, self.screen_h as int)
        &&& self.blocks@ == grid(self.screen_w as int)
        &&& self.balls@ == seq![start_ball(self.screen_w as int, self.screen_h as int, vel)]
    }

    /// `n` holds the same session as `self`, whatever the phase.
    pub open spec fn same_session(self, n: Game) -> bool {
        &&& n.score == self.score
        &&& n.lives == self.lives
        &&& n.player == self.player
        &&& n.blocks@ == self.blocks@
        &&& n.balls@ == self.balls@
        &&& n.screen_w == self.screen_w
        &&& n.screen_h == self.screen_h
    }
    /// A new session on a screen of the given size, in the menu, with its first ball
    /// moving at `ball_vel`.
    pub fn new(screen_w: i32, screen_h: i32, ball_vel: Vec2) -> (r: Game)
        requires
            0 <= screen_w,
            0 <= screen_h,
            ball_vel.x > i32::MIN,
            ball_vel.y > i32::MIN,
        ensures
            r.state == GameState::Menu,
            r.screen_w == screen_w,
            r.screen_h == screen_h,
            r.is_reset(ball_vel),
            r.wf(),
    {
        let mut blocks: Vec<Block> = Vec::new();
        init_blocks(&mut blocks, screen_w);
        let mut balls: Vec<Ball> = Vec::new();
        balls.push(Ball::new(Vec2 { x: screen_w / 2 - BALL_SIZE / 2, y: screen_h / 2 }, ball_vel));
        assert(blocks@ =~= grid(screen_w as int));
        Game {
            state: GameState::Menu,
            score: 0,
            lives: START_LIVES,
            player: Player::new(screen_w, screen_h),
            blocks,
            balls,
            screen_w,
            screen_h,
        }
    }

    /// Restores score, lives, paddle, grid and a single fresh ball; the phase is left
    /// to the caller.
    pub fn reset_game(&mut self, ball_vel: Vec2)
        requires
            old(self).wf(),
            ball_vel.x > i32::MIN,
            ball_vel.y > i32::MIN,
        ensures
            final(self).state == old(self).state,
            final(self).screen_w == old(self).screen_w,
            final(self).screen_h == old(self).screen_h,
            final(self).is_reset(ball_vel),
            final(self).wf(),
    {
        self.player = Player::new(self.screen_w, self.screen_h);
        self.score = 0;
        self.lives = START_LIVES;
        self.balls.clear();
        self.balls.push(
            Ball::new(Vec2 { x: self.screen_w / 2 - BALL_SIZE / 2, y: self.screen_h / 2 }, ball_vel),
        );
        self.blocks.clear();
        init_blocks(&mut self.blocks, self.screen_w);
        assert(self.blocks@ =~= grid(self.screen_w as int));
        assert(self.balls@ =~= seq![start_ball(self.screen_w as int, self.screen_h as int, ball_vel)]);
    }
    /// One frame of play; see `frame_post`.
    pub fn play_frame(&mut self, dt_ms: u32, left: bool, right: bool, spawn_vel: Vec2)
        requires
            old(self).wf(),
            old(self).state == GameState::Game,
            spawn_vel.x > i32::MIN,
            spawn_vel.y > i32::MIN,
        ensures
            frame_post(*old(self), *final(self), dt_ms as int, left, right, spawn_vel),
            final(self).wf(),
    {
        let sw = self.screen_w;
        let sh = self.screen_h;
        self.player.update(dt_ms, left, right, sw);

        let ghost balls0 = self.balls@;
        let mut i: usize = 0;
        while i < self.balls.len()
            invariant
                0 <= i <= self.balls@.len(),
                self.balls@.len() == balls0.len(),
                sw == self.screen_w,
                sh == self.screen_h,
                self.player == player_step(old(self).player, dt_ms as int, left, right, sw as int),
                self.player.wf(),
                self.blocks@ == old(self).blocks@,
                self.score == old(self).score,
                self.lives == old(self).lives,
                self.state == old(self).state,
                old(self).wf(),
                forall|j: int| 0 <= j < i ==> self.balls@[j] == ball_step(balls0[j], dt_ms as int, sw as int),
                forall|j: int| i <= j < self.balls@.len() ==> self.balls@[j] == balls0[j],
                forall|j: int| 0 <= j < self.balls@.len() ==> (#[trigger] self.balls@[j]).wf(),
            decreases self.balls@.len() - i,
        {
            let mut b = self.balls[i];
            b.update(dt_ms, sw);
            self.balls.set(i, b);
            i = i + 1;
        }
        let ghost balls1 = self.balls@;
        assert(balls1 =~= stepped_balls(balls0, dt_ms as int, sw as int));

        let paddle = self.player.rect;
        let ghost blocks0 = self.blocks@;
        let ghost score0 = self.score as int;
        let ghost mut k: nat = 0;
        let mut i: usize = 0;
        while i < self.balls.len()
            invariant
                0 <= i <= self.balls@.len(),
                self.balls@.len() == balls1.len(),
                paddle == self.player.rect,
                paddle.wf(),
                sw == self.screen_w,
                sh == self.screen_h,
                self.player == player_step(old(self).player, dt_ms as int, left, right, sw as int),
                self.player.wf(),
                self.lives == old(self).lives,
                self.state == old(self).state,
                old(self).wf(),
                blocks0 == old(self).blocks@,
                balls1 == stepped_balls(old(self).balls@, dt_ms as int, sw as int),
                (self.balls@, self.blocks@, k) == sweep_balls(balls1, paddle, blocks0, i as nat),
                self.score == add_bonus(score0, k as int),
                0 <= score0 <= u32::MAX,
                forall|j: int| 0 <= j < self.balls@.len() ==> (#[trigger] self.balls@[j]).wf(),
                forall|j: int| 0 <= j < self.blocks@.len() ==> (#[trigger] self.blocks@[j]).wf(),
            decreases self.balls@.len() - i,
        {
            let mut b = self.balls[i];
            let ghost destroyed = ball_round(b, paddle, self.blocks@).2;
            collide_ball(&mut b, &paddle, &mut self.blocks, &mut self.score);
            self.balls.set(i, b);
            proof {
                lemma_add_bonus_steps(score0, k as int, destroyed as int);
                k = k + destroyed;
            }
            i = i + 1;
        }
        let ghost balls2 = self.balls@;
        let ghost blocks2 = self.blocks@;

        let count = self.balls.len();
        let mut kept: Vec<Ball> = Vec::new();
        let mut i: usize = 0;
        while i < count
            invariant
                0 <= i <= count,
                count == self.balls@.len(),
                self.balls@ == balls2,
                sh == self.screen_h,
                self.lives == old(self).lives,
                self.state == old(self).state,
                self.blocks@ == blocks2,
                sw == self.screen_w,
                self.player == player_step(old(self).player, dt_ms as int, left, right, sw as int),
                self.player.wf(),
                old(self).wf(),
                self.score == add_bonus(score0, k as int),
                (balls2, blocks2, k) == sweep_balls(balls1, paddle, blocks0, balls1.len()),
                balls1 == stepped_balls(old(self).balls@, dt_ms as int, sw as int),
                blocks0 == old(self).blocks@,
                paddle == self.player.rect,
                kept@ == balls2.take(i as int).filter(on_screen(sh as int)),
                forall|j: int| 0 <= j < self.balls@.len() ==> (#[trigger] self.balls@[j]).wf(),
                forall|j: int| 0 <= j < kept@.len() ==> (#[trigger] kept@[j]).wf(),
            decreases count - i,
        {
            let b = self.balls[i];
            proof {
                reveal(Seq::filter);
                assert(balls2.take(i + 1).drop_last() =~= balls2.take(i as int));
            }
            if b.rect.y < sh {
                kept.push(b);
            }
            i = i + 1;
        }
        assert(balls2.take(count as int) =~= balls2);
        let lost_last = count == 1 && kept.len() == 0;
        self.balls = kept;
        if lost_last {
            self.lives = self.lives - 1;
            let p = self.player.rect;
            let x = clamp_coord(p.x as i64 + (p.w / 2) as i64 - (BALL_SIZE / 2) as i64, i32::MAX - BALL_SIZE);
            let y = clamp_coord(p.y as i64 - SPAWN_LIFT as i64, i32::MAX - BALL_SIZE);
            self.balls.push(Ball::new(Vec2 { x, y }, spawn_vel));
            if self.lives <= 0 {
                self.state = GameState::Dead;
            }
        }

        let count = self.blocks.len();
        let mut standing_blocks: Vec<Block> = Vec::new();
        let mut i: usize = 0;
        while i < count
            invariant
                0 <= i <= count,
                count == self.blocks@.len(),
                self.blocks@ == blocks2,
                sh == self.screen_h,
                sw == self.screen_w,
                self.player == player_step(old(self).player, dt_ms as int, left, right, sw as int),
                self.player.wf(),
                old(self).wf(),
                self.score == add_bonus(score0, k as int),
                (balls2, blocks2, k) == sweep_balls(balls1, paddle, blocks0, balls1.len()),
                balls1 == stepped_balls(old(self).balls@, dt_ms as int, sw as int),
                blocks0 == old(self).blocks@,
                paddle == self.player.rect,
                standing_blocks@ == blocks2.take(i as int).filter(standing()),
                forall|j: int| 0 <= j < self.blocks@.len() ==> (#[trigger] self.blocks@[j]).wf(),
                forall|j: int| 0 <= j < standing_blocks@.len() ==> (#[trigger] standing_blocks@[j]).wf(),
            decreases count - i,
        {
            let b = self.blocks[i];
            proof {
                reveal(Seq::filter);
                assert(blocks2.take(i + 1).drop_last() =~= blocks2.take(i as int));
            }
            if b.lives > 0 {
                standing_blocks.push(b);
            }
            i = i + 1;
        }
        assert(blocks2.take(count as int) =~= blocks2);
        self.blocks = standing_blocks;
        if self.blocks.len() == 0 {
            self.state = GameState::LevelCompleted;
        }
    }
    /// One frame of the session. In the menu, `advance` starts play; while playing, a
    /// frame of play runs; once the game is won or lost, `advance` returns to the menu
    /// with a fresh session whose ball moves at `spawn_vel`. Other input is ignored.
    pub fn update(
        &mut self,
        dt_ms: u32,
        left: bool,
        right: bool,
        advance: bool,
        spawn_vel: Vec2,
    )
        requires
            old(self).wf(),
            spawn_vel.x > i32::MIN,
            spawn_vel.y > i32::MIN,
        ensures
            final(self).wf(),
            old(self).state == GameState::Game ==> frame_post(
                *old(self),
                *final(self),
                dt_ms as int,
                left,
                right,
                spawn_vel,
            ),
            old(self).state != GameState::Game && !advance ==> old(self).same_session(
                *final(self),
            ) && final(self).state == old(self).state,
            old(self).state == GameState::Menu && advance ==> old(self).same_session(
                *final(self),
            ) && final(self).state == GameState::Game,
            (old(self).state == GameState::Dead || old(self).state == GameState::LevelCompleted)
                && advance ==> {
                &&& final(self).state == GameState::Menu
                &&& final(self).screen_w == old(self).screen_w
                &&& final(self).screen_h == old(self).screen_h
                &&& final(self).is_reset(spawn_vel)
            },
    {
        match self.state {
            GameState::Menu => {
                if advance {
                    self.state = GameState::Game;
                }
            },
            GameState::Game => {
                self.play_frame(dt_ms, left, right, spawn_vel);
            },
            GameState::Dead | GameState::LevelCompleted => {
                if advance {
                    self.reset_game(spawn_vel);
                    self.state = GameState::Menu;
                }
            },
        }
    }
}

/// While one ball is in play, a frame of play ends with exactly one ball: a lost ball
/// is replaced in the same frame, so play never goes on without a ball.
pub proof fn lemma_single_ball_stays(
    g: Game,
    n: Game,
    dt_ms: int,
    left: bool,
    right: bool,
    spawn_vel: Vec2,
)
    requires
        g.balls@.len() == 1,
        frame_post(g, n, dt_ms, left, right, spawn_vel),
    ensures
        n.balls@.len() == 1,
{
    let sw = g.screen_w as int;
    let sh = g.screen_h as int;
    let balls1 = stepped_balls(g.balls@, dt_ms, sw);
    let swept = sweep_balls(balls1, n.player.rect, g.blocks@, balls1.len());
    lemma_sweep_balls_len(balls1, n.player.rect, g.blocks@, balls1.len());
    swept.0.lemma_filter_len(on_screen(sh));
}

proof fn lemma_sweep_balls_len(balls: Seq<Ball>, paddle: Rect, blocks: Seq<Block>, n: nat)
    requires
        n <= balls.len(),
    ensures
        sweep_balls(balls, paddle, blocks, n).0.len() == balls.len(),
    decreases n,
{
    if n > 0 {
        lemma_sweep_balls_len(balls, paddle, blocks, (n - 1) as nat);
    }
}

} // verus!
