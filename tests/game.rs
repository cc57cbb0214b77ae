use breakout::ball::{Ball, BALL_SIZE};
use breakout::block::{Block, BlockColor, BlockType};
use breakout::game::{init_blocks, Game, GameState};
use breakout::geometry::{Rect, Vec2};
use breakout::player::Player;

const SW: i32 = 800;
const SH: i32 = 600;

fn vel() -> Vec2 {
    Vec2 { x: 0, y: 400 }
}

fn playing() -> Game {
    let mut g = Game::new(SW, SH, vel());
    g.update(16, false, false, true, vel());
    assert_eq!(g.state, GameState::Game);
    g
}

#[test]
fn block_colors_follow_variant_and_lives() {
    let mut b = Block::new(Vec2 { x: 0, y: 0 }, BlockType::Regular);
    assert_eq!(b.lives, 2);
    assert_eq!(b.color(), BlockColor::Red);
    b.lives = 1;
    assert_eq!(b.color(), BlockColor::Orange);
    let mut s = Block::new(Vec2 { x: 0, y: 0 }, BlockType::SpawnBallOnDeath);
    assert_eq!(s.color(), BlockColor::Green);
    s.lives = 1;
    assert_eq!(s.color(), BlockColor::Green);
    s.lives = 7;
    assert_eq!(s.color(), BlockColor::Green);
}

#[test]
fn grid_is_six_by_six_and_centered() {
    let mut blocks = Vec::new();
    init_blocks(&mut blocks, SW);
    assert_eq!(blocks.len(), 36);
    assert_eq!(blocks[0].rect, Rect::new(85, 50, 100, 40));
    assert_eq!(blocks[5].rect, Rect::new(85 + 5 * 105, 50, 100, 40));
    assert_eq!(blocks[6].rect, Rect::new(85, 95, 100, 40));
    assert_eq!(blocks[35].rect, Rect::new(610, 50 + 5 * 45, 100, 40));
    assert!(blocks.iter().all(|b| b.lives == 2 && b.block_type == BlockType::Regular));
}

#[test]
fn new_game_starts_in_menu() {
    let g = Game::new(SW, SH, vel());
    assert_eq!(g.state, GameState::Menu);
    assert_eq!(g.score, 0);
    assert_eq!(g.lives, 3);
    assert_eq!(g.blocks.len(), 36);
    assert_eq!(g.balls.len(), 1);
    assert_eq!(g.balls[0].rect, Rect::new(375, 300, BALL_SIZE, BALL_SIZE));
    assert_eq!(g.player.rect, Rect::new(325, 500, 150, 40));
}

#[test]
fn menu_ignores_other_input() {
    let mut g = Game::new(SW, SH, vel());
    g.update(16, true, false, false, vel());
    assert_eq!(g.state, GameState::Menu);
    assert_eq!(g.player.rect.x, 325);
}

#[test]
fn paddle_moves_and_stays_on_screen() {
    let mut p = Player::new(SW, SH);
    p.update(100, true, false, SW);
    assert_eq!(p.rect.x, 325 - 70);
    p.update(1000, true, false, SW);
    assert_eq!(p.rect.x, 0);
    p.update(100, true, true, SW);
    assert_eq!(p.rect.x, 0);
    p.update(2000, false, true, SW);
    assert_eq!(p.rect.x, SW - 150);
}

#[test]
fn ball_bounces_off_side_and_top_edges() {
    let mut b = Ball::new(Vec2 { x: 5, y: 5 }, Vec2 { x: -100, y: -100 });
    b.update(100, SW);
    assert_eq!((b.rect.x, b.rect.y), (-5, -5));
    assert_eq!(b.vel, Vec2 { x: 100, y: 100 });
    let mut r = Ball::new(Vec2 { x: SW - 55, y: 300 }, Vec2 { x: 100, y: 0 });
    r.update(100, SW);
    assert_eq!(r.rect.x, SW - 45);
    assert_eq!(r.vel, Vec2 { x: -100, y: 0 });
}

#[test]
fn falling_last_ball_costs_a_life_and_respawns() {
    let mut g = playing();
    g.balls = vec![Ball::new(Vec2 { x: 0, y: SH - 10 }, Vec2 { x: 0, y: 600 })];
    g.update(100, false, false, false, vel());
    assert_eq!(g.lives, 2);
    assert_eq!(g.balls.len(), 1);
    assert_eq!(g.balls[0].rect, Rect::new(325 + 75 - 25, 500 - 50, BALL_SIZE, BALL_SIZE));
    assert_eq!(g.state, GameState::Game);
    assert_eq!(g.blocks.len(), 36);
}

#[test]
fn losing_the_last_life_ends_the_game() {
    let mut g = playing();
    g.lives = 1;
    g.balls = vec![Ball::new(Vec2 { x: 0, y: SH - 10 }, Vec2 { x: 0, y: 600 })];
    g.update(100, false, false, false, vel());
    assert_eq!(g.lives, 0);
    assert_eq!(g.balls.len(), 1);
    assert_eq!(g.state, GameState::Dead);
}

#[test]
fn one_of_two_balls_falling_costs_nothing() {
    let mut g = playing();
    g.balls = vec![
        Ball::new(Vec2 { x: 0, y: SH - 10 }, Vec2 { x: 0, y: 600 }),
        Ball::new(Vec2 { x: 700, y: 400 }, Vec2 { x: 0, y: 0 }),
    ];
    g.update(100, false, false, false, vel());
    assert_eq!(g.lives, 3);
    assert_eq!(g.balls.len(), 1);
    assert_eq!(g.balls[0].rect.x, 700);
}

#[test]
fn clearing_the_grid_completes_the_level() {
    let mut g = playing();
    let mut frames = 0;
    while !g.blocks.is_empty() {
        let target = g.blocks[0].rect;
        g.balls = vec![Ball::new(Vec2 { x: target.x + 25, y: target.y - 5 }, Vec2 { x: 0, y: 0 })];
        g.update(0, false, false, false, vel());
        frames += 1;
        assert!(frames <= 72);
    }
    assert_eq!(frames, 72);
    assert_eq!(g.state, GameState::LevelCompleted);
    assert_eq!(g.score, 36 * 10);
}

#[test]
fn a_block_scores_once() {
    let mut g = playing();
    let target = g.blocks[0].rect;
    g.balls = vec![Ball::new(Vec2 { x: target.x + 25, y: target.y - 5 }, Vec2 { x: 0, y: 0 })];
    g.update(0, false, false, false, vel());
    assert_eq!(g.score, 0);
    assert_eq!(g.blocks[0].lives, 1);
    g.balls = vec![Ball::new(Vec2 { x: target.x + 25, y: target.y - 5 }, Vec2 { x: 0, y: 0 })];
    g.update(0, false, false, false, vel());
    assert_eq!(g.score, 10);
    assert_eq!(g.blocks.len(), 35);
}

#[test]
fn restart_from_end_states_rebuilds_the_session() {
    let fresh = Game::new(SW, SH, vel());
    for end in [GameState::Dead, GameState::LevelCompleted] {
        let mut g = playing();
        g.blocks.truncate(3);
        g.score = 120;
        g.lives = 0;
        g.player.rect.x = 10;
        g.balls.push(Ball::new(Vec2 { x: 1, y: 1 }, vel()));
        g.state = end;
        g.update(16, false, false, false, vel());
        assert_eq!(g.state, end);
        g.update(16, false, false, true, vel());
        assert_eq!(g.state, GameState::Menu);
        assert_eq!(g.score, 0);
        assert_eq!(g.lives, 3);
        assert_eq!(g.balls.len(), 1);
        assert_eq!(g.balls[0].rect, Rect::new(375, 300, BALL_SIZE, BALL_SIZE));
        assert_eq!(g.blocks, fresh.blocks);
        assert_eq!(g.player, fresh.player);
    }
}
