use vstd::prelude::*;
use crate::geometry::{advance, clamp, travel, Rect};

verus! {

pub const PLAYER_W: i32 = 150;

pub const PLAYER_H: i32 = 40;

/// Paddle speed in pixels per second.
pub const PLAYER_SPEED: i32 = 700;

/// Distance from the paddle's top edge to the bottom of the screen.
pub const PLAYER_LIFT: i32 = 100;

/// The paddle.
#[derive(Clone, Copy, Debug, PartialEq, Eq, Structural)]
pub struct Player {
    pub rect: Rect,
}

/// Horizontal velocity chosen by the movement keys: none when neither or both are held.
pub open spec fn steer(left: bool, right: bool) -> int {
    if left && !right {
        -PLAYER_SPEED
    } else if right && !left {
        PLAYER_SPEED as int
    } else {
        0
    }
}

/// The paddle after one time step: moved by the keys' velocity, then held inside
/// `[0, screen_w - w]` (the right bound wins on a screen narrower than the paddle).
pub open spec fn player_step(p: Player, dt_ms: int, left: bool, right: bool, screen_w: int) -> Player {
    let x0 = clamp(p.rect.x + travel(steer(left, right), dt_ms), i32::MIN as int, i32::MAX - p.rect.w);
    let x1 = if x0 < 0 {
        0
    } else {
        x0
    };
    let x = if x1 > screen_w - p.rect.w {
        screen_w - p.rect.w
    } else {
        x1
    };
    Player { rect: Rect { x: x as i32, ..p.rect } }
}

/// The paddle's starting place: centered, near the bottom of the screen.
pub open spec fn player_start(screen_w: int, screen_h: int) -> Player {
    Player {
        rect: Rect {
            x: (screen_w / 2 - PLAYER_W / 2) as i32,
            y: (screen_h - PLAYER_LIFT) as i32,
            w: PLAYER_W,
            h: PLAYER_H,
        },
    }
}

impl Player {
    pub open spec fn wf(self) -> bool {
        self.rect.wf()
    }

    pub fn new(screen_w: i32, screen_h: i32) -> (r: Player)
        requires
            0 <= screen_w,
            0 <= screen_h,
        ensures
            r == player_start(screen_w as int, screen_h as int),
            r.wf(),
    {
        Player { rect: Rect::new(screen_w / 2 - PLAYER_W / 2, screen_h - PLAYER_LIFT, PLAYER_W, PLAYER_H) }
    }

    /// Moves the paddle by `dt_ms` milliseconds according to the held keys and keeps
    /// it on a screen `screen_w` wide.
    pub fn update(&mut self, dt_ms: u32, left: bool, right: bool, screen_w: i32)
        requires
            old(self).wf(),
            0 <= screen_w,
        ensures
            *final(self) == player_step(*old(self), dt_ms as int, left, right, screen_w as int),
            final(self).wf(),
    {
        let speed: i32 = if left && !right {
            -PLAYER_SPEED
        } else if right && !left {
            PLAYER_SPEED
        } else {
            0
        };
        let mut x = advance(self.rect.x, speed, dt_ms, i32::MAX - self.rect.w);
        if x < 0 {
            x = 0;
        }
        if x > screen_w - self.rect.w {
            x = screen_w - self.rect.w;
        }
        self.rect.x = x;
    }
}

} // verus!
