use vstd::prelude::*;
use crate::geometry::{abs, advance, clamp, travel, Rect, Vec2};

verus! {

/// Side of the square ball.
pub const BALL_SIZE: i32 = 50;

/// Speed of a ball in pixels per second.
pub const BALL_SPEED: i32 = 400;

/// A ball: its bounds and its velocity in pixels per second.
#[derive(Clone, Copy, Debug, PartialEq, Eq, Structural)]
pub struct Ball {
    pub rect: Rect,
    pub vel: Vec2,
}

/// A ball after one time step: moved by its velocity (positions saturate at the
/// integer range), then turned back inward at the left, right and top screen edges.
pub open spec fn ball_step(b: Ball, dt_ms: int, screen_w: int) -> Ball {
    let x = clamp(b.rect.x + travel(b.vel.x as int, dt_ms), i32::MIN as int, i32::MAX - b.rect.w);
    let y = clamp(b.rect.y + travel(b.vel.y as int, dt_ms), i32::MIN as int, i32::MAX - b.rect.h);
    let vx1 = if x < 0 {
        abs(b.vel.x as int)
    } else {
        b.vel.x as int
    };
    let vx = if x > screen_w - b.rect.w {
        -abs(vx1)
    } else {
        vx1
    };
    let vy = if y < 0 {
        abs(b.vel.y as int)
    } else {
        b.vel.y as int
    };
    Ball {
        rect: Rect { x: x as i32, y: y as i32, w: b.rect.w, h: b.rect.h },
        vel: Vec2 { x: vx as i32, y: vy as i32 },
    }
}

impl Ball {
    /// Bounds well formed, and each velocity component has a representable magnitude.
    pub open spec fn wf(self) -> bool {
        self.rect.wf() && self.vel.x > i32::MIN && self.vel.y > i32::MIN
    }

    pub fn new(pos: Vec2, vel: Vec2) -> (r: Ball)
        requires
            pos.x + BALL_SIZE <= i32::MAX,
            pos.y + BALL_SIZE <= i32::MAX,
            vel.x > i32::MIN,
            vel.y > i32::MIN,
        ensures
            r == (Ball { rect: Rect { x: pos.x, y: pos.y, w: BALL_SIZE, h: BALL_SIZE }, vel }),
            r.wf(),
    {
        Ball { rect: Rect::new(pos.x, pos.y, BALL_SIZE, BALL_SIZE), vel }
    }

    /// Moves the ball by `dt_ms` milliseconds and bounces it off the left, right and
    /// top edges of a screen `screen_w` wide. The bottom edge is left to the caller.
    pub fn update(&mut self, dt_ms: u32, screen_w: i32)
        requires
            old(self).wf(),
        ensures
            *final(self) == ball_step(*old(self), dt_ms as int, screen_w as int),
            final(self).wf(),
    {
        let x = advance(self.rect.x, self.vel.x, dt_ms, i32::MAX - self.rect.w);
        let y = advance(self.rect.y, self.vel.y, dt_ms, i32::MAX - self.rect.h);
        self.rect.x = x;
        self.rect.y = y;
        if x < 0 && self.vel.x < 0 {
            self.vel.x = -self.vel.x;
        }
        if (x as i64) > (screen_w as i64) - (self.rect.w as i64) && self.vel.x > 0 {
            self.vel.x = -self.vel.x;
        }
        if y < 0 && self.vel.y < 0 {
            self.vel.y = -self.vel.y;
        }
    }
}

} // verus!
