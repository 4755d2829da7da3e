use vstd::prelude::*;

verus! {

/// Distance the ball travels per frame for each unit of velocity.
pub const BALL_SPEED: i64 = 5;

/// Side of the square ball.
pub const BALL_SIZE: i64 = 5;

/// Distance a paddle travels per frame for each unit of velocity.
pub const PADDLE_SPEED: i64 = 1;

pub const PADDLE_WIDTH: i64 = 10;

pub const PADDLE_HEIGHT: i64 = 50;

/// Height of the top and bottom gutters.
pub const GUTTER_HEIGHT: i64 = 20;

/// Velocity given to the player's paddle while a key is held.
pub const PADDLE_KEY_SPEED: i64 = 5;

/// Distance of each paddle's center from its side edge of the playfield.
pub const PADDLE_INSET: i64 = 50;

/// A 2D vector in whole world units.
#[derive(Clone, Copy, Debug, PartialEq, Eq, Structural)]
pub struct Vec2 {
    pub x: i64,
    pub y: i64,
}

impl Vec2 {
    pub fn new(x: i64, y: i64) -> (r: Vec2)
        ensures
            r.x == x,
            r.y == y,
    {
        Vec2 { x, y }
    }

    pub fn splat(v: i64) -> (r: Vec2)
        ensures
            r.x == v,
            r.y == v,
    {
        Vec2 { x: v, y: v }
    }
}

/// The visible play area, centered on the origin.
#[derive(Clone, Copy, Debug, PartialEq, Eq, Structural)]
pub struct Playfield {
    pub width: i64,
    pub height: i64,
}

impl Playfield {
    pub fn new(width: i64, height: i64) -> (r: Playfield)
        ensures
            r.width == width,
            r.height == height,
    {
        Playfield { width, height }
    }
}

/// Twice the largest distance from the center line that a paddle may reach:
/// `2 * (H/2 - GUTTER_HEIGHT - PADDLE_HEIGHT/2)`, kept doubled to stay whole.
pub open spec fn paddle_limit2(height: int) -> int {
    height - 2 * GUTTER_HEIGHT - PADDLE_HEIGHT
}

/// Whether a paddle center at height `y` lies strictly inside the allowed band.
pub open spec fn paddle_y_allowed(y: int, height: int) -> bool {
    let a = if y < 0 { -y } else { y };
    2 * a < paddle_limit2(height)
}

} // verus!
