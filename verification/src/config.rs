//! The named constants of a game, their validation, and what follows from
//! them: the paddle's limits, the ball's first velocity and the brick grid.
//!
//! Lengths are whole numbers of a sub-pixel unit and durations whole numbers
//! of a time unit; a speed is a number of length units per time unit. Sizes
//! are given as half-extents.

use vstd::prelude::*;
use crate::geometry::{in_range, Vec2, MAX_COORD};
use crate::paddle::Limits;

verus! {

/// The largest magnitude a configured constant may have. Everything that is
/// computed from constants within this limit lies within the coordinate
/// range.
pub const CONFIG_LIMIT: i64 = 1_000_000_000_000;

/// The constants a game is set up from.
#[derive(Clone, Copy, Debug, PartialEq, Eq)]
pub struct Config {
    /// Centre line of the left wall.
    pub left_wall: i64,
    /// Centre line of the right wall.
    pub right_wall: i64,
    /// Centre line of the bottom wall.
    pub bottom_wall: i64,
    /// Centre line of the top wall.
    pub top_wall: i64,
    /// Half of the walls' thickness.
    pub wall_half_thickness: i64,
    /// Half-width and half-height of the paddle.
    pub paddle_half: Vec2,
    /// Length units the paddle moves per time unit while steered.
    pub paddle_speed: i64,
    /// Height at which the paddle starts.
    pub paddle_start_y: i64,
    /// Half-width and half-height of the ball.
    pub ball_half: Vec2,
    /// Where the ball starts.
    pub ball_start: Vec2,
    /// The ball's first velocity is this speed times `ball_direction`,
    /// component by component; the direction is not normalised.
    pub ball_speed: i64,
    /// See `ball_speed`.
    pub ball_direction: Vec2,
    /// Half-width and half-height of a brick.
    pub brick_half: Vec2,
    /// Free space between neighbouring bricks.
    pub gap_between_bricks: i64,
    /// Free space between the bottom wall's centre line and the lowest row.
    pub gap_between_paddle_and_bricks: i64,
    /// Free space kept below the top wall's centre line.
    pub gap_between_bricks_and_ceiling: i64,
    /// Free space kept at the left and at the right of the grid.
    pub gap_between_bricks_and_sides: i64,
}

/// Why a configuration or a scene was refused.
#[derive(Clone, Copy, Debug, PartialEq, Eq, Structural)]
pub enum ConfigError {
    /// A half-extent or the walls' half-thickness is zero or negative.
    DegenerateSize,
    /// A constant is beyond `CONFIG_LIMIT`, or the ball's first velocity is
    /// beyond the coordinate range.
    OutOfRange,
    /// The left wall lies right of the right wall, or the bottom wall above
    /// the top wall.
    InvertedBounds,
    /// A brick and the gap beside it together have no positive length.
    BrickPitch,
    /// The scene does not hold exactly one paddle.
    PaddleCount,
    /// The scene does not hold exactly one ball with a velocity.
    BallCount,
}

/// Whether a constant is within `CONFIG_LIMIT`.
pub open spec fn fits(v: int) -> bool {
    -CONFIG_LIMIT <= v <= CONFIG_LIMIT
}

/// Whether both components are within `CONFIG_LIMIT`.
pub open spec fn fits2(v: Vec2) -> bool {
    fits(v.x as int) && fits(v.y as int)
}

/// `span` halved, rounded up.
pub open spec fn half_up(span: int) -> int {
    (span + 1) / 2
}

/// How many whole pitches fit into `room`: none when there is no room.
pub open spec fn count_fitting(room: int, pitch: int) -> int {
    if room <= 0 || pitch <= 0 {
        0
    } else {
        room / pitch
    }
}

impl Config {
    /// Every size is strictly positive.
    pub open spec fn sizes_positive(&self) -> bool {
        &&& self.wall_half_thickness > 0
        &&& self.paddle_half.x > 0 && self.paddle_half.y > 0
        &&& self.ball_half.x > 0 && self.ball_half.y > 0
        &&& self.brick_half.x > 0 && self.brick_half.y > 0
    }

    /// Every constant is within `CONFIG_LIMIT` and the ball's first velocity
    /// is within the coordinate range.
    pub open spec fn in_limits(&self) -> bool {
        &&& fits(self.left_wall as int) && fits(self.right_wall as int)
        &&& fits(self.bottom_wall as int) && fits(self.top_wall as int)
        &&& fits(self.wall_half_thickness as int)
        &&& fits2(self.paddle_half) && fits(self.paddle_speed as int)
        &&& fits(self.paddle_start_y as int)
        &&& fits2(self.ball_half) && fits2(self.ball_start)
        &&& fits(self.ball_speed as int) && fits2(self.ball_direction)
        &&& fits2(self.brick_half)
        &&& fits(self.gap_between_bricks as int)
        &&& fits(self.gap_between_paddle_and_bricks as int)
        &&& fits(self.gap_between_bricks_and_ceiling as int)
        &&& fits(self.gap_between_bricks_and_sides as int)
        &&& in_range(self.ball_speed * self.ball_direction.x)
        &&& in_range(self.ball_speed * self.ball_direction.y)
    }

    /// The walls are the right way round.
    pub open spec fn bounds_ordered(&self) -> bool {
        self.left_wall <= self.right_wall && self.bottom_wall <= self.top_wall
    }

    /// Distance from one brick's centre to the next, per axis.
    pub open spec fn pitch_x(&self) -> int {
        2 * self.brick_half.x + self.gap_between_bricks
    }

    /// See `pitch_x`.
    pub open spec fn pitch_y(&self) -> int {
        2 * self.brick_half.y + self.gap_between_bricks
    }

    /// The configuration can be played.
    pub open spec fn valid(&self) -> bool {
        &&& self.sizes_positive()
        &&& self.in_limits()
        &&& self.bounds_ordered()
        &&& self.pitch_x() > 0 && self.pitch_y() > 0
    }

    /// What `validate` answers: the first objection in the order degenerate
    /// size, constant out of range, inverted bounds, brick pitch.
    pub open spec fn verdict(&self) -> Result<(), ConfigError> {
        if !self.sizes_positive() {
            Err(ConfigError::DegenerateSize)
        } else if !self.in_limits() {
            Err(ConfigError::OutOfRange)
        } else if !self.bounds_ordered() {
            Err(ConfigError::InvertedBounds)
        } else if !(self.pitch_x() > 0 && self.pitch_y() > 0) {
            Err(ConfigError::BrickPitch)
        } else {
            Ok(())
        }
    }

    /// The interval the paddle's centre is held to: on x the playfield less
    /// half a wall and half a paddle on either side; on y the playfield
    /// widened on either side by half a wall less half a paddle.
    pub open spec fn limits_spec(&self) -> Limits {
        Limits {
            min: Vec2 {
                x: (self.left_wall + (self.wall_half_thickness + self.paddle_half.x)) as i64,
                y: (self.bottom_wall - (self.wall_half_thickness - self.paddle_half.y)) as i64,
            },
            max: Vec2 {
                x: (self.right_wall - (self.wall_half_thickness + self.paddle_half.x)) as i64,
                y: (self.top_wall + (self.wall_half_thickness - self.paddle_half.y)) as i64,
            },
        }
    }

    /// The ball's first velocity: speed times direction, per component.
    pub open spec fn ball_velocity_spec(&self) -> Vec2 {
        Vec2 {
            x: (self.ball_speed * self.ball_direction.x) as i64,
            y: (self.ball_speed * self.ball_direction.y) as i64,
        }
    }

    /// Number of brick rows: as many pitches as fit between the clearance
    /// above the paddle and the clearance below the ceiling.
    pub open spec fn rows_spec(&self) -> int {
        count_fitting(
            (self.top_wall - self.bottom_wall) - self.gap_between_bricks_and_ceiling
                - self.gap_between_paddle_and_bricks,
            self.pitch_y(),
        )
    }

    /// Number of brick columns: as many pitches as fit between the side
    /// clearances.
    pub open spec fn columns_spec(&self) -> int {
        count_fitting(
            (self.right_wall - self.left_wall) - 2 * self.gap_between_bricks_and_sides,
            self.pitch_x(),
        )
    }

    /// Centre of the brick in the given row and column, counted from the
    /// bottom left.
    pub open spec fn brick_center_spec(&self, row: int, column: int) -> Vec2 {
        Vec2 {
            x: (self.left_wall + self.gap_between_bricks_and_sides + self.brick_half.x + column
                * self.pitch_x()) as i64,
            y: (self.bottom_wall + self.gap_between_paddle_and_bricks + self.brick_half.y + row
                * self.pitch_y()) as i64,
        }
    }

    /// The classic layout, in thirds of a pixel and sixtieths of a second: a
    /// playfield of 900 by 600 pixels, a paddle at 500 pixels per second and
    /// a ball that starts down and to the right at 200 pixels per second on
    /// each axis.
    pub fn classic() -> (c: Config)
        ensures
            c.valid(),
            c.left_wall == -1350 && c.right_wall == 1350,
            c.bottom_wall == -900 && c.top_wall == 900,
            c.wall_half_thickness == 15,
            c.paddle_half == (Vec2 { x: 180, y: 30 }),
            c.paddle_speed == 25 && c.paddle_start_y == -720,
            c.ball_half == (Vec2 { x: 45, y: 45 }),
            c.ball_start == (Vec2 { x: 0, y: -150i64 }),
            c.ball_speed == 10 && c.ball_direction == (Vec2 { x: 1, y: -1i64 }),
            c.brick_half == (Vec2 { x: 150, y: 45 }),
            c.gap_between_bricks == 15,
            c.gap_between_paddle_and_bricks == 810,
            c.gap_between_bricks_and_ceiling == 600,
            c.gap_between_bricks_and_sides == 60,
    {
        Config {
            left_wall: -1350,
            right_wall: 1350,
            bottom_wall: -900,
            top_wall: 900,
            wall_half_thickness: 15,
            paddle_half: Vec2 { x: 180, y: 30 },
            paddle_speed: 25,
            paddle_start_y: -720,
            ball_half: Vec2 { x: 45, y: 45 },
            ball_start: Vec2 { x: 0, y: -150 },
            ball_speed: 10,
            ball_direction: Vec2 { x: 1, y: -1 },
            brick_half: Vec2 { x: 150, y: 45 },
            gap_between_bricks: 15,
            gap_between_paddle_and_bricks: 810,
            gap_between_bricks_and_ceiling: 600,
            gap_between_bricks_and_sides: 60,
        }
    }

    /// Checks the configuration and names the first thing wrong with it.
    pub fn validate(&self) -> (r: Result<(), ConfigError>)
        ensures
            r == self.verdict(),
            r is Ok <==> self.valid(),
    {
        if !(self.wall_half_thickness > 0 && self.paddle_half.x > 0 && self.paddle_half.y > 0
            && self.ball_half.x > 0 && self.ball_half.y > 0 && self.brick_half.x > 0
            && self.brick_half.y > 0) {
            return Err(ConfigError::DegenerateSize);
        }
        let plain: bool = within(self.left_wall) && within(self.right_wall) && within(
            self.bottom_wall,
        ) && within(self.top_wall) && within(self.wall_half_thickness) && within2(
            self.paddle_half,
        ) && within(self.paddle_speed) && within(self.paddle_start_y) && within2(self.ball_half)
            && within2(self.ball_start) && within(self.ball_speed) && within2(
            self.ball_direction,
        ) && within2(self.brick_half) && within(self.gap_between_bricks) && within(
            self.gap_between_paddle_and_bricks,
        ) && within(self.gap_between_bricks_and_ceiling) && within(
            self.gap_between_bricks_and_sides,
        );
        if !plain {
            return Err(ConfigError::OutOfRange);
        }
        proof {
            lemma_small_product(self.ball_speed as int, self.ball_direction.x as int);
            lemma_small_product(self.ball_speed as int, self.ball_direction.y as int);
        }
        let vx: i128 = (self.ball_speed as i128) * (self.ball_direction.x as i128);
        let vy: i128 = (self.ball_speed as i128) * (self.ball_direction.y as i128);
        if !(-(MAX_COORD as i128) <= vx && vx <= MAX_COORD as i128 && -(MAX_COORD as i128) <= vy
            && vy <= MAX_COORD as i128) {
            return Err(ConfigError::OutOfRange);
        }
        if !(self.left_wall <= self.right_wall && self.bottom_wall <= self.top_wall) {
            return Err(ConfigError::InvertedBounds);
        }
        if !(2 * self.brick_half.x + self.gap_between_bricks > 0 && 2 * self.brick_half.y
            + self.gap_between_bricks > 0) {
            return Err(ConfigError::BrickPitch);
        }
        Ok(())
    }

    /// The interval the paddle's centre is held to.
    pub fn limits(&self) -> (l: Limits)
        requires
            self.valid(),
        ensures
            l == self.limits_spec(),
            l.valid(),
    {
        Limits {
            min: Vec2 {
                x: self.left_wall + (self.wall_half_thickness + self.paddle_half.x),
                y: self.bottom_wall - (self.wall_half_thickness - self.paddle_half.y),
            },
            max: Vec2 {
                x: self.right_wall - (self.wall_half_thickness + self.paddle_half.x),
                y: self.top_wall + (self.wall_half_thickness - self.paddle_half.y),
            },
        }
    }

    /// The ball's first velocity.
    pub fn ball_velocity(&self) -> (v: Vec2)
        requires
            self.valid(),
        ensures
            v == self.ball_velocity_spec(),
            v.bounded(),
    {
        proof {
            lemma_small_product(self.ball_speed as int, self.ball_direction.x as int);
            lemma_small_product(self.ball_speed as int, self.ball_direction.y as int);
        }
        let vx: i128 = (self.ball_speed as i128) * (self.ball_direction.x as i128);
        let vy: i128 = (self.ball_speed as i128) * (self.ball_direction.y as i128);
        Vec2 { x: vx as i64, y: vy as i64 }
    }

    /// Number of brick rows.
    pub fn rows(&self) -> (n: i64)
        requires
            self.valid(),
        ensures
            n == self.rows_spec(),
            0 <= n <= 4 * CONFIG_LIMIT,
            n * self.pitch_y() <= 4 * CONFIG_LIMIT,
    {
        let room: i64 = (self.top_wall - self.bottom_wall) - self.gap_between_bricks_and_ceiling
            - self.gap_between_paddle_and_bricks;
        let pitch: i64 = 2 * self.brick_half.y + self.gap_between_bricks;
        fitting(room, pitch)
    }

    /// Number of brick columns.
    pub fn columns(&self) -> (n: i64)
        requires
            self.valid(),
        ensures
            n == self.columns_spec(),
            0 <= n <= 4 * CONFIG_LIMIT,
            n * self.pitch_x() <= 4 * CONFIG_LIMIT,
    {
        let room: i64 = (self.right_wall - self.left_wall) - 2 * self.gap_between_bricks_and_sides;
        let pitch: i64 = 2 * self.brick_half.x + self.gap_between_bricks;
        fitting(room, pitch)
    }

    /// Centre of the brick in the given row and column of the grid.
    pub fn brick_center(&self, row: i64, column: i64) -> (p: Vec2)
        requires
            self.valid(),
            0 <= row < self.rows_spec(),
            0 <= column < self.columns_spec(),
        ensures
            p == self.brick_center_spec(row as int, column as int),
            p.bounded(),
    {
        let rows: i64 = self.rows();
        let columns: i64 = self.columns();
        let pitch_x: i64 = 2 * self.brick_half.x + self.gap_between_bricks;
        let pitch_y: i64 = 2 * self.brick_half.y + self.gap_between_bricks;
        proof {
            lemma_partial_run(column as int, columns as int, pitch_x as int);
            lemma_partial_run(row as int, rows as int, pitch_y as int);
        }
        Vec2 {
            x: self.left_wall + self.gap_between_bricks_and_sides + self.brick_half.x + column
                * pitch_x,
            y: self.bottom_wall + self.gap_between_paddle_and_bricks + self.brick_half.y + row
                * pitch_y,
        }
    }
}

/// Tests `fits`.
fn within(v: i64) -> (ok: bool)
    ensures
        ok == fits(v as int),
{
    -CONFIG_LIMIT <= v && v <= CONFIG_LIMIT
}

/// Tests `fits2`.
fn within2(v: Vec2) -> (ok: bool)
    ensures
        ok == fits2(v),
{
    within(v.x) && within(v.y)
}

/// How many whole pitches fit into `room`.
fn fitting(room: i64, pitch: i64) -> (n: i64)
    requires
        room <= 4 * CONFIG_LIMIT,
        pitch > 0,
    ensures
        n == count_fitting(room as int, pitch as int),
        0 <= n <= 4 * CONFIG_LIMIT,
        n * pitch <= 4 * CONFIG_LIMIT,
{
    if room <= 0 {
        proof {
            assert(0 * (pitch as int) == 0) by (nonlinear_arith);
        }
        0
    } else {
        let n: i64 = room / pitch;
        proof {
            let r = room as int;
            let p = pitch as int;
            assert(0 <= r / p <= r && (r / p) * p <= r) by (nonlinear_arith)
                requires
                    r > 0,
                    p > 0,
            ;
        }
        n
    }
}

/// The product of two constants within `CONFIG_LIMIT` is far inside `i128`.
proof fn lemma_small_product(a: int, b: int)
    requires
        fits(a),
        fits(b),
    ensures
        -1_000_000_000_000_000_000_000_000 <= a * b <= 1_000_000_000_000_000_000_000_000,
{
    assert(-1_000_000_000_000_000_000_000_000 <= a * b <= 1_000_000_000_000_000_000_000_000)
        by (nonlinear_arith)
        requires
            -1_000_000_000_000 <= a <= 1_000_000_000_000,
            -1_000_000_000_000 <= b <= 1_000_000_000_000,
    ;
}

/// Fewer pitches than fit take no more room than all that fit.
proof fn lemma_partial_run(k: int, n: int, pitch: int)
    requires
        0 <= k < n,
        pitch > 0,
    ensures
        0 <= k * pitch <= n * pitch,
{
    assert(0 <= k * pitch <= n * pitch) by (nonlinear_arith)
        requires
            0 <= k < n,
            pitch > 0,
    ;
}

} // verus!
