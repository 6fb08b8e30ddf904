//! The opening scene: one paddle, one ball, four walls and the brick grid,
//! created in that order.

use vstd::prelude::*;
use crate::config::{half_up, Config};
use crate::entity::{Entity, Kind};
use crate::geometry::Vec2;
use crate::store::EntityStore;

verus! {

/// The four boundaries, in the order in which their walls are created.
#[derive(Clone, Copy, Debug, PartialEq, Eq, Structural)]
pub enum Side {
    Left,
    Top,
    Right,
    Bottom,
}

/// Number of entities created before the first brick.
pub const FIRST_BRICK: usize = 6;

/// Middle of the playfield on the x axis, rounded towards the left wall.
pub open spec fn middle_x(c: Config) -> int {
    c.left_wall + (c.right_wall - c.left_wall) / 2
}

/// Middle of the playfield on the y axis, rounded towards the bottom wall.
pub open spec fn middle_y(c: Config) -> int {
    c.bottom_wall + (c.top_wall - c.bottom_wall) / 2
}

/// The paddle as it starts: in the middle, at its starting height.
pub open spec fn paddle_spec(c: Config) -> Entity {
    Entity {
        kind: Kind::Paddle,
        position: Vec2 { x: middle_x(c) as i64, y: c.paddle_start_y },
        layer: 0,
        half: c.paddle_half,
        velocity: None,
    }
}

/// The ball as it starts, one layer above everything else.
pub open spec fn ball_spec(c: Config) -> Entity {
    Entity {
        kind: Kind::Ball,
        position: c.ball_start,
        layer: 1,
        half: c.ball_half,
        velocity: Some(c.ball_velocity_spec()),
    }
}

/// The wall on the given side. It is centred on its boundary line, as thick
/// as the walls are, and as long as the playfield plus that thickness, so
/// that the four walls close the corners.
pub open spec fn wall_spec(c: Config, side: Side) -> Entity {
    let long_x = half_up(c.right_wall - c.left_wall) + c.wall_half_thickness;
    let long_y = half_up(c.top_wall - c.bottom_wall) + c.wall_half_thickness;
    let upright = Vec2 { x: c.wall_half_thickness, y: long_y as i64 };
    let level = Vec2 { x: long_x as i64, y: c.wall_half_thickness };
    let (position, half) = match side {
        Side::Left => (Vec2 { x: c.left_wall, y: middle_y(c) as i64 }, upright),
        Side::Right => (Vec2 { x: c.right_wall, y: middle_y(c) as i64 }, upright),
        Side::Top => (Vec2 { x: middle_x(c) as i64, y: c.top_wall }, level),
        Side::Bottom => (Vec2 { x: middle_x(c) as i64, y: c.bottom_wall }, level),
    };
    Entity { kind: Kind::Wall, position, layer: 0, half, velocity: None }
}

/// The brick in the given row and column of the grid.
pub open spec fn brick_spec(c: Config, row: int, column: int) -> Entity {
    Entity {
        kind: Kind::Brick,
        position: c.brick_center_spec(row, column),
        layer: 0,
        half: c.brick_half,
        velocity: None,
    }
}

/// The slot of the brick in the given row and column: bricks follow the
/// first six entities row by row, each row from left to right.
pub open spec fn brick_slot(c: Config, row: int, column: int) -> int {
    FIRST_BRICK + row * c.columns_spec() + column
}

/// Whether `slots` is the opening scene of configuration `c`.
pub open spec fn is_scene(c: Config, slots: Seq<Option<Entity>>) -> bool {
    &&& slots.len() == FIRST_BRICK + c.rows_spec() * c.columns_spec()
    &&& slots[0] == Some(paddle_spec(c))
    &&& slots[1] == Some(ball_spec(c))
    &&& slots[2] == Some(wall_spec(c, Side::Left))
    &&& slots[3] == Some(wall_spec(c, Side::Top))
    &&& slots[4] == Some(wall_spec(c, Side::Right))
    &&& slots[5] == Some(wall_spec(c, Side::Bottom))
    &&& forall|i: int|
        FIRST_BRICK <= i < slots.len() ==> (#[trigger] slots[i]) is Some && slots[i].unwrap().kind
            == Kind::Brick
    &&& forall|row: int, column: int|
        0 <= row < c.rows_spec() && 0 <= column < c.columns_spec() ==> slots[brick_slot(
            c,
            row,
            column,
        )] == Some(#[trigger] brick_spec(c, row, column))
}

/// A slot in an earlier row, or earlier in the same row, lies before the
/// slot of a later brick.
proof fn lemma_slot_order(columns: int, r: int, k: int, row: int, column: int)
    requires
        0 <= k < columns,
        0 <= column <= columns,
        0 <= r,
        r < row || (r == row && k < column),
    ensures
        0 <= r * columns + k < row * columns + column,
        (row + 1) * columns == row * columns + columns,
{
    assert((row + 1) * columns == row * columns + columns) by (nonlinear_arith);
    if r < row {
        assert(r * columns + columns <= row * columns) by (nonlinear_arith)
            requires
                r < row,
                columns >= 0,
        ;
    }
    assert(0 <= r * columns) by (nonlinear_arith)
        requires
            0 <= r,
            0 <= columns,
    ;
}

/// The wall on the given side.
fn wall(c: &Config, side: Side) -> (e: Entity)
    requires
        c.valid(),
    ensures
        e == wall_spec(*c, side),
        e.valid(),
{
    let mid_x: i64 = c.left_wall + (c.right_wall - c.left_wall) / 2;
    let mid_y: i64 = c.bottom_wall + (c.top_wall - c.bottom_wall) / 2;
    let long_x: i64 = (c.right_wall - c.left_wall + 1) / 2 + c.wall_half_thickness;
    let long_y: i64 = (c.top_wall - c.bottom_wall + 1) / 2 + c.wall_half_thickness;
    let upright = Vec2 { x: c.wall_half_thickness, y: long_y };
    let level = Vec2 { x: long_x, y: c.wall_half_thickness };
    match side {
        Side::Left => Entity::fixed(Kind::Wall, Vec2 { x: c.left_wall, y: mid_y }, upright),
        Side::Right => Entity::fixed(Kind::Wall, Vec2 { x: c.right_wall, y: mid_y }, upright),
        Side::Top => Entity::fixed(Kind::Wall, Vec2 { x: mid_x, y: c.top_wall }, level),
        Side::Bottom => Entity::fixed(Kind::Wall, Vec2 { x: mid_x, y: c.bottom_wall }, level),
    }
}

/// Creates the opening scene of a valid configuration in a fresh store.
pub fn build_scene(c: &Config) -> (store: EntityStore)
    requires
        c.valid(),
    ensures
        store.wf(),
        is_scene(*c, store@),
{
    let mut store = EntityStore::new();
    let mid_x: i64 = c.left_wall + (c.right_wall - c.left_wall) / 2;
    let paddle = Entity::fixed(
        Kind::Paddle,
        Vec2 { x: mid_x, y: c.paddle_start_y },
        c.paddle_half,
    );
    let made = store.create(paddle);
    assert(made is Ok);
    let made = store.create(Entity::ball(c.ball_start, c.ball_half, c.ball_velocity()));
    assert(made is Ok);
    let made = store.create(wall(c, Side::Left));
    assert(made is Ok);
    let made = store.create(wall(c, Side::Top));
    assert(made is Ok);
    let made = store.create(wall(c, Side::Right));
    assert(made is Ok);
    let made = store.create(wall(c, Side::Bottom));
    assert(made is Ok);
    let rows: i64 = c.rows();
    let columns: i64 = c.columns();
    let mut row: i64 = 0;
    assert(0 * (columns as int) == 0) by (nonlinear_arith);
    while row < rows
        invariant
            c.valid(),
            store.wf(),
            rows == c.rows_spec(),
            columns == c.columns_spec(),
            0 <= row <= rows,
            store@.len() == FIRST_BRICK + row * columns,
            store@[0] == Some(paddle_spec(*c)),
            store@[1] == Some(ball_spec(*c)),
            store@[2] == Some(wall_spec(*c, Side::Left)),
            store@[3] == Some(wall_spec(*c, Side::Top)),
            store@[4] == Some(wall_spec(*c, Side::Right)),
            store@[5] == Some(wall_spec(*c, Side::Bottom)),
            forall|i: int|
                FIRST_BRICK <= i < store@.len() ==> (#[trigger] store@[i]) is Some
                    && store@[i].unwrap().kind == Kind::Brick,
            forall|r: int, k: int|
                0 <= r < row && 0 <= k < columns ==> store@[brick_slot(*c, r, k)] == Some(
                    #[trigger] brick_spec(*c, r, k),
                ),
        decreases rows - row,
    {
        let mut column: i64 = 0;
        while column < columns
            invariant
                c.valid(),
                store.wf(),
                rows == c.rows_spec(),
                columns == c.columns_spec(),
                0 <= row < rows,
                0 <= column <= columns,
                store@.len() == FIRST_BRICK + row * columns + column,
                store@[0] == Some(paddle_spec(*c)),
                store@[1] == Some(ball_spec(*c)),
                store@[2] == Some(wall_spec(*c, Side::Left)),
                store@[3] == Some(wall_spec(*c, Side::Top)),
                store@[4] == Some(wall_spec(*c, Side::Right)),
                store@[5] == Some(wall_spec(*c, Side::Bottom)),
                forall|i: int|
                    FIRST_BRICK <= i < store@.len() ==> (#[trigger] store@[i]) is Some
                        && store@[i].unwrap().kind == Kind::Brick,
                forall|r: int, k: int|
                    0 <= r < row && 0 <= k < columns ==> store@[brick_slot(*c, r, k)] == Some(
                        #[trigger] brick_spec(*c, r, k),
                    ),
                forall|k: int|
                    0 <= k < column ==> store@[brick_slot(*c, row as int, k)] == Some(
                        #[trigger] brick_spec(*c, row as int, k),
                    ),
            decreases columns - column,
        {
            let ghost earlier = store@;
            let brick = Entity::fixed(Kind::Brick, c.brick_center(row, column), c.brick_half);
            let made = store.create(brick);
            assert(made is Ok);
            proof {
                assert(store@ == earlier.push(Some(brick)));
                assert(brick == brick_spec(*c, row as int, column as int));
                assert forall|r: int, k: int|
                    0 <= r < row && 0 <= k < columns implies store@[brick_slot(*c, r, k)] == Some(
                    #[trigger] brick_spec(*c, r, k),
                ) by {
                    lemma_slot_order(columns as int, r, k, row as int, column as int);
                }
                assert forall|k: int|
                    0 <= k < column + 1 implies store@[brick_slot(*c, row as int, k)] == Some(
                    #[trigger] brick_spec(*c, row as int, k),
                ) by {
                    if k < column {
                        lemma_slot_order(columns as int, row as int, k, row as int, column as int);
                    }
                }
            }
            column = column + 1;
        }
        proof {
            assert((row + 1) * columns == row * columns + columns) by (nonlinear_arith);
        }
        row = row + 1;
    }
    store
}

} // verus!
