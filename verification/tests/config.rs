use breakout::config::{Config, ConfigError, CONFIG_LIMIT};
use breakout::entity::{Capabilities, Entity, Kind};
use breakout::geometry::Vec2;
use breakout::scene::build_scene;
use breakout::store::EntityId;

#[test]
fn classic_configuration_is_valid() {
    assert_eq!(Config::classic().validate(), Ok(()));
}

#[test]
fn zero_or_negative_sizes_are_degenerate() {
    let mut c = Config::classic();
    c.ball_half = Vec2::new(0, 45);
    assert_eq!(c.validate(), Err(ConfigError::DegenerateSize));
    let mut c = Config::classic();
    c.wall_half_thickness = -15;
    assert_eq!(c.validate(), Err(ConfigError::DegenerateSize));
    let mut c = Config::classic();
    c.brick_half = Vec2::new(150, 0);
    assert_eq!(c.validate(), Err(ConfigError::DegenerateSize));
    let mut c = Config::classic();
    c.paddle_half = Vec2::new(-1, 30);
    assert_eq!(c.validate(), Err(ConfigError::DegenerateSize));
}

#[test]
fn constants_beyond_the_limit_are_out_of_range() {
    let mut c = Config::classic();
    c.right_wall = CONFIG_LIMIT + 1;
    assert_eq!(c.validate(), Err(ConfigError::OutOfRange));
    let mut c = Config::classic();
    c.gap_between_bricks_and_sides = -CONFIG_LIMIT - 1;
    assert_eq!(c.validate(), Err(ConfigError::OutOfRange));
    let mut c = Config::classic();
    c.right_wall = CONFIG_LIMIT;
    assert_eq!(c.validate(), Ok(()));
}

#[test]
fn ball_velocity_beyond_the_coordinate_range_is_out_of_range() {
    let mut c = Config::classic();
    c.ball_speed = 1_000_000_000;
    c.ball_direction = Vec2::new(1_000_001, -1);
    assert_eq!(c.validate(), Err(ConfigError::OutOfRange));
    c.ball_direction = Vec2::new(1_000_000, -1);
    assert_eq!(c.validate(), Ok(()));
    assert_eq!(c.ball_velocity(), Vec2::new(1_000_000_000_000_000, -1_000_000_000));
}

#[test]
fn walls_the_wrong_way_round_are_inverted() {
    let mut c = Config::classic();
    c.left_wall = 1351;
    assert_eq!(c.validate(), Err(ConfigError::InvertedBounds));
    let mut c = Config::classic();
    c.top_wall = -901;
    assert_eq!(c.validate(), Err(ConfigError::InvertedBounds));
}

#[test]
fn bricks_without_a_positive_pitch_are_refused() {
    let mut c = Config::classic();
    c.gap_between_bricks = -90;
    assert_eq!(c.validate(), Err(ConfigError::BrickPitch));
    c.gap_between_bricks = -89;
    assert_eq!(c.validate(), Ok(()));
}

#[test]
fn first_objection_wins() {
    let mut c = Config::classic();
    c.left_wall = CONFIG_LIMIT + 1;
    c.brick_half = Vec2::new(0, 0);
    assert_eq!(c.validate(), Err(ConfigError::DegenerateSize));
    c.brick_half = Vec2::new(150, 45);
    assert_eq!(c.validate(), Err(ConfigError::OutOfRange));
    c.left_wall = 1400;
    c.gap_between_bricks = -400;
    assert_eq!(c.validate(), Err(ConfigError::InvertedBounds));
}

#[test]
fn classic_ball_velocity_is_speed_times_direction() {
    assert_eq!(Config::classic().ball_velocity(), Vec2::new(10, -10));
}

#[test]
fn classic_grid_has_three_rows_of_eight() {
    let c = Config::classic();
    // rows: (1800 - 600 - 810) / (90 + 15) = 390 / 105; columns: (2700 - 120) / (300 + 15)
    assert_eq!(c.rows(), 3);
    assert_eq!(c.columns(), 8);
    assert_eq!(c.brick_center(0, 0), Vec2::new(-1140, -45));
    assert_eq!(c.brick_center(2, 7), Vec2::new(-1140 + 7 * 315, -45 + 2 * 105));
}

#[test]
fn grid_is_empty_when_there_is_no_room() {
    let mut c = Config::classic();
    c.gap_between_bricks_and_ceiling = 1000;
    assert_eq!(c.validate(), Ok(()));
    assert_eq!(c.rows(), 0);
    assert_eq!(build_scene(&c).len(), 6);
    let mut c = Config::classic();
    c.gap_between_bricks_and_sides = 1300;
    assert_eq!(c.validate(), Ok(()));
    assert_eq!(c.columns(), 0);
    assert_eq!(build_scene(&c).len(), 6);
}

#[test]
fn classic_scene_holds_paddle_ball_walls_and_bricks() {
    let c = Config::classic();
    assert_eq!(c.validate(), Ok(()));
    let store = build_scene(&c);
    assert_eq!(store.len(), 30);
    assert_eq!(
        store.get(EntityId(0)),
        Some(Entity::fixed(Kind::Paddle, Vec2::new(0, -720), Vec2::new(180, 30)))
    );
    assert_eq!(
        store.get(EntityId(1)),
        Some(Entity::ball(Vec2::new(0, -150), Vec2::new(45, 45), Vec2::new(10, -10)))
    );
    let upright = Vec2::new(15, 915);
    let level = Vec2::new(1365, 15);
    assert_eq!(
        store.get(EntityId(2)),
        Some(Entity::fixed(Kind::Wall, Vec2::new(-1350, 0), upright))
    );
    assert_eq!(store.get(EntityId(3)), Some(Entity::fixed(Kind::Wall, Vec2::new(0, 900), level)));
    assert_eq!(
        store.get(EntityId(4)),
        Some(Entity::fixed(Kind::Wall, Vec2::new(1350, 0), upright))
    );
    assert_eq!(store.get(EntityId(5)), Some(Entity::fixed(Kind::Wall, Vec2::new(0, -900), level)));
    let brick =
        |x: i64, y: i64| Some(Entity::fixed(Kind::Brick, Vec2::new(x, y), Vec2::new(150, 45)));
    assert_eq!(store.get(EntityId(6)), brick(-1140, -45));
    assert_eq!(store.get(EntityId(7)), brick(-825, -45));
    assert_eq!(store.get(EntityId(13)), brick(1065, -45));
    assert_eq!(store.get(EntityId(14)), brick(-1140, 60));
    assert_eq!(store.get(EntityId(29)), brick(1065, 165));
    assert_eq!(store.query(Capabilities::of_kind(Kind::Brick)).len(), 24);
    assert_eq!(store.query(Capabilities::of_kind(Kind::Wall)).len(), 4);
    assert_eq!(store.query(Capabilities::movers()), vec![EntityId(1)]);
}

#[test]
fn odd_playfield_rounds_the_middle_down_and_the_walls_up() {
    let mut c = Config::classic();
    c.left_wall = -1350;
    c.right_wall = 1351;
    c.bottom_wall = -901;
    c.top_wall = 900;
    assert_eq!(c.validate(), Ok(()));
    let store = build_scene(&c);
    assert_eq!(store.get(EntityId(0)).unwrap().position, Vec2::new(0, -720));
    assert_eq!(
        store.get(EntityId(2)),
        Some(Entity::fixed(Kind::Wall, Vec2::new(-1350, -1), Vec2::new(15, 916)))
    );
    assert_eq!(
        store.get(EntityId(3)),
        Some(Entity::fixed(Kind::Wall, Vec2::new(0, 900), Vec2::new(1366, 15)))
    );
}
