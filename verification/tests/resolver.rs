use breakout::entity::{Capabilities, Entity, Kind};
use breakout::geometry::Vec2;
use breakout::motion::apply_velocity;
use breakout::resolver::check_ball_collisions;
use breakout::scoreboard::Scoreboard;
use breakout::store::{EntityId, EntityStore, StoreError};

fn ball_at(x: i64, y: i64, vx: i64, vy: i64) -> Entity {
    Entity::ball(Vec2::new(x, y), Vec2::new(45, 45), Vec2::new(vx, vy))
}

fn brick_at(x: i64, y: i64) -> Entity {
    Entity::fixed(Kind::Brick, Vec2::new(x, y), Vec2::new(150, 45))
}

fn velocity_of(store: &EntityStore, id: usize) -> Vec2 {
    store.get(EntityId(id)).unwrap().velocity.unwrap()
}

#[test]
fn scoreboard_starts_at_zero_and_counts_by_one() {
    let mut score = Scoreboard::new();
    assert_eq!(score.score(), 0);
    score.increment();
    assert_eq!(score.score(), 1);
    score.increment();
    score.increment();
    assert_eq!(score.score(), 3);
}

#[test]
fn ball_falling_onto_a_brick_bounces_and_scores() {
    // Lengths in thirds of a pixel, time in sixtieths of a second: the ball
    // of 30 by 30 pixels at (0, -50) moves at (200, -200) pixels per second,
    // the brick of 100 by 30 pixels sits at (0, -65).
    let mut store = EntityStore::new();
    let mut score = Scoreboard::new();
    store.create(ball_at(0, -150, 10, -10)).unwrap();
    store.create(brick_at(0, -195)).unwrap();
    assert_eq!(apply_velocity(&mut store, 1), Ok(()));
    assert_eq!(store.get(EntityId(0)).unwrap().position, Vec2::new(10, -160));
    assert_eq!(check_ball_collisions(&mut store, &mut score, EntityId(0)), Ok(()));
    assert_eq!(velocity_of(&store, 0), Vec2::new(10, 10));
    assert_eq!(store.get(EntityId(1)), None);
    assert_eq!(store.query(Capabilities::of_kind(Kind::Brick)), Vec::<EntityId>::new());
    assert_eq!(score.score(), 1);
}

#[test]
fn struck_brick_scores_once_and_never_again() {
    let mut store = EntityStore::new();
    let mut score = Scoreboard::new();
    store.create(ball_at(10, -160, 10, -10)).unwrap();
    store.create(brick_at(0, -195)).unwrap();
    store.create(brick_at(2000, 2000)).unwrap();
    assert_eq!(check_ball_collisions(&mut store, &mut score, EntityId(0)), Ok(()));
    assert_eq!(score.score(), 1);
    assert_eq!(store.query(Capabilities::of_kind(Kind::Brick)), vec![EntityId(2)]);
    // a second test in the same tick, with the ball still in place
    assert_eq!(check_ball_collisions(&mut store, &mut score, EntityId(0)), Ok(()));
    assert_eq!(score.score(), 1);
    assert_eq!(store.query(Capabilities::of_kind(Kind::Brick)), vec![EntityId(2)]);
    assert_eq!(store.destroy(EntityId(1)), Err(StoreError::NoSuchEntity));
    // and in a later tick
    assert_eq!(apply_velocity(&mut store, 1), Ok(()));
    assert_eq!(check_ball_collisions(&mut store, &mut score, EntityId(0)), Ok(()));
    assert_eq!(score.score(), 1);
    assert_eq!(store.get(EntityId(1)), None);
}

#[test]
fn two_bricks_struck_in_one_tick_score_two_and_turn_once() {
    // both bricks are hit on their top; the second test sees the velocity
    // that the first one turned upwards and leaves it alone
    let mut store = EntityStore::new();
    let mut score = Scoreboard::new();
    store.create(ball_at(0, 0, 10, -10)).unwrap();
    store.create(brick_at(-140, -60)).unwrap();
    store.create(brick_at(140, -60)).unwrap();
    assert_eq!(check_ball_collisions(&mut store, &mut score, EntityId(0)), Ok(()));
    assert_eq!(score.score(), 2);
    assert_eq!(velocity_of(&store, 0), Vec2::new(10, 10));
    assert_eq!(store.get(EntityId(1)), None);
    assert_eq!(store.get(EntityId(2)), None);
}

#[test]
fn brick_and_wall_struck_in_one_tick_turn_both_components() {
    let mut store = EntityStore::new();
    let mut score = Scoreboard::new();
    store.create(ball_at(0, 0, 10, -10)).unwrap();
    // wall to the right: overlap x = 45 + 15 - 50 = 10, overlap y = 45 + 915 = 960
    let wall = Entity::fixed(Kind::Wall, Vec2::new(50, 0), Vec2::new(15, 915));
    store.create(wall).unwrap();
    // brick below: overlap x = 195, overlap y = 90 - 60 = 30
    store.create(brick_at(0, -60)).unwrap();
    assert_eq!(check_ball_collisions(&mut store, &mut score, EntityId(0)), Ok(()));
    assert_eq!(velocity_of(&store, 0), Vec2::new(-10, 10));
    assert_eq!(store.get(EntityId(1)), Some(wall));
    assert_eq!(store.get(EntityId(2)), None);
    assert_eq!(score.score(), 1);
}

#[test]
fn ball_embedded_in_a_brick_scores_without_turning() {
    let mut store = EntityStore::new();
    let mut score = Scoreboard::new();
    let big = Entity::fixed(Kind::Brick, Vec2::new(0, 0), Vec2::new(500, 500));
    store.create(big).unwrap();
    store.create(ball_at(3, 4, 10, -10)).unwrap();
    assert_eq!(check_ball_collisions(&mut store, &mut score, EntityId(1)), Ok(()));
    assert_eq!(velocity_of(&store, 1), Vec2::new(10, -10));
    assert_eq!(store.get(EntityId(0)), None);
    assert_eq!(score.score(), 1);
}

#[test]
fn brick_struck_while_moving_away_scores_without_turning() {
    let mut store = EntityStore::new();
    let mut score = Scoreboard::new();
    store.create(ball_at(10, -160, 10, 10)).unwrap();
    store.create(brick_at(0, -195)).unwrap();
    assert_eq!(check_ball_collisions(&mut store, &mut score, EntityId(0)), Ok(()));
    assert_eq!(velocity_of(&store, 0), Vec2::new(10, 10));
    assert_eq!(store.get(EntityId(1)), None);
    assert_eq!(score.score(), 1);
}

#[test]
fn walls_and_paddle_turn_the_ball_and_stay() {
    let mut store = EntityStore::new();
    let mut score = Scoreboard::new();
    let paddle = Entity::fixed(Kind::Paddle, Vec2::new(0, -720), Vec2::new(180, 30));
    store.create(paddle).unwrap();
    store.create(ball_at(20, -650, 10, -10)).unwrap();
    // overlap x = 45 + 180 - 20 = 205, overlap y = 45 + 30 - 70 = 5
    assert_eq!(check_ball_collisions(&mut store, &mut score, EntityId(1)), Ok(()));
    assert_eq!(velocity_of(&store, 1), Vec2::new(10, 10));
    assert_eq!(store.get(EntityId(0)), Some(paddle));
    assert_eq!(score.score(), 0);
}

#[test]
fn ball_is_no_obstacle_for_a_ball() {
    let mut store = EntityStore::new();
    let mut score = Scoreboard::new();
    store.create(ball_at(0, 0, 10, -10)).unwrap();
    store.create(ball_at(5, -50, -10, 10)).unwrap();
    assert_eq!(check_ball_collisions(&mut store, &mut score, EntityId(0)), Ok(()));
    assert_eq!(velocity_of(&store, 0), Vec2::new(10, -10));
    assert_eq!(velocity_of(&store, 1), Vec2::new(-10, 10));
}

#[test]
fn untouched_ball_keeps_its_velocity() {
    let mut store = EntityStore::new();
    let mut score = Scoreboard::new();
    store.create(ball_at(0, 0, 10, -10)).unwrap();
    store.create(brick_at(1000, 1000)).unwrap();
    assert_eq!(check_ball_collisions(&mut store, &mut score, EntityId(0)), Ok(()));
    assert_eq!(store.get(EntityId(0)), Some(ball_at(0, 0, 10, -10)));
    assert_eq!(store.get(EntityId(1)), Some(brick_at(1000, 1000)));
    assert_eq!(score.score(), 0);
}

#[test]
fn resolving_needs_a_living_ball_with_a_velocity() {
    let mut store = EntityStore::new();
    let mut score = Scoreboard::new();
    store.create(brick_at(0, 0)).unwrap();
    store.create(Entity::fixed(Kind::Ball, Vec2::new(0, 0), Vec2::new(45, 45))).unwrap();
    let missing = check_ball_collisions(&mut store, &mut score, EntityId(9));
    assert_eq!(missing, Err(StoreError::NoSuchEntity));
    let brick = check_ball_collisions(&mut store, &mut score, EntityId(0));
    assert_eq!(brick, Err(StoreError::NoSuchEntity));
    let still = check_ball_collisions(&mut store, &mut score, EntityId(1));
    assert_eq!(still, Err(StoreError::NoSuchEntity));
    assert_eq!(store.get(EntityId(0)), Some(brick_at(0, 0)));
    assert_eq!(score.score(), 0);
}
