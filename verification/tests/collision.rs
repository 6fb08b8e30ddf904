use breakout::collision::{collide, reflect, Collision};
use breakout::geometry::{Aabb, Vec2, MAX_COORD};

fn boxed(x: i64, y: i64, hx: i64, hy: i64) -> Aabb {
    let b = Aabb { center: Vec2::new(x, y), half: Vec2::new(hx, hy) };
    assert!(b.is_valid());
    b
}

#[test]
fn boxes_apart_do_not_collide() {
    assert_eq!(collide(boxed(0, 0, 10, 10), boxed(100, 0, 10, 10)), None);
    assert_eq!(collide(boxed(0, 0, 10, 10), boxed(0, -100, 10, 10)), None);
}

#[test]
fn boxes_that_only_touch_do_not_collide() {
    // overlap on x is (10 + 10) - 20 = 0
    assert_eq!(collide(boxed(0, 0, 10, 10), boxed(20, 0, 10, 10)), None);
    // overlap on y is 0, on x it is 20
    assert_eq!(collide(boxed(0, 0, 10, 10), boxed(0, 20, 10, 10)), None);
    // one unit closer and they do
    assert_eq!(collide(boxed(0, 0, 10, 10), boxed(19, 0, 10, 10)), Some(Collision::Left));
}

#[test]
fn smaller_x_overlap_is_a_horizontal_hit() {
    // overlap x = 20 - 15 = 5, overlap y = 20 - 2 = 18
    assert_eq!(collide(boxed(-15, 2, 10, 10), boxed(0, 0, 10, 10)), Some(Collision::Left));
    assert_eq!(collide(boxed(15, 2, 10, 10), boxed(0, 0, 10, 10)), Some(Collision::Right));
}

#[test]
fn smaller_y_overlap_is_a_vertical_hit() {
    // overlap x = 20 - 2 = 18, overlap y = 20 - 15 = 5
    assert_eq!(collide(boxed(2, 15, 10, 10), boxed(0, 0, 10, 10)), Some(Collision::Top));
    assert_eq!(collide(boxed(2, -15, 10, 10), boxed(0, 0, 10, 10)), Some(Collision::Bottom));
}

#[test]
fn equal_overlaps_are_a_vertical_hit() {
    // overlap x = overlap y = 20 - 15 = 5
    assert_eq!(collide(boxed(15, 15, 10, 10), boxed(0, 0, 10, 10)), Some(Collision::Top));
    assert_eq!(collide(boxed(-15, -15, 10, 10), boxed(0, 0, 10, 10)), Some(Collision::Bottom));
}

#[test]
fn box_within_the_obstacle_is_inside() {
    assert_eq!(collide(boxed(3, -2, 10, 10), boxed(0, 0, 50, 50)), Some(Collision::Inside));
    // flush with the obstacle's edges still counts as within
    assert_eq!(collide(boxed(40, 40, 10, 10), boxed(0, 0, 50, 50)), Some(Collision::Inside));
    // one unit further and the right face is struck: overlap x = 19, overlap y = 20
    assert_eq!(collide(boxed(41, 40, 10, 10), boxed(0, 0, 50, 50)), Some(Collision::Right));
}

#[test]
fn ball_sunk_into_a_brick_from_above_hits_its_top() {
    // overlap x = 45 + 150 - 10 = 185, overlap y = 45 + 45 - 35 = 55
    assert_eq!(collide(boxed(10, -160, 45, 45), boxed(0, -195, 150, 45)), Some(Collision::Top));
}

#[test]
fn collide_works_at_the_ends_of_the_coordinate_range() {
    let a = boxed(MAX_COORD, MAX_COORD, MAX_COORD, MAX_COORD);
    let b = boxed(-MAX_COORD, -MAX_COORD, MAX_COORD, MAX_COORD);
    assert_eq!(collide(a, b), None);
    assert_eq!(collide(a, a), Some(Collision::Inside));
}

#[test]
fn ball_moving_right_is_not_turned_by_a_right_hit() {
    let v = Vec2::new(7, 0);
    assert_eq!(reflect(v, Collision::Right), Vec2::new(7, 0));
}

#[test]
fn ball_moving_right_is_turned_by_a_left_hit() {
    let v = Vec2::new(7, 0);
    assert_eq!(reflect(v, Collision::Left), Vec2::new(-7, 0));
}

#[test]
fn reflection_turns_only_a_velocity_that_points_in() {
    assert_eq!(reflect(Vec2::new(-7, 3), Collision::Right), Vec2::new(7, 3));
    assert_eq!(reflect(Vec2::new(-7, 3), Collision::Left), Vec2::new(-7, 3));
    assert_eq!(reflect(Vec2::new(4, -9), Collision::Top), Vec2::new(4, 9));
    assert_eq!(reflect(Vec2::new(4, 9), Collision::Top), Vec2::new(4, 9));
    assert_eq!(reflect(Vec2::new(4, 9), Collision::Bottom), Vec2::new(4, -9));
    assert_eq!(reflect(Vec2::new(4, -9), Collision::Bottom), Vec2::new(4, -9));
}

#[test]
fn inside_hit_leaves_the_velocity_alone() {
    assert_eq!(reflect(Vec2::new(4, -9), Collision::Inside), Vec2::new(4, -9));
}

#[test]
fn reflecting_twice_off_one_face_turns_once() {
    let once = reflect(Vec2::new(5, -6), Collision::Top);
    assert_eq!(reflect(once, Collision::Top), once);
    assert_eq!(once, Vec2::new(5, 6));
}

#[test]
fn reflection_at_the_ends_of_the_coordinate_range() {
    assert_eq!(
        reflect(Vec2::new(-MAX_COORD, MAX_COORD), Collision::Right),
        Vec2::new(MAX_COORD, MAX_COORD)
    );
    assert_eq!(
        reflect(Vec2::new(-MAX_COORD, MAX_COORD), Collision::Bottom),
        Vec2::new(-MAX_COORD, -MAX_COORD)
    );
}

#[test]
fn reflection_takes_any_velocity_that_can_be_negated() {
    assert_eq!(
        reflect(Vec2::new(i64::MIN + 1, i64::MAX), Collision::Right),
        Vec2::new(i64::MAX, i64::MAX)
    );
    assert_eq!(
        reflect(Vec2::new(i64::MIN + 1, i64::MAX), Collision::Bottom),
        Vec2::new(i64::MIN + 1, i64::MIN + 1)
    );
}
