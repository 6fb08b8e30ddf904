//! The paddle controller: a steering input becomes a position update that is
//! clamped to the playfield on every tick. The paddle is steered and clamped
//! on both axes, each on its own.

use vstd::prelude::*;
use crate::entity::Entity;
use crate::geometry::Vec2;
use crate::store::{alive, EntityId, EntityStore, StoreError};

verus! {

/// The pressed direction along one axis.
#[derive(Clone, Copy, Debug, PartialEq, Eq, Structural)]
pub enum Steer {
    /// Towards smaller coordinates: left or down.
    Negative,
    /// No movement.
    Neutral,
    /// Towards larger coordinates: right or up.
    Positive,
}

/// The pressed directions along both axes.
#[derive(Clone, Copy, Debug, PartialEq, Eq, Structural)]
pub struct PaddleInput {
    pub x: Steer,
    pub y: Steer,
}

/// The interval that each coordinate of the paddle's centre is held to.
#[derive(Clone, Copy, Debug, PartialEq, Eq, Structural)]
pub struct Limits {
    pub min: Vec2,
    pub max: Vec2,
}

impl Steer {
    /// The direction as -1, 0 or 1.
    pub open spec fn sign(self) -> int {
        match self {
            Steer::Negative => -1,
            Steer::Neutral => 0,
            Steer::Positive => 1,
        }
    }

    /// The direction that two opposite keys give: each pressed key pulls its
    /// way, and both together cancel.
    pub fn from_keys(negative: bool, positive: bool) -> (s: Steer)
        ensures
            s.sign() == (if positive { 1int } else { 0 }) - (if negative { 1int } else { 0 }),
    {
        if negative && !positive {
            Steer::Negative
        } else if positive && !negative {
            Steer::Positive
        } else {
            Steer::Neutral
        }
    }
}

impl Limits {
    /// All four ends lie within the coordinate range.
    pub open spec fn valid(&self) -> bool {
        self.min.bounded() && self.max.bounded()
    }

    /// Whether `p` lies within the limits on both axes.
    pub open spec fn contains(&self, p: Vec2) -> bool {
        self.min.x <= p.x <= self.max.x && self.min.y <= p.y <= self.max.y
    }
}

/// `v` held to `[lo, hi]`: the upper end is applied first and the lower end
/// last, so the lower end wins should the two ever cross.
pub open spec fn clamp(v: int, lo: int, hi: int) -> int {
    let capped = if v > hi {
        hi
    } else {
        v
    };
    if capped < lo {
        lo
    } else {
        capped
    }
}

/// One coordinate of the paddle after a tick: the old one plus direction
/// times speed times duration, then clamped.
pub open spec fn steer_axis(at: int, dir: Steer, speed: int, dt: int, lo: int, hi: int) -> int {
    clamp(at + dir.sign() * speed * dt, lo, hi)
}

/// The paddle's centre after a tick, each axis on its own.
pub open spec fn steer_spec(at: Vec2, input: PaddleInput, speed: int, dt: int, limits: Limits)
    -> Vec2 {
    Vec2 {
        x: steer_axis(at.x as int, input.x, speed, dt, limits.min.x as int, limits.max.x as int)
            as i64,
        y: steer_axis(at.y as int, input.y, speed, dt, limits.min.y as int, limits.max.y as int)
            as i64,
    }
}

/// The product of two `i64` values never leaves `i128`.
proof fn lemma_product_fits(a: int, b: int)
    requires
        i64::MIN <= a <= i64::MAX,
        i64::MIN <= b <= i64::MAX,
    ensures
        -0x4000_0000_0000_0000_0000_0000_0000_0000 <= a * b
            <= 0x4000_0000_0000_0000_0000_0000_0000_0000,
{
    assert(-0x4000_0000_0000_0000_0000_0000_0000_0000 <= a * b
        <= 0x4000_0000_0000_0000_0000_0000_0000_0000) by (nonlinear_arith)
        requires
            -0x8000_0000_0000_0000 <= a <= 0x8000_0000_0000_0000,
            -0x8000_0000_0000_0000 <= b <= 0x8000_0000_0000_0000,
    ;
}

/// What direction times speed times duration comes to, direction by
/// direction.
pub proof fn lemma_signed_step(dir: Steer, speed: int, dt: int)
    ensures
        dir.sign() * speed * dt == match dir {
            Steer::Negative => -(speed * dt),
            Steer::Neutral => 0,
            Steer::Positive => speed * dt,
        },
{
    assert((-1) * speed * dt == -(speed * dt)) by (nonlinear_arith);
    assert(1 * speed * dt == speed * dt) by (nonlinear_arith);
    assert(0 * speed * dt == 0) by (nonlinear_arith);
}

/// Moves one coordinate and clamps it.
fn steer_one(at: i64, dir: Steer, speed: i64, dt: i64, lo: i64, hi: i64) -> (out: i64)
    ensures
        out == steer_axis(at as int, dir, speed as int, dt as int, lo as int, hi as int),
{
    proof {
        lemma_product_fits(speed as int, dt as int);
    }
    let step: i128 = (speed as i128) * (dt as i128);
    let signed: i128 = match dir {
        Steer::Negative => -step,
        Steer::Neutral => 0,
        Steer::Positive => step,
    };
    proof {
        lemma_signed_step(dir, speed as int, dt as int);
    }
    let target: i128 = (at as i128) + signed;
    let capped: i128 = if target > hi as i128 {
        hi as i128
    } else {
        target
    };
    if capped < lo as i128 {
        lo
    } else {
        capped as i64
    }
}

/// The paddle's centre after one tick of steering.
pub fn steer(at: Vec2, input: PaddleInput, speed: i64, dt: i64, limits: Limits) -> (out: Vec2)
    ensures
        out == steer_spec(at, input, speed as int, dt as int, limits),
        limits.min.x <= limits.max.x ==> limits.min.x <= out.x <= limits.max.x,
        limits.min.y <= limits.max.y ==> limits.min.y <= out.y <= limits.max.y,
        limits.valid() ==> out.bounded(),
{
    Vec2 {
        x: steer_one(at.x, input.x, speed, dt, limits.min.x, limits.max.x),
        y: steer_one(at.y, input.y, speed, dt, limits.min.y, limits.max.y),
    }
}

/// Steers the entity `paddle` of the store for one tick. An identifier that
/// names no living entity is an error and changes nothing.
pub fn move_paddle(
    store: &mut EntityStore,
    paddle: EntityId,
    input: PaddleInput,
    speed: i64,
    dt: i64,
    limits: Limits,
) -> (r: Result<(), StoreError>)
    requires
        old(store).wf(),
        limits.valid(),
    ensures
        final(store).wf(),
        alive(old(store)@, paddle.0 as int) ==> r is Ok && final(store)@ == old(store)@.update(
            paddle.0 as int,
            Some(
                Entity {
                    position: steer_spec(
                        old(store)@[paddle.0 as int].unwrap().position,
                        input,
                        speed as int,
                        dt as int,
                        limits,
                    ),
                    ..old(store)@[paddle.0 as int].unwrap()
                },
            ),
        ),
        !alive(old(store)@, paddle.0 as int) ==> r == Err::<(), StoreError>(
            StoreError::NoSuchEntity,
        ) && final(store)@ == old(store)@,
{
    match store.get(paddle) {
        None => Err(StoreError::NoSuchEntity),
        Some(e) => {
            let to = steer(e.position, input, speed, dt, limits);
            store.set_position(paddle, to)
        },
    }
}

/// The position reached from `at` by steering through the first `n` inputs
/// of `inputs`, one tick each.
pub open spec fn steer_many(
    at: Vec2,
    inputs: Seq<PaddleInput>,
    n: nat,
    speed: int,
    dt: int,
    limits: Limits,
) -> Vec2
    decreases n,
{
    if n == 0 || n > inputs.len() {
        at
    } else {
        steer_spec(
            steer_many(at, inputs, (n - 1) as nat, speed, dt, limits),
            inputs[n - 1],
            speed,
            dt,
            limits,
        )
    }
}

/// Whatever the inputs and however many ticks there are, the paddle's centre
/// lies within its limits on every axis whose limits are in order: from the
/// first tick on in any case, and from the start if it started within them.
pub proof fn lemma_paddle_contained(
    at: Vec2,
    inputs: Seq<PaddleInput>,
    n: nat,
    speed: int,
    dt: int,
    limits: Limits,
)
    requires
        n <= inputs.len(),
    ensures
        ({
            let end = steer_many(at, inputs, n, speed, dt, limits);
            &&& limits.min.x <= limits.max.x && (n >= 1 || limits.min.x <= at.x <= limits.max.x)
                ==> limits.min.x <= end.x <= limits.max.x
            &&& limits.min.y <= limits.max.y && (n >= 1 || limits.min.y <= at.y <= limits.max.y)
                ==> limits.min.y <= end.y <= limits.max.y
        }),
{
}

/// A paddle that rests on the lower end of an axis and is steered further
/// that way stays where it is, for as long as the speed and the tick are not
/// negative; likewise at the upper end.
pub proof fn lemma_paddle_rests_at_limit(at: int, speed: int, dt: int, lo: int, hi: int)
    requires
        lo <= hi,
        speed >= 0,
        dt >= 0,
    ensures
        steer_axis(lo, Steer::Negative, speed, dt, lo, hi) == lo,
        steer_axis(hi, Steer::Positive, speed, dt, lo, hi) == hi,
        lo <= at <= hi ==> steer_axis(at, Steer::Neutral, speed, dt, lo, hi) == at,
{
    assert(speed * dt >= 0) by (nonlinear_arith)
        requires
            speed >= 0,
            dt >= 0,
    ;
    lemma_signed_step(Steer::Negative, speed, dt);
    lemma_signed_step(Steer::Neutral, speed, dt);
    lemma_signed_step(Steer::Positive, speed, dt);
}

} // verus!
