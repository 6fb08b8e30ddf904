//! What one simulated object is: its role, where it is, how large it is and
//! how fast it moves.

use vstd::prelude::*;
use crate::geometry::{Aabb, Vec2};

verus! {

/// The role of an entity in the game.
#[derive(Clone, Copy, Debug, PartialEq, Eq, Structural)]
pub enum Kind {
    /// The player-controlled bat.
    Paddle,
    /// The moving ball. It is never an obstacle for itself or another ball.
    Ball,
    /// A static boundary.
    Wall,
    /// A destructible obstacle, removed on first impact.
    Brick,
}

/// One simulated object as a tagged record.
#[derive(Clone, Copy, Debug, PartialEq, Eq)]
pub struct Entity {
    pub kind: Kind,
    /// Centre of the object.
    pub position: Vec2,
    /// Draw order; it plays no part in the simulation.
    pub layer: i64,
    /// Half-width and half-height of the object's box.
    pub half: Vec2,
    /// Displacement per unit of time, for objects that move by themselves.
    pub velocity: Option<Vec2>,
}

/// Attributes asked of an entity by a query. Every requested attribute must
/// be present; a request with nothing set matches every entity.
#[derive(Clone, Copy, Debug, PartialEq, Eq)]
pub struct Capabilities {
    /// The entity is an obstacle for the ball.
    pub collider: bool,
    /// The entity has a velocity.
    pub velocity: bool,
    /// The entity has this role.
    pub kind: Option<Kind>,
}

impl Entity {
    /// Position and velocity are within the coordinate range and the box has
    /// strictly positive half-extents.
    pub open spec fn valid(&self) -> bool {
        &&& self.half.positive()
        &&& self.position.bounded()
        &&& (self.velocity matches Some(v) ==> v.bounded())
    }

    /// The box the entity occupies.
    pub open spec fn bounds(&self) -> Aabb {
        Aabb { center: self.position, half: self.half }
    }

    /// Whether the entity is an obstacle for the ball: everything but a ball.
    pub open spec fn is_collider(&self) -> bool {
        self.kind != Kind::Ball
    }

    /// Whether the entity holds every attribute in `want`.
    pub open spec fn has(&self, want: Capabilities) -> bool {
        &&& (want.collider ==> self.is_collider())
        &&& (want.velocity ==> self.velocity is Some)
        &&& (want.kind matches Some(k) ==> self.kind == k)
    }

    /// A motionless entity of the given role on layer zero.
    pub fn fixed(kind: Kind, position: Vec2, half: Vec2) -> (e: Entity)
        ensures
            e == (Entity { kind, position, layer: 0, half, velocity: None }),
    {
        Entity { kind, position, layer: 0, half, velocity: None }
    }

    /// A ball on layer one with the given velocity.
    pub fn ball(position: Vec2, half: Vec2, velocity: Vec2) -> (e: Entity)
        ensures
            e == (Entity { kind: Kind::Ball, position, layer: 1, half, velocity: Some(velocity) }),
    {
        Entity { kind: Kind::Ball, position, layer: 1, half, velocity: Some(velocity) }
    }

    /// Tests `valid`.
    pub fn is_valid(&self) -> (ok: bool)
        ensures
            ok == self.valid(),
    {
        let velocity_ok: bool = match self.velocity {
            Some(v) => v.is_bounded(),
            None => true,
        };
        self.half.is_positive() && self.position.is_bounded() && velocity_ok
    }

    /// The box the entity occupies.
    pub fn aabb(&self) -> (b: Aabb)
        ensures
            b == self.bounds(),
    {
        Aabb { center: self.position, half: self.half }
    }

    /// Tests `has`.
    pub fn matches(&self, want: Capabilities) -> (ok: bool)
        ensures
            ok == self.has(want),
    {
        let collider_ok: bool = !want.collider || !self.kind.same(Kind::Ball);
        let velocity_ok: bool = !want.velocity || self.velocity.is_some();
        let kind_ok: bool = match want.kind {
            Some(k) => self.kind.same(k),
            None => true,
        };
        collider_ok && velocity_ok && kind_ok
    }
}

impl Kind {
    /// Whether two roles are the same.
    pub fn same(self, other: Kind) -> (eq: bool)
        ensures
            eq == (self == other),
    {
        self == other
    }
}

impl Capabilities {
    /// Matches every entity.
    pub fn any() -> (want: Capabilities)
        ensures
            want == (Capabilities { collider: false, velocity: false, kind: None }),
    {
        Capabilities { collider: false, velocity: false, kind: None }
    }

    /// Matches the obstacles: every entity but a ball.
    pub fn colliders() -> (want: Capabilities)
        ensures
            want == (Capabilities { collider: true, velocity: false, kind: None }),
    {
        Capabilities { collider: true, velocity: false, kind: None }
    }

    /// Matches the entities that have a velocity.
    pub fn movers() -> (want: Capabilities)
        ensures
            want == (Capabilities { collider: false, velocity: true, kind: None }),
    {
        Capabilities { collider: false, velocity: true, kind: None }
    }

    /// Matches the entities of one role.
    pub fn of_kind(kind: Kind) -> (want: Capabilities)
        ensures
            want == (Capabilities { collider: false, velocity: false, kind: Some(kind) }),
    {
        Capabilities { collider: false, velocity: false, kind: Some(kind) }
    }
}

} // verus!
