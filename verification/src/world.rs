//! The whole simulation state and its tick: paddle controller, then motion
//! integrator, then collision resolver, each run to completion.

use vstd::prelude::*;
use crate::config::{Config, ConfigError};
use crate::entity::{Capabilities, Entity, Kind};
use crate::motion::{any_stuck, apply_velocity, moved, moved_slots};
use crate::paddle::{move_paddle, steer_spec, PaddleInput};
use crate::resolver::{
    bricks_hit, check_ball_collisions, is_ball, lemma_bricks_accounted, lemma_bricks_agree,
    lemma_bricks_bounded, lemma_free_flight, live_bricks, resolved_slots, struck,
};
use crate::scene::{build_scene, is_scene};
use crate::scoreboard::Scoreboard;
use crate::store::{
    alive, lemma_matching_complete, lemma_matching_sound, EntityId, EntityStore,
};

verus! {

/// Why a tick did not run in full.
#[derive(Clone, Copy, Debug, PartialEq, Eq, Structural)]
pub enum TickError {
    /// An entity would have left the coordinate range and stayed where it
    /// was. The rest of the tick ran as usual.
    OutOfRange,
}

/// A game in progress: the entities, the score, the constants, and which
/// entity is the paddle and which the ball.
#[derive(Clone, Debug)]
pub struct World {
    store: EntityStore,
    score: Scoreboard,
    config: Config,
    paddle: EntityId,
    ball: EntityId,
}

/// Whether `id` names a living paddle.
pub open spec fn is_paddle(slots: Seq<Option<Entity>>, id: EntityId) -> bool {
    alive(slots, id.0 as int) && slots[id.0 as int].unwrap().kind == Kind::Paddle
}

/// What a query for balls asks: the ball role and a velocity.
pub open spec fn ball_query() -> Capabilities {
    Capabilities { collider: false, velocity: true, kind: Some(Kind::Ball) }
}

/// What a query for paddles asks.
pub open spec fn paddle_query() -> Capabilities {
    Capabilities { collider: false, velocity: false, kind: Some(Kind::Paddle) }
}

/// The slots once the paddle has been steered.
pub open spec fn steered_slots(
    slots: Seq<Option<Entity>>,
    paddle: EntityId,
    c: Config,
    input: PaddleInput,
    dt: int,
) -> Seq<Option<Entity>> {
    let e = slots[paddle.0 as int].unwrap();
    slots.update(
        paddle.0 as int,
        Some(
            Entity {
                position: steer_spec(
                    e.position,
                    input,
                    c.paddle_speed as int,
                    dt,
                    c.limits_spec(),
                ),
                ..e
            },
        ),
    )
}

impl World {
    /// The entity store.
    pub closed spec fn store(&self) -> EntityStore {
        self.store
    }

    /// The scoreboard.
    pub closed spec fn scoreboard(&self) -> Scoreboard {
        self.score
    }

    /// The constants of the game.
    pub closed spec fn settings(&self) -> Config {
        self.config
    }

    /// The paddle's identifier.
    pub closed spec fn paddle_id(&self) -> EntityId {
        self.paddle
    }

    /// The ball's identifier.
    pub closed spec fn ball_id(&self) -> EntityId {
        self.ball
    }

    /// The store is well formed, the constants are valid, there is exactly
    /// one living paddle and exactly one living ball with a velocity, and the
    /// scoreboard has room for every living brick.
    pub open spec fn wf(&self) -> bool {
        let slots = self.store()@;
        &&& self.store().wf()
        &&& self.settings().valid()
        &&& self.scoreboard()@ + live_bricks(slots, slots.len()) <= u64::MAX
        &&& is_paddle(slots, self.paddle_id())
        &&& is_ball(slots, self.ball_id())
        &&& forall|i: int|
            alive(slots, i) && (#[trigger] slots[i]).unwrap().kind == Kind::Paddle ==> i
                == self.paddle_id().0
        &&& forall|i: int|
            alive(slots, i) && (#[trigger] slots[i]).unwrap().kind == Kind::Ball
                && slots[i].unwrap().velocity is Some ==> i == self.ball_id().0
    }

    /// The slots as the collision resolver meets them in a tick: after the
    /// paddle was steered and everything with a velocity has moved.
    pub open spec fn before_collisions(&self, input: PaddleInput, dt: int) -> Seq<Option<Entity>> {
        moved_slots(
            steered_slots(self.store()@, self.paddle_id(), self.settings(), input, dt),
            dt,
        )
    }

    /// Checks the constants and sets up the opening scene with a score of
    /// zero. The paddle is entity 0 and the ball entity 1.
    pub fn setup(config: Config) -> (r: Result<World, ConfigError>)
        ensures
            config.verdict() is Err ==> r is Err && r->Err_0 == config.verdict()->Err_0,
            config.verdict() is Ok ==> r is Ok && ({
                let w = r->Ok_0;
                &&& w.wf()
                &&& w.settings() == config
                &&& w.scoreboard()@ == 0
                &&& w.paddle_id() == EntityId(0)
                &&& w.ball_id() == EntityId(1)
                &&& is_scene(config, w.store()@)
            }),
    {
        match config.validate() {
            Err(e) => Err(e),
            Ok(()) => {
                let store = build_scene(&config);
                proof {
                    lemma_bricks_bounded(store@, store@.len());
                }
                Ok(
                    World {
                        store,
                        score: Scoreboard::new(),
                        config,
                        paddle: EntityId(0),
                        ball: EntityId(1),
                    },
                )
            },
        }
    }

    /// Makes a game of a store that was filled by hand. The constants must be
    /// valid, and the store must hold exactly one paddle and exactly one ball
    /// with a velocity; the first of these that fails is the error.
    pub fn assemble(store: EntityStore, config: Config) -> (r: Result<World, ConfigError>)
        requires
            store.wf(),
        ensures
            config.verdict() is Err ==> r is Err && r->Err_0 == config.verdict()->Err_0,
            config.verdict() is Ok && store.query_spec(paddle_query()).len() != 1 ==> r is Err
                && r->Err_0 == ConfigError::PaddleCount,
            config.verdict() is Ok && store.query_spec(paddle_query()).len() == 1
                && store.query_spec(ball_query()).len() != 1 ==> r is Err && r->Err_0
                == ConfigError::BallCount,
            config.verdict() is Ok && store.query_spec(paddle_query()).len() == 1
                && store.query_spec(ball_query()).len() == 1 ==> r is Ok && ({
                let w = r->Ok_0;
                &&& w.wf()
                &&& w.settings() == config
                &&& w.scoreboard()@ == 0
                &&& w.store() == store
                &&& w.paddle_id() == store.query_spec(paddle_query())[0]
                &&& w.ball_id() == store.query_spec(ball_query())[0]
            }),
    {
        match config.validate() {
            Err(e) => {
                return Err(e);
            },
            Ok(()) => {},
        }
        let paddles = store.query(
            Capabilities { collider: false, velocity: false, kind: Some(Kind::Paddle) },
        );
        if paddles.len() != 1 {
            return Err(ConfigError::PaddleCount);
        }
        let balls = store.query(
            Capabilities { collider: false, velocity: true, kind: Some(Kind::Ball) },
        );
        if balls.len() != 1 {
            return Err(ConfigError::BallCount);
        }
        let paddle = paddles[0];
        let ball = balls[0];
        proof {
            let slots = store@;
            lemma_bricks_bounded(slots, slots.len());
            lemma_matching_sound(slots, paddle_query(), slots.len(), 0);
            lemma_matching_sound(slots, ball_query(), slots.len(), 0);
            assert forall|i: int|
                alive(slots, i) && (#[trigger] slots[i]).unwrap().kind
                    == Kind::Paddle implies i == paddle.0 by {
                lemma_matching_complete(slots, paddle_query(), slots.len(), i);
            }
            assert forall|i: int|
                alive(slots, i) && (#[trigger] slots[i]).unwrap().kind == Kind::Ball
                    && slots[i].unwrap().velocity is Some implies i == ball.0 by {
                lemma_matching_complete(slots, ball_query(), slots.len(), i);
            }
        }
        Ok(World { store, score: Scoreboard::new(), config, paddle, ball })
    }

    /// The entity store, to read.
    pub fn entities(&self) -> (s: &EntityStore)
        ensures
            *s == self.store(),
    {
        &self.store
    }

    /// The number of bricks destroyed so far.
    pub fn score(&self) -> (total: u64)
        ensures
            total == self.scoreboard()@,
    {
        self.score.score()
    }

    /// The constants of the game.
    pub fn config(&self) -> (c: Config)
        ensures
            c == self.settings(),
    {
        self.config
    }

    /// The paddle's identifier.
    pub fn paddle(&self) -> (id: EntityId)
        ensures
            id == self.paddle_id(),
    {
        self.paddle
    }

    /// The ball's identifier.
    pub fn ball(&self) -> (id: EntityId)
        ensures
            id == self.ball_id(),
    {
        self.ball
    }

    /// Runs one tick of duration `dt`: the paddle is steered and clamped,
    /// then everything with a velocity moves, then the ball's collisions are
    /// resolved on the positions after the move.
    ///
    /// An entity that cannot move without leaving the coordinate range stays
    /// in place for this tick, which is reported after the rest of the tick
    /// has run.
    pub fn tick(&mut self, input: PaddleInput, dt: i64) -> (r: Result<(), TickError>)
        requires
            old(self).wf(),
        ensures
            final(self).wf(),
            final(self).settings() == old(self).settings(),
            final(self).paddle_id() == old(self).paddle_id(),
            final(self).ball_id() == old(self).ball_id(),
            ({
                let met = old(self).before_collisions(input, dt as int);
                let ball = old(self).ball_id();
                &&& final(self).store()@ == resolved_slots(met, ball)
                &&& final(self).scoreboard()@ == old(self).scoreboard()@ + bricks_hit(
                    met[ball.0 as int].unwrap().bounds(),
                    met,
                    met.len(),
                )
                &&& r == if any_stuck(
                    steered_slots(
                        old(self).store()@,
                        old(self).paddle_id(),
                        old(self).settings(),
                        input,
                        dt as int,
                    ),
                    dt as int,
                    met.len() as int,
                ) {
                    Err::<(), TickError>(TickError::OutOfRange)
                } else {
                    Ok::<(), TickError>(())
                }
            }),
    {
        let ghost first = self.store@;
        let limits = self.config.limits();
        let steered = move_paddle(
            &mut self.store,
            self.paddle,
            input,
            self.config.paddle_speed,
            dt,
            limits,
        );
        assert(steered is Ok);
        let ghost second = self.store@;
        assert(second == steered_slots(first, self.paddle, self.config, input, dt as int));
        let motion = apply_velocity(&mut self.store, dt);
        let ghost third = self.store@;
        proof {
            lemma_bricks_agree(first, third, first.len());
            lemma_bricks_accounted(third, self.ball, third.len());
        }
        let resolved = check_ball_collisions(&mut self.store, &mut self.score, self.ball);
        assert(resolved is Ok);
        match motion {
            Ok(()) => Ok(()),
            Err(_) => Err(TickError::OutOfRange),
        }
    }
}

/// A slot that is empty before a tick is empty after it: what was destroyed
/// stays out of every later query.
pub proof fn lemma_gone_stays_gone(w: World, input: PaddleInput, dt: int, i: int)
    requires
        w.wf(),
        0 <= i < w.store()@.len(),
        w.store()@[i] is None,
    ensures
        resolved_slots(w.before_collisions(input, dt), w.ball_id())[i] is None,
{
}

/// Whatever the input and the tick's duration, a paddle without a velocity
/// of its own ends every tick within the limits of the configuration, on
/// each axis whose limits are in order.
pub proof fn lemma_tick_contains_paddle(w: World, input: PaddleInput, dt: int)
    requires
        w.wf(),
        w.store()@[w.paddle_id().0 as int].unwrap().velocity is None,
    ensures
        ({
            let after = resolved_slots(w.before_collisions(input, dt), w.ball_id());
            let at = after[w.paddle_id().0 as int].unwrap().position;
            let limits = w.settings().limits_spec();
            &&& after[w.paddle_id().0 as int] is Some
            &&& limits.min.x <= limits.max.x ==> limits.min.x <= at.x <= limits.max.x
            &&& limits.min.y <= limits.max.y ==> limits.min.y <= at.y <= limits.max.y
        }),
{
}

/// In a tick in which the ball, once moved, touches nothing, the ball ends
/// where the integrator put it, its velocity is as it was, and the score
/// stays.
pub proof fn lemma_tick_free_flight(w: World, input: PaddleInput, dt: int)
    requires
        w.wf(),
        ({
            let met = w.before_collisions(input, dt);
            let area = met[w.ball_id().0 as int].unwrap().bounds();
            forall|j: int| 0 <= j < met.len() ==> struck(area, #[trigger] met[j]) is None
        }),
    ensures
        ({
            let met = w.before_collisions(input, dt);
            let ball = w.ball_id();
            let area = met[ball.0 as int].unwrap().bounds();
            &&& resolved_slots(met, ball)[ball.0 as int] == Some(
                moved(w.store()@[ball.0 as int].unwrap(), dt),
            )
            &&& bricks_hit(area, met, met.len()) == 0
        }),
{
    let met = w.before_collisions(input, dt);
    let ball = w.ball_id();
    let e = met[ball.0 as int].unwrap();
    lemma_free_flight(e.bounds(), e.velocity.unwrap(), met, met.len());
}

} // verus!
