//! A fixed-timestep brick-breaker simulation core on integer coordinates.
//!
//! A game is a [`world::World`]: an arena of entities, a scoreboard and the
//! constants it was set up from. One call of `tick` steers and clamps the
//! paddle, then moves everything that has a velocity, then tests the ball
//! against every obstacle, turning its velocity and destroying and scoring
//! the bricks it struck.
//!
//! Every length is a whole number of a sub-pixel unit and every duration a
//! whole number of a time unit, so a run is exact and repeats bit for bit.
//! Boxes are a centre and half-extents. All coordinates stay within
//! [`geometry::MAX_COORD`].
//!
//! - `geometry`: coordinates, vectors, boxes
//! - `entity`: what one simulated object is
//! - `store`: the arena that owns the entities
//! - `scoreboard`: the count of destroyed bricks
//! - `config`: the constants of a game and what follows from them
//! - `scene`: the opening scene
//! - `paddle`: the paddle controller
//! - `motion`: the motion integrator
//! - `collision`: overlap test, struck side, reflection
//! - `resolver`: the collision resolver
//! - `world`: the whole state and its tick

pub mod collision;
pub mod config;
pub mod entity;
pub mod geometry;
pub mod motion;
pub mod paddle;
pub mod resolver;
pub mod scene;
pub mod scoreboard;
pub mod store;
pub mod world;
