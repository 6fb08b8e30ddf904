//! The motion integrator: every entity with a velocity advances by velocity
//! times the tick's duration, each axis on its own.

use vstd::prelude::*;
use crate::entity::Entity;
use crate::geometry::{in_range, Vec2, MAX_COORD};
use crate::store::{EntityId, EntityStore};

verus! {

/// Why a tick of motion was not applied to everything that moves.
#[derive(Clone, Copy, Debug, PartialEq, Eq, Structural)]
pub enum MotionError {
    /// At least one entity would have left the coordinate range. Such an
    /// entity stays where it was; all others have moved.
    OutOfRange,
}

/// One coordinate after `n` ticks of `dt` at constant velocity `v`.
pub open spec fn drift(at: int, v: int, dt: int, n: int) -> int {
    at + n * dt * v
}

/// Whether the position reached from `at` after one tick lies within the
/// coordinate range on both axes.
pub open spec fn reachable(at: Vec2, v: Vec2, dt: int) -> bool {
    in_range(drift(at.x as int, v.x as int, dt, 1)) && in_range(
        drift(at.y as int, v.y as int, dt, 1),
    )
}

/// The position after one tick, or nothing when it is not reachable.
pub open spec fn advance_spec(at: Vec2, v: Vec2, dt: int) -> Option<Vec2> {
    if reachable(at, v, dt) {
        Some(
            Vec2 {
                x: drift(at.x as int, v.x as int, dt, 1) as i64,
                y: drift(at.y as int, v.y as int, dt, 1) as i64,
            },
        )
    } else {
        None
    }
}

/// Whether the entity moves by itself and cannot take its next step.
pub open spec fn stuck(e: Entity, dt: int) -> bool {
    e.velocity matches Some(v) && !reachable(e.position, v, dt)
}

/// The entity after one tick: moved where it has a velocity and the new
/// position is reachable, else as it was.
pub open spec fn moved(e: Entity, dt: int) -> Entity {
    match e.velocity {
        Some(v) => match advance_spec(e.position, v, dt) {
            Some(to) => Entity { position: to, ..e },
            None => e,
        },
        None => e,
    }
}

/// A slot after one tick.
pub open spec fn moved_slot(slot: Option<Entity>, dt: int) -> Option<Entity> {
    match slot {
        Some(e) => Some(moved(e, dt)),
        None => None,
    }
}

/// The slots once everything with a velocity has moved.
pub open spec fn moved_slots(slots: Seq<Option<Entity>>, dt: int) -> Seq<Option<Entity>> {
    Seq::new(slots.len(), |i: int| moved_slot(slots[i], dt))
}

/// Whether some living entity among the first `n` slots is stuck.
pub open spec fn any_stuck(slots: Seq<Option<Entity>>, dt: int, n: int) -> bool {
    exists|i: int|
        0 <= i < n && i < slots.len() && slots[i] is Some && stuck(
            #[trigger] slots[i].unwrap(),
            dt,
        )
}

/// One coordinate after one tick, when it stays within the coordinate range.
fn advance_axis(at: i64, v: i64, dt: i64) -> (r: Option<i64>)
    ensures
        in_range(drift(at as int, v as int, dt as int, 1)) ==> r == Some(
            drift(at as int, v as int, dt as int, 1) as i64,
        ),
        !in_range(drift(at as int, v as int, dt as int, 1)) ==> r is None,
{
    assert(-0x4000_0000_0000_0000_0000_0000_0000_0000 <= v * dt
        <= 0x4000_0000_0000_0000_0000_0000_0000_0000) by (nonlinear_arith)
        requires
            -0x8000_0000_0000_0000 <= v <= 0x8000_0000_0000_0000,
            -0x8000_0000_0000_0000 <= dt <= 0x8000_0000_0000_0000,
    ;
    assert(1 * dt * v == v * dt) by (nonlinear_arith);
    let to: i128 = (at as i128) + (v as i128) * (dt as i128);
    if -(MAX_COORD as i128) <= to && to <= MAX_COORD as i128 {
        Some(to as i64)
    } else {
        None
    }
}

/// The position after one tick at velocity `v`, or nothing when it would lie
/// beyond the coordinate range.
pub fn advance(at: Vec2, v: Vec2, dt: i64) -> (r: Option<Vec2>)
    ensures
        r == advance_spec(at, v, dt as int),
        r matches Some(to) ==> to.bounded(),
{
    match advance_axis(at.x, v.x, dt) {
        None => None,
        Some(x) => match advance_axis(at.y, v.y, dt) {
            None => None,
            Some(y) => Some(Vec2 { x, y }),
        },
    }
}

/// Advances every entity that has a velocity by one tick of duration `dt`.
/// An entity whose new position would lie beyond the coordinate range stays
/// where it was, and the result then reports it; the others move all the
/// same.
pub fn apply_velocity(store: &mut EntityStore, dt: i64) -> (r: Result<(), MotionError>)
    requires
        old(store).wf(),
    ensures
        final(store).wf(),
        final(store)@ == moved_slots(old(store)@, dt as int),
        r is Err <==> any_stuck(old(store)@, dt as int, old(store)@.len() as int),
{
    let ghost before = store@;
    let n: usize = store.len();
    let mut clean: bool = true;
    let mut i: usize = 0;
    while i < n
        invariant
            store.wf(),
            n == before.len(),
            store@.len() == n,
            i <= n,
            forall|j: int| 0 <= j < i ==> #[trigger] store@[j] == moved_slot(before[j], dt as int),
            forall|j: int| i <= j < n ==> #[trigger] store@[j] == before[j],
            !clean <==> any_stuck(before, dt as int, i as int),
        decreases n - i,
    {
        let ghost was_stuck = any_stuck(before, dt as int, i as int);
        match store.get(EntityId(i)) {
            Some(e) => match e.velocity {
                Some(v) => match advance(e.position, v, dt) {
                    Some(to) => {
                        let done = store.set_position(EntityId(i), to);
                        assert(done is Ok);
                    },
                    None => {
                        clean = false;
                        assert(stuck(before[i as int].unwrap(), dt as int));
                    },
                },
                None => {},
            },
            None => {},
        }
        proof {
            assert(store@[i as int] == moved_slot(before[i as int], dt as int));
            if any_stuck(before, dt as int, i + 1) {
                let k = choose|k: int|
                    0 <= k < i + 1 && k < before.len() && before[k] is Some && stuck(
                        #[trigger] before[k].unwrap(),
                        dt as int,
                    );
                if k < i {
                    assert(was_stuck);
                }
            }
            if was_stuck {
                let k = choose|k: int|
                    0 <= k < i && k < before.len() && before[k] is Some && stuck(
                        #[trigger] before[k].unwrap(),
                        dt as int,
                    );
                assert(any_stuck(before, dt as int, i + 1));
            }
        }
        i = i + 1;
    }
    assert(store@ =~= moved_slots(before, dt as int));
    if clean {
        Ok(())
    } else {
        Err(MotionError::OutOfRange)
    }
}

/// The entity after `n` ticks of duration `dt`.
pub open spec fn moved_many(e: Entity, dt: int, n: nat) -> Entity
    decreases n,
{
    if n == 0 {
        e
    } else {
        moved(moved_many(e, dt, (n - 1) as nat), dt)
    }
}

/// An entity that moves freely for `n` ticks ends at its first position plus
/// `n` times the duration times its velocity, exactly, provided that every
/// position on the way lies within the coordinate range. Its velocity and
/// everything else about it are as they were.
pub proof fn lemma_steady_motion(e: Entity, v: Vec2, dt: int, n: nat)
    requires
        e.velocity == Some(v),
        forall|k: int|
            1 <= k <= n ==> in_range(#[trigger] drift(e.position.x as int, v.x as int, dt, k))
                && in_range(drift(e.position.y as int, v.y as int, dt, k)),
    ensures
        moved_many(e, dt, n) == (Entity {
            position: Vec2 {
                x: drift(e.position.x as int, v.x as int, dt, n as int) as i64,
                y: drift(e.position.y as int, v.y as int, dt, n as int) as i64,
            },
            ..e
        }),
    decreases n,
{
    if n == 0 {
        assert(0 * dt * v.x == 0) by (nonlinear_arith);
        assert(0 * dt * v.y == 0) by (nonlinear_arith);
    } else {
        lemma_steady_motion(e, v, dt, (n - 1) as nat);
        let prev = moved_many(e, dt, (n - 1) as nat);
        let px = e.position.x as int;
        let py = e.position.y as int;
        let vx = v.x as int;
        let vy = v.y as int;
        assert(drift(px, vx, dt, n - 1) + 1 * dt * vx == drift(px, vx, dt, n as int))
            by (nonlinear_arith);
        assert(drift(py, vy, dt, n - 1) + 1 * dt * vy == drift(py, vy, dt, n as int))
            by (nonlinear_arith);
        assert(in_range(drift(px, vx, dt, n as int)));
        if n > 1 {
            assert(in_range(drift(px, vx, dt, n - 1)));
        } else {
            assert(0 * dt * vx == 0) by (nonlinear_arith);
            assert(0 * dt * vy == 0) by (nonlinear_arith);
        }
    }
}

} // verus!
