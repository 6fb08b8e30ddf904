//! The collision resolver: one ball is tested against every obstacle in
//! order of creation; each hit may turn the ball's velocity, and each struck
//! brick is destroyed and scored exactly once.

use vstd::prelude::*;
use crate::collision::{bounce_spec, collide, collide_spec, reflect, Collision};
use crate::entity::{Capabilities, Entity, Kind};
use crate::geometry::{Aabb, Vec2};
use crate::scoreboard::Scoreboard;
use crate::store::{alive, lemma_matching_sound, matching, EntityId, EntityStore, StoreError};

verus! {

/// The outcome of testing the ball's box against one slot. An empty slot and
/// a ball are no obstacles.
pub open spec fn struck(ball: Aabb, slot: Option<Entity>) -> Option<Collision> {
    match slot {
        Some(e) => if e.is_collider() {
            collide_spec(ball, e.bounds())
        } else {
            None
        },
        None => None,
    }
}

/// Whether the slot holds a brick that the ball's box collides with, on
/// whatever side and be it from inside.
pub open spec fn shattered(ball: Aabb, slot: Option<Entity>) -> bool {
    slot is Some && slot.unwrap().kind == Kind::Brick && struck(ball, slot) is Some
}

/// The slot once the ball has been tested against it: a struck brick is
/// gone, everything else is as it was.
pub open spec fn after_impact(ball: Aabb, slot: Option<Entity>) -> Option<Entity> {
    if shattered(ball, slot) {
        None
    } else {
        slot
    }
}

/// The ball's velocity after it has been tested against the first `n` slots
/// in order, each test seeing the velocity that the one before left.
pub open spec fn velocity_after(ball: Aabb, v: Vec2, slots: Seq<Option<Entity>>, n: nat) -> Vec2
    decreases n,
{
    if n == 0 || n > slots.len() {
        v
    } else {
        bounce_spec(velocity_after(ball, v, slots, (n - 1) as nat), struck(ball, slots[n - 1]))
    }
}

/// The number of bricks among the first `n` slots that the ball's box
/// collides with.
pub open spec fn bricks_hit(ball: Aabb, slots: Seq<Option<Entity>>, n: nat) -> nat
    decreases n,
{
    if n == 0 || n > slots.len() {
        0
    } else {
        bricks_hit(ball, slots, (n - 1) as nat) + if shattered(ball, slots[n - 1]) {
            1nat
        } else {
            0nat
        }
    }
}

/// Whether `id` names a living ball that has a velocity.
pub open spec fn is_ball(slots: Seq<Option<Entity>>, id: EntityId) -> bool {
    alive(slots, id.0 as int) && slots[id.0 as int].unwrap().kind == Kind::Ball
        && slots[id.0 as int].unwrap().velocity is Some
}

/// What resolving the collisions of ball `id` makes of slot `i`: the ball
/// gets its new velocity, a struck brick is gone, all else stays.
pub open spec fn resolved_slot(slots: Seq<Option<Entity>>, id: EntityId, i: int) -> Option<
    Entity,
> {
    let ball = slots[id.0 as int].unwrap();
    if i == id.0 {
        Some(
            Entity {
                velocity: Some(
                    velocity_after(ball.bounds(), ball.velocity.unwrap(), slots, slots.len()),
                ),
                ..ball
            },
        )
    } else {
        after_impact(ball.bounds(), slots[i])
    }
}

/// Whether the slot holds a living brick.
pub open spec fn holds_brick(slot: Option<Entity>) -> bool {
    slot is Some && slot.unwrap().kind == Kind::Brick
}

/// The number of living bricks among the first `n` slots.
pub open spec fn live_bricks(slots: Seq<Option<Entity>>, n: nat) -> nat
    decreases n,
{
    if n == 0 || n > slots.len() {
        0
    } else {
        live_bricks(slots, (n - 1) as nat) + if holds_brick(slots[n - 1]) {
            1nat
        } else {
            0nat
        }
    }
}

/// No more bricks are hit than live.
pub proof fn lemma_hits_within_bricks(ball: Aabb, slots: Seq<Option<Entity>>, n: nat)
    ensures
        bricks_hit(ball, slots, n) <= live_bricks(slots, n),
    decreases n,
{
    if n > 0 && n <= slots.len() {
        lemma_hits_within_bricks(ball, slots, (n - 1) as nat);
    }
}

/// No more bricks live than there are slots.
pub proof fn lemma_bricks_bounded(slots: Seq<Option<Entity>>, n: nat)
    ensures
        live_bricks(slots, n) <= n,
    decreases n,
{
    if n > 0 && n <= slots.len() {
        lemma_bricks_bounded(slots, (n - 1) as nat);
    }
}

/// Among more slots there are no fewer living bricks.
pub proof fn lemma_bricks_grow(slots: Seq<Option<Entity>>, i: nat, n: nat)
    requires
        i <= n <= slots.len(),
    ensures
        live_bricks(slots, i) <= live_bricks(slots, n),
    decreases n,
{
    if i < n {
        lemma_bricks_grow(slots, i, (n - 1) as nat);
    }
}

/// Slots that hold bricks in the same places hold equally many.
pub proof fn lemma_bricks_agree(a: Seq<Option<Entity>>, b: Seq<Option<Entity>>, n: nat)
    requires
        n <= a.len(),
        n <= b.len(),
        forall|j: int| 0 <= j < n ==> holds_brick(a[j]) == holds_brick(b[j]),
    ensures
        live_bricks(a, n) == live_bricks(b, n),
    decreases n,
{
    if n > 0 {
        lemma_bricks_agree(a, b, (n - 1) as nat);
    }
}

/// Tests ball `ball` against every obstacle of the store, in order of
/// creation. Each hit reflects the velocity as the struck side demands, on
/// the velocity that the hits before it left. Each brick hit is destroyed and
/// adds one to the score, whether or not the velocity turned. An identifier
/// that names no living ball with a velocity is an error and changes nothing.
pub fn check_ball_collisions(
    store: &mut EntityStore,
    score: &mut Scoreboard,
    ball: EntityId,
) -> (r: Result<(), StoreError>)
    requires
        old(store).wf(),
        old(score)@ + live_bricks(old(store)@, old(store)@.len()) <= u64::MAX,
    ensures
        final(store).wf(),
        is_ball(old(store)@, ball) ==> r is Ok,
        is_ball(old(store)@, ball) ==> final(store)@ == resolved_slots(old(store)@, ball),
        is_ball(old(store)@, ball) ==> final(score)@ == old(score)@ + bricks_hit(
            old(store)@[ball.0 as int].unwrap().bounds(),
            old(store)@,
            old(store)@.len(),
        ),
        !is_ball(old(store)@, ball) ==> r == Err::<(), StoreError>(StoreError::NoSuchEntity),
        !is_ball(old(store)@, ball) ==> final(store)@ == old(store)@,
        !is_ball(old(store)@, ball) ==> final(score)@ == old(score)@,
{
    let ghost before = store@;
    let ghost score_before = score@;
    let me = match store.get(ball) {
        Some(e) => e,
        None => {
            return Err(StoreError::NoSuchEntity);
        },
    };
    if !me.kind.same(Kind::Ball) {
        return Err(StoreError::NoSuchEntity);
    }
    let v0 = match me.velocity {
        Some(v) => v,
        None => {
            return Err(StoreError::NoSuchEntity);
        },
    };
    let area = me.aabb();
    let n: usize = store.len();
    let mut v: Vec2 = v0;
    let mut i: usize = 0;
    while i < n
        invariant
            store.wf(),
            n == before.len(),
            store@.len() == n,
            i <= n,
            area.valid(),
            v.bounded(),
            is_ball(before, ball),
            area == before[ball.0 as int].unwrap().bounds(),
            forall|j: int| 0 <= j < i ==> #[trigger] store@[j] == after_impact(area, before[j]),
            forall|j: int| i <= j < n ==> #[trigger] store@[j] == before[j],
            v == velocity_after(area, v0, before, i as nat),
            score@ == score_before + bricks_hit(area, before, i as nat),
            score_before + live_bricks(before, n as nat) <= u64::MAX,
        decreases n - i,
    {
        proof {
            lemma_hits_within_bricks(area, before, (i + 1) as nat);
            lemma_bricks_grow(before, (i + 1) as nat, n as nat);
        }
        match store.get(EntityId(i)) {
            Some(e) => {
                if !e.kind.same(Kind::Ball) {
                    match collide(area, e.aabb()) {
                        Some(side) => {
                            v = reflect(v, side);
                            if e.kind.same(Kind::Brick) {
                                score.increment();
                                let gone = store.destroy(EntityId(i));
                                assert(gone is Ok);
                            }
                        },
                        None => {},
                    }
                }
            },
            None => {},
        }
        i = i + 1;
    }
    let done = store.set_velocity(ball, v);
    assert(done is Ok);
    assert(store@ =~= resolved_slots(before, ball));
    Ok(())
}

/// The slots once the collisions of ball `ball` have been resolved.
pub open spec fn resolved_slots(slots: Seq<Option<Entity>>, ball: EntityId) -> Seq<
    Option<Entity>,
> {
    Seq::new(slots.len(), |i: int| resolved_slot(slots, ball, i))
}

/// Slots that agree on their first `n` entries have the same bricks hit
/// among them.
pub proof fn lemma_hits_agree(
    ball: Aabb,
    a: Seq<Option<Entity>>,
    b: Seq<Option<Entity>>,
    n: nat,
)
    requires
        n <= a.len(),
        n <= b.len(),
        forall|j: int| 0 <= j < n ==> a[j] == b[j],
    ensures
        bricks_hit(ball, a, n) == bricks_hit(ball, b, n),
    decreases n,
{
    if n > 0 {
        lemma_hits_agree(ball, a, b, (n - 1) as nat);
    }
}

/// Destroying a struck brick is worth exactly one point: with the brick in
/// place, one brick more is hit than with its slot empty.
pub proof fn lemma_brick_counts_once(ball: Aabb, slots: Seq<Option<Entity>>, n: nat, i: int)
    requires
        0 <= i < n <= slots.len(),
        shattered(ball, slots[i]),
    ensures
        bricks_hit(ball, slots, n) == bricks_hit(ball, slots.update(i, None), n) + 1,
    decreases n,
{
    let gone = slots.update(i, None);
    if i == n - 1 {
        lemma_hits_agree(ball, slots, gone, (n - 1) as nat);
    } else {
        lemma_brick_counts_once(ball, slots, (n - 1) as nat, i);
    }
}

/// A brick that is struck is gone once the collisions are resolved, and no
/// query yields it any more, whatever is asked for.
pub proof fn lemma_struck_brick_is_gone(
    slots: Seq<Option<Entity>>,
    ball: EntityId,
    want: Capabilities,
    i: int,
)
    requires
        slots.len() <= usize::MAX,
        is_ball(slots, ball),
        0 <= i < slots.len(),
        shattered(slots[ball.0 as int].unwrap().bounds(), slots[i]),
    ensures
        resolved_slots(slots, ball)[i] is None,
        !matching(resolved_slots(slots, ball), want, slots.len()).contains(EntityId(i as usize)),
{
    let after = resolved_slots(slots, ball);
    let ids = matching(after, want, slots.len());
    if ids.contains(EntityId(i as usize)) {
        let k = choose|k: int| 0 <= k < ids.len() && ids[k] == EntityId(i as usize);
        lemma_matching_sound(after, want, slots.len(), k);
    }
}

/// No brick is counted twice: when the same ball is tested again against
/// the slots that a resolution left, it hits no brick at all.
pub proof fn lemma_no_double_count(slots: Seq<Option<Entity>>, ball: EntityId, n: nat)
    requires
        is_ball(slots, ball),
        n <= slots.len(),
    ensures
        bricks_hit(
            slots[ball.0 as int].unwrap().bounds(),
            resolved_slots(slots, ball),
            n,
        ) == 0,
    decreases n,
{
    if n > 0 {
        lemma_no_double_count(slots, ball, (n - 1) as nat);
    }
}

/// Every brick that lived before the collisions were resolved either lives
/// on or was hit: the bricks left and the bricks hit add up to the bricks
/// there were.
pub proof fn lemma_bricks_accounted(slots: Seq<Option<Entity>>, ball: EntityId, n: nat)
    requires
        is_ball(slots, ball),
        n <= slots.len(),
    ensures
        live_bricks(resolved_slots(slots, ball), n) + bricks_hit(
            slots[ball.0 as int].unwrap().bounds(),
            slots,
            n,
        ) == live_bricks(slots, n),
    decreases n,
{
    if n > 0 {
        lemma_bricks_accounted(slots, ball, (n - 1) as nat);
    }
}

/// A ball that touches nothing among the first `n` slots keeps its velocity
/// and hits no brick.
pub proof fn lemma_free_flight(ball: Aabb, v: Vec2, slots: Seq<Option<Entity>>, n: nat)
    requires
        n <= slots.len(),
        forall|j: int| 0 <= j < n ==> struck(ball, #[trigger] slots[j]) is None,
    ensures
        velocity_after(ball, v, slots, n) == v,
        bricks_hit(ball, slots, n) == 0,
    decreases n,
{
    if n > 0 {
        lemma_free_flight(ball, v, slots, (n - 1) as nat);
    }
}

} // verus!
