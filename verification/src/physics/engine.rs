//! The physics step: integrate, find candidate pairs, confirm them, resolve.
use vstd::prelude::*;
use crate::math::scalar::{Scalar, ONE};
use crate::math::vector::Vec2f;
use crate::physics::body::{BoundingBox, PhysicsBody, RigidBody};
use crate::physics::entity::Entity;
use crate::physics::impulse::{first_velocity, resolvable, second_velocity, Impulse};
use crate::physics::store::{EntityId, EntityManager, World};
use crate::physics::sweep::{
    candidate_pairs, is_interval_of, lemma_sweep_order_permutes, lemma_sweep_pairs_sound, project,
    reaches, sort_intervals, sweep, sweep_order,
};

verus! {

/// Why a phase of the step could not go on.
#[derive(Clone, Copy, Debug, PartialEq, Eq, Structural)]
pub enum PhysicsError {
    /// A pair names an entity that the store does not hold.
    MissingEntity(EntityId),
}

/// The physics step and its configuration.
#[derive(Clone, Copy, Debug, PartialEq, Eq, Structural)]
pub struct PhysicsEngine {
    /// The gravitational acceleration.
    pub gravity: Scalar,
    /// The direction in which gravity pulls.
    pub gravity_dir: Vec2f,
}

/// The gravitational acceleration of the default engine: 9.81.
pub const GRAVITY_CONST: Scalar = 9_810_000;

/// The weight of an entity: mass times gravitational acceleration, along the
/// direction of gravity.
pub open spec fn weight(engine: PhysicsEngine, mass: Scalar) -> Vec2f {
    engine.gravity_dir.spec_scale(engine.gravity).spec_scale(mass)
}

/// One entity after a time `dt` under gravity.
///
/// A movable entity takes its weight into the force accumulator, gets its
/// acceleration from the accumulated force, moves its velocity by the
/// acceleration and then its position by the new velocity.  Its bounding box
/// follows the position and the accumulator is emptied.  Any other entity
/// stays as it is.
pub open spec fn integrate(engine: PhysicsEngine, e: Entity, dt: Scalar) -> Entity {
    if !e.is_movable() {
        e
    } else {
        let body = e.physics_body;
        let force = body.force_accumulator.spec_add(weight(engine, body.mass));
        let acceleration = force.spec_scale(body.inv_mass);
        let velocity = body.velocity.spec_add(acceleration.spec_scale(dt));
        let position = body.position.spec_add(velocity.spec_scale(dt));
        Entity {
            physics_body: PhysicsBody {
                position,
                velocity,
                force_accumulator: Vec2f { x: 0, y: 0 },
                ..body
            },
            bounding_box: BoundingBox { x: position.x, y: position.y, ..e.bounding_box },
            ..e
        }
    }
}

/// [`integrate`] with the engine and the time fixed.
pub open spec fn integrating(engine: PhysicsEngine, dt: Scalar) -> spec_fn(Entity) -> Entity {
    |e: Entity| integrate(engine, e, dt)
}

/// Every entity of `world` after a time `dt` under gravity.
pub open spec fn integrate_all(engine: PhysicsEngine, world: World, dt: Scalar) -> World {
    World {
        first_id: world.first_id,
        entities: world.entities.map_values(integrating(engine, dt)),
    }
}

/// Whether the bounding boxes of the two entities of a pair overlap.
pub open spec fn overlapping(world: World) -> spec_fn((EntityId, EntityId)) -> bool {
    |pair: (EntityId, EntityId)|
        world.get(pair.1).bounding_box.spec_intersects(world.get(pair.0).bounding_box)
}

/// Whether `world` holds both entities of every pair.
pub open spec fn all_present(world: World, pairs: Seq<(EntityId, EntityId)>) -> bool {
    forall|k: int|
        0 <= k < pairs.len() ==> world.contains((#[trigger] pairs[k]).0) && world.contains(
            pairs[k].1,
        )
}

/// The first identifier in `pairs`, read pair by pair and first entity
/// first, that `world` does not hold.
pub open spec fn is_first_missing(
    world: World,
    pairs: Seq<(EntityId, EntityId)>,
    id: EntityId,
) -> bool {
    exists|k: int|
        0 <= k < pairs.len() && all_present(world, pairs.take(k)) && is_missing_from(
            world,
            #[trigger] pairs[k],
            id,
        )
}

/// `id` is the first entity of `pair` that `world` does not hold.
pub open spec fn is_missing_from(world: World, pair: (EntityId, EntityId), id: EntityId) -> bool {
    (!world.contains(pair.0) && id == pair.0) || (world.contains(pair.0) && !world.contains(pair.1)
        && id == pair.1)
}

/// The first entity of a colliding pair after the collision.
pub open spec fn first_after(a: Entity, b: Entity) -> Entity {
    if resolvable(a.physics_body, b.physics_body) && a.takes_impulse() {
        Entity {
            physics_body: PhysicsBody {
                velocity: first_velocity(a.physics_body, b.physics_body),
                ..a.physics_body
            },
            ..a
        }
    } else {
        a
    }
}

/// The second entity of a colliding pair after the collision.
pub open spec fn second_after(a: Entity, b: Entity) -> Entity {
    if resolvable(a.physics_body, b.physics_body) && b.takes_impulse() {
        Entity {
            physics_body: PhysicsBody {
                velocity: second_velocity(a.physics_body, b.physics_body),
                ..b.physics_body
            },
            ..b
        }
    } else {
        b
    }
}

/// `world` after the collision of the entities `a` and `b` was resolved.
/// Meaningful where `world` holds both.
pub open spec fn resolve(world: World, a: EntityId, b: EntityId) -> World {
    world.put(a, first_after(world.get(a), world.get(b))).put(
        b,
        second_after(world.get(a), world.get(b)),
    )
}

/// `world` after the collisions of `pairs` were resolved one after another.
pub open spec fn resolve_all(world: World, pairs: Seq<(EntityId, EntityId)>) -> World
    decreases pairs.len(),
{
    if pairs.len() == 0 {
        world
    } else {
        resolve(resolve_all(world, pairs.drop_last()), pairs.last().0, pairs.last().1)
    }
}

/// The pairs of `world` whose bounding boxes overlap, in sweep order.
pub open spec fn colliding_pairs(world: World) -> Seq<(EntityId, EntityId)> {
    candidate_pairs(world).filter(overlapping(world))
}

/// One step: every entity is integrated, then the collisions of the moved
/// entities are resolved in the order in which the sweep found them.
pub open spec fn step(engine: PhysicsEngine, world: World, dt: Scalar) -> World {
    let moved = integrate_all(engine, world, dt);
    resolve_all(moved, colliding_pairs(moved))
}

/// The sweep pairs up only entities that the world holds.
pub proof fn lemma_candidates_present(world: World)
    requires
        world.wf(),
    ensures
        all_present(world, candidate_pairs(world)),
{
    let order = sweep_order(world);
    let pairs = candidate_pairs(world);
    lemma_sweep_order_permutes(world);
    assert forall|k: int| 0 <= k < pairs.len() implies world.contains((#[trigger] pairs[k]).0)
        && world.contains(pairs[k].1) by {
        assert(pairs.contains(pairs[k]));
        lemma_sweep_pairs_sound(order, world.entities.len(), pairs[k]);
        let (i, j) = choose|i: int, j: int|
            0 <= i < j < order.len() && reaches(#[trigger] order[i], #[trigger] order[j])
                && pairs[k] == (order[i].id, order[j].id);
        assert(is_interval_of(world, order[i]));
        assert(is_interval_of(world, order[j]));
    }
}

/// A selection of pairs names no entity that the pairs did not name.
pub proof fn lemma_filter_present(
    world: World,
    pairs: Seq<(EntityId, EntityId)>,
    keep: spec_fn((EntityId, EntityId)) -> bool,
)
    requires
        all_present(world, pairs),
    ensures
        all_present(world, pairs.filter(keep)),
{
    let kept = pairs.filter(keep);
    assert forall|k: int| 0 <= k < kept.len() implies world.contains((#[trigger] kept[k]).0)
        && world.contains(kept[k].1) by {
        assert(kept.contains(kept[k]));
        pairs.lemma_filter_contains_rev(keep, kept[k]);
        let at = choose|at: int| 0 <= at < pairs.len() && pairs[at] == kept[k];
        assert(world.contains(pairs[at].0));
    }
}

impl PhysicsEngine {
    /// An engine with gravity 9.81 pulling along the negative y axis.
    pub fn init() -> (r: Self)
        ensures
            r.gravity == GRAVITY_CONST,
            r.gravity_dir.x == 0,
            r.gravity_dir.y == -ONE,
    {
        Self { gravity: GRAVITY_CONST, gravity_dir: Vec2f::new(0, -ONE) }
    }

    /// An engine with the given gravitational acceleration and direction.
    pub fn with_gravity(gravity: Scalar, gravity_dir: Vec2f) -> (r: Self)
        ensures
            r == (PhysicsEngine { gravity, gravity_dir }),
    {
        Self { gravity, gravity_dir }
    }

    /// Broad phase: the pairs of entities whose bounding boxes may overlap
    /// because their x intervals do.
    pub fn broad(entities: &EntityManager) -> (pairs: Vec<(EntityId, EntityId)>)
        ensures
            pairs@ == candidate_pairs(entities@),
    {
        let sorted = sort_intervals(&project(entities));
        sweep(&sorted)
    }

    /// Narrow phase: the pairs among `pairs` whose bounding boxes overlap, in
    /// the same order.  Fails on the first identifier that the store does not
    /// hold.
    pub fn narrow(
        pairs: &Vec<(EntityId, EntityId)>,
        entities: &EntityManager,
    ) -> (r: Result<Vec<(EntityId, EntityId)>, PhysicsError>)
        ensures
            r.is_ok() == all_present(entities@, pairs@),
            r matches Ok(kept) ==> kept@ == pairs@.filter(overlapping(entities@)),
            r matches Err(PhysicsError::MissingEntity(id)) ==> is_first_missing(
                entities@,
                pairs@,
                id,
            ),
    {
        let mut kept: Vec<(EntityId, EntityId)> = Vec::new();
        let mut k: usize = 0;
        proof {
            reveal(Seq::filter);
            assert(pairs@.take(0) =~= Seq::empty());
        }
        while k < pairs.len()
            invariant
                k <= pairs@.len(),
                all_present(entities@, pairs@.take(k as int)),
                kept@ == pairs@.take(k as int).filter(overlapping(entities@)),
            decreases pairs@.len() - k,
        {
            let pair = pairs[k];
            let a = match entities.get_entity(&pair.0) {
                Some(e) => e,
                None => {
                    return Err(PhysicsError::MissingEntity(pair.0));
                },
            };
            let b = match entities.get_entity(&pair.1) {
                Some(e) => e,
                None => {
                    return Err(PhysicsError::MissingEntity(pair.1));
                },
            };
            proof {
                assert(pairs@.take(k + 1) =~= pairs@.take(k as int).push(pair));
                pairs@.take(k as int).lemma_filter_push(pair, overlapping(entities@));
            }
            if b.bounding_box.intersects(&a.bounding_box) {
                kept.push(pair);
            }
            k += 1;
        }
        proof {
            assert(pairs@.take(k as int) =~= pairs@);
        }
        Ok(kept)
    }

    /// Resolves the collision between the entities `a` and `b` by an impulse
    /// along the line between their centers.
    ///
    /// Only velocities change, and only that of an entity that is dynamic
    /// and has positive mass and inverse mass.  Fails, changing nothing,
    /// where the store does not hold `a` or `b`.
    pub fn handle_collision(
        a: &EntityId,
        b: &EntityId,
        entities: &mut EntityManager,
    ) -> (r: Result<(), PhysicsError>)
        ensures
            r.is_ok() == (old(entities)@.contains(*a) && old(entities)@.contains(*b)),
            r.is_ok() ==> final(entities)@ == resolve(old(entities)@, *a, *b),
            r matches Err(PhysicsError::MissingEntity(id)) ==> final(entities)@ == old(entities)@
                && is_missing_from(old(entities)@, (*a, *b), id),
    {
        let ae: Entity = match entities.get_entity(a) {
            Some(e) => *e,
            None => {
                return Err(PhysicsError::MissingEntity(*a));
            },
        };
        let be: Entity = match entities.get_entity(b) {
            Some(e) => *e,
            None => {
                return Err(PhysicsError::MissingEntity(*b));
            },
        };
        let v_a = ae.physics_body.velocity;
        let v_b = be.physics_body.velocity;

        let a_invm = ae.physics_body.inv_mass;
        let b_invm = be.physics_body.inv_mass;

        let m_a = ae.physics_body.mass;
        let m_b = be.physics_body.mass;

        let ghost before = entities@;
        if let Some(impulse) = Impulse::between(&ae.physics_body, &be.physics_body) {
            if ae.rigidbody == RigidBody::Dynamic && a_invm > 0 && m_a > 0 {
                let v_an = impulse.push(v_a, a_invm);
                entities.get_entity_mut(a).unwrap().physics_body.velocity = v_an;
            }
            assert(entities@.entities =~= before.put(*a, first_after(ae, be)).entities);
            if be.rigidbody == RigidBody::Dynamic && b_invm > 0 && m_b > 0 {
                let v_bn = impulse.pull(v_b, b_invm);
                entities.get_entity_mut(b).unwrap().physics_body.velocity = v_bn;
            }
        }
        assert(entities@.entities =~= resolve(before, *a, *b).entities);
        Ok(())
    }

    /// Moves one entity through a time `dt` under gravity.
    pub fn integrate_entity(&self, entity: &mut Entity, dt: Scalar)
        ensures
            *final(entity) == integrate(*self, *old(entity), dt),
    {
        if entity.rigidbody == RigidBody::Static || entity.physics_body.mass <= 0 {
            return;
        }
        // G = mg = ma
        let g = self.gravity_dir * self.gravity * entity.physics_body.mass;
        entity.physics_body.force_accumulator.add_assign(g);

        let (inv_mass, forces) = (
            entity.physics_body.inv_mass,
            entity.physics_body.force_accumulator,
        );

        let a = forces * inv_mass;
        entity.physics_body.velocity.add_assign(a * dt);
        let step = entity.physics_body.velocity * dt;
        entity.physics_body.position.add_assign(step);
        entity.bounding_box.x = entity.physics_body.position.x;
        entity.bounding_box.y = entity.physics_body.position.y;

        entity.physics_body.force_accumulator = Vec2f::zero();
    }

    /// Advances every entity of the store by one step of length `dt`.
    ///
    /// First every movable entity is integrated under gravity.  Then the
    /// pairs whose bounding boxes overlap are found, and their collisions
    /// are resolved one after another in the order of the sweep.
    pub fn update(&self, entities: &mut EntityManager, dt: Scalar)
        ensures
            final(entities)@ == step(*self, old(entities)@, dt),
    {
        // 1. FIRST: Integrate forces and update positions
        let n: usize = entities.len();
        let mut i: usize = 0;
        while i < n
            invariant
                i <= n,
                n == old(entities)@.entities.len(),
                entities@.first_id == old(entities)@.first_id,
                entities@.entities.len() == n,
                entities@.wf(),
                forall|p: int|
                    0 <= p < i ==> #[trigger] entities@.entities[p] == integrate(
                        *self,
                        old(entities)@.entities[p],
                        dt,
                    ),
                forall|p: int|
                    i <= p < n ==> #[trigger] entities@.entities[p] == old(entities)@.entities[p],
            decreases n - i,
        {
            let id = entities.id_at(i);
            self.integrate_entity(entities.get_entity_mut(&id).unwrap(), dt);
            i += 1;
        }
        let ghost moved = entities@;
        proof {
            assert(moved.entities =~= integrate_all(*self, old(entities)@, dt).entities);
            lemma_candidates_present(moved);
            lemma_filter_present(moved, candidate_pairs(moved), overlapping(moved));
        }

        // 2. THEN: Detect and resolve collisions
        let possible_collision_pairs = Self::broad(entities);
        let collision_pairs = Self::narrow(&possible_collision_pairs, entities).unwrap();

        let mut k: usize = 0;
        while k < collision_pairs.len()
            invariant
                k <= collision_pairs@.len(),
                all_present(moved, collision_pairs@),
                entities@.first_id == moved.first_id,
                entities@.entities.len() == moved.entities.len(),
                entities@ == resolve_all(moved, collision_pairs@.take(k as int)),
            decreases collision_pairs@.len() - k,
        {
            let pair = collision_pairs[k];
            proof {
                assert(moved.contains(collision_pairs@[k as int].0));
                assert(collision_pairs@.take(k + 1).drop_last() =~= collision_pairs@.take(
                    k as int,
                ));
            }
            Self::handle_collision(&pair.0, &pair.1, entities).unwrap();
            k += 1;
        }
        proof {
            assert(collision_pairs@.take(k as int) =~= collision_pairs@);
        }
    }
}

} // verus!
