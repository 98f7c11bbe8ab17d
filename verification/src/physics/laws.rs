//! What holds of the physics step, proved from the definitions of its phases.
use vstd::prelude::*;
use crate::math::scalar::{
    fits, lemma_toward_zero_exact, lemma_toward_zero_odd, magnitude, negate, times, toward_zero,
    Scalar, ONE,
};
use crate::math::root::lemma_floor_root_is;
use crate::math::vector::Vec2f;
use crate::physics::impulse::{
    collision_normal, first_velocity, impulse_size, kick, relative_velocity, resolvable,
    second_velocity, separation,
};
use crate::physics::body::{spec_inv_mass, BoundingBox, PhysicsBody, RigidBody};
use crate::physics::engine::{
    all_present, colliding_pairs, first_after, integrate, integrate_all, lemma_candidates_present,
    lemma_filter_present, overlapping, resolve, resolve_all, second_after, step, weight,
    PhysicsEngine,
};
use crate::physics::entity::Entity;
use crate::physics::store::{EntityId, World};
use crate::physics::sweep::{
    candidate_pairs, interval_at, lemma_sweep_order_permutes, lemma_sweep_pairs_complete,
    sweep_order, sweep_pairs,
};

verus! {

/// `world` after one step for each of the times `dts`, in order.
pub open spec fn steps(engine: PhysicsEngine, world: World, dts: Seq<Scalar>) -> World
    decreases dts.len(),
{
    if dts.len() == 0 {
        world
    } else {
        step(engine, steps(engine, world, dts.drop_last()), dts.last())
    }
}

/// Whether `after` is `before` but for its velocity.
pub open spec fn differs_in_velocity_only(after: Entity, before: Entity) -> bool {
    after == (Entity {
        physics_body: PhysicsBody { velocity: after.physics_body.velocity, ..before.physics_body },
        ..before
    })
}

/// Resolving collisions neither adds nor removes an entity, changes nothing
/// but velocities, and leaves every entity that is not movable exactly as it
/// was.
pub proof fn lemma_collisions_change_velocities_only(world: World, pairs: Seq<(EntityId, EntityId)>)
    requires
        all_present(world, pairs),
    ensures
        resolve_all(world, pairs).first_id == world.first_id,
        resolve_all(world, pairs).entities.len() == world.entities.len(),
        forall|i: int|
            0 <= i < world.entities.len() ==> differs_in_velocity_only(
                resolve_all(world, pairs).entities[i],
                #[trigger] world.entities[i],
            ),
        forall|i: int|
            0 <= i < world.entities.len() && !(#[trigger] world.entities[i]).is_movable()
                ==> resolve_all(world, pairs).entities[i] == world.entities[i],
    decreases pairs.len(),
{
    if pairs.len() > 0 {
        let before = resolve_all(world, pairs.drop_last());
        let (a, b) = pairs.last();
        assert forall|k: int| 0 <= k < pairs.drop_last().len() implies world.contains(
            (#[trigger] pairs.drop_last()[k]).0,
        ) && world.contains(pairs.drop_last()[k].1) by {
            assert(pairs.drop_last()[k] == pairs[k]);
        }
        lemma_collisions_change_velocities_only(world, pairs.drop_last());
        assert(world.contains(pairs[pairs.len() - 1].0));
        assert(before.contains(a) && before.contains(b));
        assert forall|i: int|
            0 <= i < world.entities.len() && !(#[trigger] world.entities[i]).is_movable() implies resolve(
            before,
            a,
            b,
        ).entities[i] == world.entities[i] by {
            assert(before.entities[i] == world.entities[i]);
        }
        assert forall|i: int| 0 <= i < world.entities.len() implies differs_in_velocity_only(
            resolve(before, a, b).entities[i],
            #[trigger] world.entities[i],
        ) by {
            assert(differs_in_velocity_only(before.entities[i], world.entities[i]));
        }
    }
}

/// One step neither adds nor removes an entity, and leaves every entity that
/// is not movable exactly as it was.  Every entity leaves the step as the
/// integration left it but for its velocity: collisions move nothing.
pub proof fn lemma_step_moves_by_integration_only(engine: PhysicsEngine, world: World, dt: Scalar)
    requires
        world.wf(),
    ensures
        step(engine, world, dt).first_id == world.first_id,
        step(engine, world, dt).entities.len() == world.entities.len(),
        forall|i: int|
            0 <= i < world.entities.len() ==> differs_in_velocity_only(
                #[trigger] step(engine, world, dt).entities[i],
                integrate(engine, world.entities[i], dt),
            ),
        forall|i: int|
            0 <= i < world.entities.len() && !(#[trigger] world.entities[i]).is_movable() ==> step(
                engine,
                world,
                dt,
            ).entities[i] == world.entities[i],
{
    let moved = integrate_all(engine, world, dt);
    lemma_candidates_present(moved);
    lemma_filter_present(moved, candidate_pairs(moved), overlapping(moved));
    lemma_collisions_change_velocities_only(moved, colliding_pairs(moved));
    assert forall|i: int|
        0 <= i < world.entities.len() && !(#[trigger] world.entities[i]).is_movable() implies step(
        engine,
        world,
        dt,
    ).entities[i] == world.entities[i] by {
        assert(moved.entities[i] == world.entities[i]);
    }
    assert forall|i: int| 0 <= i < world.entities.len() implies differs_in_velocity_only(
        #[trigger] step(engine, world, dt).entities[i],
        integrate(engine, world.entities[i], dt),
    ) by {
        assert(moved.entities[i] == integrate(engine, world.entities[i], dt));
    }
}

/// After a step the bounding box of every movable entity is centered on its
/// body, and no force is left in its accumulator.
pub proof fn lemma_step_syncs_movable_entities(
    engine: PhysicsEngine,
    world: World,
    dt: Scalar,
    i: int,
)
    requires
        world.wf(),
        0 <= i < world.entities.len(),
        world.entities[i].is_movable(),
    ensures
        step(engine, world, dt).entities[i].box_follows_body(),
        step(engine, world, dt).entities[i].physics_body.force_accumulator.is_zero(),
        step(engine, world, dt).entities[i].is_movable(),
{
    lemma_step_moves_by_integration_only(engine, world, dt);
    assert(differs_in_velocity_only(
        step(engine, world, dt).entities[i],
        integrate(engine, world.entities[i], dt),
    ));
}

/// A step of no time integrates nothing: it leaves the position and the
/// velocity of an entity as they were.
pub proof fn lemma_zero_step_integrates_nothing(engine: PhysicsEngine, e: Entity)
    ensures
        integrate(engine, e, 0).physics_body.position == e.physics_body.position,
        integrate(engine, e, 0).physics_body.velocity == e.physics_body.velocity,
{
    if e.is_movable() {
        let body = e.physics_body;
        let force = body.force_accumulator.spec_add(weight(engine, body.mass));
        let acceleration = force.spec_scale(body.inv_mass);
        assert(acceleration.x * 0 == 0) by (nonlinear_arith);
        assert(acceleration.y * 0 == 0) by (nonlinear_arith);
        let velocity = body.velocity.spec_add(acceleration.spec_scale(0));
        assert(velocity == body.velocity);
        assert(velocity.x * 0 == 0) by (nonlinear_arith);
        assert(velocity.y * 0 == 0) by (nonlinear_arith);
    }
}

/// An entity that is static, or whose mass is not positive, keeps its
/// position and its velocity, and indeed its whole state, through any number
/// of steps of any lengths.
pub proof fn lemma_fixed_entity_never_changes(
    engine: PhysicsEngine,
    world: World,
    dts: Seq<Scalar>,
    id: EntityId,
)
    requires
        world.wf(),
        world.contains(id),
        world.get(id).rigidbody == RigidBody::Static || world.get(id).physics_body.mass <= 0,
    ensures
        steps(engine, world, dts).contains(id),
        steps(engine, world, dts).get(id) == world.get(id),
        steps(engine, world, dts).get(id).physics_body.position == world.get(
            id,
        ).physics_body.position,
        steps(engine, world, dts).get(id).physics_body.velocity == world.get(
            id,
        ).physics_body.velocity,
{
    lemma_steps_keep_fixed_entities(engine, world, dts);
    assert(!world.entities[world.index_of(id)].is_movable());
}

/// Any number of steps neither adds nor removes an entity, and leaves every
/// entity that is not movable exactly as it was.
pub proof fn lemma_steps_keep_fixed_entities(engine: PhysicsEngine, world: World, dts: Seq<Scalar>)
    requires
        world.wf(),
    ensures
        steps(engine, world, dts).first_id == world.first_id,
        steps(engine, world, dts).entities.len() == world.entities.len(),
        forall|i: int|
            0 <= i < world.entities.len() && !(#[trigger] world.entities[i]).is_movable() ==> steps(
                engine,
                world,
                dts,
            ).entities[i] == world.entities[i],
    decreases dts.len(),
{
    if dts.len() > 0 {
        let before = steps(engine, world, dts.drop_last());
        lemma_steps_keep_fixed_entities(engine, world, dts.drop_last());
        lemma_step_moves_by_integration_only(engine, before, dts.last());
        assert forall|i: int|
            0 <= i < world.entities.len() && !(#[trigger] world.entities[i]).is_movable() implies steps(
            engine,
            world,
            dts,
        ).entities[i] == world.entities[i] by {
            assert(before.entities[i] == world.entities[i]);
        }
    }
}

/// The broad phase misses no pair: two different entities whose bounding
/// boxes overlap on the x axis are a candidate pair, in one order or the
/// other.
pub proof fn lemma_broad_phase_complete(world: World, i: int, j: int)
    requires
        world.wf(),
        0 <= i < world.entities.len(),
        0 <= j < world.entities.len(),
        i != j,
        world.entities[i].bounding_box.overlaps_x(world.entities[j].bounding_box),
    ensures
        candidate_pairs(world).contains((world.id_at(i), world.id_at(j))) || candidate_pairs(
            world,
        ).contains((world.id_at(j), world.id_at(i))),
{
    let order = sweep_order(world);
    lemma_sweep_order_permutes(world);
    let first = interval_at(world, i);
    let second = interval_at(world, j);
    assert(order.contains(first));
    assert(order.contains(second));
    let p = choose|p: int| 0 <= p < order.len() && order[p] == first;
    let q = choose|q: int| 0 <= q < order.len() && order[q] == second;
    assert(first.id != second.id);
    if p < q {
        lemma_sweep_pairs_complete(order, world.entities.len(), p, q);
    } else {
        lemma_sweep_pairs_complete(order, world.entities.len(), q, p);
    }
}

/// The narrow phase keeps exactly the candidate pairs whose bounding boxes
/// overlap on both axes: every pair that comes to be resolved overlaps, and
/// no overlapping candidate is dropped.
pub proof fn lemma_narrow_phase_exact(world: World, pair: (EntityId, EntityId))
    ensures
        colliding_pairs(world).contains(pair) <==> candidate_pairs(world).contains(pair)
            && world.get(pair.1).bounding_box.spec_intersects(world.get(pair.0).bounding_box),
{
    let candidates = candidate_pairs(world);
    let keep = overlapping(world);
    if colliding_pairs(world).contains(pair) {
        candidates.lemma_filter_contains_rev(keep, pair);
        let at = choose|at: int|
            0 <= at < candidates.filter(keep).len() && candidates.filter(keep)[at] == pair;
        candidates.lemma_filter_pred(keep, at);
    }
    if candidates.contains(pair) && keep(pair) {
        let at = choose|at: int| 0 <= at < candidates.len() && candidates[at] == pair;
        candidates.lemma_filter_contains(keep, at);
    }
}

/// Two different entities whose bounding boxes overlap on both axes come to
/// be resolved, in one order or the other.
pub proof fn lemma_overlapping_entities_collide(world: World, i: int, j: int)
    requires
        world.wf(),
        0 <= i < world.entities.len(),
        0 <= j < world.entities.len(),
        i != j,
        world.entities[i].bounding_box.spec_intersects(world.entities[j].bounding_box),
    ensures
        colliding_pairs(world).contains((world.id_at(i), world.id_at(j))) || colliding_pairs(
            world,
        ).contains((world.id_at(j), world.id_at(i))),
{
    lemma_broad_phase_complete(world, i, j);
    lemma_narrow_phase_exact(world, (world.id_at(i), world.id_at(j)));
    lemma_narrow_phase_exact(world, (world.id_at(j), world.id_at(i)));
    assert(world.get(world.id_at(i)) == world.entities[i]);
    assert(world.get(world.id_at(j)) == world.entities[j]);
}

/// Boxes that only touch do not intersect: where one box ends exactly where
/// the other begins, on either axis, the overlap test fails.
pub proof fn lemma_touching_boxes_do_not_intersect(a: BoundingBox, b: BoundingBox)
    requires
        a.spec_right() == b.spec_left() || a.spec_left() == b.spec_right() || a.spec_bottom()
            == b.spec_top() || a.spec_top() == b.spec_bottom(),
    ensures
        !a.spec_intersects(b),
        !b.spec_intersects(a),
{
}

/// The overlap test does not depend on the order of the two boxes.
pub proof fn lemma_intersects_symmetric(a: BoundingBox, b: BoundingBox)
    ensures
        a.spec_intersects(b) == b.spec_intersects(a),
{
}

/// A collision never changes a static entity, whichever side of the pair it
/// is on, and gives the other entity, where that one takes impulses, the
/// velocity that the impulse formula states.
pub proof fn lemma_static_entity_unmoved_by_collision(fixed: Entity, other: Entity)
    requires
        fixed.rigidbody == RigidBody::Static,
    ensures
        first_after(fixed, other) == fixed,
        second_after(other, fixed) == fixed,
{
}

/// Whether the mass cancels exactly: the acceleration that the weight of a
/// body of mass `mass` and inverse mass `inv_mass` gives it under gravity
/// `gravity` is again `gravity`.  With real numbers this holds of every
/// positive mass; here it holds where no product is rounded.
pub open spec fn mass_cancels(gravity: Scalar, mass: Scalar, inv_mass: Scalar) -> bool {
    times(times(negate(gravity), mass), inv_mass) == -gravity
}

/// A whole mass that divides a million cancels exactly: such a mass `k` has
/// the inverse mass `1 / k` without rounding, and neither product is rounded.
/// The unit mass is the case `k == 1`.
pub proof fn lemma_whole_mass_cancels(gravity: Scalar, k: int)
    requires
        gravity >= 0,
        k > 0,
        (ONE as int) % k == 0,
        fits(gravity * k),
    ensures
        fits(k * ONE),
        spec_inv_mass((k * ONE) as i64) == (ONE as int) / k,
        mass_cancels(gravity, (k * ONE) as i64, ((ONE as int) / k) as i64),
{
    let g = gravity as int;
    let share = (ONE as int) / k;
    assert(share * k == ONE && 0 < share <= ONE && k <= ONE) by (nonlinear_arith)
        requires
            share == (ONE as int) / k,
            (ONE as int) % k == 0,
            k > 0,
    ;
    assert(fits(k * ONE)) by (nonlinear_arith)
        requires
            0 < k <= ONE,
    ;
    // One over the mass is 1 / k.
    assert(ONE * ONE == share * (k * ONE)) by (nonlinear_arith)
        requires
            share * k == ONE,
    ;
    lemma_toward_zero_exact(share, k * ONE);
    // The weight is -g k, and the acceleration -g.
    assert((-g) * (k * ONE) == (-(g * k)) * ONE) by (nonlinear_arith);
    lemma_toward_zero_exact(-(g * k), ONE as int);
    assert((-(g * k)) * share == (-g) * ONE) by (nonlinear_arith)
        requires
            share * k == ONE,
    ;
    lemma_toward_zero_exact(-g, ONE as int);
}

/// A world of one entity has no pair to resolve.
pub proof fn lemma_single_entity_never_collides(world: World)
    requires
        world.entities.len() == 1,
    ensures
        candidate_pairs(world) == Seq::<(EntityId, EntityId)>::empty(),
        colliding_pairs(world) == Seq::<(EntityId, EntityId)>::empty(),
{
    reveal(Seq::filter);
    let order = sweep_order(world);
    assert(order.take(0) =~= Seq::empty());
    assert(sweep_pairs(order, 0) =~= Seq::empty());
    assert(sweep_pairs(order, 1) =~= Seq::empty());
}

/// Free fall is semi-implicit Euler integration: the velocity is moved
/// first, and the position then moves by the new velocity.
///
/// A single movable entity starts at rest at `(x0, y0)` with no force on it,
/// under gravity `g` along the negative y axis.  Where its mass cancels
/// exactly and nothing saturates, one step of length `dt` leaves it with
/// velocity `(0, -g dt)` at `(x0, y0 - (g dt) dt)`, each product rounded
/// toward zero, and its bounding box has moved with it.
pub proof fn lemma_free_fall(engine: PhysicsEngine, world: World, dt: Scalar)
    requires
        world.entities.len() == 1,
        world.entities[0].is_movable(),
        world.entities[0].physics_body.velocity.is_zero(),
        world.entities[0].physics_body.force_accumulator.is_zero(),
        engine.gravity_dir == (Vec2f { x: 0, y: (-ONE) as i64 }),
        engine.gravity >= 0,
        dt >= 0,
        mass_cancels(
            engine.gravity,
            world.entities[0].physics_body.mass,
            world.entities[0].physics_body.inv_mass,
        ),
        fits(toward_zero(engine.gravity * dt, ONE as int)),
        fits(toward_zero(toward_zero(engine.gravity * dt, ONE as int) * dt, ONE as int)),
        fits(
            world.entities[0].physics_body.position.y - toward_zero(
                toward_zero(engine.gravity * dt, ONE as int) * dt,
                ONE as int,
            ),
        ),
    ensures
        step(engine, world, dt).entities.len() == 1,
        step(engine, world, dt).entities[0].physics_body.velocity.x == 0,
        step(engine, world, dt).entities[0].physics_body.velocity.y == -toward_zero(
            engine.gravity * dt,
            ONE as int,
        ),
        step(engine, world, dt).entities[0].physics_body.position.x
            == world.entities[0].physics_body.position.x,
        step(engine, world, dt).entities[0].physics_body.position.y
            == world.entities[0].physics_body.position.y - toward_zero(
            toward_zero(engine.gravity * dt, ONE as int) * dt,
            ONE as int,
        ),
        step(engine, world, dt).entities[0].box_follows_body(),
        step(engine, world, dt).entities[0].physics_body.force_accumulator.is_zero(),
{
    let g = engine.gravity;
    let e = world.entities[0];
    let moved = integrate_all(engine, world, dt);
    lemma_single_entity_never_collides(moved);
    assert(step(engine, world, dt) == moved);
    assert(moved.entities[0] == integrate(engine, e, dt));
    // The weight is (0, -g m).
    lemma_toward_zero_exact(-g, ONE as int);
    assert((-ONE) * g == (-g) * ONE) by (nonlinear_arith);
    assert(times((-ONE) as i64, g) == -g);
    assert(0 * g == 0) by (nonlinear_arith);
    assert(times(0, g) == 0);
    assert(0 * e.physics_body.mass == 0) by (nonlinear_arith);
    assert(0 * e.physics_body.inv_mass == 0) by (nonlinear_arith);
    assert(0 * dt == 0) by (nonlinear_arith);
    // The velocity is (0, -(g dt)).
    let speed = toward_zero(g * dt, ONE as int);
    lemma_toward_zero_odd(g * dt, ONE as int);
    assert((-g) * dt == -(g * dt)) by (nonlinear_arith);
    assert(times((-g) as i64, dt) == -speed);
    // The position moves by -(g dt) dt.
    lemma_toward_zero_odd(speed * dt, ONE as int);
    assert((-speed) * dt == -(speed * dt)) by (nonlinear_arith);
    assert(toward_zero(speed * dt, ONE as int) >= 0) by {
        assert(speed >= 0);
        assert(speed * dt >= 0) by (nonlinear_arith)
            requires
                speed >= 0,
                dt >= 0,
        ;
    }
}

/// A collision between two bodies of equal mass conserves momentum: where
/// neither new velocity saturates, the momenta of the two bodies sum to the
/// same after the collision as before, on each axis.
pub proof fn lemma_equal_mass_collision_conserves_momentum(a: Entity, b: Entity)
    requires
        a.takes_impulse(),
        b.takes_impulse(),
        a.physics_body.wf(),
        b.physics_body.wf(),
        a.physics_body.mass == b.physics_body.mass,
        fits(
            a.physics_body.velocity.x + kick(
                a.physics_body.inv_mass,
                impulse_size(a.physics_body, b.physics_body),
                collision_normal(a.physics_body, b.physics_body),
            ).x,
        ),
        fits(
            a.physics_body.velocity.y + kick(
                a.physics_body.inv_mass,
                impulse_size(a.physics_body, b.physics_body),
                collision_normal(a.physics_body, b.physics_body),
            ).y,
        ),
        fits(
            b.physics_body.velocity.x - kick(
                b.physics_body.inv_mass,
                impulse_size(a.physics_body, b.physics_body),
                collision_normal(a.physics_body, b.physics_body),
            ).x,
        ),
        fits(
            b.physics_body.velocity.y - kick(
                b.physics_body.inv_mass,
                impulse_size(a.physics_body, b.physics_body),
                collision_normal(a.physics_body, b.physics_body),
            ).y,
        ),
    ensures
        first_after(a, b).physics_body.velocity.x + second_after(a, b).physics_body.velocity.x
            == a.physics_body.velocity.x + b.physics_body.velocity.x,
        first_after(a, b).physics_body.velocity.y + second_after(a, b).physics_body.velocity.y
            == a.physics_body.velocity.y + b.physics_body.velocity.y,
        a.physics_body.mass * first_after(a, b).physics_body.velocity.x + b.physics_body.mass
            * second_after(a, b).physics_body.velocity.x == a.physics_body.mass
            * a.physics_body.velocity.x + b.physics_body.mass * b.physics_body.velocity.x,
        a.physics_body.mass * first_after(a, b).physics_body.velocity.y + b.physics_body.mass
            * second_after(a, b).physics_body.velocity.y == a.physics_body.mass
            * a.physics_body.velocity.y + b.physics_body.mass * b.physics_body.velocity.y,
{
    let m = a.physics_body.mass as int;
    let ax = a.physics_body.velocity.x as int;
    let ay = a.physics_body.velocity.y as int;
    let bx = b.physics_body.velocity.x as int;
    let by = b.physics_body.velocity.y as int;
    let ax2 = first_after(a, b).physics_body.velocity.x as int;
    let ay2 = first_after(a, b).physics_body.velocity.y as int;
    let bx2 = second_after(a, b).physics_body.velocity.x as int;
    let by2 = second_after(a, b).physics_body.velocity.y as int;
    assert(ax2 + bx2 == ax + bx);
    assert(ay2 + by2 == ay + by);
    assert(m * ax2 + m * bx2 == m * ax + m * bx) by (nonlinear_arith)
        requires
            ax2 + bx2 == ax + bx,
    ;
    assert(m * ay2 + m * by2 == m * ay + m * by) by (nonlinear_arith)
        requires
            ay2 + by2 == ay + by,
    ;
}

/// A collision with a static entity still moves the other one: an entity
/// that takes impulses leaves a resolvable collision with the velocity that
/// the impulse formula states, whichever side of the pair it is on, and that
/// velocity differs from the old one on every axis on which the impulse acts
/// without saturating.
pub proof fn lemma_collision_with_static_moves_other(fixed: Entity, other: Entity)
    requires
        fixed.rigidbody == RigidBody::Static,
        other.takes_impulse(),
    ensures
        resolvable(fixed.physics_body, other.physics_body) ==> second_after(
            fixed,
            other,
        ).physics_body.velocity == second_velocity(fixed.physics_body, other.physics_body),
        resolvable(other.physics_body, fixed.physics_body) ==> first_after(
            other,
            fixed,
        ).physics_body.velocity == first_velocity(other.physics_body, fixed.physics_body),
        resolvable(fixed.physics_body, other.physics_body) && kick(
            other.physics_body.inv_mass,
            impulse_size(fixed.physics_body, other.physics_body),
            collision_normal(fixed.physics_body, other.physics_body),
        ).x != 0 && fits(
            other.physics_body.velocity.x - kick(
                other.physics_body.inv_mass,
                impulse_size(fixed.physics_body, other.physics_body),
                collision_normal(fixed.physics_body, other.physics_body),
            ).x,
        ) ==> second_after(fixed, other).physics_body.velocity.x != other.physics_body.velocity.x,
        resolvable(fixed.physics_body, other.physics_body) && kick(
            other.physics_body.inv_mass,
            impulse_size(fixed.physics_body, other.physics_body),
            collision_normal(fixed.physics_body, other.physics_body),
        ).y != 0 && fits(
            other.physics_body.velocity.y - kick(
                other.physics_body.inv_mass,
                impulse_size(fixed.physics_body, other.physics_body),
                collision_normal(fixed.physics_body, other.physics_body),
            ).y,
        ) ==> second_after(fixed, other).physics_body.velocity.y != other.physics_body.velocity.y,
{
}

/// Multiplying by one changes nothing, and multiplying by minus one changes
/// the sign.
pub proof fn lemma_times_unit(v: Scalar)
    ensures
        times(v, ONE) == v,
        times(ONE, v) == v,
        v > i64::MIN ==> times(v, (-ONE) as i64) == -v && times((-ONE) as i64, v) == -v,
{
    lemma_toward_zero_exact(v as int, ONE as int);
    lemma_toward_zero_exact(-v, ONE as int);
    assert(ONE * v == v * ONE) by (nonlinear_arith);
    assert(v * (-ONE) == (-v) * ONE) by (nonlinear_arith);
    assert((-ONE) * v == (-v) * ONE) by (nonlinear_arith);
}

/// The unit vector along a horizontal vector is plus or minus one on the x
/// axis.
pub proof fn lemma_norm_of_horizontal(v: Vec2f)
    requires
        v.x != 0,
        v.y == 0,
    ensures
        v.x > 0 ==> v.spec_norm() == (Vec2f { x: ONE, y: 0 }),
        v.x < 0 ==> v.spec_norm() == (Vec2f { x: (-ONE) as i64, y: 0 }),
{
    let x = v.x as int;
    let m = magnitude(x);
    assert(x * x + v.y * v.y == m * m) by (nonlinear_arith)
        requires
            v.y == 0,
            m == magnitude(x),
    ;
    assert(m * m < (m + 1) * (m + 1)) by (nonlinear_arith)
        requires
            m >= 0,
    ;
    lemma_floor_root_is(m * m, m);
    assert(v.spec_length() == m);
    if x > 0 {
        assert(x * ONE == ONE * m) by (nonlinear_arith)
            requires
                x == m,
        ;
        lemma_toward_zero_exact(ONE as int, m);
    } else {
        assert(x * ONE == (-ONE) * m) by (nonlinear_arith)
            requires
                x == -m,
        ;
        lemma_toward_zero_exact(-ONE, m);
    }
    assert(v.y * ONE == 0) by (nonlinear_arith)
        requires
            v.y == 0,
    ;
    assert(0int / m == 0) by (nonlinear_arith)
        requires
            m > 0,
    ;
}

/// A head-on elastic collision between two bodies of unit mass swaps their
/// velocities along the line between them and keeps the rest.
///
/// The centers lie on one horizontal line, both coefficients of restitution
/// are one, and both entities take impulses.  With velocities small enough
/// that nothing saturates, each body leaves with the x velocity that the
/// other came with, and with its own y velocity.
pub proof fn lemma_head_on_elastic_collision_swaps_velocities(a: Entity, b: Entity)
    requires
        a.takes_impulse(),
        b.takes_impulse(),
        a.physics_body.inv_mass == ONE,
        b.physics_body.inv_mass == ONE,
        a.physics_body.cor == ONE,
        b.physics_body.cor == ONE,
        a.physics_body.position.x != b.physics_body.position.x,
        a.physics_body.position.y == b.physics_body.position.y,
        -0x1000_0000_0000_0000 <= a.physics_body.velocity.x <= 0x1000_0000_0000_0000,
        -0x1000_0000_0000_0000 <= a.physics_body.velocity.y <= 0x1000_0000_0000_0000,
        -0x1000_0000_0000_0000 <= b.physics_body.velocity.x <= 0x1000_0000_0000_0000,
        -0x1000_0000_0000_0000 <= b.physics_body.velocity.y <= 0x1000_0000_0000_0000,
    ensures
        first_after(a, b).physics_body.velocity.x == b.physics_body.velocity.x,
        second_after(a, b).physics_body.velocity.x == a.physics_body.velocity.x,
        first_after(a, b).physics_body.velocity.y == a.physics_body.velocity.y,
        second_after(a, b).physics_body.velocity.y == b.physics_body.velocity.y,
{
    let pa = a.physics_body;
    let pb = b.physics_body;
    let apart = separation(pa, pb);
    assert(apart.x != 0 && apart.y == 0);
    assert(resolvable(pa, pb));
    lemma_norm_of_horizontal(apart);
    let towards = apart.spec_norm();
    let v_rel = relative_velocity(pa, pb);
    let rx = pa.velocity.x - pb.velocity.x;
    assert(v_rel.x == rx);
    lemma_times_unit(v_rel.x);
    lemma_times_unit(v_rel.y);
    assert(0 * v_rel.y == 0) by (nonlinear_arith);
    assert(times(0, v_rel.y) == 0);
    assert(times(v_rel.y, 0) == 0) by {
        assert(v_rel.y * 0 == 0) by (nonlinear_arith);
    }
    let n = collision_normal(pa, pb);
    assert(n.y == 0);
    assert(n.x == ONE || n.x == -ONE);
    let d = v_rel.spec_dot(n);
    assert(d == -magnitude(rx)) by {
        assert(towards.spec_dot(v_rel) == if towards.x == ONE {
            rx
        } else {
            -rx
        });
    }
    // The size of the impulse is the closing speed.
    let twice = times(negate((2 * ONE) as i64), d);
    assert(twice == -2 * d) by {
        assert((-2 * ONE) * d == (-2 * d) * ONE) by (nonlinear_arith);
        lemma_toward_zero_exact(-2 * d, ONE as int);
    }
    let j = impulse_size(pa, pb);
    assert(j == -d) by {
        assert((-2 * d) * ONE == (-d) * (2 * ONE)) by (nonlinear_arith);
        lemma_toward_zero_exact(-d, 2 * ONE);
    }
    lemma_times_unit(j);
    let push = kick(ONE, j, n);
    assert(0 * j == 0) by (nonlinear_arith);
    assert(push.y == 0);
    assert(push.x == -rx);
}

} // verus!
