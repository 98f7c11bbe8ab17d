use physics_sim::math::scalar::ONE;
use physics_sim::math::vector::Vec2f;
use physics_sim::physics::body::{PhysicsBody, RigidBody};
use physics_sim::physics::engine::{PhysicsEngine, PhysicsError};
use physics_sim::physics::entity::{Color, Entity, Shape};
use physics_sim::physics::impulse::Impulse;
use physics_sim::physics::store::{EntityId, EntityManager};

const RED: Color = Color { r: 255, g: 0, b: 0, a: 255 };

fn body(x: i64, y: i64, vx: i64, vy: i64, mass: i64, cor: i64) -> PhysicsBody {
    let mut b = PhysicsBody::new(Vec2f::new(x, y), mass, cor);
    b.velocity = Vec2f::new(vx, vy);
    b
}

fn circle(b: PhysicsBody, kind: RigidBody) -> Entity {
    Entity::new(Vec2f::new(ONE / 2, ONE / 2), RED, b, Shape::Circle, kind)
}

fn velocity(store: &EntityManager, id: usize) -> Vec2f {
    store.get_entity(&EntityId(id)).unwrap().physics_body.velocity
}

#[test]
fn impulse_of_a_head_on_elastic_collision() {
    let a = body(0, 0, ONE, 0, ONE, ONE);
    let b = body(ONE / 2, 0, -ONE, 0, ONE, ONE);
    let impulse = Impulse::between(&a, &b).unwrap();
    // The normal is turned against the relative velocity (2, 0).
    assert_eq!(impulse.normal, Vec2f::new(-ONE, 0));
    // -(1 + 1) * (-2) / (1 + 1) = 2
    assert_eq!(impulse.size, 2 * ONE);
    assert_eq!(impulse.push(a.velocity, a.inv_mass), Vec2f::new(-ONE, 0));
    assert_eq!(impulse.pull(b.velocity, b.inv_mass), Vec2f::new(ONE, 0));
}

#[test]
fn impulse_takes_the_smaller_restitution() {
    let a = body(0, 0, ONE, 0, ONE, ONE);
    let b = body(ONE, 0, 0, 0, ONE, 500_000);
    let impulse = Impulse::between(&a, &b).unwrap();
    // -(1 + 0.5) * (-1) / 2 = 0.75
    assert_eq!(impulse.size, 750_000);
    assert_eq!(impulse.normal, Vec2f::new(-ONE, 0));
}

#[test]
fn impulse_uses_both_inverse_masses() {
    let a = body(0, 0, 0, -2 * ONE, 4 * ONE, ONE);
    let b = body(0, -ONE, 0, 0, ONE, ONE);
    let impulse = Impulse::between(&a, &b).unwrap();
    // The relative velocity (0, -2) points along the unit vector (0, -1) towards b.
    assert_eq!(impulse.normal, Vec2f::new(0, ONE));
    // -(1 + 1) * (-2) / (0.25 + 1) = 3.2
    assert_eq!(impulse.size, 3_200_000);
    // a gains 0.25 * 3.2 = 0.8 along the normal, b loses 3.2 along it.
    assert_eq!(impulse.push(a.velocity, a.inv_mass), Vec2f::new(0, -1_200_000));
    assert_eq!(impulse.pull(b.velocity, b.inv_mass), Vec2f::new(0, -3_200_000));
}

#[test]
fn impulse_along_a_diagonal() {
    let a = body(0, 0, ONE, ONE, ONE, ONE);
    let b = body(3 * ONE, 4 * ONE, 0, 0, ONE, ONE);
    let impulse = Impulse::between(&a, &b).unwrap();
    // The unit vector (0.6, 0.8) points along the relative velocity (1, 1), so it is turned.
    assert_eq!(impulse.normal, Vec2f::new(-600_000, -800_000));
    // -(1 + 1) * (-1.4) / 2 = 1.4
    assert_eq!(impulse.size, 1_400_000);
    assert_eq!(impulse.push(a.velocity, a.inv_mass), Vec2f::new(160_000, -120_000));
    assert_eq!(impulse.pull(b.velocity, b.inv_mass), Vec2f::new(840_000, 1_120_000));
}

#[test]
fn no_impulse_between_coincident_centers() {
    let a = body(ONE, ONE, ONE, 0, ONE, ONE);
    let b = body(ONE, ONE, -ONE, 0, ONE, ONE);
    assert_eq!(Impulse::between(&a, &b), None);
}

#[test]
fn no_impulse_between_two_massless_bodies() {
    let a = body(0, 0, ONE, 0, 0, ONE);
    let b = body(ONE, 0, -ONE, 0, -ONE, ONE);
    assert_eq!(Impulse::between(&a, &b), None);
}

#[test]
fn equal_masses_swap_their_velocities_along_the_normal() {
    let mut store = EntityManager::init();
    store.add(circle(body(0, 0, 3 * ONE, 700_000, 2 * ONE, ONE), RigidBody::Dynamic));
    store.add(circle(body(ONE / 2, 0, -ONE, -200_000, 2 * ONE, ONE), RigidBody::Dynamic));
    assert_eq!(PhysicsEngine::handle_collision(&EntityId(0), &EntityId(1), &mut store), Ok(()));
    assert_eq!(velocity(&store, 0), Vec2f::new(-ONE, 700_000));
    assert_eq!(velocity(&store, 1), Vec2f::new(3 * ONE, -200_000));
}

#[test]
fn collision_conserves_momentum_of_equal_masses() {
    let mut store = EntityManager::init();
    store.add(circle(body(0, 0, 2 * ONE, ONE, 3 * ONE, 400_000), RigidBody::Dynamic));
    store.add(circle(body(ONE, 2 * ONE, -ONE, 0, 3 * ONE, 900_000), RigidBody::Dynamic));
    let before = velocity(&store, 0) + velocity(&store, 1);
    PhysicsEngine::handle_collision(&EntityId(0), &EntityId(1), &mut store).unwrap();
    assert_eq!(velocity(&store, 0) + velocity(&store, 1), before);
    assert_ne!(velocity(&store, 0), Vec2f::new(2 * ONE, ONE));
}

#[test]
fn collision_changes_velocities_only() {
    let mut store = EntityManager::init();
    let a = circle(body(0, 0, ONE, 0, ONE, ONE), RigidBody::Dynamic);
    let b = circle(body(ONE / 2, 0, -ONE, 0, ONE, ONE), RigidBody::Dynamic);
    store.add(a);
    store.add(b);
    PhysicsEngine::handle_collision(&EntityId(0), &EntityId(1), &mut store).unwrap();
    let mut a_after = a;
    a_after.physics_body.velocity = Vec2f::new(-ONE, 0);
    let mut b_after = b;
    b_after.physics_body.velocity = Vec2f::new(ONE, 0);
    assert_eq!(store.get_entity(&EntityId(0)), Some(&a_after));
    assert_eq!(store.get_entity(&EntityId(1)), Some(&b_after));
}

#[test]
fn static_entity_keeps_its_velocity_and_the_other_is_pushed() {
    let mut store = EntityManager::init();
    store.add(circle(body(0, 0, 0, 0, 1000 * ONE, ONE), RigidBody::Static));
    store.add(circle(body(0, ONE, 0, -2 * ONE, ONE, ONE), RigidBody::Dynamic));
    PhysicsEngine::handle_collision(&EntityId(0), &EntityId(1), &mut store).unwrap();
    assert_eq!(velocity(&store, 0), Vec2f::zero());
    // -(1 + 1) * (-2) / (0.001 + 1) = 3.996003 (rounded toward zero), less the 2 it came with.
    assert_eq!(velocity(&store, 1), Vec2f::new(0, 1_996_003));
}

#[test]
fn static_entity_keeps_its_velocity_on_either_side_of_the_pair() {
    let mut store = EntityManager::init();
    store.add(circle(body(0, ONE, 0, -2 * ONE, ONE, ONE), RigidBody::Dynamic));
    store.add(circle(body(0, 0, 500_000, 0, 1000 * ONE, ONE), RigidBody::Static));
    PhysicsEngine::handle_collision(&EntityId(0), &EntityId(1), &mut store).unwrap();
    assert_eq!(velocity(&store, 1), Vec2f::new(500_000, 0));
    assert_eq!(velocity(&store, 0), Vec2f::new(0, 1_996_003));
}

#[test]
fn massless_entity_takes_no_impulse() {
    let mut store = EntityManager::init();
    store.add(circle(body(0, 0, ONE, 0, 0, ONE), RigidBody::Dynamic));
    store.add(circle(body(ONE, 0, -ONE, 0, ONE, ONE), RigidBody::Dynamic));
    PhysicsEngine::handle_collision(&EntityId(0), &EntityId(1), &mut store).unwrap();
    assert_eq!(velocity(&store, 0), Vec2f::new(ONE, 0));
    // -(1 + 1) * (-2) / (0 + 1) = 4 against the normal (-1, 0)
    assert_eq!(velocity(&store, 1), Vec2f::new(3 * ONE, 0));
}

#[test]
fn coincident_entities_are_left_alone() {
    let mut store = EntityManager::init();
    store.add(circle(body(ONE, ONE, ONE, 0, ONE, ONE), RigidBody::Dynamic));
    store.add(circle(body(ONE, ONE, -ONE, 0, ONE, ONE), RigidBody::Dynamic));
    assert_eq!(PhysicsEngine::handle_collision(&EntityId(0), &EntityId(1), &mut store), Ok(()));
    assert_eq!(velocity(&store, 0), Vec2f::new(ONE, 0));
    assert_eq!(velocity(&store, 1), Vec2f::new(-ONE, 0));
    assert_eq!(PhysicsEngine::handle_collision(&EntityId(0), &EntityId(0), &mut store), Ok(()));
    assert_eq!(velocity(&store, 0), Vec2f::new(ONE, 0));
}

#[test]
fn missing_entity_is_an_error_and_changes_nothing() {
    let mut store = EntityManager::init();
    let a = circle(body(0, 0, ONE, 0, ONE, ONE), RigidBody::Dynamic);
    store.add(a);
    assert_eq!(
        PhysicsEngine::handle_collision(&EntityId(0), &EntityId(4), &mut store),
        Err(PhysicsError::MissingEntity(EntityId(4)))
    );
    assert_eq!(
        PhysicsEngine::handle_collision(&EntityId(3), &EntityId(0), &mut store),
        Err(PhysicsError::MissingEntity(EntityId(3)))
    );
    assert_eq!(
        PhysicsEngine::handle_collision(&EntityId(3), &EntityId(4), &mut store),
        Err(PhysicsError::MissingEntity(EntityId(3)))
    );
    assert_eq!(store.get_entity(&EntityId(0)), Some(&a));
}
