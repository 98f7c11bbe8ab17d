use physics_sim::math::scalar::ONE;
use physics_sim::math::vector::Vec2f;
use physics_sim::physics::body::{BoundingBox, PhysicsBody, RigidBody};
use physics_sim::physics::engine::{PhysicsEngine, GRAVITY_CONST};
use physics_sim::physics::entity::{Color, Entity, Shape};
use physics_sim::physics::store::{EntityId, EntityManager};

const BLUE: Color = Color { r: 0, g: 0, b: 255, a: 255 };

fn ball(x: i64, y: i64, vx: i64, vy: i64, mass: i64, cor: i64, kind: RigidBody) -> Entity {
    let mut body = PhysicsBody::new(Vec2f::new(x, y), mass, cor);
    body.velocity = Vec2f::new(vx, vy);
    Entity::new(Vec2f::new(ONE / 2, ONE / 2), BLUE, body, Shape::Circle, kind)
}

fn get(store: &EntityManager, id: usize) -> Entity {
    *store.get_entity(&EntityId(id)).unwrap()
}

#[test]
fn default_engine_pulls_down_with_earth_gravity() {
    let engine = PhysicsEngine::init();
    assert_eq!(engine.gravity, 9_810_000);
    assert_eq!(engine.gravity, GRAVITY_CONST);
    assert_eq!(engine.gravity_dir, Vec2f::new(0, -ONE));
}

#[test]
fn engine_with_its_own_gravity() {
    let engine = PhysicsEngine::with_gravity(1_620_000, Vec2f::new(ONE, 0));
    assert_eq!(engine.gravity, 1_620_000);
    assert_eq!(engine.gravity_dir, Vec2f::new(ONE, 0));
}

#[test]
fn step_of_an_empty_store_does_nothing() {
    let mut store = EntityManager::init();
    PhysicsEngine::init().update(&mut store, ONE);
    assert_eq!(store.len(), 0);
}

#[test]
fn free_fall_is_semi_implicit_euler() {
    let mut store = EntityManager::init();
    store.add(ball(3 * ONE, 10 * ONE, 0, 0, ONE, 300_000, RigidBody::Dynamic));
    PhysicsEngine::init().update(&mut store, 500_000);
    let e = get(&store, 0);
    // v = -g dt = -4.905, y = y0 - g dt dt = 10 - 2.4525
    assert_eq!(e.physics_body.velocity, Vec2f::new(0, -4_905_000));
    assert_eq!(e.physics_body.position, Vec2f::new(3 * ONE, 7_547_500));
    assert_eq!(e.bounding_box, BoundingBox::new(3 * ONE, 7_547_500, ONE, ONE));
    assert_eq!(e.physics_body.force_accumulator, Vec2f::zero());
    assert_eq!(e.physics_body.acceleration, Vec2f::zero());
}

#[test]
fn free_fall_goes_on_from_the_new_velocity() {
    let mut store = EntityManager::init();
    store.add(ball(0, 0, 0, 0, ONE, 300_000, RigidBody::Dynamic));
    let engine = PhysicsEngine::init();
    engine.update(&mut store, 100_000);
    engine.update(&mut store, 100_000);
    let e = get(&store, 0);
    assert_eq!(e.physics_body.velocity, Vec2f::new(0, -1_962_000));
    // -0.0981 after the first step, and 0.1962 further down after the second
    assert_eq!(e.physics_body.position, Vec2f::new(0, -294_300));
}

#[test]
fn integration_of_one_entity_alone() {
    let engine = PhysicsEngine::with_gravity(2 * ONE, Vec2f::new(ONE, 0));
    let mut e = ball(0, 0, 0, ONE, 4 * ONE, ONE, RigidBody::Dynamic);
    e.physics_body.force_accumulator = Vec2f::new(0, 8 * ONE);
    engine.integrate_entity(&mut e, 500_000);
    // The force is (8, 8), the acceleration (2, 2), the velocity (1, 2), the position (0.5, 1).
    assert_eq!(e.physics_body.velocity, Vec2f::new(ONE, 2 * ONE));
    assert_eq!(e.physics_body.position, Vec2f::new(500_000, ONE));
    assert_eq!(e.bounding_box.x, 500_000);
    assert_eq!(e.bounding_box.y, ONE);
    assert_eq!(e.physics_body.force_accumulator, Vec2f::zero());
}

#[test]
fn a_mass_that_does_not_cancel_falls_a_little_slower() {
    let mut store = EntityManager::init();
    store.add(ball(0, 0, 0, 0, 3 * ONE, 300_000, RigidBody::Dynamic));
    PhysicsEngine::init().update(&mut store, ONE);
    // 29.43 * 0.333333 = 9.80999019..., not 9.81
    assert_eq!(get(&store, 0).physics_body.velocity, Vec2f::new(0, -9_809_990));
}

#[test]
fn a_step_of_no_time_changes_nothing() {
    let mut store = EntityManager::init();
    let a = ball(0, 5 * ONE, ONE, 2 * ONE, ONE, ONE, RigidBody::Dynamic);
    let b = ball(10 * ONE, 5 * ONE, 0, 0, ONE, ONE, RigidBody::Dynamic);
    store.add(a);
    store.add(b);
    PhysicsEngine::init().update(&mut store, 0);
    assert_eq!(get(&store, 0), a);
    assert_eq!(get(&store, 1), b);
}

#[test]
fn static_and_massless_entities_never_move() {
    let mut store = EntityManager::init();
    let fixed = ball(0, 0, ONE, ONE, 5 * ONE, ONE, RigidBody::Static);
    let massless = ball(200_000, 0, -ONE, 0, 0, ONE, RigidBody::Dynamic);
    let negative = ball(0, 300_000, 0, -ONE, -2 * ONE, ONE, RigidBody::Dynamic);
    let falling = ball(100_000, 2 * ONE, 0, 0, ONE, ONE, RigidBody::Dynamic);
    store.add(fixed);
    store.add(massless);
    store.add(negative);
    store.add(falling);
    let engine = PhysicsEngine::init();
    for dt in [0, 16_000, 100_000, 33_000, ONE, 5 * ONE, 16_000, 16_000] {
        engine.update(&mut store, dt);
        assert_eq!(get(&store, 0), fixed);
        assert_eq!(get(&store, 1), massless);
        assert_eq!(get(&store, 2), negative);
    }
    assert_ne!(get(&store, 3), falling);
}

#[test]
fn two_balls_meeting_head_on_swap_their_velocities() {
    let mut store = EntityManager::init();
    store.add(ball(0, 0, ONE, 0, ONE, ONE, RigidBody::Dynamic));
    store.add(ball(ONE / 2, 0, -ONE, 0, ONE, ONE, RigidBody::Dynamic));
    PhysicsEngine::init().update(&mut store, 100_000);
    let a = get(&store, 0).physics_body;
    let b = get(&store, 1).physics_body;
    assert_eq!(a.velocity, Vec2f::new(-ONE, -981_000));
    assert_eq!(b.velocity, Vec2f::new(ONE, -981_000));
    // The positions are those of the integration: the collision moves nothing.
    assert_eq!(a.position, Vec2f::new(100_000, -98_100));
    assert_eq!(b.position, Vec2f::new(400_000, -98_100));
}

#[test]
fn two_balls_meeting_head_on_without_gravity() {
    let mut store = EntityManager::init();
    store.add(ball(0, 0, ONE, 0, ONE, ONE, RigidBody::Dynamic));
    store.add(ball(ONE / 2, 0, -ONE, 0, ONE, ONE, RigidBody::Dynamic));
    PhysicsEngine::with_gravity(0, Vec2f::new(0, -ONE)).update(&mut store, 100_000);
    assert_eq!(get(&store, 0).physics_body.velocity, Vec2f::new(-ONE, 0));
    assert_eq!(get(&store, 1).physics_body.velocity, Vec2f::new(ONE, 0));
}

#[test]
fn balls_that_do_not_overlap_do_not_collide() {
    let mut store = EntityManager::init();
    store.add(ball(0, 0, ONE, 0, ONE, ONE, RigidBody::Dynamic));
    store.add(ball(5 * ONE, 0, -ONE, 0, ONE, ONE, RigidBody::Dynamic));
    // Same x extent, far apart on y.
    store.add(ball(0, 50 * ONE, 0, 0, ONE, ONE, RigidBody::Dynamic));
    PhysicsEngine::with_gravity(0, Vec2f::new(0, -ONE)).update(&mut store, 100_000);
    assert_eq!(get(&store, 0).physics_body.velocity, Vec2f::new(ONE, 0));
    assert_eq!(get(&store, 1).physics_body.velocity, Vec2f::new(-ONE, 0));
    assert_eq!(get(&store, 2).physics_body.velocity, Vec2f::zero());
}

#[test]
fn a_ball_bounces_off_a_static_floor() {
    let mut store = EntityManager::init();
    let mut floor_body = PhysicsBody::new(Vec2f::new(0, 0), 1000 * ONE, 300_000);
    floor_body.velocity = Vec2f::zero();
    let floor = Entity::new(
        Vec2f::new(100 * ONE, ONE),
        BLUE,
        floor_body,
        Shape::Rectangle,
        RigidBody::Static,
    );
    store.add(floor);
    store.add(ball(0, 2 * ONE, 0, 0, ONE, 300_000, RigidBody::Dynamic));
    let engine = PhysicsEngine::init();
    let mut bounced = false;
    for _ in 0..200 {
        let before = get(&store, 1).physics_body;
        engine.update(&mut store, 16_000);
        let after = get(&store, 1).physics_body;
        assert_eq!(get(&store, 0), floor);
        if after.velocity.y > 0 {
            // The ball was falling, reached the floor in this step and left it upwards.
            assert!(before.velocity.y < 0);
            assert!(get(&store, 1).bounding_box.intersects(&floor.bounding_box));
            assert!(after.position.y < before.position.y);
            bounced = true;
            break;
        }
        assert!(after.velocity.y < before.velocity.y);
    }
    assert!(bounced);
}

#[test]
fn the_first_bounce_off_the_floor_has_the_stated_velocity() {
    let mut store = EntityManager::init();
    let floor = Entity::new(
        Vec2f::new(100 * ONE, ONE),
        BLUE,
        PhysicsBody::new(Vec2f::new(0, 0), 0, ONE),
        Shape::Rectangle,
        RigidBody::Static,
    );
    store.add(floor);
    store.add(ball(0, 900_000, 0, -ONE, ONE, 500_000, RigidBody::Dynamic));
    PhysicsEngine::with_gravity(0, Vec2f::new(0, -ONE)).update(&mut store, 100_000);
    let b = get(&store, 1).physics_body;
    assert_eq!(b.position, Vec2f::new(0, 800_000));
    // -(1 + 0.5) * (-1) / (0 + 1) = 1.5 upwards on a ball falling at 1
    assert_eq!(b.velocity, Vec2f::new(0, 500_000));
    assert_eq!(get(&store, 0), floor);
}
