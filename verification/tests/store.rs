use physics_sim::math::scalar::ONE;
use physics_sim::math::vector::Vec2f;
use physics_sim::physics::body::{PhysicsBody, RigidBody};
use physics_sim::physics::entity::{Color, Entity, Shape};
use physics_sim::physics::store::{EntityId, EntityManager};

fn ball(x: i64, y: i64) -> Entity {
    Entity::new(
        Vec2f::new(ONE, ONE),
        Color { r: 1, g: 2, b: 3, a: 4 },
        PhysicsBody::new(Vec2f::new(x, y), ONE, 300_000),
        Shape::Circle,
        RigidBody::Dynamic,
    )
}

#[test]
fn a_new_store_is_empty() {
    let store = EntityManager::init();
    assert_eq!(store.len(), 0);
    assert!(store.get_entity(&EntityId(0)).is_none());
    assert!(!store.is_full());
}

#[test]
fn add_hands_out_increasing_identifiers() {
    let mut store = EntityManager::init();
    assert_eq!(store.add(ball(0, 0)), EntityId(0));
    assert_eq!(store.add(ball(ONE, 0)), EntityId(1));
    assert_eq!(store.add(ball(2 * ONE, 0)), EntityId(2));
    assert_eq!(store.len(), 3);
    assert_eq!(store.id_at(1), EntityId(1));
    assert_eq!(*store.entity_at(2), ball(2 * ONE, 0));
}

#[test]
fn get_entity_finds_what_was_added() {
    let mut store = EntityManager::init();
    let a = store.add(ball(0, 0));
    let b = store.add(ball(5 * ONE, 7 * ONE));
    assert_eq!(store.get_entity(&a), Some(&ball(0, 0)));
    assert_eq!(store.get_entity(&b), Some(&ball(5 * ONE, 7 * ONE)));
    assert_eq!(store.get_entity(&EntityId(2)), None);
    assert_eq!(store.get_entity(&EntityId(usize::MAX)), None);
}

#[test]
fn get_entity_mut_changes_one_entity() {
    let mut store = EntityManager::init();
    let a = store.add(ball(0, 0));
    let b = store.add(ball(ONE, 0));
    store.get_entity_mut(&b).unwrap().physics_body.velocity = Vec2f::new(3, 4);
    assert_eq!(store.get_entity(&b).unwrap().physics_body.velocity, Vec2f::new(3, 4));
    assert_eq!(store.get_entity(&a), Some(&ball(0, 0)));
    assert!(store.get_entity_mut(&EntityId(9)).is_none());
}

#[test]
fn clear_retires_the_identifiers() {
    let mut store = EntityManager::init();
    let a = store.add(ball(0, 0));
    let b = store.add(ball(ONE, 0));
    store.clear();
    assert_eq!(store.len(), 0);
    assert!(store.get_entity(&a).is_none());
    assert!(store.get_entity(&b).is_none());
    let c = store.add(ball(2 * ONE, 0));
    assert_eq!(c, EntityId(2));
    assert_eq!(store.id_at(0), EntityId(2));
    assert!(store.get_entity(&a).is_none());
    assert_eq!(store.get_entity(&c), Some(&ball(2 * ONE, 0)));
}
