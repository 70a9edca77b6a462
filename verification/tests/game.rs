//! Tests of the bookkeeping value types next to the engine: identifiers,
//! the issuing counter, hit points and the enemy flag.

use rigid2d::game::{BasicEnemy, Counter, Hitpoints, RigidBodyID, SensorID};

#[test]
fn counter_issues_consecutive_numbers_from_one() {
    let mut counter = Counter::new();
    assert_eq!(counter.next(), 1);
    assert_eq!(counter.next(), 2);
    assert_eq!(counter.next(), 3);
}

#[test]
fn rigid_body_ids_compare_by_number() {
    assert_eq!(RigidBodyID::new(7), RigidBodyID::new(7));
    assert_ne!(RigidBodyID::new(7), RigidBodyID::new(8));
    assert_eq!(SensorID::new(1), SensorID::new(1));
}

#[test]
fn hitpoints_start_full() {
    let hp = Hitpoints::new(25);
    assert_eq!(hp.current(), 25);
    assert_eq!(hp.max(), 25);
}

#[test]
fn damage_saturates_at_zero() {
    let mut hp = Hitpoints::new(10);
    hp.damage(4);
    assert_eq!(hp.current(), 6);
    hp.damage(100);
    assert_eq!(hp.current(), 0);
}

#[test]
fn healing_saturates_at_the_maximum() {
    let mut hp = Hitpoints::new(10);
    hp.damage(7);
    hp.heal(2);
    assert_eq!(hp.current(), 5);
    hp.heal(60000);
    assert_eq!(hp.current(), 10);
}

#[test]
fn set_current_is_capped() {
    let mut hp = Hitpoints::new(10);
    hp.set_current(3);
    assert_eq!(hp.current(), 3);
    hp.set_current(99);
    assert_eq!(hp.current(), 10);
}

#[test]
fn new_enemies_are_alive() {
    let enemy = BasicEnemy::new();
    assert!(!enemy.is_dead);
}
