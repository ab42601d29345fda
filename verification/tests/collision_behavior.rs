//! Collision detection and response behaviour, on concrete worlds.

use rusted_engine::collision::{
    check_active_entity_collisions, is_colliding, is_colliding_aabb, is_colliding_circle,
    is_colliding_obb, resolve_overlap, transfer_velocity_on_collision, CollisionEvent,
};
use rusted_engine::fixed::{Vec2, Vec3};
use rusted_engine::generic_entity::{CollisionMode, GenericEntity};
use rusted_engine::graphics_object::GraphicsObject;
use rusted_engine::master_entity_list::MasterEntityList;
use rusted_engine::legacy;
use rusted_engine::master_graphics_list::MasterGraphicsList;

fn entity(
    name: &str,
    weight: i64,
    velocity: (i64, i64),
    is_static: bool,
    elasticity: i64,
    priority: u64,
    modes: Vec<CollisionMode>,
) -> GenericEntity {
    GenericEntity::new(
        name.to_string(),
        weight,
        Vec2 { x: velocity.0, y: velocity.1 },
        false,
        is_static,
        elasticity,
        true,
        priority,
        modes,
        Vec::new(),
    )
}

fn object(name: &str, pos: (i64, i64), width: i64, height: i64, radius: i64) -> GraphicsObject {
    GraphicsObject::new(
        name.to_string(),
        Vec3 { x: pos.0, y: pos.1, z: 0 },
        0,
        1000,
        width,
        height,
        radius,
        None,
        None,
    )
}

#[test]
fn aabb_overlap_is_strict_on_both_axes() {
    // Boxes of width 1000 centred 1000 apart touch exactly and do not overlap.
    let a = object("a", (0, 0), 1000, 1000, 0);
    let touching = object("b", (1000, 0), 1000, 1000, 0);
    assert!(!is_colliding_aabb(&a, &touching));
    // Nudged together they overlap.
    let close = object("b", (999, 0), 1000, 1000, 0);
    assert!(is_colliding_aabb(&a, &close));
    // Overlap on x alone is not enough.
    let above = object("b", (999, 2000), 1000, 1000, 0);
    assert!(!is_colliding_aabb(&a, &above));
}

#[test]
fn circle_overlap_compares_squared_distance_strictly() {
    // Radii 300 + 700: centres exactly 1000 apart do not collide.
    let a = object("a", (0, 0), 0, 0, 300);
    let touching = object("b", (1000, 0), 0, 0, 700);
    assert!(!is_colliding_circle(&a, &touching));
    let close = object("b", (999, 0), 0, 0, 700);
    assert!(is_colliding_circle(&a, &close));
    // 3-4-5 triangle: distance 1000 against radius sum 1001.
    let diagonal = object("b", (600, 800), 0, 0, 701);
    assert!(is_colliding_circle(&a, &diagonal));
}

#[test]
fn oriented_box_mode_fails_loudly() {
    assert!(is_colliding_obb().is_err());

    let mut entities = MasterEntityList::new();
    let mut objects = MasterGraphicsList::new();
    entities.add_entity(entity("a", 1000, (0, 0), false, 0, 0, vec![CollisionMode::OBB]));
    entities.add_entity(entity("b", 1000, (0, 0), false, 0, 0, vec![CollisionMode::OBB]));
    objects.add_object(object("a", (0, 0), 1000, 1000, 0));
    objects.add_object(object("b", (0, 0), 1000, 1000, 0));
    let r = is_colliding(&"a".to_string(), &"b".to_string(), &entities, &objects);
    assert!(r.is_err());
    // The whole scan propagates the failure instead of hiding it.
    assert!(check_active_entity_collisions(&entities, &objects).is_err());
}

#[test]
fn disjoint_modes_never_collide() {
    // Same positions as a clear AABB hit, but the shapes share no mode.
    let mut entities = MasterEntityList::new();
    let mut objects = MasterGraphicsList::new();
    entities.add_entity(entity("a", 1000, (0, 0), false, 0, 0, vec![CollisionMode::AABB]));
    entities.add_entity(entity("b", 1000, (0, 0), false, 0, 0, vec![CollisionMode::Circle]));
    objects.add_object(object("a", (0, 0), 1000, 1000, 500));
    objects.add_object(object("b", (0, 0), 1000, 1000, 500));
    assert_eq!(is_colliding(&"a".to_string(), &"b".to_string(), &entities, &objects), Ok(false));
}

#[test]
fn priority_gates_the_initiator() {
    let mut entities = MasterEntityList::new();
    let mut objects = MasterGraphicsList::new();
    entities.add_entity(entity("low", 1000, (0, 0), false, 0, 1, vec![CollisionMode::AABB]));
    entities.add_entity(entity("high", 1000, (0, 0), false, 0, 2, vec![CollisionMode::AABB]));
    objects.add_object(object("low", (0, 0), 1000, 1000, 0));
    objects.add_object(object("high", (100, 0), 1000, 1000, 0));
    // The lower-priority entity may not initiate against the higher one.
    assert_eq!(is_colliding(&"low".to_string(), &"high".to_string(), &entities, &objects), Ok(false));
    assert_eq!(is_colliding(&"high".to_string(), &"low".to_string(), &entities, &objects), Ok(true));
}

#[test]
fn active_scan_collects_events_in_store_order() {
    let mut entities = MasterEntityList::new();
    let mut objects = MasterGraphicsList::new();
    entities.add_entity(entity("a", 1000, (0, 0), false, 0, 0, vec![CollisionMode::AABB]));
    entities.add_entity(entity("b", 1000, (0, 0), false, 0, 0, vec![CollisionMode::AABB]));
    objects.add_object(object("a", (0, 0), 1000, 1000, 0));
    objects.add_object(object("b", (100, 0), 1000, 1000, 0));
    let events = check_active_entity_collisions(&entities, &objects).unwrap();
    assert_eq!(events.len(), 2);
    assert_eq!(events[0].object_name_1, "a");
    assert_eq!(events[0].object_name_2, "b");
    assert_eq!(events[1].object_name_1, "b");
    assert_eq!(events[1].object_name_2, "a");
}

#[test]
fn static_pair_keeps_both_velocities() {
    let mut a = entity("a", 4000, (2000, -500), true, 500, 0, vec![CollisionMode::AABB]);
    let mut b = entity("b", 1000, (-300, 800), true, 700, 0, vec![CollisionMode::AABB]);
    transfer_velocity_on_collision(&mut a, &mut b);
    assert_eq!(a.get_velocity(), Vec2 { x: 2000, y: -500 });
    assert_eq!(b.get_velocity(), Vec2 { x: -300, y: 800 });
}

#[test]
fn weightless_pair_exchanges_nothing() {
    let mut a = entity("a", 0, (2000, 0), false, 500, 0, vec![CollisionMode::AABB]);
    let mut b = entity("b", 0, (-300, 0), false, 700, 0, vec![CollisionMode::AABB]);
    transfer_velocity_on_collision(&mut a, &mut b);
    assert_eq!(a.get_velocity(), Vec2 { x: 2000, y: 0 });
    assert_eq!(b.get_velocity(), Vec2 { x: -300, y: 0 });
}

#[test]
fn velocity_transfer_formula_exact_values() {
    // The ball (weight 1.0, velocity 2.0, elasticity 0.5) hits the static
    // rock (weight 4.0): the ball keeps 1.2 units of speed, the rock none.
    let mut rock = entity("rock", 4000, (0, 0), true, 500, 0, vec![CollisionMode::AABB]);
    let mut ball = entity("ball", 1000, (2000, 0), false, 500, 0, vec![CollisionMode::AABB]);
    transfer_velocity_on_collision(&mut ball, &mut rock);
    assert_eq!(rock.get_velocity(), Vec2 { x: 0, y: 0 });
    // (0 - 2000) * 4000 * 500 / (5000 * 1000) = -800.
    assert_eq!(ball.get_velocity(), Vec2 { x: 1200, y: 0 });
}

#[test]
fn resolve_overlap_moves_ball_away_from_static_rock_by_fixed_step() {
    let rock = entity("rock", 4000, (0, 0), true, 500, 0, vec![CollisionMode::AABB]);
    let ball = entity("ball", 1000, (2000, 0), false, 500, 0, vec![CollisionMode::AABB]);
    let mut objects = MasterGraphicsList::new();
    objects.add_object(object("rock", (0, 0), 1000, 1000, 0));
    objects.add_object(object("ball", (600, 0), 1000, 1000, 0));
    // The x overlap (800 doubled units) is the smaller one; the ball sits to
    // the right of the rock, so it is pushed further right by the fixed step.
    let moved = resolve_overlap(&ball, &rock, &mut objects);
    assert!(moved);
    let ball_pos = objects.get_object(&"ball".to_string()).unwrap().get_position();
    assert_eq!(ball_pos, Vec3 { x: 650, y: 0, z: 0 });
    let rock_pos = objects.get_object(&"rock".to_string()).unwrap().get_position();
    assert_eq!(rock_pos, Vec3 { x: 0, y: 0, z: 0 });
}

#[test]
fn resolve_overlap_never_moves_static_entities() {
    let rock = entity("rock", 4000, (0, 0), true, 500, 0, vec![CollisionMode::AABB]);
    let wall = entity("wall", 4000, (0, 0), true, 500, 0, vec![CollisionMode::AABB]);
    let mut objects = MasterGraphicsList::new();
    objects.add_object(object("rock", (0, 0), 1000, 1000, 0));
    objects.add_object(object("wall", (600, 0), 1000, 1000, 0));
    let moved = resolve_overlap(&rock, &wall, &mut objects);
    assert!(!moved);
    assert_eq!(
        objects.get_object(&"wall".to_string()).unwrap().get_position(),
        Vec3 { x: 600, y: 0, z: 0 }
    );
}

#[test]
fn legacy_destruction_checks_both_directions() {
    // The heavier destroyer removes the lighter destructible partner.
    let mut entities = legacy::MasterEntityList::new();
    let mut objects = MasterGraphicsList::new();
    entities.add_entity(legacy::GenericEntity::new("hammer".to_string(), 4000, true, false, true));
    entities.add_entity(legacy::GenericEntity::new("vase".to_string(), 1000, false, true, false));
    objects.add_object(object("hammer", (0, 0), 1000, 1000, 0));
    objects.add_object(object("vase", (100, 0), 1000, 1000, 0));
    let handler = legacy::EventHandler;
    handler.handle_collision_events(
        &mut entities,
        &mut objects,
        vec![CollisionEvent { object_name_1: "hammer".to_string(), object_name_2: "vase".to_string() }],
    );
    assert!(entities.get_entity(&"vase".to_string()).is_none());
    assert!(objects.get_object(&"vase".to_string()).is_none());
    assert!(entities.get_entity(&"hammer".to_string()).is_some());

    // The symmetric direction is decided on its own: here the second party
    // destroys the first.
    let mut entities = legacy::MasterEntityList::new();
    let mut objects = MasterGraphicsList::new();
    entities.add_entity(legacy::GenericEntity::new("vase".to_string(), 1000, false, true, true));
    entities.add_entity(legacy::GenericEntity::new("hammer".to_string(), 4000, true, false, false));
    objects.add_object(object("vase", (0, 0), 1000, 1000, 0));
    objects.add_object(object("hammer", (100, 0), 1000, 1000, 0));
    handler.handle_collision_events(
        &mut entities,
        &mut objects,
        vec![CollisionEvent { object_name_1: "vase".to_string(), object_name_2: "hammer".to_string() }],
    );
    assert!(entities.get_entity(&"vase".to_string()).is_none());
    assert!(entities.get_entity(&"hammer".to_string()).is_some());
}

#[test]
fn legacy_destruction_requires_enough_weight() {
    // A lighter destroyer leaves the destructible partner alone.
    let mut entities = legacy::MasterEntityList::new();
    let mut objects = MasterGraphicsList::new();
    entities.add_entity(legacy::GenericEntity::new("pebble".to_string(), 500, true, false, true));
    entities.add_entity(legacy::GenericEntity::new("vase".to_string(), 1000, false, true, false));
    objects.add_object(object("pebble", (0, 0), 1000, 1000, 0));
    objects.add_object(object("vase", (100, 0), 1000, 1000, 0));
    let handler = legacy::EventHandler;
    handler.handle_collision_events(
        &mut entities,
        &mut objects,
        vec![CollisionEvent { object_name_1: "pebble".to_string(), object_name_2: "vase".to_string() }],
    );
    assert!(entities.get_entity(&"vase".to_string()).is_some());
}

#[test]
fn equal_weight_mutual_destruction_removes_both() {
    let mut entities = legacy::MasterEntityList::new();
    let mut objects = MasterGraphicsList::new();
    entities.add_entity(legacy::GenericEntity::new("a".to_string(), 1000, true, true, true));
    entities.add_entity(legacy::GenericEntity::new("b".to_string(), 1000, true, true, false));
    objects.add_object(object("a", (0, 0), 1000, 1000, 0));
    objects.add_object(object("b", (100, 0), 1000, 1000, 0));
    let handler = legacy::EventHandler;
    handler.handle_collision_events(
        &mut entities,
        &mut objects,
        vec![CollisionEvent { object_name_1: "a".to_string(), object_name_2: "b".to_string() }],
    );
    assert!(entities.get_entity(&"a".to_string()).is_none());
    assert!(entities.get_entity(&"b".to_string()).is_none());
}
