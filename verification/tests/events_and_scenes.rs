//! Trigger evaluation, outcome chaining and scene save/load behaviour.

use rusted_engine::audio::AudioType;
use rusted_engine::collision::CollisionEvent;
use rusted_engine::event_handler::EventHandler;
use rusted_engine::fixed::{Vec2, Vec3, VEL_LIMIT};
use rusted_engine::game_state::GameState;
use rusted_engine::generic_entity::{CollisionMode, GenericEntity};
use rusted_engine::graphics_object::GraphicsObject;
use rusted_engine::key_states::KeyStates;
use rusted_engine::master_entity_list::MasterEntityList;
use rusted_engine::master_graphics_list::MasterGraphicsList;
use rusted_engine::scene::Scene;
use rusted_engine::scene_manager::SceneManager;
use rusted_engine::scene_properties::SceneProperties;
use rusted_engine::triggers::{
    AccelerateObjectArgs, CollisionCondition, DestroyObjectArgs, EnqueueAudioArgs, KeyCondition,
    Outcome, SceneTrigger, SceneTriggerType, SwapSceneArgs, Trigger, TriggerConditions,
    TriggerType,
};

fn entity_with_triggers(name: &str, triggers: Vec<Trigger>) -> GenericEntity {
    GenericEntity::new(
        name.to_string(),
        1000,
        Vec2 { x: 0, y: 0 },
        false,
        false,
        500,
        true,
        0,
        vec![CollisionMode::AABB],
        triggers,
    )
}

fn object(name: &str, pos: (i64, i64)) -> GraphicsObject {
    GraphicsObject::new(
        name.to_string(),
        Vec3 { x: pos.0, y: pos.1, z: 0 },
        0,
        1000,
        1000,
        1000,
        0,
        None,
        None,
    )
}

fn handler_with(entities: Vec<GenericEntity>, objects: Vec<GraphicsObject>) -> EventHandler {
    let mut el = MasterEntityList::new();
    for e in entities {
        el.add_entity(e);
    }
    let mut gl = MasterGraphicsList::new();
    for o in objects {
        gl.add_object(o);
    }
    EventHandler::new(el, gl, SceneManager::new(), GameState::new(), KeyStates::new())
}

fn collision_trigger(collided_with: Option<&str>, outcome: Outcome) -> Trigger {
    Trigger {
        trigger_type: TriggerType::Collision,
        conditions: collided_with.map(|n| {
            TriggerConditions::CollisionConditions(CollisionCondition {
                collided_with: n.to_string(),
            })
        }),
        outcome,
    }
}

fn destroy_outcome(name: &str) -> Outcome {
    Outcome::DestroyObject(DestroyObjectArgs { object_name: name.to_string() })
}

#[test]
fn conditioned_collision_trigger_fires_only_against_named_party() {
    // An entity whose trigger names "spike" does not fire against "wall".
    let victim = entity_with_triggers("victim", vec![collision_trigger(Some("spike"), destroy_outcome("victim"))]);
    let wall = entity_with_triggers("wall", Vec::new());
    let spike = entity_with_triggers("spike", Vec::new());
    let mut handler = handler_with(
        vec![victim, wall, spike],
        vec![object("victim", (0, 0)), object("wall", (100, 0)), object("spike", (200, 0))],
    );

    let against_wall = handler.handle_collision_events(vec![CollisionEvent {
        object_name_1: "victim".to_string(),
        object_name_2: "wall".to_string(),
    }]);
    assert_eq!(against_wall.len(), 0);

    let against_spike = handler.handle_collision_events(vec![CollisionEvent {
        object_name_1: "victim".to_string(),
        object_name_2: "spike".to_string(),
    }]);
    assert_eq!(against_spike.len(), 1);
    match &against_spike[0] {
        Outcome::DestroyObject(args) => assert_eq!(args.object_name, "victim"),
        other => panic!("unexpected outcome {:?}", other),
    }
}

#[test]
fn unconditioned_collision_trigger_fires_on_any_collision() {
    let victim = entity_with_triggers("victim", vec![collision_trigger(None, destroy_outcome("victim"))]);
    let wall = entity_with_triggers("wall", Vec::new());
    let mut handler = handler_with(
        vec![victim, wall],
        vec![object("victim", (0, 0)), object("wall", (100, 0))],
    );
    let outcomes = handler.handle_collision_events(vec![CollisionEvent {
        object_name_1: "victim".to_string(),
        object_name_2: "wall".to_string(),
    }]);
    assert_eq!(outcomes.len(), 1);
}

#[test]
fn destroying_entity_chains_scene_swap_in_same_drain() {
    // The destroyed entity's destruction trigger queues a swap, and the same
    // drain executes it after the destroy completes.
    let doomed = entity_with_triggers(
        "doomed",
        vec![Trigger {
            trigger_type: TriggerType::Destruction,
            conditions: None,
            outcome: Outcome::SwapScene(SwapSceneArgs { scene_name: "next".to_string() }),
        }],
    );
    let mut el = MasterEntityList::new();
    el.add_entity(doomed);
    let mut gl = MasterGraphicsList::new();
    gl.add_object(object("doomed", (0, 0)));

    let props = SceneProperties::new(Vec2 { x: 0, y: -500 }, Vec2 { x: 700, y: 800 });
    let mut sm = SceneManager::new();
    sm.add_scene("next".to_string(), Scene::new(props, Vec::new()));

    let mut handler = EventHandler::new(el, gl, sm, GameState::new(), KeyStates::new());
    handler.queue_outcome(destroy_outcome("doomed"));
    handler.process_event_outcomes();

    assert!(handler.entity_list().get_entity(&"doomed".to_string()).is_none());
    assert_eq!(handler.state().get_current_scene_name(), "next");
    assert_eq!(handler.state().get_gravity(), Vec2 { x: 0, y: -500 });
    assert_eq!(handler.state().get_terminal_velocity(), Vec2 { x: 700, y: 800 });
    assert_eq!(handler.queued_outcomes().len(), 0);
}

#[test]
fn load_then_save_reproduces_template() {
    // Saving a scene immediately after loading it into empty registries
    // reproduces an equivalent template.
    let props = SceneProperties::new(Vec2 { x: 0, y: -981 }, Vec2 { x: 5000, y: 5000 });
    let mut scene = Scene::new(props, Vec::new());
    scene.add_entity(entity_with_triggers("rock", Vec::new()));
    scene.add_entity(entity_with_triggers("ball", Vec::new()));
    scene.add_graphics_object(object("rock", (0, 0)));
    scene.add_graphics_object(object("ball", (500, 0)));

    let mut sm = SceneManager::new();
    sm.add_scene("level".to_string(), scene);

    let mut gs = GameState::new();
    let mut el = MasterEntityList::new();
    let mut gl = MasterGraphicsList::new();
    sm.load_scene(&mut gs, &mut el, &mut gl, "level".to_string());
    assert_eq!(el.len(), 2);
    assert_eq!(gs.get_current_scene_name(), "level");
    assert_eq!(gs.get_gravity(), Vec2 { x: 0, y: -981 });

    let saved = sm.save_scene(&"level".to_string(), &el, &gl);
    assert!(saved);

    let reloaded = sm.get_scene(&"level".to_string()).unwrap();
    let entities = reloaded.get_entities();
    assert_eq!(entities.len(), 2);
    assert_eq!(entities[0].get_name(), "rock");
    assert_eq!(entities[1].get_name(), "ball");
    assert_eq!(reloaded.get_graphics_objects().len(), 2);
    assert_eq!(reloaded.get_gravity(), Vec2 { x: 0, y: -981 });
    assert_eq!(reloaded.get_terminal_velocity(), Vec2 { x: 5000, y: 5000 });
}

#[test]
fn saving_an_unknown_scene_changes_nothing() {
    let mut sm = SceneManager::new();
    let el = MasterEntityList::new();
    let gl = MasterGraphicsList::new();
    assert!(!sm.save_scene(&"missing".to_string(), &el, &gl));
    assert_eq!(sm.list_scenes().len(), 0);
}

#[test]
fn adding_an_existing_name_overwrites_silently() {
    let mut el = MasterEntityList::new();
    el.add_entity(entity_with_triggers("player", Vec::new()));
    let mut replacement = entity_with_triggers("player", Vec::new());
    replacement.set_weight(77);
    el.add_entity(replacement);
    assert_eq!(el.len(), 1);
    assert_eq!(el.get_entity(&"player".to_string()).unwrap().get_weight(), 77);
}

#[test]
fn removing_entities_by_name() {
    let mut el = MasterEntityList::new();
    el.add_entity(entity_with_triggers("a", Vec::new()));
    el.add_entity(entity_with_triggers("b", Vec::new()));
    el.remove_entity(&"a".to_string());
    assert!(el.get_entity(&"a".to_string()).is_none());
    assert!(el.get_entity(&"b".to_string()).is_some());
    el.remove_all();
    assert_eq!(el.len(), 0);
}

#[test]
fn teleport_keeps_depth_for_planar_destination() {
    let mut handler = handler_with(vec![], vec![GraphicsObject::new(
        "probe".to_string(),
        Vec3 { x: 1, y: 2, z: 42 },
        0,
        1000,
        1000,
        1000,
        0,
        None,
        None,
    )]);
    handler.teleport_object(&"probe".to_string(), &vec![700, -800]);
    let pos = handler.graphics_list().get_object(&"probe".to_string()).unwrap().get_position();
    assert_eq!(pos, Vec3 { x: 700, y: -800, z: 42 });

    handler.teleport_object(&"probe".to_string(), &vec![1, 2, 3]);
    let pos = handler.graphics_list().get_object(&"probe".to_string()).unwrap().get_position();
    assert_eq!(pos, Vec3 { x: 1, y: 2, z: 3 });

    // A malformed destination is ignored.
    handler.teleport_object(&"probe".to_string(), &vec![9]);
    let pos = handler.graphics_list().get_object(&"probe".to_string()).unwrap().get_position();
    assert_eq!(pos, Vec3 { x: 1, y: 2, z: 3 });
}

#[test]
fn enqueue_audio_outcome_lands_in_audio_queue() {
    let mut handler = handler_with(vec![], vec![]);
    handler.queue_outcome(Outcome::EnqueueAudio(EnqueueAudioArgs {
        audio_name: "chime".to_string(),
        audio_type: AudioType::UI,
        volume: 600,
        looping: true,
    }));
    handler.process_event_outcomes();
    let requests = handler.drain_audio_queue();
    assert_eq!(requests.len(), 1);
    assert_eq!(requests[0].audio_name, "chime");
    assert_eq!(requests[0].volume, 600);
    // The drain always plays outcomes without looping.
    assert!(!requests[0].looping);
}

#[test]
fn gravity_pass_integrates_and_clamps_to_terminal_velocity() {
    let mut el = MasterEntityList::new();
    let mut falling = entity_with_triggers("faller", Vec::new());
    falling.set_affected_by_gravity(true);
    el.add_entity(falling);
    el.add_entity(entity_with_triggers("floater", Vec::new()));

    // Gravity of 10 units per second over a tenth of a second adds one unit.
    rusted_engine::player_movement::gravity(
        Vec2 { x: 0, y: -10_000 },
        Vec2 { x: VEL_LIMIT, y: VEL_LIMIT },
        &mut el,
        100_000,
    );
    assert_eq!(
        el.get_entity(&"faller".to_string()).unwrap().get_velocity(),
        Vec2 { x: 0, y: -1000 }
    );
    assert_eq!(
        el.get_entity(&"floater".to_string()).unwrap().get_velocity(),
        Vec2 { x: 0, y: 0 }
    );

    // A low terminal velocity clamps the result.
    rusted_engine::player_movement::gravity(
        Vec2 { x: 0, y: -10_000 },
        Vec2 { x: 300, y: 300 },
        &mut el,
        100_000,
    );
    assert_eq!(
        el.get_entity(&"faller".to_string()).unwrap().get_velocity(),
        Vec2 { x: 0, y: -300 }
    );
}

#[test]
fn movement_pass_moves_objects_by_velocity() {
    let mut el = MasterEntityList::new();
    let mut runner = entity_with_triggers("runner", Vec::new());
    runner.set_velocity(Vec2 { x: 2000, y: -1000 });
    el.add_entity(runner);
    let mut gl = MasterGraphicsList::new();
    gl.add_object(object("runner", (100, 100)));
    rusted_engine::player_movement::process_movement(&el, &mut gl, 500_000);
    assert_eq!(
        gl.get_object(&"runner".to_string()).unwrap().get_position(),
        Vec3 { x: 1100, y: -400, z: 0 }
    );
}

#[test]
fn accelerate_object_caps_speed() {
    let mut el = MasterEntityList::new();
    el.add_entity(entity_with_triggers("runner", Vec::new()));
    rusted_engine::player_movement::accelerate_object(
        &AccelerateObjectArgs {
            object_name: "runner".to_string(),
            acceleration: vec![4000, 0],
            max_speed: 1500,
            normalize: false,
        },
        &mut el,
        1_000_000,
    );
    // One full second of 4.0 acceleration, capped at a speed of 1.5.
    assert_eq!(
        el.get_entity(&"runner".to_string()).unwrap().get_velocity(),
        Vec2 { x: 1500, y: 0 }
    );
}

#[test]
fn key_pressed_scene_trigger_queues_its_outcomes() {
    let props = SceneProperties::new(Vec2 { x: 0, y: 0 }, Vec2 { x: 100, y: 100 });
    let scene = Scene::new(
        props,
        vec![SceneTrigger {
            scene_trigger_type: SceneTriggerType::KeyPressed,
            conditions: Some(TriggerConditions::KeyConditions(KeyCondition { keys: vec!['p'] })),
            outcome: vec![destroy_outcome("victim")],
        }],
    );
    let mut sm = SceneManager::new();
    sm.add_scene("arena".to_string(), scene);
    let mut gs = GameState::new();
    let mut el = MasterEntityList::new();
    el.add_entity(entity_with_triggers("victim", Vec::new()));
    let mut gl = MasterGraphicsList::new();
    gl.add_object(object("victim", (0, 0)));
    sm.load_scene(&mut gs, &mut el, &mut gl, "arena".to_string());

    let mut handler = EventHandler::new(el, gl, sm, gs, KeyStates::new());

    // Without the key nothing is queued.
    handler.check_scene_triggers();
    assert_eq!(handler.queued_outcomes().len(), 0);

    // The condition's lowercase character matches the held canonical key.
    let mut keys = KeyStates::new();
    keys.set_pressed(vec!['P']);
    handler.set_key_states(keys);
    handler.check_scene_triggers();
    assert_eq!(handler.queued_outcomes().len(), 1);
    handler.process_event_outcomes();
    assert!(handler.entity_list().get_entity(&"victim".to_string()).is_none());
}

#[test]
fn scene_swap_saves_mutations_for_revisits() {
    // Mutating a live entity and swapping away persists the mutation in the
    // stored template, so swapping back restores the mutated state.
    let props = SceneProperties::new(Vec2 { x: 0, y: 0 }, Vec2 { x: 100, y: 100 });
    let mut first = Scene::new(props, Vec::new());
    first.add_entity(entity_with_triggers("hero", Vec::new()));
    first.add_graphics_object(object("hero", (0, 0)));
    let second = Scene::new(props, Vec::new());

    let mut sm = SceneManager::new();
    sm.add_scene("first".to_string(), first);
    sm.add_scene("second".to_string(), second);
    let mut gs = GameState::new();
    let mut el = MasterEntityList::new();
    let mut gl = MasterGraphicsList::new();
    sm.load_scene(&mut gs, &mut el, &mut gl, "first".to_string());

    let mut handler = EventHandler::new(el, gl, sm, gs, KeyStates::new());
    handler.teleport_object(&"hero".to_string(), &vec![123, 456]);
    handler.swap_scene("second".to_string());
    assert!(handler.graphics_list().get_object(&"hero".to_string()).is_none());

    handler.swap_scene("first".to_string());
    let pos = handler.graphics_list().get_object(&"hero".to_string()).unwrap().get_position();
    assert_eq!(pos, Vec3 { x: 123, y: 456, z: 0 });
}

#[test]
fn one_tick_runs_all_passes_in_order() {
    // One overlapping pair: the tick transfers velocity, pushes the ball
    // out, fires the ball's collision trigger, and then integrates movement.
    let rock = GenericEntity::new(
        "rock".to_string(),
        4000,
        Vec2 { x: 0, y: 0 },
        false,
        true,
        500,
        true,
        1,
        vec![CollisionMode::AABB],
        Vec::new(),
    );
    let ball = GenericEntity::new(
        "ball".to_string(),
        1000,
        Vec2 { x: 2000, y: 0 },
        false,
        false,
        500,
        true,
        0,
        vec![CollisionMode::AABB],
        vec![collision_trigger(Some("rock"), destroy_outcome("marker"))],
    );
    let marker = entity_with_triggers("marker", Vec::new());
    let mut handler = handler_with(
        vec![rock, ball, marker],
        vec![object("rock", (0, 0)), object("ball", (600, 0)), object("marker", (9000, 9000))],
    );
    handler.run_tick(0, 0, false, 0).unwrap();
    // The rock (higher priority) initiated; the ball was pushed out and its
    // velocity reduced; the trigger destroyed the marker in the same tick.
    assert!(handler.entity_list().get_entity(&"marker".to_string()).is_none());
    let ball_entity = handler.entity_list().get_entity(&"ball".to_string()).unwrap();
    assert_eq!(ball_entity.get_velocity(), Vec2 { x: 1200, y: 0 });
    let ball_pos = handler.graphics_list().get_object(&"ball".to_string()).unwrap().get_position();
    assert_eq!(ball_pos, Vec3 { x: 650, y: 0, z: 0 });
}

#[test]
fn friction_stops_slow_objects_at_rest() {
    // A friction step larger than the remaining speed stops the component
    // instead of reversing it; a normal step shrinks it toward rest.
    let mut el = MasterEntityList::new();
    let mut crawler = entity_with_triggers("crawler", Vec::new());
    crawler.set_velocity(Vec2 { x: 10, y: -5000 });
    el.add_entity(crawler);
    // Base friction of one unit per second over one second.
    rusted_engine::player_movement::process_all_entities_fake_friction(
        0, 1000, &mut el, true, 1_000_000,
    );
    assert_eq!(
        el.get_entity(&"crawler".to_string()).unwrap().get_velocity(),
        Vec2 { x: 0, y: -4000 }
    );
}
