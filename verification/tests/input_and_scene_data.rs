//! Scene-file interpretation, key folding, the clock and the piano.

use rusted_engine::fixed::{Vec2, VEL_LIMIT};
use rusted_engine::generic_entity::CollisionMode;
use rusted_engine::key_states::{char_to_key, KeyStates};
use rusted_engine::master_clock::{MasterClock, MAX_DELTA_MICROS};
use rusted_engine::piano::{NoteName, Piano, PianoKeySnapshot};
use rusted_engine::scene_data::{
    build_entity, build_properties, build_scene, parse_collision_mode, parse_collision_modes,
    EntityData, GraphicsData, ObjectData, SceneData, ScenePropertiesData,
};

fn entity_data(name: &str) -> EntityData {
    EntityData {
        name: name.to_string(),
        weight: 1000,
        velocity: None,
        affected_by_gravity: false,
        is_static: false,
        elasticity: 500,
        active_collision: true,
        collision_priority: None,
        collision_modes: vec!["AABB".to_string()],
        triggers: None,
    }
}

fn graphics_data(name: &str) -> GraphicsData {
    GraphicsData {
        name: name.to_string(),
        position: vec![0, 0, 0],
        rotation: 0,
        scale: 1000,
        width: 1000,
        height: 1000,
        radius: 0,
        texture_name: "stone".to_string(),
        atlas_config: None,
        animation_config: None,
    }
}

#[test]
fn one_element_gravity_list_is_a_y_axis_value() {
    let props = build_properties(&ScenePropertiesData {
        gravity: vec![-981],
        terminal_velocity: vec![500, 600],
    });
    assert_eq!(props.get_gravity(), Vec2 { x: 0, y: -981 });
    assert_eq!(props.get_terminal_velocity(), Vec2 { x: 500, y: 600 });
}

#[test]
fn malformed_property_lists_fall_back_to_defaults() {
    let props = build_properties(&ScenePropertiesData {
        gravity: vec![1, 2, 3],
        terminal_velocity: Vec::new(),
    });
    assert_eq!(props.get_gravity(), Vec2 { x: 0, y: 0 });
    assert_eq!(props.get_terminal_velocity(), Vec2 { x: VEL_LIMIT, y: VEL_LIMIT });
}

#[test]
fn collision_mode_names_parse_and_unknown_names_are_skipped() {
    assert_eq!(parse_collision_mode(&"AABB".to_string()), Some(CollisionMode::AABB));
    assert_eq!(parse_collision_mode(&"Circle".to_string()), Some(CollisionMode::Circle));
    assert_eq!(parse_collision_mode(&"OBB".to_string()), Some(CollisionMode::OBB));
    assert_eq!(parse_collision_mode(&"Hexagon".to_string()), None);
    let modes = parse_collision_modes(&vec![
        "Circle".to_string(),
        "Hexagon".to_string(),
        "AABB".to_string(),
    ]);
    assert_eq!(modes, vec![CollisionMode::Circle, CollisionMode::AABB]);
}

#[test]
fn built_entities_default_velocity_and_priority() {
    let mut data = entity_data("rock");
    data.velocity = Some(vec![2000, -500]);
    data.collision_priority = Some(9);
    let rock = build_entity(&data);
    assert_eq!(rock.get_velocity(), Vec2 { x: 2000, y: -500 });
    assert_eq!(rock.get_collision_priority(), 9);

    let bare = build_entity(&entity_data("bare"));
    assert_eq!(bare.get_velocity(), Vec2 { x: 0, y: 0 });
    assert_eq!(bare.get_collision_priority(), 0);

    // A velocity list that is not two components long is rest.
    let mut odd = entity_data("odd");
    odd.velocity = Some(vec![7]);
    assert_eq!(build_entity(&odd).get_velocity(), Vec2 { x: 0, y: 0 });
}

#[test]
fn built_scene_pairs_entities_and_graphics() {
    let scene = build_scene(&SceneData {
        objects: vec![
            ObjectData { entity: entity_data("rock"), graphics: graphics_data("rock") },
            ObjectData { entity: entity_data("ball"), graphics: graphics_data("ball") },
        ],
        properties: ScenePropertiesData { gravity: vec![0, -981], terminal_velocity: vec![5000] },
        scene_triggers: Vec::new(),
    });
    assert_eq!(scene.get_entities().len(), 2);
    assert_eq!(scene.get_graphics_objects().len(), 2);
    assert_eq!(scene.get_entities()[1].get_name(), "ball");
    assert_eq!(scene.get_gravity(), Vec2 { x: 0, y: -981 });
}

#[test]
fn characters_fold_onto_canonical_keys() {
    assert_eq!(char_to_key('a'), Some('A'));
    assert_eq!(char_to_key('A'), Some('A'));
    assert_eq!(char_to_key('7'), Some('7'));
    assert_eq!(char_to_key(' '), Some(' '));
    assert_eq!(char_to_key('ß'), None);

    let mut keys = KeyStates::new();
    keys.set_pressed(vec!['A', '7']);
    assert!(keys.is_key_pressed_raw('A'));
    assert!(!keys.is_key_pressed_raw('B'));
}

#[test]
fn clock_caps_each_step() {
    let mut clock = MasterClock::new();
    assert_eq!(clock.get_delta_time(), 0);
    clock.update(16_000);
    assert_eq!(clock.get_delta_time(), 16_000);
    clock.update(5_000_000);
    assert_eq!(clock.get_delta_time(), MAX_DELTA_MICROS);
}

#[test]
fn piano_names_notes_by_octave() {
    let piano = Piano::new();
    assert_eq!(piano.get_octave(), 4);
    assert_eq!(piano.get_note_for_octave(NoteName::A), "A4");
    assert_eq!(piano.get_note_for_octave(NoteName::C), "C5");
    assert_eq!(piano.get_note_for_octave(NoteName::AH), "A5");
    assert_eq!(piano.get_flat_note_for_octave(NoteName::A), "Ab4");
    assert_eq!(piano.get_flat_note_for_octave(NoteName::C), "B4");
    assert_eq!(piano.get_flat_note_for_octave(NoteName::F), "E5");
}

fn silent_snapshot() -> PianoKeySnapshot {
    PianoKeySnapshot {
        note_a: false,
        note_b: false,
        note_c: false,
        note_d: false,
        note_e: false,
        note_f: false,
        note_g: false,
        note_ah: false,
        stop: false,
        octave_up: false,
        octave_down: false,
        shift_held: false,
    }
}

#[test]
fn piano_plays_and_records_pressed_notes() {
    let mut piano = Piano::new();
    let mut snapshot = silent_snapshot();
    snapshot.note_a = true;
    snapshot.note_c = true;
    let output = piano.process_piano_keys(&snapshot);
    assert!(output.note_played);
    assert!(!output.stop_audio);
    assert_eq!(output.audio_requests.len(), 2);
    assert_eq!(output.audio_requests[0].audio_name, "A4");
    assert_eq!(output.audio_requests[1].audio_name, "C5");
    // The last played note lands in the history.
    assert_eq!(piano.get_note_history(), vec!["C5".to_string()]);
}

#[test]
fn piano_octave_keys_stay_on_the_pad() {
    let mut piano = Piano::new();
    let mut up = silent_snapshot();
    up.octave_up = true;
    for _ in 0..10 {
        piano.process_piano_keys(&up);
    }
    assert_eq!(piano.get_octave(), 7);
    let mut down = silent_snapshot();
    down.octave_down = true;
    for _ in 0..10 {
        piano.process_piano_keys(&down);
    }
    assert_eq!(piano.get_octave(), 0);
}

#[test]
fn sequence_check_finds_runs_and_clears_history() {
    let mut piano = Piano::new();
    for note in ["B4", "B4", "B4", "G5", "G5", "G5"] {
        piano.record_note(&note.to_string());
    }
    // A different run is not found and leaves the history alone.
    assert!(!piano.check_for_sequence_and_clear(&vec!["G5".to_string(), "B4".to_string()]));
    assert_eq!(piano.get_note_history().len(), 6);
    // The gravity run is found and clears the history.
    let run: Vec<String> = ["B4", "B4", "B4", "G5", "G5", "G5"]
        .iter()
        .map(|s| s.to_string())
        .collect();
    assert!(piano.check_for_sequence_and_clear(&run));
    assert_eq!(piano.get_note_history().len(), 0);
}
