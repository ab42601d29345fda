//! Gameplay simulation core of a small 2D game: an entity registry, a
//! collision-detection and response engine, and a data-driven trigger/outcome
//! event system.
//!
//! All world quantities are fixed-point integers: positions, velocities and
//! dimensions in thousandths of a world unit, time in microseconds.  The
//! windowing, rendering and audio collaborators stay outside this crate; the
//! simulation exchanges plain values with them.

// Fixed-point arithmetic and small shared helpers.
pub mod fixed;
pub mod util;

// The world's data: entities, renderables, triggers and their stores.
pub mod audio;
pub mod generic_entity;
pub mod graphics_object;
pub mod master_entity_list;
pub mod master_graphics_list;
pub mod registry;
pub mod triggers;

// Scenes: templates, their store, and the plain data of scene files.
pub mod game_state;
pub mod scene;
pub mod scene_data;
pub mod scene_manager;
pub mod scene_properties;

// The simulation passes: collision, response, movement and the event drain.
pub mod collision;
pub mod event_handler;
pub mod legacy;
pub mod player_movement;

// Input, the clock and the piano easter egg.
pub mod key_states;
pub mod master_clock;
pub mod piano;
pub mod piano_sequences;
