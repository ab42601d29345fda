//! The process-wide mutable record physics and trigger logic read: the
//! current scene's name, the gravity vector and the terminal velocity.

use vstd::prelude::*;

use crate::fixed::{Vec2, VEL_LIMIT};

verus! {

/// The running game's global state, replaced wholesale on scene swap.
#[derive(Debug)]
pub struct GameState {
    current_scene_name: String,
    gravity: Vec2,
    terminal_velocity: Vec2,
}

#[verifier::ext_equal]
pub ghost struct GameStateView {
    pub current_scene_name: Seq<char>,
    pub gravity: Vec2,
    pub terminal_velocity: Vec2,
}

impl DeepView for GameState {
    type V = GameStateView;

    closed spec fn deep_view(&self) -> GameStateView {
        GameStateView {
            current_scene_name: self.current_scene_name@,
            gravity: self.gravity,
            terminal_velocity: self.terminal_velocity,
        }
    }
}

impl GameStateView {
    /// Gravity inside the velocity limit and a non-negative terminal
    /// velocity on each axis.
    pub open spec fn valid(self) -> bool {
        &&& self.gravity.bounded(VEL_LIMIT as int)
        &&& 0 <= self.terminal_velocity.x <= VEL_LIMIT
        &&& 0 <= self.terminal_velocity.y <= VEL_LIMIT
    }
}

impl GameState {
    /// Gravity inside the velocity limit and a non-negative terminal
    /// velocity on each axis.
    pub open spec fn valid(self) -> bool {
        self.deep_view().valid()
    }

    /// No scene, no gravity, and an unbounded terminal velocity.
    pub fn new() -> (r: GameState)
        ensures
            r.deep_view() == (GameStateView {
                current_scene_name: Seq::<char>::empty(),
                gravity: Vec2 { x: 0, y: 0 },
                terminal_velocity: Vec2 { x: VEL_LIMIT, y: VEL_LIMIT },
            }),
            r.valid(),
    {
        let r = GameState {
            current_scene_name: String::new(),
            gravity: Vec2 { x: 0, y: 0 },
            terminal_velocity: Vec2 { x: VEL_LIMIT, y: VEL_LIMIT },
        };
        r
    }

    pub fn set_current_scene_name(&mut self, current_scene_name: String)
        ensures
            final(self).deep_view() == (GameStateView {
                current_scene_name: current_scene_name@,
                ..old(self).deep_view()
            }),
    {
        self.current_scene_name = current_scene_name;
    }

    pub fn get_current_scene_name(&self) -> (r: String)
        ensures
            r@ == self.deep_view().current_scene_name,
    {
        self.current_scene_name.clone()
    }

    pub fn set_gravity(&mut self, gravity: Vec2)
        ensures
            final(self).deep_view() == (GameStateView { gravity, ..old(self).deep_view() }),
    {
        self.gravity = gravity;
    }

    pub fn get_gravity(&self) -> (r: Vec2)
        ensures
            r == self.deep_view().gravity,
    {
        self.gravity
    }

    pub fn set_terminal_velocity(&mut self, terminal_velocity: Vec2)
        ensures
            final(self).deep_view() == (GameStateView {
                terminal_velocity,
                ..old(self).deep_view()
            }),
    {
        self.terminal_velocity = terminal_velocity;
    }

    pub fn get_terminal_velocity(&self) -> (r: Vec2)
        ensures
            r == self.deep_view().terminal_velocity,
    {
        self.terminal_velocity
    }
}

} // verus!
