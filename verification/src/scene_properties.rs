//! Per-scene physics properties: the gravity vector and the terminal
//! velocity, as fixed-point vectors.

use vstd::prelude::*;

use crate::fixed::{Vec2, VEL_LIMIT};

verus! {

/// The physics properties a scene installs into the game state on load.
#[derive(Clone, Copy, PartialEq, Eq, Structural, Debug)]
pub struct SceneProperties {
    pub gravity: Vec2,
    pub terminal_velocity: Vec2,
}

impl SceneProperties {
    /// Gravity inside the velocity limit and a non-negative terminal
    /// velocity on each axis.
    pub open spec fn valid(self) -> bool {
        &&& self.spec_gravity().bounded(VEL_LIMIT as int)
        &&& 0 <= self.spec_terminal_velocity().x <= VEL_LIMIT
        &&& 0 <= self.spec_terminal_velocity().y <= VEL_LIMIT
    }

    pub open spec fn spec_gravity(self) -> Vec2 {
        self.gravity
    }

    pub open spec fn spec_terminal_velocity(self) -> Vec2 {
        self.terminal_velocity
    }

    pub fn new(gravity: Vec2, terminal_velocity: Vec2) -> (r: SceneProperties)
        ensures
            r.spec_gravity() == gravity,
            r.spec_terminal_velocity() == terminal_velocity,
    {
        SceneProperties { gravity, terminal_velocity }
    }

    pub fn set_gravity(&mut self, gravity: Vec2)
        ensures
            final(self).spec_gravity() == gravity,
            final(self).spec_terminal_velocity() == old(self).spec_terminal_velocity(),
    {
        self.gravity = gravity;
    }

    pub fn get_gravity(&self) -> (r: Vec2)
        ensures
            r == self.spec_gravity(),
    {
        self.gravity
    }

    pub fn set_terminal_velocity(&mut self, terminal_velocity: Vec2)
        ensures
            final(self).spec_terminal_velocity() == terminal_velocity,
            final(self).spec_gravity() == old(self).spec_gravity(),
    {
        self.terminal_velocity = terminal_velocity;
    }

    pub fn get_terminal_velocity(&self) -> (r: Vec2)
        ensures
            r == self.spec_terminal_velocity(),
    {
        self.terminal_velocity
    }
}

} // verus!
