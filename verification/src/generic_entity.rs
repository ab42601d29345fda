//! The physical and gameplay state of one game object.
//!
//! An entity is keyed by a unique name, shared with its paired graphics
//! object.  Weight, velocity and elasticity are fixed-point values as laid
//! down in [`crate::fixed`].

use vstd::prelude::*;

use crate::fixed::{clamp_i128, clamp_spec, div_trunc, div_trunc_i128, Vec2, ELASTICITY_LIMIT,
    MICROS_PER_SECOND, VEL_LIMIT, WEIGHT_LIMIT};
use crate::triggers::{copy_triggers, Trigger, TriggerView};
use crate::util::copy_vec;

verus! {

/// Shape kinds used for narrow-phase collision testing.  Two entities only
/// collide via a mode both declare.  `OBB` is declared but unimplemented; the
/// narrow phase reports it as an explicit failure, never as a silent miss.
#[derive(Clone, Copy, PartialEq, Eq, Structural, Debug, Hash)]
pub enum CollisionMode {
    AABB,
    Circle,
    OBB,
}

/// The gameplay state of one game object.
#[derive(Debug)]
pub struct GenericEntity {
    name: String,
    weight: i64,
    velocity: Vec2,
    affected_by_gravity: bool,
    is_static: bool,
    elasticity: i64,
    active_collision: bool,
    collision_priority: u64,
    collision_modes: Vec<CollisionMode>,
    triggers: Vec<Trigger>,
}

#[verifier::ext_equal]
pub ghost struct GenericEntityView {
    pub name: Seq<char>,
    pub weight: i64,
    pub velocity: Vec2,
    pub affected_by_gravity: bool,
    pub is_static: bool,
    pub elasticity: i64,
    pub active_collision: bool,
    pub collision_priority: u64,
    pub collision_modes: Seq<CollisionMode>,
    pub triggers: Seq<TriggerView>,
}

impl DeepView for GenericEntity {
    type V = GenericEntityView;

    closed spec fn deep_view(&self) -> GenericEntityView {
        GenericEntityView {
            name: self.name@,
            weight: self.weight,
            velocity: self.velocity,
            affected_by_gravity: self.affected_by_gravity,
            is_static: self.is_static,
            elasticity: self.elasticity,
            active_collision: self.active_collision,
            collision_priority: self.collision_priority,
            collision_modes: self.collision_modes@,
            triggers: self.triggers.deep_view(),
        }
    }
}

impl GenericEntityView {
    /// Weight, elasticity and velocity inside their fixed-point limits.
    pub open spec fn valid(self) -> bool {
        &&& 0 <= self.weight <= WEIGHT_LIMIT
        &&& 0 <= self.elasticity <= ELASTICITY_LIMIT
        &&& self.velocity.bounded(VEL_LIMIT as int)
    }
}

/// The velocity after one gravity step: the acceleration integrated over
/// `dt` microseconds, then clamped to the terminal velocity on each axis.
pub open spec fn gravity_step(v: Vec2, gravity: Vec2, terminal: Vec2, dt: int) -> Vec2 {
    Vec2 {
        x: clamp_spec(
            v.x + div_trunc(gravity.x * dt, MICROS_PER_SECOND as int),
            -terminal.x as int,
            terminal.x as int,
        ) as i64,
        y: clamp_spec(
            v.y + div_trunc(gravity.y * dt, MICROS_PER_SECOND as int),
            -terminal.y as int,
            terminal.y as int,
        ) as i64,
    }
}

impl GenericEntity {
    /// Weight, elasticity and velocity inside their fixed-point limits.
    pub open spec fn valid(self) -> bool {
        self.deep_view().valid()
    }

    pub fn new(
        name: String,
        weight: i64,
        velocity: Vec2,
        affected_by_gravity: bool,
        is_static: bool,
        elasticity: i64,
        active_collision: bool,
        collision_priority: u64,
        collision_modes: Vec<CollisionMode>,
        triggers: Vec<Trigger>,
    ) -> (r: GenericEntity)
        ensures
            r.deep_view() == (GenericEntityView {
                name: name@,
                weight,
                velocity,
                affected_by_gravity,
                is_static,
                elasticity,
                active_collision,
                collision_priority,
                collision_modes: collision_modes@,
                triggers: triggers.deep_view(),
            }),
    {
        GenericEntity {
            name,
            weight,
            velocity,
            affected_by_gravity,
            is_static,
            elasticity,
            active_collision,
            collision_priority,
            collision_modes,
            triggers,
        }
    }

    // Getters

    pub fn get_name(&self) -> (r: &String)
        ensures
            r@ == self.deep_view().name,
    {
        &self.name
    }

    pub fn get_weight(&self) -> (r: i64)
        ensures
            r == self.deep_view().weight,
    {
        self.weight
    }

    pub fn get_velocity(&self) -> (r: Vec2)
        ensures
            r == self.deep_view().velocity,
    {
        self.velocity
    }

    pub fn is_affected_by_gravity(&self) -> (r: bool)
        ensures
            r == self.deep_view().affected_by_gravity,
    {
        self.affected_by_gravity
    }

    pub fn is_static(&self) -> (r: bool)
        ensures
            r == self.deep_view().is_static,
    {
        self.is_static
    }

    pub fn get_elasticity(&self) -> (r: i64)
        ensures
            r == self.deep_view().elasticity,
    {
        self.elasticity
    }

    pub fn has_active_collision(&self) -> (r: bool)
        ensures
            r == self.deep_view().active_collision,
    {
        self.active_collision
    }

    pub fn get_collision_priority(&self) -> (r: u64)
        ensures
            r == self.deep_view().collision_priority,
    {
        self.collision_priority
    }

    pub fn get_collision_modes(&self) -> (r: &Vec<CollisionMode>)
        ensures
            r@ == self.deep_view().collision_modes,
    {
        &self.collision_modes
    }

    pub fn get_triggers(&self) -> (r: &Vec<Trigger>)
        ensures
            r.deep_view() == self.deep_view().triggers,
    {
        &self.triggers
    }

    // Setters

    pub fn set_name(&mut self, name: String)
        ensures
            final(self).deep_view() == (GenericEntityView { name: name@, ..old(self).deep_view() }),
    {
        self.name = name;
    }

    pub fn set_weight(&mut self, weight: i64)
        ensures
            final(self).deep_view() == (GenericEntityView { weight: weight, ..old(self).deep_view() }),
    {
        self.weight = weight;
    }

    pub fn set_velocity(&mut self, velocity: Vec2)
        ensures
            final(self).deep_view() == (GenericEntityView { velocity: velocity, ..old(self).deep_view() }),
    {
        self.velocity = velocity;
    }

    pub fn set_affected_by_gravity(&mut self, affected_by_gravity: bool)
        ensures
            final(self).deep_view() == (GenericEntityView { affected_by_gravity: affected_by_gravity, ..old(self).deep_view() }),
    {
        self.affected_by_gravity = affected_by_gravity;
    }

    pub fn set_is_static(&mut self, is_static: bool)
        ensures
            final(self).deep_view() == (GenericEntityView { is_static: is_static, ..old(self).deep_view() }),
    {
        self.is_static = is_static;
    }

    pub fn set_elasticity(&mut self, elasticity: i64)
        ensures
            final(self).deep_view() == (GenericEntityView { elasticity: elasticity, ..old(self).deep_view() }),
    {
        self.elasticity = elasticity;
    }

    pub fn set_active_collision(&mut self, active_collision: bool)
        ensures
            final(self).deep_view() == (GenericEntityView { active_collision: active_collision, ..old(self).deep_view() }),
    {
        self.active_collision = active_collision;
    }

    pub fn set_collision_priority(&mut self, collision_priority: u64)
        ensures
            final(self).deep_view() == (GenericEntityView { collision_priority: collision_priority, ..old(self).deep_view() }),
    {
        self.collision_priority = collision_priority;
    }

    pub fn set_collision_modes(&mut self, collision_modes: Vec<CollisionMode>)
        ensures
            final(self).deep_view() == (GenericEntityView { collision_modes: collision_modes@, ..old(self).deep_view() }),
    {
        self.collision_modes = collision_modes;
    }

    pub fn set_triggers(&mut self, triggers: Vec<Trigger>)
        ensures
            final(self).deep_view() == (GenericEntityView { triggers: triggers.deep_view(), ..old(self).deep_view() }),
    {
        self.triggers = triggers;
    }

    // Game logic

    /// Integrates gravity into the velocity over `delta_micros` and clamps it
    /// to the terminal velocity, axis by axis.  Entities not affected by
    /// gravity are left untouched.
    pub fn apply_gravity(&mut self, gravity: Vec2, terminal_velocity: Vec2, delta_micros: i64)
        requires
            old(self).valid(),
            gravity.bounded(VEL_LIMIT as int),
            0 <= terminal_velocity.x <= VEL_LIMIT,
            0 <= terminal_velocity.y <= VEL_LIMIT,
            0 <= delta_micros <= MICROS_PER_SECOND,
        ensures
            old(self).deep_view().affected_by_gravity ==> final(self).deep_view()
                == (GenericEntityView {
                velocity: gravity_step(
                    old(self).deep_view().velocity,
                    gravity,
                    terminal_velocity,
                    delta_micros as int,
                ),
                ..old(self).deep_view()
            }),
            !old(self).deep_view().affected_by_gravity ==> final(self).deep_view() == old(
                self,
            ).deep_view(),
            final(self).valid(),
    {
        if self.affected_by_gravity {
            proof {
                crate::fixed::lemma_mul_bounds(
                    gravity.x as int,
                    delta_micros as int,
                    VEL_LIMIT as int,
                    MICROS_PER_SECOND as int,
                );
                crate::fixed::lemma_mul_bounds(
                    gravity.y as int,
                    delta_micros as int,
                    VEL_LIMIT as int,
                    MICROS_PER_SECOND as int,
                );
            }
            let dvx: i128 = div_trunc_i128(
                (gravity.x as i128) * (delta_micros as i128),
                MICROS_PER_SECOND as i128,
            );
            let dvy: i128 = div_trunc_i128(
                (gravity.y as i128) * (delta_micros as i128),
                MICROS_PER_SECOND as i128,
            );
            let x = clamp_i128(
                self.velocity.x as i128 + dvx,
                -terminal_velocity.x,
                terminal_velocity.x,
            );
            let y = clamp_i128(
                self.velocity.y as i128 + dvy,
                -terminal_velocity.y,
                terminal_velocity.y,
            );
            self.velocity = Vec2 { x, y };
        }
    }

    /// A copy whose deep view equals the original's.
    pub fn duplicate(&self) -> (r: GenericEntity)
        ensures
            r.deep_view() == self.deep_view(),
    {
        let r = GenericEntity {
            name: self.name.clone(),
            weight: self.weight,
            velocity: self.velocity,
            affected_by_gravity: self.affected_by_gravity,
            is_static: self.is_static,
            elasticity: self.elasticity,
            active_collision: self.active_collision,
            collision_priority: self.collision_priority,
            collision_modes: copy_vec(&self.collision_modes),
            triggers: copy_triggers(&self.triggers),
        };
        proof {
            assert(r.deep_view() =~= self.deep_view());
        }
        r
    }
}

} // verus!
