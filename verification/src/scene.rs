//! A scene: a named template bundle of entities, graphics objects, physics
//! properties and scene-level triggers.  Templates are deep-cloned into the
//! live registries on load, so mutating live objects never corrupts the
//! stored template until an explicit save.

use vstd::prelude::*;

use crate::generic_entity::{GenericEntity, GenericEntityView};
use crate::graphics_object::{GraphicsObject, GraphicsObjectView};
use crate::fixed::Vec2;
use crate::scene_properties::SceneProperties;
use crate::triggers::{copy_scene_triggers, SceneTrigger, SceneTriggerView};

verus! {

/// One stored template bundle.
#[derive(Debug)]
pub struct Scene {
    entities: Vec<GenericEntity>,
    graphics_objects: Vec<GraphicsObject>,
    properties: SceneProperties,
    scene_triggers: Vec<SceneTrigger>,
}

#[verifier::ext_equal]
pub ghost struct SceneView {
    pub entities: Seq<GenericEntityView>,
    pub graphics_objects: Seq<GraphicsObjectView>,
    pub properties: SceneProperties,
    pub scene_triggers: Seq<SceneTriggerView>,
}

impl DeepView for Scene {
    type V = SceneView;

    closed spec fn deep_view(&self) -> SceneView {
        SceneView {
            entities: self.entities.deep_view(),
            graphics_objects: self.graphics_objects.deep_view(),
            properties: self.properties,
            scene_triggers: self.scene_triggers.deep_view(),
        }
    }
}

impl SceneView {
    /// Every template member inside its limits, so that loading it into the
    /// live registries keeps them well formed.
    pub open spec fn valid(self) -> bool {
        &&& forall|i: int| 0 <= i < self.entities.len() ==> (#[trigger] self.entities[i]).valid()
        &&& forall|i: int|
            0 <= i < self.graphics_objects.len() ==> (#[trigger] self.graphics_objects[i]).valid()
        &&& self.properties.valid()
    }
}

impl Scene {
    /// Every template member inside its limits.
    pub open spec fn valid(self) -> bool {
        self.deep_view().valid()
    }

    pub fn new(properties: SceneProperties, scene_triggers: Vec<SceneTrigger>) -> (r: Scene)
        ensures
            r.deep_view() == (SceneView {
                entities: Seq::<GenericEntityView>::empty(),
                graphics_objects: Seq::<GraphicsObjectView>::empty(),
                properties,
                scene_triggers: scene_triggers.deep_view(),
            }),
    {
        let r = Scene { entities: Vec::new(), graphics_objects: Vec::new(), properties, scene_triggers };
        proof {
            assert(r.deep_view() =~= (SceneView {
                entities: Seq::<GenericEntityView>::empty(),
                graphics_objects: Seq::<GraphicsObjectView>::empty(),
                properties,
                scene_triggers: scene_triggers.deep_view(),
            }));
        }
        r
    }

    pub fn add_graphics_object(&mut self, obj: GraphicsObject)
        ensures
            final(self).deep_view() == (SceneView {
                graphics_objects: old(self).deep_view().graphics_objects.push(obj.deep_view()),
                ..old(self).deep_view()
            }),
    {
        self.graphics_objects.push(obj);
        proof {
            assert(self.deep_view().graphics_objects =~= old(
                self,
            ).deep_view().graphics_objects.push(obj.deep_view()));
        }
    }

    pub fn get_graphics_objects(&self) -> (r: &Vec<GraphicsObject>)
        ensures
            r.deep_view() == self.deep_view().graphics_objects,
    {
        &self.graphics_objects
    }

    pub fn add_entity(&mut self, obj: GenericEntity)
        ensures
            final(self).deep_view() == (SceneView {
                entities: old(self).deep_view().entities.push(obj.deep_view()),
                ..old(self).deep_view()
            }),
    {
        self.entities.push(obj);
        proof {
            assert(self.deep_view().entities =~= old(self).deep_view().entities.push(
                obj.deep_view(),
            ));
        }
    }

    pub fn get_entities(&self) -> (r: &Vec<GenericEntity>)
        ensures
            r.deep_view() == self.deep_view().entities,
    {
        &self.entities
    }

    pub fn get_properties(&self) -> (r: SceneProperties)
        ensures
            r == self.deep_view().properties,
    {
        self.properties
    }

    pub fn set_properties(&mut self, properties: SceneProperties)
        ensures
            final(self).deep_view() == (SceneView { properties, ..old(self).deep_view() }),
    {
        self.properties = properties;
    }

    pub fn set_gravity(&mut self, gravity: Vec2)
        ensures
            final(self).deep_view() == (SceneView {
                properties: final(self).deep_view().properties,
                ..old(self).deep_view()
            }),
            final(self).deep_view().properties.spec_gravity() == gravity,
            final(self).deep_view().properties.spec_terminal_velocity() == old(
                self,
            ).deep_view().properties.spec_terminal_velocity(),
    {
        self.properties.set_gravity(gravity);
    }

    pub fn get_gravity(&self) -> (r: Vec2)
        ensures
            r == self.deep_view().properties.spec_gravity(),
    {
        self.properties.get_gravity()
    }

    pub fn set_terminal_velocity(&mut self, terminal_velocity: Vec2)
        ensures
            final(self).deep_view() == (SceneView {
                properties: final(self).deep_view().properties,
                ..old(self).deep_view()
            }),
            final(self).deep_view().properties.spec_terminal_velocity() == terminal_velocity,
            final(self).deep_view().properties.spec_gravity() == old(
                self,
            ).deep_view().properties.spec_gravity(),
    {
        self.properties.set_terminal_velocity(terminal_velocity);
    }

    pub fn get_terminal_velocity(&self) -> (r: Vec2)
        ensures
            r == self.deep_view().properties.spec_terminal_velocity(),
    {
        self.properties.get_terminal_velocity()
    }

    /// A copy of the scene-level triggers.
    pub fn get_triggers(&self) -> (r: Vec<SceneTrigger>)
        ensures
            r.deep_view() == self.deep_view().scene_triggers,
    {
        copy_scene_triggers(&self.scene_triggers)
    }

    pub fn set_triggers(&mut self, scene_triggers: Vec<SceneTrigger>)
        ensures
            final(self).deep_view() == (SceneView {
                scene_triggers: scene_triggers.deep_view(),
                ..old(self).deep_view()
            }),
    {
        self.scene_triggers = scene_triggers;
    }

    /// A deep copy whose view equals the original's.
    pub fn duplicate(&self) -> (r: Scene)
        ensures
            r.deep_view() == self.deep_view(),
    {
        let mut entities: Vec<GenericEntity> = Vec::new();
        let mut i: usize = 0;
        while i < self.entities.len()
            invariant
                i <= self.entities.len(),
                entities.deep_view() == self.entities.deep_view().subrange(0, i as int),
            decreases self.entities.len() - i,
        {
            entities.push(self.entities[i].duplicate());
            proof {
                assert(self.entities.deep_view().subrange(0, i as int).push(
                    self.entities@[i as int].deep_view(),
                ) =~= self.entities.deep_view().subrange(0, i as int + 1));
            }
            i += 1;
        }
        let mut graphics_objects: Vec<GraphicsObject> = Vec::new();
        let mut j: usize = 0;
        while j < self.graphics_objects.len()
            invariant
                j <= self.graphics_objects.len(),
                graphics_objects.deep_view() == self.graphics_objects.deep_view().subrange(
                    0,
                    j as int,
                ),
            decreases self.graphics_objects.len() - j,
        {
            graphics_objects.push(self.graphics_objects[j].duplicate());
            proof {
                assert(self.graphics_objects.deep_view().subrange(0, j as int).push(
                    self.graphics_objects@[j as int].deep_view(),
                ) =~= self.graphics_objects.deep_view().subrange(0, j as int + 1));
            }
            j += 1;
        }
        let r = Scene {
            entities,
            graphics_objects,
            properties: self.properties,
            scene_triggers: copy_scene_triggers(&self.scene_triggers),
        };
        proof {
            assert(r.deep_view().entities =~= self.deep_view().entities);
            assert(r.deep_view().graphics_objects =~= self.deep_view().graphics_objects);
            assert(r.deep_view() =~= self.deep_view());
        }
        r
    }
}

} // verus!
