//! Plain data read from a scene file, before it becomes live objects.
//!
//! The surrounding application parses the JSON scene files and hands the
//! values over in these structs; building entities, graphics objects and
//! scenes out of them is verified here.  All fixed-point conventions of
//! [`crate::fixed`] apply.

use vstd::prelude::*;

use crate::fixed::{clamp_spec, Vec2, Vec3, DIM_LIMIT, POS_LIMIT, VEL_LIMIT, WEIGHT_LIMIT};
use crate::generic_entity::{CollisionMode, GenericEntity, GenericEntityView};
use crate::graphics_object::{AnimationConfig, AnimationConfigView, AtlasConfig, GraphicsObject,
    GraphicsObjectView};
use crate::scene::{Scene, SceneView};
use crate::scene_properties::SceneProperties;
use crate::triggers::{copy_triggers, Trigger, TriggerView};
use crate::util::{copy_vec, copy_vec_string};

verus! {

/// The entity half of one scene object.
#[derive(Debug)]
pub struct EntityData {
    pub name: String,
    pub weight: i64,
    pub velocity: Option<Vec<i64>>,
    pub affected_by_gravity: bool,
    pub is_static: bool,
    pub elasticity: i64,
    pub active_collision: bool,
    pub collision_priority: Option<u64>,
    pub collision_modes: Vec<String>,
    pub triggers: Option<Vec<Trigger>>,
}

#[verifier::ext_equal]
pub ghost struct EntityDataView {
    pub name: Seq<char>,
    pub weight: i64,
    pub velocity: Option<Seq<i64>>,
    pub affected_by_gravity: bool,
    pub is_static: bool,
    pub elasticity: i64,
    pub active_collision: bool,
    pub collision_priority: Option<u64>,
    pub collision_modes: Seq<Seq<char>>,
    pub triggers: Option<Seq<TriggerView>>,
}

impl DeepView for EntityData {
    type V = EntityDataView;

    open spec fn deep_view(&self) -> EntityDataView {
        crate::triggers::entity_data_view(*self)
    }
}

impl EntityData {
    /// A copy whose deep view equals the original's.
    pub fn duplicate(&self) -> (r: EntityData)
        ensures
            r.deep_view() == self.deep_view(),
        decreases *self,
    {
        let velocity: Option<Vec<i64>> = match &self.velocity {
            Some(v) => Some(copy_vec(v)),
            None => None,
        };
        let triggers: Option<Vec<Trigger>> = match &self.triggers {
            Some(t) => {
                let c = copy_triggers(t);
                proof {
                    crate::triggers::lemma_triggers_view_is_deep_view(*t);
                    crate::triggers::lemma_triggers_view_is_deep_view(c);
                }
                Some(c)
            },
            None => None,
        };
        let r = EntityData {
            name: self.name.clone(),
            weight: self.weight,
            velocity,
            affected_by_gravity: self.affected_by_gravity,
            is_static: self.is_static,
            elasticity: self.elasticity,
            active_collision: self.active_collision,
            collision_priority: self.collision_priority,
            collision_modes: copy_vec_string(&self.collision_modes),
            triggers,
        };
        proof {
            assert(r.deep_view() =~= self.deep_view());
        }
        r
    }
}

/// The graphics half of one scene object.  Width, height and radius are the
/// collision dimensions the rendering framework would derive from the sprite.
#[derive(Clone, Debug)]
pub struct GraphicsData {
    pub name: String,
    pub position: Vec<i64>,
    pub rotation: i64,
    pub scale: i64,
    pub width: i64,
    pub height: i64,
    pub radius: i64,
    pub texture_name: String,
    pub atlas_config: Option<AtlasConfig>,
    pub animation_config: Option<AnimationConfig>,
}

#[verifier::ext_equal]
pub ghost struct GraphicsDataView {
    pub name: Seq<char>,
    pub position: Seq<i64>,
    pub rotation: i64,
    pub scale: i64,
    pub width: i64,
    pub height: i64,
    pub radius: i64,
    pub texture_name: Seq<char>,
    pub atlas_config: Option<AtlasConfig>,
    pub animation_config: Option<AnimationConfigView>,
}

impl DeepView for GraphicsData {
    type V = GraphicsDataView;

    open spec fn deep_view(&self) -> GraphicsDataView {
        GraphicsDataView {
            name: self.name@,
            position: self.position@,
            rotation: self.rotation,
            scale: self.scale,
            width: self.width,
            height: self.height,
            radius: self.radius,
            texture_name: self.texture_name@,
            atlas_config: self.atlas_config,
            animation_config: self.animation_config.deep_view(),
        }
    }
}

impl GraphicsData {
    /// A copy whose deep view equals the original's.
    pub fn duplicate(&self) -> (r: GraphicsData)
        ensures
            r.deep_view() == self.deep_view(),
    {
        let animation_config: Option<AnimationConfig> = match &self.animation_config {
            Some(a) => Some(a.duplicate()),
            None => None,
        };
        let r = GraphicsData {
            name: self.name.clone(),
            position: copy_vec(&self.position),
            rotation: self.rotation,
            scale: self.scale,
            width: self.width,
            height: self.height,
            radius: self.radius,
            texture_name: self.texture_name.clone(),
            atlas_config: self.atlas_config,
            animation_config,
        };
        proof {
            assert(r.deep_view() =~= self.deep_view());
        }
        r
    }
}

/// One scene object: the entity and its paired graphics object.
#[derive(Debug)]
pub struct ObjectData {
    pub entity: EntityData,
    pub graphics: GraphicsData,
}

#[verifier::ext_equal]
pub ghost struct ObjectDataView {
    pub entity: EntityDataView,
    pub graphics: GraphicsDataView,
}

impl DeepView for ObjectData {
    type V = ObjectDataView;

    open spec fn deep_view(&self) -> ObjectDataView {
        crate::triggers::object_data_view(*self)
    }
}

impl ObjectData {
    /// A copy whose deep view equals the original's.
    pub fn duplicate(&self) -> (r: ObjectData)
        ensures
            r.deep_view() == self.deep_view(),
        decreases *self,
    {
        let r = ObjectData { entity: self.entity.duplicate(), graphics: self.graphics.duplicate() };
        proof {
            assert(r.deep_view() =~= self.deep_view());
        }
        r
    }
}

/// The scene-wide properties block of a scene file; a one-element gravity or
/// terminal-velocity list is a y-axis-only value.
#[derive(Clone, Debug)]
pub struct ScenePropertiesData {
    pub gravity: Vec<i64>,
    pub terminal_velocity: Vec<i64>,
}

#[verifier::ext_equal]
pub ghost struct ScenePropertiesDataView {
    pub gravity: Seq<i64>,
    pub terminal_velocity: Seq<i64>,
}

impl DeepView for ScenePropertiesData {
    type V = ScenePropertiesDataView;

    open spec fn deep_view(&self) -> ScenePropertiesDataView {
        ScenePropertiesDataView {
            gravity: self.gravity@,
            terminal_velocity: self.terminal_velocity@,
        }
    }
}

/// A whole parsed scene file.
#[derive(Debug)]
pub struct SceneData {
    pub objects: Vec<ObjectData>,
    pub properties: ScenePropertiesData,
    pub scene_triggers: Vec<crate::triggers::SceneTrigger>,
}

#[verifier::ext_equal]
pub ghost struct SceneDataView {
    pub objects: Seq<ObjectDataView>,
    pub properties: ScenePropertiesDataView,
    pub scene_triggers: Seq<crate::triggers::SceneTriggerView>,
}

impl DeepView for SceneData {
    type V = SceneDataView;

    open spec fn deep_view(&self) -> SceneDataView {
        SceneDataView {
            objects: self.objects.deep_view(),
            properties: self.properties.deep_view(),
            scene_triggers: self.scene_triggers.deep_view(),
        }
    }
}

/// A two-component list is an (x, y) value, a one-component list a y-axis
/// value, and any other length falls back to the given default.
pub open spec fn vec2_from_list(c: Seq<i64>, default: Vec2) -> Vec2 {
    if c.len() == 2 {
        Vec2 { x: c[0], y: c[1] }
    } else if c.len() == 1 {
        Vec2 { x: 0, y: c[0] }
    } else {
        default
    }
}

/// Interprets a gravity or terminal-velocity list.
pub fn read_vec2_from_list(c: &Vec<i64>, default: Vec2) -> (r: Vec2)
    ensures
        r == vec2_from_list(c@, default),
{
    if c.len() == 2 {
        Vec2 { x: c[0], y: c[1] }
    } else if c.len() == 1 {
        Vec2 { x: 0, y: c[0] }
    } else {
        default
    }
}

/// A vector clamped into `[-limit, limit]` on each component.
pub open spec fn clamped_symmetric(v: Vec2, limit: int) -> Vec2 {
    Vec2 {
        x: clamp_spec(v.x as int, -limit, limit) as i64,
        y: clamp_spec(v.y as int, -limit, limit) as i64,
    }
}

/// A vector clamped into `[0, limit]` on each component.
pub open spec fn clamped_nonneg(v: Vec2, limit: int) -> Vec2 {
    Vec2 {
        x: clamp_spec(v.x as int, 0, limit) as i64,
        y: clamp_spec(v.y as int, 0, limit) as i64,
    }
}

/// The scene properties a properties block describes, forced into the
/// fixed-point limits: gravity defaults to rest, terminal velocity to the
/// velocity limit.
pub open spec fn built_properties(d: ScenePropertiesDataView) -> SceneProperties {
    SceneProperties {
        gravity: clamped_symmetric(
            vec2_from_list(d.gravity, Vec2 { x: 0, y: 0 }),
            VEL_LIMIT as int,
        ),
        terminal_velocity: clamped_nonneg(
            vec2_from_list(d.terminal_velocity, Vec2 { x: VEL_LIMIT, y: VEL_LIMIT }),
            VEL_LIMIT as int,
        ),
    }
}

/// The collision mode a scene file names, if it is a known one.
pub open spec fn mode_of_name(s: Seq<char>) -> Option<CollisionMode> {
    if s == "AABB"@ {
        Some(CollisionMode::AABB)
    } else if s == "Circle"@ {
        Some(CollisionMode::Circle)
    } else if s == "OBB"@ {
        Some(CollisionMode::OBB)
    } else {
        None
    }
}

/// Reads one collision-mode name.
pub fn parse_collision_mode(s: &String) -> (r: Option<CollisionMode>)
    ensures
        r == mode_of_name(s@),
{
    if s.eq(&String::from_str("AABB")) {
        Some(CollisionMode::AABB)
    } else if s.eq(&String::from_str("Circle")) {
        Some(CollisionMode::Circle)
    } else if s.eq(&String::from_str("OBB")) {
        Some(CollisionMode::OBB)
    } else {
        None
    }
}

/// The known modes among a list of names, in order; unknown names are
/// skipped.
pub open spec fn modes_of_names(names: Seq<Seq<char>>) -> Seq<CollisionMode>
    decreases names.len(),
{
    if names.len() == 0 {
        Seq::empty()
    } else {
        let rest = modes_of_names(names.drop_first());
        match mode_of_name(names[0]) {
            Some(m) => seq![m] + rest,
            None => rest,
        }
    }
}

/// Reads a list of collision-mode names.
#[verifier::loop_isolation(false)]
pub fn parse_collision_modes(names: &Vec<String>) -> (r: Vec<CollisionMode>)
    ensures
        r@ == modes_of_names(names.deep_view()),
{
    let ghost ns = names.deep_view();
    let mut modes: Vec<CollisionMode> = Vec::new();
    proof {
        assert(ns.skip(0) =~= ns);
    }
    let mut i: usize = 0;
    while i < names.len()
        invariant
            0 <= i <= names.len(),
            modes@ + modes_of_names(ns.skip(i as int)) == modes_of_names(ns),
        decreases names.len() - i,
    {
        proof {
            assert(ns.skip(i as int)[0] == ns[i as int]);
            assert(ns.skip(i as int).drop_first() =~= ns.skip(i as int + 1));
        }
        let ghost before = modes@;
        match parse_collision_mode(&names[i]) {
            Some(m) => {
                modes.push(m);
                proof {
                    assert(modes@ + modes_of_names(ns.skip(i as int + 1)) =~= before + (seq![m]
                        + modes_of_names(ns.skip(i as int + 1))));
                }
            },
            None => {},
        }
        i += 1;
    }
    proof {
        assert(ns.skip(ns.len() as int).len() == 0);
        assert(modes@ + Seq::<CollisionMode>::empty() =~= modes@);
    }
    modes
}

/// The live entity an entity data block describes: numeric fields are forced
/// into the fixed-point limits, a missing velocity or one that is not a
/// two-component list is rest, a missing priority is zero, and missing
/// triggers are none.
pub open spec fn built_entity(d: EntityDataView) -> GenericEntityView {
    GenericEntityView {
        name: d.name,
        weight: clamp_spec(d.weight as int, 0, WEIGHT_LIMIT as int) as i64,
        velocity: match d.velocity {
            Some(v) => if v.len() == 2 {
                clamped_symmetric(Vec2 { x: v[0], y: v[1] }, VEL_LIMIT as int)
            } else {
                Vec2 { x: 0, y: 0 }
            },
            None => Vec2 { x: 0, y: 0 },
        },
        affected_by_gravity: d.affected_by_gravity,
        is_static: d.is_static,
        elasticity: clamp_spec(d.elasticity as int, 0, crate::fixed::ELASTICITY_LIMIT as int) as i64,
        active_collision: d.active_collision,
        collision_priority: match d.collision_priority {
            Some(p) => p,
            None => 0,
        },
        collision_modes: modes_of_names(d.collision_modes),
        triggers: match d.triggers {
            Some(t) => t,
            None => Seq::empty(),
        },
    }
}

/// Builds the live entity an entity data block describes.
pub fn build_entity(d: &EntityData) -> (r: GenericEntity)
    ensures
        r.deep_view() == built_entity(d.deep_view()),
        r.valid(),
{
    let velocity: Vec2 = match &d.velocity {
        Some(v) => if v.len() == 2 {
            Vec2 {
                x: crate::fixed::clamp_i128(v[0] as i128, -VEL_LIMIT, VEL_LIMIT),
                y: crate::fixed::clamp_i128(v[1] as i128, -VEL_LIMIT, VEL_LIMIT),
            }
        } else {
            Vec2 { x: 0, y: 0 }
        },
        None => Vec2 { x: 0, y: 0 },
    };
    let triggers: Vec<Trigger> = match &d.triggers {
        Some(t) => copy_triggers(t),
        None => Vec::new(),
    };
    proof {
        if let Some(t) = &d.triggers {
            crate::triggers::lemma_triggers_view_is_deep_view(*t);
            crate::triggers::lemma_triggers_view_is_deep_view(triggers);
        } else {
            assert(triggers.deep_view() =~= Seq::<TriggerView>::empty());
        }
    }
    let collision_priority: u64 = match d.collision_priority {
        Some(p) => p,
        None => 0,
    };
    let r = GenericEntity::new(
        d.name.clone(),
        crate::fixed::clamp_i128(d.weight as i128, 0, WEIGHT_LIMIT),
        velocity,
        d.affected_by_gravity,
        d.is_static,
        crate::fixed::clamp_i128(d.elasticity as i128, 0, crate::fixed::ELASTICITY_LIMIT),
        d.active_collision,
        collision_priority,
        parse_collision_modes(&d.collision_modes),
        triggers,
    );
    proof {
        assert(r.deep_view() =~= built_entity(d.deep_view()));
    }
    r
}

/// The renderable object a graphics data block describes: a position list
/// that is not three components long is the origin, and every coordinate and
/// dimension is forced into its limit.
pub open spec fn built_graphics(d: GraphicsDataView) -> GraphicsObjectView {
    GraphicsObjectView {
        name: d.name,
        position: if d.position.len() == 3 {
            Vec3 {
                x: clamp_spec(d.position[0] as int, -POS_LIMIT as int, POS_LIMIT as int) as i64,
                y: clamp_spec(d.position[1] as int, -POS_LIMIT as int, POS_LIMIT as int) as i64,
                z: clamp_spec(d.position[2] as int, -POS_LIMIT as int, POS_LIMIT as int) as i64,
            }
        } else {
            Vec3 { x: 0, y: 0, z: 0 }
        },
        rotation: clamp_spec(d.rotation as int, -POS_LIMIT as int, POS_LIMIT as int) as i64,
        scale: clamp_spec(d.scale as int, 0, DIM_LIMIT as int) as i64,
        width: clamp_spec(d.width as int, 0, DIM_LIMIT as int) as i64,
        height: clamp_spec(d.height as int, 0, DIM_LIMIT as int) as i64,
        radius: clamp_spec(d.radius as int, 0, DIM_LIMIT as int) as i64,
        atlas_config: d.atlas_config,
        animation_config: d.animation_config,
    }
}

/// Builds the renderable object a graphics data block describes.
pub fn build_graphics(d: &GraphicsData) -> (r: GraphicsObject)
    ensures
        r.deep_view() == built_graphics(d.deep_view()),
        r.valid(),
{
    let position: Vec3 = if d.position.len() == 3 {
        Vec3 {
            x: crate::fixed::clamp_i128(d.position[0] as i128, -POS_LIMIT, POS_LIMIT),
            y: crate::fixed::clamp_i128(d.position[1] as i128, -POS_LIMIT, POS_LIMIT),
            z: crate::fixed::clamp_i128(d.position[2] as i128, -POS_LIMIT, POS_LIMIT),
        }
    } else {
        Vec3 { x: 0, y: 0, z: 0 }
    };
    let animation_config: Option<AnimationConfig> = match &d.animation_config {
        Some(a) => Some(a.duplicate()),
        None => None,
    };
    let r = GraphicsObject::new(
        d.name.clone(),
        position,
        crate::fixed::clamp_i128(d.rotation as i128, -POS_LIMIT, POS_LIMIT),
        crate::fixed::clamp_i128(d.scale as i128, 0, DIM_LIMIT),
        crate::fixed::clamp_i128(d.width as i128, 0, DIM_LIMIT),
        crate::fixed::clamp_i128(d.height as i128, 0, DIM_LIMIT),
        crate::fixed::clamp_i128(d.radius as i128, 0, DIM_LIMIT),
        d.atlas_config,
        animation_config,
    );
    proof {
        assert(r.deep_view() =~= built_graphics(d.deep_view()));
    }
    r
}

/// The scene template a parsed scene file describes.
pub open spec fn built_scene(d: SceneDataView) -> SceneView {
    SceneView {
        entities: Seq::new(d.objects.len(), |i: int| built_entity(d.objects[i].entity)),
        graphics_objects: Seq::new(d.objects.len(), |i: int| built_graphics(d.objects[i].graphics)),
        properties: built_properties(d.properties),
        scene_triggers: d.scene_triggers,
    }
}

/// Reads the physics properties of a scene file, forcing them into the
/// fixed-point limits.
pub fn build_properties(d: &ScenePropertiesData) -> (r: SceneProperties)
    ensures
        r == built_properties(d.deep_view()),
        r.valid(),
{
    let gravity = read_vec2_from_list(&d.gravity, Vec2 { x: 0, y: 0 });
    let terminal = read_vec2_from_list(&d.terminal_velocity, Vec2 { x: VEL_LIMIT, y: VEL_LIMIT });
    let r = SceneProperties::new(
        Vec2 {
            x: crate::fixed::clamp_i128(gravity.x as i128, -VEL_LIMIT, VEL_LIMIT),
            y: crate::fixed::clamp_i128(gravity.y as i128, -VEL_LIMIT, VEL_LIMIT),
        },
        Vec2 {
            x: crate::fixed::clamp_i128(terminal.x as i128, 0, VEL_LIMIT),
            y: crate::fixed::clamp_i128(terminal.y as i128, 0, VEL_LIMIT),
        },
    );
    proof {
        assert(r == built_properties(d.deep_view()));
    }
    r
}

/// Builds a whole scene template out of a parsed scene file.
#[verifier::loop_isolation(false)]
pub fn build_scene(d: &SceneData) -> (r: Scene)
    ensures
        r.deep_view() == built_scene(d.deep_view()),
        r.valid(),
{
    let ghost dv = d.deep_view();
    let properties = build_properties(&d.properties);
    let mut scene = Scene::new(properties, crate::triggers::copy_scene_triggers(&d.scene_triggers));
    let mut i: usize = 0;
    while i < d.objects.len()
        invariant
            0 <= i <= d.objects.len(),
            scene.deep_view().properties == built_properties(dv.properties),
            scene.deep_view().scene_triggers == dv.scene_triggers,
            scene.deep_view().entities.len() == i,
            scene.deep_view().graphics_objects.len() == i,
            forall|j: int|
                0 <= j < i ==> (#[trigger] scene.deep_view().entities[j]) == built_entity(
                    dv.objects[j].entity,
                ),
            forall|j: int|
                0 <= j < i ==> (#[trigger] scene.deep_view().graphics_objects[j])
                    == built_graphics(dv.objects[j].graphics),
            scene.valid(),
        decreases d.objects.len() - i,
    {
        let entity = build_entity(&d.objects[i].entity);
        let graphics = build_graphics(&d.objects[i].graphics);
        scene.add_entity(entity);
        scene.add_graphics_object(graphics);
        i += 1;
    }
    proof {
        assert(scene.deep_view().entities =~= built_scene(dv).entities);
        assert(scene.deep_view().graphics_objects =~= built_scene(dv).graphics_objects);
        assert(scene.deep_view() =~= built_scene(dv));
    }
    scene
}

} // verus!
