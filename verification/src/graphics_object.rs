//! Model of the renderable object kept by the external graphics registry.
//!
//! The rendering framework owns shaders, textures and vertex buffers; the
//! simulation only reads and writes what collision and movement need: the
//! position, the rotation, the shape dimensions and the two sprite
//! configurations that outcomes may replace.  Width, height and radius are
//! stored directly as fixed-point values.

use vstd::prelude::*;

use crate::fixed::{Vec3, DIM_LIMIT, POS_LIMIT};

verus! {

/// Placement of a sprite inside a texture atlas.
#[derive(Clone, Copy, PartialEq, Eq, Structural, Debug)]
pub struct AtlasConfig {
    pub current_frame: u32,
    pub atlas_columns: u32,
    pub atlas_rows: u32,
}

/// How an animated sprite steps through its frames; `frame_duration` is in
/// microseconds.
#[derive(Clone, Debug)]
pub struct AnimationConfig {
    pub looping: bool,
    pub mode: String,
    pub frame_range: Vec<u32>,
    pub frame_duration: i64,
}

#[verifier::ext_equal]
pub ghost struct AnimationConfigView {
    pub looping: bool,
    pub mode: Seq<char>,
    pub frame_range: Seq<u32>,
    pub frame_duration: i64,
}

impl DeepView for AnimationConfig {
    type V = AnimationConfigView;

    open spec fn deep_view(&self) -> AnimationConfigView {
        AnimationConfigView {
            looping: self.looping,
            mode: self.mode@,
            frame_range: self.frame_range@,
            frame_duration: self.frame_duration,
        }
    }
}

impl AnimationConfig {
    /// A copy whose deep view equals the original's.
    pub fn duplicate(&self) -> (r: AnimationConfig)
        ensures
            r.deep_view() == self.deep_view(),
    {
        AnimationConfig {
            looping: self.looping,
            mode: self.mode.clone(),
            frame_range: crate::util::copy_vec(&self.frame_range),
            frame_duration: self.frame_duration,
        }
    }
}

/// The gameplay-relevant state of one renderable object, keyed by the same
/// name as its paired entity.
#[derive(Clone, Debug)]
pub struct GraphicsObject {
    pub name: String,
    pub position: Vec3,
    pub rotation: i64,
    pub scale: i64,
    pub width: i64,
    pub height: i64,
    pub radius: i64,
    pub atlas_config: Option<AtlasConfig>,
    pub animation_config: Option<AnimationConfig>,
}

#[verifier::ext_equal]
pub ghost struct GraphicsObjectView {
    pub name: Seq<char>,
    pub position: Vec3,
    pub rotation: i64,
    pub scale: i64,
    pub width: i64,
    pub height: i64,
    pub radius: i64,
    pub atlas_config: Option<AtlasConfig>,
    pub animation_config: Option<AnimationConfigView>,
}

impl DeepView for GraphicsObject {
    type V = GraphicsObjectView;

    open spec fn deep_view(&self) -> GraphicsObjectView {
        GraphicsObjectView {
            name: self.name@,
            position: self.position,
            rotation: self.rotation,
            scale: self.scale,
            width: self.width,
            height: self.height,
            radius: self.radius,
            atlas_config: self.atlas_config,
            animation_config: self.animation_config.deep_view(),
        }
    }
}

impl GraphicsObjectView {
    /// Every coordinate and dimension inside its limit.
    pub open spec fn valid(self) -> bool {
        &&& self.position.bounded(POS_LIMIT as int)
        &&& -POS_LIMIT <= self.rotation <= POS_LIMIT
        &&& 0 <= self.scale <= DIM_LIMIT
        &&& 0 <= self.width <= DIM_LIMIT
        &&& 0 <= self.height <= DIM_LIMIT
        &&& 0 <= self.radius <= DIM_LIMIT
    }
}

impl GraphicsObject {
    /// Every coordinate and dimension inside its limit.
    pub open spec fn valid(self) -> bool {
        self.deep_view().valid()
    }

    pub fn new(
        name: String,
        position: Vec3,
        rotation: i64,
        scale: i64,
        width: i64,
        height: i64,
        radius: i64,
        atlas_config: Option<AtlasConfig>,
        animation_config: Option<AnimationConfig>,
    ) -> (r: GraphicsObject)
        ensures
            r == (GraphicsObject {
                name,
                position,
                rotation,
                scale,
                width,
                height,
                radius,
                atlas_config,
                animation_config,
            }),
    {
        GraphicsObject { name, position, rotation, scale, width, height, radius, atlas_config, animation_config }
    }

    pub fn get_name(&self) -> (r: &String)
        ensures
            r@ == self.name@,
    {
        &self.name
    }

    pub fn get_position(&self) -> (r: Vec3)
        ensures
            r == self.position,
    {
        self.position
    }

    pub fn set_position(&mut self, position: Vec3)
        ensures
            *final(self) == (GraphicsObject { position, ..*old(self) }),
    {
        self.position = position;
    }

    /// Width and height of the collision box.
    pub fn dimensions(&self) -> (r: (i64, i64))
        ensures
            r.0 == self.width,
            r.1 == self.height,
    {
        (self.width, self.height)
    }

    pub fn get_radius(&self) -> (r: i64)
        ensures
            r == self.radius,
    {
        self.radius
    }

    pub fn get_rotation(&self) -> (r: i64)
        ensures
            r == self.rotation,
    {
        self.rotation
    }

    pub fn set_rotation(&mut self, rotation: i64)
        ensures
            *final(self) == (GraphicsObject { rotation, ..*old(self) }),
    {
        self.rotation = rotation;
    }

    pub fn set_atlas_config(&mut self, atlas_config: Option<AtlasConfig>)
        ensures
            *final(self) == (GraphicsObject { atlas_config, ..*old(self) }),
    {
        self.atlas_config = atlas_config;
    }

    pub fn set_animation_config(&mut self, animation_config: Option<AnimationConfig>)
        ensures
            *final(self) == (GraphicsObject { animation_config, ..*old(self) }),
    {
        self.animation_config = animation_config;
    }

    /// A copy whose deep view equals the original's.
    pub fn duplicate(&self) -> (r: GraphicsObject)
        ensures
            r.deep_view() == self.deep_view(),
    {
        let animation_config: Option<AnimationConfig> = match &self.animation_config {
            Some(a) => Some(a.duplicate()),
            None => None,
        };
        GraphicsObject {
            name: self.name.clone(),
            position: self.position,
            rotation: self.rotation,
            scale: self.scale,
            width: self.width,
            height: self.height,
            radius: self.radius,
            atlas_config: self.atlas_config,
            animation_config,
        }
    }
}

} // verus!
