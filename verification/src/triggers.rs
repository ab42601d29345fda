//! Declarative triggers and the outcomes they queue.
//!
//! A `Trigger` binds an event kind (collision or destruction) and an optional
//! condition to one `Outcome`; a `SceneTrigger` is evaluated once per tick
//! against the input snapshot, independent of any entity.  Outcomes are pure
//! data describing an effect to apply later.
//!
//! Every type has a ghost deep view so that contracts can speak of copies and
//! snapshots by value.

use vstd::prelude::*;

use crate::audio::AudioType;
use crate::graphics_object::{AnimationConfig, AtlasConfig};
use crate::scene_data::ObjectData;
use crate::scene_data::ObjectDataView;
use crate::util::copy_vec;

verus! {

/// Event kinds a per-entity trigger can react to.
#[derive(Clone, Copy, PartialEq, Eq, Structural, Debug)]
pub enum TriggerType {
    Collision,
    Destruction,
}

/// Event kinds a scene-level trigger can react to.
#[derive(Clone, Copy, PartialEq, Eq, Structural, Debug)]
pub enum SceneTriggerType {
    KeyPressed,
    KeyNotPressed,
    Timer,
}

/// Fires only when the other party of the collision has this name.
#[derive(Clone, Debug)]
pub struct CollisionCondition {
    pub collided_with: String,
}

#[verifier::ext_equal]
pub ghost struct CollisionConditionView {
    pub collided_with: Seq<char>,
}

impl DeepView for CollisionCondition {
    type V = CollisionConditionView;

    open spec fn deep_view(&self) -> CollisionConditionView {
        CollisionConditionView { collided_with: self.collided_with@ }
    }
}

/// Fires depending on whether one of these keys is pressed.
#[derive(Clone, Debug)]
pub struct KeyCondition {
    pub keys: Vec<char>,
}

#[verifier::ext_equal]
pub ghost struct KeyConditionView {
    pub keys: Seq<char>,
}

impl DeepView for KeyCondition {
    type V = KeyConditionView;

    open spec fn deep_view(&self) -> KeyConditionView {
        KeyConditionView { keys: self.keys@ }
    }
}

/// Fires after this many microseconds (the timer kind is not implemented).
#[derive(Clone, Copy, PartialEq, Eq, Structural, Debug)]
pub struct TimerCondition {
    pub time_micros: i64,
}

/// The condition attached to a trigger, shaped by the trigger's kind.
#[derive(Debug)]
pub enum TriggerConditions {
    CollisionConditions(CollisionCondition),
    KeyConditions(KeyCondition),
    TimerConditions(TimerCondition),
}

#[verifier::ext_equal]
pub ghost enum TriggerConditionsView {
    CollisionConditions(CollisionConditionView),
    KeyConditions(KeyConditionView),
    TimerConditions(TimerCondition),
}

impl DeepView for TriggerConditions {
    type V = TriggerConditionsView;

    open spec fn deep_view(&self) -> TriggerConditionsView {
        match self {
            TriggerConditions::CollisionConditions(c) => TriggerConditionsView::CollisionConditions(
                c.deep_view(),
            ),
            TriggerConditions::KeyConditions(c) => TriggerConditionsView::KeyConditions(
                c.deep_view(),
            ),
            TriggerConditions::TimerConditions(c) => TriggerConditionsView::TimerConditions(*c),
        }
    }
}

/// Arguments of the `AccelerateObject` outcome; `acceleration` must hold two
/// components to take effect.
#[derive(Clone, Debug)]
pub struct AccelerateObjectArgs {
    pub object_name: String,
    pub acceleration: Vec<i64>,
    pub max_speed: i64,
    pub normalize: bool,
}

#[verifier::ext_equal]
pub ghost struct AccelerateObjectArgsView {
    pub object_name: Seq<char>,
    pub acceleration: Seq<i64>,
    pub max_speed: i64,
    pub normalize: bool,
}

impl DeepView for AccelerateObjectArgs {
    type V = AccelerateObjectArgsView;

    open spec fn deep_view(&self) -> AccelerateObjectArgsView {
        AccelerateObjectArgsView {
            object_name: self.object_name@,
            acceleration: self.acceleration@,
            max_speed: self.max_speed,
            normalize: self.normalize,
        }
    }
}

/// Names one of the canned behaviours of the event handler.
#[derive(Clone, Debug)]
pub struct SequenceArgs {
    pub sequence_name: String,
}

#[verifier::ext_equal]
pub ghost struct SequenceArgsView {
    pub sequence_name: Seq<char>,
}

impl DeepView for SequenceArgs {
    type V = SequenceArgsView;

    open spec fn deep_view(&self) -> SequenceArgsView {
        SequenceArgsView { sequence_name: self.sequence_name@ }
    }
}

/// Target scene of a `SwapScene` outcome.
#[derive(Clone, Debug)]
pub struct SwapSceneArgs {
    pub scene_name: String,
}

#[verifier::ext_equal]
pub ghost struct SwapSceneArgsView {
    pub scene_name: Seq<char>,
}

impl DeepView for SwapSceneArgs {
    type V = SwapSceneArgsView;

    open spec fn deep_view(&self) -> SwapSceneArgsView {
        SwapSceneArgsView { scene_name: self.scene_name@ }
    }
}

/// Target of a `DestroyObject` outcome.
#[derive(Clone, Debug)]
pub struct DestroyObjectArgs {
    pub object_name: String,
}

#[verifier::ext_equal]
pub ghost struct DestroyObjectArgsView {
    pub object_name: Seq<char>,
}

impl DeepView for DestroyObjectArgs {
    type V = DestroyObjectArgsView;

    open spec fn deep_view(&self) -> DestroyObjectArgsView {
        DestroyObjectArgsView { object_name: self.object_name@ }
    }
}

/// Target and destination of a `TeleportObject` outcome; the destination must
/// hold two or three coordinates to take effect.
#[derive(Clone, Debug)]
pub struct TeleportObjectArgs {
    pub object_name: String,
    pub new_position: Vec<i64>,
}

#[verifier::ext_equal]
pub ghost struct TeleportObjectArgsView {
    pub object_name: Seq<char>,
    pub new_position: Seq<i64>,
}

impl DeepView for TeleportObjectArgs {
    type V = TeleportObjectArgsView;

    open spec fn deep_view(&self) -> TeleportObjectArgsView {
        TeleportObjectArgsView { object_name: self.object_name@, new_position: self.new_position@ }
    }
}

/// Arguments of an `EnqueueAudio` outcome; `volume` is in thousandths.
#[derive(Clone, Debug)]
pub struct EnqueueAudioArgs {
    pub audio_name: String,
    pub audio_type: AudioType,
    pub volume: i64,
    pub looping: bool,
}

#[verifier::ext_equal]
pub ghost struct EnqueueAudioArgsView {
    pub audio_name: Seq<char>,
    pub audio_type: AudioType,
    pub volume: i64,
    pub looping: bool,
}

impl DeepView for EnqueueAudioArgs {
    type V = EnqueueAudioArgsView;

    open spec fn deep_view(&self) -> EnqueueAudioArgsView {
        EnqueueAudioArgsView {
            audio_name: self.audio_name@,
            audio_type: self.audio_type,
            volume: self.volume,
            looping: self.looping,
        }
    }
}

/// Replaces the atlas configuration of a named graphics object.
#[derive(Clone, Debug)]
pub struct SetAtlasConfigArgs {
    pub object_name: String,
    pub atlas_config: AtlasConfig,
}

#[verifier::ext_equal]
pub ghost struct SetAtlasConfigArgsView {
    pub object_name: Seq<char>,
    pub atlas_config: AtlasConfig,
}

impl DeepView for SetAtlasConfigArgs {
    type V = SetAtlasConfigArgsView;

    open spec fn deep_view(&self) -> SetAtlasConfigArgsView {
        SetAtlasConfigArgsView { object_name: self.object_name@, atlas_config: self.atlas_config }
    }
}

/// Replaces the animation configuration of a named graphics object.
#[derive(Clone, Debug)]
pub struct SetAnimationConfigArgs {
    pub object_name: String,
    pub animation_config: AnimationConfig,
}

#[verifier::ext_equal]
pub ghost struct SetAnimationConfigArgsView {
    pub object_name: Seq<char>,
    pub animation_config: <AnimationConfig as DeepView>::V,
}

impl DeepView for SetAnimationConfigArgs {
    type V = SetAnimationConfigArgsView;

    open spec fn deep_view(&self) -> SetAnimationConfigArgsView {
        SetAnimationConfigArgsView {
            object_name: self.object_name@,
            animation_config: self.animation_config.deep_view(),
        }
    }
}

/// A data-described effect queued for deferred execution.
#[derive(Debug)]
pub enum Outcome {
    AccelerateObject(AccelerateObjectArgs),
    Sequence(SequenceArgs),
    SwapScene(SwapSceneArgs),
    CreateObject(ObjectData),
    DestroyObject(DestroyObjectArgs),
    TeleportObject(TeleportObjectArgs),
    EnqueueAudio(EnqueueAudioArgs),
    SetAtlasConfig(SetAtlasConfigArgs),
    SetAnimationConfig(SetAnimationConfigArgs),
}

#[verifier::ext_equal]
pub ghost enum OutcomeView {
    AccelerateObject(AccelerateObjectArgsView),
    Sequence(SequenceArgsView),
    SwapScene(SwapSceneArgsView),
    CreateObject(ObjectDataView),
    DestroyObject(DestroyObjectArgsView),
    TeleportObject(TeleportObjectArgsView),
    EnqueueAudio(EnqueueAudioArgsView),
    SetAtlasConfig(SetAtlasConfigArgsView),
    SetAnimationConfig(SetAnimationConfigArgsView),
}

/// The deep view of an outcome.  `Outcome`, `Trigger` and the object data of
/// `CreateObject` are mutually recursive (a created object may itself carry
/// triggers), so their views are written as one group of recursive spec
/// functions measured by datatype height.
pub open spec fn outcome_view(o: Outcome) -> OutcomeView
    decreases o,
{
    match o {
        Outcome::AccelerateObject(a) => OutcomeView::AccelerateObject(a.deep_view()),
        Outcome::Sequence(a) => OutcomeView::Sequence(a.deep_view()),
        Outcome::SwapScene(a) => OutcomeView::SwapScene(a.deep_view()),
        Outcome::CreateObject(a) => OutcomeView::CreateObject(object_data_view(a)),
        Outcome::DestroyObject(a) => OutcomeView::DestroyObject(a.deep_view()),
        Outcome::TeleportObject(a) => OutcomeView::TeleportObject(a.deep_view()),
        Outcome::EnqueueAudio(a) => OutcomeView::EnqueueAudio(a.deep_view()),
        Outcome::SetAtlasConfig(a) => OutcomeView::SetAtlasConfig(a.deep_view()),
        Outcome::SetAnimationConfig(a) => OutcomeView::SetAnimationConfig(a.deep_view()),
    }
}

/// The deep view of one trigger.
pub open spec fn trigger_view(t: Trigger) -> TriggerView
    decreases t,
{
    TriggerView {
        trigger_type: t.trigger_type,
        conditions: t.conditions.deep_view(),
        outcome: outcome_view(t.outcome),
    }
}

/// The deep views of a list of triggers.
pub open spec fn triggers_view(ts: Seq<Trigger>) -> Seq<TriggerView>
    decreases ts,
{
    if ts.len() == 0 {
        Seq::empty()
    } else {
        seq![trigger_view(ts[0])] + triggers_view(ts.drop_first())
    }
}

/// The deep view of the entity half of a scene object.
pub open spec fn entity_data_view(e: crate::scene_data::EntityData) -> crate::scene_data::EntityDataView
    decreases e,
{
    crate::scene_data::EntityDataView {
        name: e.name@,
        weight: e.weight,
        velocity: e.velocity.deep_view(),
        affected_by_gravity: e.affected_by_gravity,
        is_static: e.is_static,
        elasticity: e.elasticity,
        active_collision: e.active_collision,
        collision_priority: e.collision_priority,
        collision_modes: e.collision_modes.deep_view(),
        triggers: match e.triggers {
            Some(ts) => Some(triggers_view(ts@)),
            None => None,
        },
    }
}

/// The deep view of one whole scene object.
pub open spec fn object_data_view(d: ObjectData) -> ObjectDataView
    decreases d,
{
    ObjectDataView { entity: entity_data_view(d.entity), graphics: d.graphics.deep_view() }
}

impl DeepView for Outcome {
    type V = OutcomeView;

    open spec fn deep_view(&self) -> OutcomeView {
        outcome_view(*self)
    }
}

/// `triggers_view` agrees with the element-wise deep view of a sequence.
pub proof fn lemma_triggers_view_elementwise(ts: Seq<Trigger>)
    ensures
        triggers_view(ts).len() == ts.len(),
        forall|i: int| 0 <= i < ts.len() ==> triggers_view(ts)[i] == trigger_view(ts[i]),
    decreases ts.len(),
{
    if ts.len() > 0 {
        lemma_triggers_view_elementwise(ts.drop_first());
        assert forall|i: int| 0 <= i < ts.len() implies triggers_view(ts)[i] == trigger_view(
            ts[i],
        ) by {
            if i > 0 {
                assert(triggers_view(ts)[i] == triggers_view(ts.drop_first())[i - 1]);
                assert(ts.drop_first()[i - 1] == ts[i]);
            }
        }
    }
}

/// `triggers_view` agrees with the element-wise deep view of a vector.
pub proof fn lemma_triggers_view_is_deep_view(ts: Vec<Trigger>)
    ensures
        triggers_view(ts@) == ts.deep_view(),
{
    lemma_triggers_view_elementwise(ts@);
    assert(triggers_view(ts@) =~= ts.deep_view());
}

impl Outcome {
    /// A copy whose deep view equals the original's.
    pub fn duplicate(&self) -> (r: Outcome)
        ensures
            r.deep_view() == self.deep_view(),
        decreases *self,
    {
        match self {
            Outcome::AccelerateObject(a) => Outcome::AccelerateObject(
                AccelerateObjectArgs {
                    object_name: a.object_name.clone(),
                    acceleration: copy_vec(&a.acceleration),
                    max_speed: a.max_speed,
                    normalize: a.normalize,
                },
            ),
            Outcome::Sequence(a) => Outcome::Sequence(
                SequenceArgs { sequence_name: a.sequence_name.clone() },
            ),
            Outcome::SwapScene(a) => Outcome::SwapScene(
                SwapSceneArgs { scene_name: a.scene_name.clone() },
            ),
            Outcome::CreateObject(a) => Outcome::CreateObject(a.duplicate()),
            Outcome::DestroyObject(a) => Outcome::DestroyObject(
                DestroyObjectArgs { object_name: a.object_name.clone() },
            ),
            Outcome::TeleportObject(a) => Outcome::TeleportObject(
                TeleportObjectArgs {
                    object_name: a.object_name.clone(),
                    new_position: copy_vec(&a.new_position),
                },
            ),
            Outcome::EnqueueAudio(a) => Outcome::EnqueueAudio(
                EnqueueAudioArgs {
                    audio_name: a.audio_name.clone(),
                    audio_type: a.audio_type,
                    volume: a.volume,
                    looping: a.looping,
                },
            ),
            Outcome::SetAtlasConfig(a) => Outcome::SetAtlasConfig(
                SetAtlasConfigArgs {
                    object_name: a.object_name.clone(),
                    atlas_config: a.atlas_config,
                },
            ),
            Outcome::SetAnimationConfig(a) => Outcome::SetAnimationConfig(
                SetAnimationConfigArgs {
                    object_name: a.object_name.clone(),
                    animation_config: a.animation_config.duplicate(),
                },
            ),
        }
    }
}

impl TriggerConditions {
    /// A copy whose deep view equals the original's.
    pub fn duplicate(&self) -> (r: TriggerConditions)
        ensures
            r.deep_view() == self.deep_view(),
    {
        match self {
            TriggerConditions::CollisionConditions(c) => TriggerConditions::CollisionConditions(
                CollisionCondition { collided_with: c.collided_with.clone() },
            ),
            TriggerConditions::KeyConditions(c) => TriggerConditions::KeyConditions(
                KeyCondition { keys: copy_vec(&c.keys) },
            ),
            TriggerConditions::TimerConditions(c) => TriggerConditions::TimerConditions(*c),
        }
    }
}

/// A per-entity rule: when the event of `trigger_type` happens to the owning
/// entity and `conditions` (if any) hold, `outcome` is queued.
#[derive(Debug)]
pub struct Trigger {
    pub trigger_type: TriggerType,
    pub conditions: Option<TriggerConditions>,
    pub outcome: Outcome,
}

#[verifier::ext_equal]
pub ghost struct TriggerView {
    pub trigger_type: TriggerType,
    pub conditions: Option<TriggerConditionsView>,
    pub outcome: OutcomeView,
}

impl DeepView for Trigger {
    type V = TriggerView;

    open spec fn deep_view(&self) -> TriggerView {
        trigger_view(*self)
    }
}

impl Trigger {
    /// A copy whose deep view equals the original's.
    pub fn duplicate(&self) -> (r: Trigger)
        ensures
            r.deep_view() == self.deep_view(),
        decreases *self,
    {
        let conditions: Option<TriggerConditions> = match &self.conditions {
            Some(c) => Some(c.duplicate()),
            None => None,
        };
        Trigger { trigger_type: self.trigger_type, conditions, outcome: self.outcome.duplicate() }
    }
}

/// A scene-wide rule evaluated once per tick against the input snapshot.
#[derive(Debug)]
pub struct SceneTrigger {
    pub scene_trigger_type: SceneTriggerType,
    pub conditions: Option<TriggerConditions>,
    pub outcome: Vec<Outcome>,
}

#[verifier::ext_equal]
pub ghost struct SceneTriggerView {
    pub scene_trigger_type: SceneTriggerType,
    pub conditions: Option<TriggerConditionsView>,
    pub outcome: Seq<OutcomeView>,
}

impl DeepView for SceneTrigger {
    type V = SceneTriggerView;

    open spec fn deep_view(&self) -> SceneTriggerView {
        SceneTriggerView {
            scene_trigger_type: self.scene_trigger_type,
            conditions: self.conditions.deep_view(),
            outcome: self.outcome.deep_view(),
        }
    }
}

impl SceneTrigger {
    /// A copy whose deep view equals the original's.
    pub fn duplicate(&self) -> (r: SceneTrigger)
        ensures
            r.deep_view() == self.deep_view(),
    {
        let conditions: Option<TriggerConditions> = match &self.conditions {
            Some(c) => Some(c.duplicate()),
            None => None,
        };
        let outcome = copy_outcomes(&self.outcome);
        SceneTrigger { scene_trigger_type: self.scene_trigger_type, conditions, outcome }
    }
}

/// An element-for-element copy of a list of outcomes.
pub fn copy_outcomes(v: &Vec<Outcome>) -> (r: Vec<Outcome>)
    ensures
        r.deep_view() == v.deep_view(),
{
    let mut r: Vec<Outcome> = Vec::new();
    let mut i: usize = 0;
    while i < v.len()
        invariant
            i <= v.len(),
            r.deep_view() == v.deep_view().subrange(0, i as int),
        decreases v.len() - i,
    {
        r.push(v[i].duplicate());
        proof {
            assert(v.deep_view().subrange(0, i as int).push(v@[i as int].deep_view())
                =~= v.deep_view().subrange(0, i as int + 1));
        }
        i += 1;
    }
    proof {
        assert(r.deep_view() =~= v.deep_view());
    }
    r
}

/// An element-for-element copy of a list of triggers.
pub fn copy_triggers(v: &Vec<Trigger>) -> (r: Vec<Trigger>)
    ensures
        r.deep_view() == v.deep_view(),
    decreases *v,
{
    let mut r: Vec<Trigger> = Vec::new();
    let mut i: usize = 0;
    while i < v.len()
        invariant
            i <= v.len(),
            r.deep_view() == v.deep_view().subrange(0, i as int),
        decreases v.len() - i,
    {
        r.push(v[i].duplicate());
        proof {
            assert(v.deep_view().subrange(0, i as int).push(v@[i as int].deep_view())
                =~= v.deep_view().subrange(0, i as int + 1));
        }
        i += 1;
    }
    proof {
        assert(r.deep_view() =~= v.deep_view());
    }
    r
}

/// An element-for-element copy of a list of scene triggers.
pub fn copy_scene_triggers(v: &Vec<SceneTrigger>) -> (r: Vec<SceneTrigger>)
    ensures
        r.deep_view() == v.deep_view(),
{
    let mut r: Vec<SceneTrigger> = Vec::new();
    let mut i: usize = 0;
    while i < v.len()
        invariant
            i <= v.len(),
            r.deep_view() == v.deep_view().subrange(0, i as int),
        decreases v.len() - i,
    {
        r.push(v[i].duplicate());
        proof {
            assert(v.deep_view().subrange(0, i as int).push(v@[i as int].deep_view())
                =~= v.deep_view().subrange(0, i as int + 1));
        }
        i += 1;
    }
    proof {
        assert(r.deep_view() =~= v.deep_view());
    }
    r
}

} // verus!
