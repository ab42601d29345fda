//! The trigger/outcome engine: evaluating declarative triggers against world
//! events and input, and draining the queue of outcomes they produce.
//!
//! Each tick the handler gathers outcomes from scene-level triggers and from
//! the collision pass, then drains the queue in order.  Executing a
//! `DestroyObject` outcome fires the destroyed entity's destruction
//! triggers; their outcomes are appended to the same drain and executed
//! after it — one level of chaining, as the event model lays down, so
//! outcomes queued by a chained outcome are not processed further.

use vstd::prelude::*;

use crate::audio::{AudioRequest, AudioRequestView, AudioType};
use crate::collision::{CollisionError, CollisionEvent, CollisionEventView};
use crate::fixed::{clamp_spec, Vec3, POS_LIMIT};
use crate::game_state::{GameState, GameStateView};
use crate::generic_entity::GenericEntityView;
use crate::graphics_object::GraphicsObjectView;
use crate::key_states::{any_key_pressed, char_to_key, KeyStates};
use crate::master_entity_list::MasterEntityList;
use crate::master_graphics_list::MasterGraphicsList;
use crate::registry::{lookup, remove_named, upsert, upsert_all};
use crate::scene_data::{built_entity, built_graphics, ObjectData, ObjectDataView};
use crate::scene_manager::{SceneEntryView, SceneManager};
use crate::scene::SceneView;
use crate::triggers::{CollisionConditionView, KeyCondition, Outcome, OutcomeView, SceneTriggerType,
    SwapSceneArgsView, Trigger, TriggerConditions, TriggerConditionsView, TriggerType,
    TriggerView};

verus! {

/// The whole world the trigger/outcome engine acts on.
#[verifier::ext_equal]
pub ghost struct HandlerView {
    pub entities: Seq<GenericEntityView>,
    pub objects: Seq<GraphicsObjectView>,
    pub scenes: Seq<SceneEntryView>,
    pub game_state: GameStateView,
    pub event_outcomes: Seq<OutcomeView>,
    pub key_states: Seq<char>,
    pub audio_queue: Seq<AudioRequestView>,
}

impl HandlerView {
    /// Registries and scene store well formed, game state inside limits.
    pub open spec fn wf(self) -> bool {
        &&& crate::registry::names_unique(self.entities)
        &&& forall|i: int| 0 <= i < self.entities.len() ==> (#[trigger] self.entities[i]).valid()
        &&& crate::registry::names_unique(self.objects)
        &&& forall|i: int| 0 <= i < self.objects.len() ==> (#[trigger] self.objects[i]).valid()
        &&& crate::registry::names_unique(self.scenes)
        &&& forall|i: int| 0 <= i < self.scenes.len() ==> (#[trigger] self.scenes[i]).scene.valid()
        &&& self.game_state.valid()
    }
}

/// Evaluates triggers and interprets their outcomes against the world.
#[derive(Debug)]
pub struct EventHandler {
    master_entity_list: MasterEntityList,
    master_graphics_list: MasterGraphicsList,
    scene_manager: SceneManager,
    game_state: GameState,
    event_outcomes: Vec<Outcome>,
    key_states: KeyStates,
    audio_queue: Vec<AudioRequest>,
}

impl DeepView for EventHandler {
    type V = HandlerView;

    closed spec fn deep_view(&self) -> HandlerView {
        HandlerView {
            entities: self.master_entity_list.deep_view(),
            objects: self.master_graphics_list.deep_view(),
            scenes: self.scene_manager.deep_view(),
            game_state: self.game_state.deep_view(),
            event_outcomes: self.event_outcomes.deep_view(),
            key_states: self.key_states.deep_view(),
            audio_queue: self.audio_queue.deep_view(),
        }
    }
}

/// The outcomes of the collision-type triggers that fire against a party of
/// this name: a collision trigger with a collision condition fires only when
/// the other party's name matches; one without fires on any collision.
pub open spec fn collision_trigger_outcomes(ts: Seq<TriggerView>, other: Seq<char>) -> Seq<
    OutcomeView,
>
    decreases ts.len(),
{
    if ts.len() == 0 {
        Seq::empty()
    } else {
        let rest = collision_trigger_outcomes(ts.drop_first(), other);
        if ts[0].trigger_type == TriggerType::Collision && (match ts[0].conditions {
            Some(TriggerConditionsView::CollisionConditions(c)) => c.collided_with == other,
            _ => true,
        }) {
            seq![ts[0].outcome] + rest
        } else {
            rest
        }
    }
}

/// The outcomes of all destruction-type triggers, which fire unconditionally
/// when their owner is destroyed.
pub open spec fn destruction_trigger_outcomes(ts: Seq<TriggerView>) -> Seq<OutcomeView>
    decreases ts.len(),
{
    if ts.len() == 0 {
        Seq::empty()
    } else {
        let rest = destruction_trigger_outcomes(ts.drop_first());
        if ts[0].trigger_type == TriggerType::Destruction {
            seq![ts[0].outcome] + rest
        } else {
            rest
        }
    }
}

/// A collision trigger carrying a collision condition fires exactly when the
/// other party of the collision bears the condition's name, and not
/// otherwise.
pub proof fn lemma_collision_trigger_fires_iff_named(
    t: TriggerView,
    c: CollisionConditionView,
    other: Seq<char>,
)
    requires
        t.trigger_type == TriggerType::Collision,
        t.conditions == Some(TriggerConditionsView::CollisionConditions(c)),
    ensures
        collision_trigger_outcomes(seq![t], other) == if c.collided_with == other {
            seq![t.outcome]
        } else {
            Seq::<OutcomeView>::empty()
        },
{
    assert(seq![t].drop_first() =~= Seq::<TriggerView>::empty());
    assert(collision_trigger_outcomes(Seq::<TriggerView>::empty(), other)
        == Seq::<OutcomeView>::empty());
    assert(seq![t][0] == t);
    if c.collided_with == other {
        assert(seq![t.outcome] + Seq::<OutcomeView>::empty() =~= seq![t.outcome]);
    }
}

/// Appends the outcomes of the collision triggers that fire against the
/// named other party.
#[verifier::loop_isolation(false)]
fn check_collision_triggers(
    triggers: &Vec<Trigger>,
    entity_2_name: &String,
    event_outcomes: &mut Vec<Outcome>,
)
    ensures
        final(event_outcomes).deep_view() == old(event_outcomes).deep_view()
            + collision_trigger_outcomes(triggers.deep_view(), entity_2_name@),
{
    let ghost ts = triggers.deep_view();
    let ghost base = event_outcomes.deep_view();
    proof {
        assert(ts.skip(0) =~= ts);
    }
    let mut i: usize = 0;
    while i < triggers.len()
        invariant
            0 <= i <= triggers.len(),
            event_outcomes.deep_view() + collision_trigger_outcomes(ts.skip(i as int), entity_2_name@)
                == base + collision_trigger_outcomes(ts, entity_2_name@),
        decreases triggers.len() - i,
    {
        proof {
            assert(ts.skip(i as int)[0] == ts[i as int]);
            assert(ts.skip(i as int).drop_first() =~= ts.skip(i as int + 1));
        }
        let trigger = &triggers[i];
        let ghost before = event_outcomes.deep_view();
        if matches!(trigger.trigger_type, TriggerType::Collision) {
            let fire: bool = match &trigger.conditions {
                Some(TriggerConditions::CollisionConditions(cond)) => cond.collided_with.eq(
                    entity_2_name,
                ),
                _ => true,
            };
            if fire {
                event_outcomes.push(trigger.outcome.duplicate());
                proof {
                    assert(event_outcomes.deep_view() =~= before.push(ts[i as int].outcome));
                    assert(before.push(ts[i as int].outcome) + collision_trigger_outcomes(
                        ts.skip(i as int + 1),
                        entity_2_name@,
                    ) =~= before + (seq![ts[i as int].outcome] + collision_trigger_outcomes(
                        ts.skip(i as int + 1),
                        entity_2_name@,
                    )));
                }
            }
        }
        i += 1;
    }
    proof {
        assert(ts.skip(ts.len() as int).len() == 0);
        assert(event_outcomes.deep_view() + Seq::<OutcomeView>::empty()
            =~= event_outcomes.deep_view());
    }
}

/// Appends the outcomes of all destruction triggers.
#[verifier::loop_isolation(false)]
fn check_destruction_triggers(triggers: &Vec<Trigger>, event_outcomes: &mut Vec<Outcome>)
    ensures
        final(event_outcomes).deep_view() == old(event_outcomes).deep_view()
            + destruction_trigger_outcomes(triggers.deep_view()),
{
    let ghost ts = triggers.deep_view();
    let ghost base = event_outcomes.deep_view();
    proof {
        assert(ts.skip(0) =~= ts);
    }
    let mut i: usize = 0;
    while i < triggers.len()
        invariant
            0 <= i <= triggers.len(),
            event_outcomes.deep_view() + destruction_trigger_outcomes(ts.skip(i as int)) == base
                + destruction_trigger_outcomes(ts),
        decreases triggers.len() - i,
    {
        proof {
            assert(ts.skip(i as int)[0] == ts[i as int]);
            assert(ts.skip(i as int).drop_first() =~= ts.skip(i as int + 1));
        }
        let trigger = &triggers[i];
        let ghost before = event_outcomes.deep_view();
        if matches!(trigger.trigger_type, TriggerType::Destruction) {
            event_outcomes.push(trigger.outcome.duplicate());
            proof {
                assert(event_outcomes.deep_view() =~= before.push(ts[i as int].outcome));
                assert(before.push(ts[i as int].outcome) + destruction_trigger_outcomes(
                    ts.skip(i as int + 1),
                ) =~= before + (seq![ts[i as int].outcome] + destruction_trigger_outcomes(
                    ts.skip(i as int + 1),
                )));
            }
        }
        i += 1;
    }
    proof {
        assert(ts.skip(ts.len() as int).len() == 0);
        assert(event_outcomes.deep_view() + Seq::<OutcomeView>::empty()
            =~= event_outcomes.deep_view());
    }
}

impl EventHandler {
    /// Registries and scene store well formed, game state inside limits.
    pub open spec fn wf(self) -> bool {
        self.deep_view().wf()
    }

    pub fn new(
        master_entity_list: MasterEntityList,
        master_graphics_list: MasterGraphicsList,
        scene_manager: SceneManager,
        game_state: GameState,
        key_states: KeyStates,
    ) -> (r: EventHandler)
        requires
            master_entity_list.wf(),
            master_graphics_list.wf(),
            scene_manager.wf(),
            game_state.valid(),
        ensures
            r.deep_view() == (HandlerView {
                entities: master_entity_list.deep_view(),
                objects: master_graphics_list.deep_view(),
                scenes: scene_manager.deep_view(),
                game_state: game_state.deep_view(),
                event_outcomes: Seq::<OutcomeView>::empty(),
                key_states: key_states.deep_view(),
                audio_queue: Seq::<AudioRequestView>::empty(),
            }),
            r.wf(),
    {
        let r = EventHandler {
            master_entity_list,
            master_graphics_list,
            scene_manager,
            game_state,
            event_outcomes: Vec::new(),
            key_states,
            audio_queue: Vec::new(),
        };
        proof {
            assert(r.deep_view().event_outcomes =~= Seq::<OutcomeView>::empty());
            assert(r.deep_view().audio_queue =~= Seq::<AudioRequestView>::empty());
        }
        r
    }

    /// The live entity registry.
    pub fn entity_list(&self) -> (r: &MasterEntityList)
        ensures
            r.deep_view() == self.deep_view().entities,
    {
        &self.master_entity_list
    }

    /// The live graphics registry.
    pub fn graphics_list(&self) -> (r: &MasterGraphicsList)
        ensures
            r.deep_view() == self.deep_view().objects,
    {
        &self.master_graphics_list
    }

    /// The scene store.
    pub fn scenes(&self) -> (r: &SceneManager)
        ensures
            r.deep_view() == self.deep_view().scenes,
    {
        &self.scene_manager
    }

    /// The game state.
    pub fn state(&self) -> (r: &GameState)
        ensures
            r.deep_view() == self.deep_view().game_state,
    {
        &self.game_state
    }

    /// The outcomes queued so far this tick.
    pub fn queued_outcomes(&self) -> (r: &Vec<Outcome>)
        ensures
            r.deep_view() == self.deep_view().event_outcomes,
    {
        &self.event_outcomes
    }

    /// Queues one outcome by hand.
    pub fn queue_outcome(&mut self, outcome: Outcome)
        ensures
            final(self).deep_view() == (HandlerView {
                event_outcomes: old(self).deep_view().event_outcomes.push(outcome.deep_view()),
                ..old(self).deep_view()
            }),
    {
        self.event_outcomes.push(outcome);
        proof {
            assert(self.deep_view().event_outcomes =~= old(
                self,
            ).deep_view().event_outcomes.push(outcome.deep_view()));
        }
    }

    /// Replaces the input snapshot for this tick.
    pub fn set_key_states(&mut self, key_states: KeyStates)
        ensures
            final(self).deep_view() == (HandlerView {
                key_states: key_states.deep_view(),
                ..old(self).deep_view()
            }),
    {
        self.key_states = key_states;
    }

    /// Hands the queued audio requests to the caller, emptying the queue.
    pub fn drain_audio_queue(&mut self) -> (r: Vec<AudioRequest>)
        ensures
            r.deep_view() == old(self).deep_view().audio_queue,
            final(self).deep_view() == (HandlerView {
                audio_queue: Seq::<AudioRequestView>::empty(),
                ..old(self).deep_view()
            }),
    {
        let r = self.audio_queue.split_off(0);
        proof {
            assert(r.deep_view() =~= old(self).deep_view().audio_queue);
            assert(self.audio_queue.deep_view() =~= Seq::<AudioRequestView>::empty());
        }
        r
    }

    /// Whether any key of the condition is pressed.
    #[verifier::loop_isolation(false)]
    pub fn check_key_pressed_trigger(&self, trigger_condition: &KeyCondition) -> (r: bool)
        ensures
            r == any_key_pressed(trigger_condition.keys@, self.deep_view().key_states),
    {
        let ghost keys = trigger_condition.keys@;
        let mut i: usize = 0;
        while i < trigger_condition.keys.len()
            invariant
                0 <= i <= trigger_condition.keys.len(),
                forall|j: int|
                    0 <= j < i ==> !((#[trigger] crate::key_states::normalized_key(keys[j]))
                        matches Some(k) && self.deep_view().key_states.contains(k)),
            decreases trigger_condition.keys.len() - i,
        {
            if let Some(key) = char_to_key(trigger_condition.keys[i]) {
                if self.key_states.is_key_pressed_raw(key) {
                    return true;
                }
            }
            i += 1;
        }
        false
    }

    /// The timer trigger kind is not implemented: it never fires, and the
    /// scene-trigger scan treats it as a no-op.
    pub fn check_timer_trigger(&self) -> (r: bool)
        ensures
            !r,
    {
        false
    }

    /// Whether no key of the condition is pressed.
    pub fn check_key_not_pressed_trigger(&self, trigger_condition: &KeyCondition) -> (r: bool)
        ensures
            r == !any_key_pressed(trigger_condition.keys@, self.deep_view().key_states),
    {
        !self.check_key_pressed_trigger(trigger_condition)
    }

    /// Removes the named entity and its paired graphics object, and returns
    /// the outcomes of the entity's destruction triggers, gathered before
    /// the removal.
    pub fn destroy_object(&mut self, entity_name: &String) -> (r: Vec<Outcome>)
        requires
            old(self).wf(),
        ensures
            final(self).wf(),
            final(self).deep_view() == (HandlerView {
                entities: remove_named(old(self).deep_view().entities, entity_name@),
                objects: remove_named(old(self).deep_view().objects, entity_name@),
                ..old(self).deep_view()
            }),
            r.deep_view() == match lookup(old(self).deep_view().entities, entity_name@) {
                Some(e) => destruction_trigger_outcomes(e.triggers),
                None => Seq::<OutcomeView>::empty(),
            },
    {
        let mut event_outcomes: Vec<Outcome> = Vec::new();
        proof {
            assert(event_outcomes.deep_view() =~= Seq::<OutcomeView>::empty());
        }
        if let Some(entity) = self.master_entity_list.get_entity(entity_name) {
            check_destruction_triggers(entity.get_triggers(), &mut event_outcomes);
            proof {
                assert(Seq::<OutcomeView>::empty() + destruction_trigger_outcomes(
                    lookup(old(self).deep_view().entities, entity_name@)->Some_0.triggers,
                ) =~= destruction_trigger_outcomes(
                    lookup(old(self).deep_view().entities, entity_name@)->Some_0.triggers,
                ));
            }
        }
        self.master_entity_list.remove_entity(entity_name);
        self.master_graphics_list.remove_object(entity_name);
        event_outcomes
    }

    /// Queues a playback request for the audio collaborator.
    pub fn enqueue_audio(&mut self, audio_name: String, audio_type: AudioType, volume: i64)
        ensures
            final(self).deep_view() == (HandlerView {
                audio_queue: old(self).deep_view().audio_queue.push(
                    AudioRequestView {
                        audio_name: audio_name@,
                        audio_type,
                        volume,
                        looping: false,
                    },
                ),
                ..old(self).deep_view()
            }),
    {
        let ghost before = self.audio_queue.deep_view();
        self.audio_queue.push(AudioRequest::new(audio_name, audio_type, volume, false));
        proof {
            assert(self.audio_queue.deep_view() =~= before.push(
                AudioRequestView { audio_name: audio_name@, audio_type, volume, looping: false },
            ));
        }
    }
}

/// The world after teleporting a named object: a two-component destination
/// keeps the depth layer, a three-component one replaces it, any other
/// length (and a missing object) changes nothing.
pub open spec fn spec_teleport(w: HandlerView, name: Seq<char>, pos: Seq<i64>) -> HandlerView {
    match lookup(w.objects, name) {
        Some(g) => {
            if pos.len() == 2 {
                let p = Vec3 {
                    x: clamp_spec(pos[0] as int, -POS_LIMIT as int, POS_LIMIT as int) as i64,
                    y: clamp_spec(pos[1] as int, -POS_LIMIT as int, POS_LIMIT as int) as i64,
                    z: g.position.z,
                };
                HandlerView {
                    objects: upsert(w.objects, GraphicsObjectView { position: p, ..g }),
                    ..w
                }
            } else if pos.len() == 3 {
                let p = Vec3 {
                    x: clamp_spec(pos[0] as int, -POS_LIMIT as int, POS_LIMIT as int) as i64,
                    y: clamp_spec(pos[1] as int, -POS_LIMIT as int, POS_LIMIT as int) as i64,
                    z: clamp_spec(pos[2] as int, -POS_LIMIT as int, POS_LIMIT as int) as i64,
                };
                HandlerView {
                    objects: upsert(w.objects, GraphicsObjectView { position: p, ..g }),
                    ..w
                }
            } else {
                w
            }
        },
        None => w,
    }
}

/// The world after replacing a named object's atlas configuration.
pub open spec fn spec_set_atlas(
    w: HandlerView,
    name: Seq<char>,
    cfg: crate::graphics_object::AtlasConfig,
) -> HandlerView {
    match lookup(w.objects, name) {
        Some(g) => HandlerView {
            objects: upsert(w.objects, GraphicsObjectView { atlas_config: Some(cfg), ..g }),
            ..w
        },
        None => w,
    }
}

/// The world after replacing a named object's animation configuration.
pub open spec fn spec_set_animation(
    w: HandlerView,
    name: Seq<char>,
    cfg: crate::graphics_object::AnimationConfigView,
) -> HandlerView {
    match lookup(w.objects, name) {
        Some(g) => HandlerView {
            objects: upsert(w.objects, GraphicsObjectView { animation_config: Some(cfg), ..g }),
            ..w
        },
        None => w,
    }
}

/// The world after creating a scene object from its template data.
pub open spec fn spec_create(w: HandlerView, d: ObjectDataView) -> HandlerView {
    HandlerView {
        entities: upsert(w.entities, built_entity(d.entity)),
        objects: upsert(w.objects, built_graphics(d.graphics)),
        ..w
    }
}

/// The world after queueing one non-looping audio request.
pub open spec fn spec_enqueue_audio(
    w: HandlerView,
    name: Seq<char>,
    audio_type: AudioType,
    volume: i64,
) -> HandlerView {
    HandlerView {
        audio_queue: w.audio_queue.push(
            AudioRequestView { audio_name: name, audio_type, volume, looping: false },
        ),
        ..w
    }
}

/// The world after swapping to a named scene without saving: both registries
/// are cleared and the target scene's templates and properties installed;
/// a missing target leaves the world empty under the new name.
pub open spec fn spec_swap_scene_without_saving(w: HandlerView, name: Seq<char>) -> HandlerView {
    match lookup(w.scenes, name) {
        None => HandlerView {
            entities: Seq::empty(),
            objects: Seq::empty(),
            game_state: GameStateView { current_scene_name: name, ..w.game_state },
            ..w
        },
        Some(entry) => HandlerView {
            entities: upsert_all(Seq::empty(), entry.scene.entities),
            objects: upsert_all(Seq::empty(), entry.scene.graphics_objects),
            game_state: GameStateView {
                current_scene_name: name,
                gravity: entry.scene.properties.spec_gravity(),
                terminal_velocity: entry.scene.properties.spec_terminal_velocity(),
            },
            ..w
        },
    }
}

/// The world after a full scene swap: the live registries are saved back
/// into the current scene's template (if it is stored), both registries are
/// cleared, and the target scene is loaded.
pub open spec fn spec_swap_scene(w: HandlerView, name: Seq<char>) -> HandlerView {
    let scenes1 = match lookup(w.scenes, w.game_state.current_scene_name) {
        None => w.scenes,
        Some(stored) => upsert(
            w.scenes,
            SceneEntryView {
                name: w.game_state.current_scene_name,
                scene: SceneView {
                    entities: w.entities,
                    graphics_objects: w.objects,
                    properties: stored.scene.properties,
                    scene_triggers: stored.scene.scene_triggers,
                },
            },
        ),
    };
    spec_swap_scene_without_saving(HandlerView { scenes: scenes1, ..w }, name)
}

/// The world after the homebringer sequence: the player object, if present,
/// returns to the origin of its depth layer, with a cue sound.
pub open spec fn spec_homebringer(w: HandlerView) -> HandlerView {
    match lookup(w.objects, "player"@) {
        Some(g) => spec_enqueue_audio(
            HandlerView {
                objects: upsert(
                    w.objects,
                    GraphicsObjectView {
                        position: Vec3 { x: 0, y: 0, z: g.position.z },
                        ..g
                    },
                ),
                ..w
            },
            "Homebringer"@,
            AudioType::UI,
            600,
        ),
        None => w,
    }
}

/// The world after the gorbino sequence: a music cue.
pub open spec fn spec_gorbino(w: HandlerView) -> HandlerView {
    spec_enqueue_audio(w, "gorbino"@, AudioType::Music, 600)
}

/// The world after the explosion sequence: the named stage object, if
/// present, snaps to the origin, with a cue sound.
pub open spec fn spec_explosion(w: HandlerView) -> HandlerView {
    match lookup(w.objects, "testscene_obj4"@) {
        Some(g) => spec_enqueue_audio(
            HandlerView {
                objects: upsert(
                    w.objects,
                    GraphicsObjectView { position: Vec3 { x: 0, y: 0, z: 0 }, ..g },
                ),
                ..w
            },
            "RobloxExplosion"@,
            AudioType::UI,
            600,
        ),
        None => w,
    }
}

/// The world after the gravity sequence: the player entity, if present, has
/// its gravity flag toggled, with a cue sound.
pub open spec fn spec_gravity_sequence(w: HandlerView) -> HandlerView {
    match lookup(w.entities, "player"@) {
        Some(e) => spec_enqueue_audio(
            HandlerView {
                entities: upsert(
                    w.entities,
                    GenericEntityView { affected_by_gravity: !e.affected_by_gravity, ..e },
                ),
                ..w
            },
            "Gravity"@,
            AudioType::UI,
            600,
        ),
        None => w,
    }
}

/// The world after the reset sequence: a swap to the test scene, the player
/// teleported to the origin, and a cue sound.
pub open spec fn spec_reset(w: HandlerView) -> HandlerView {
    spec_enqueue_audio(
        spec_teleport(spec_swap_scene(w, "testscene"@), "player"@, seq![0i64, 0i64, 0i64]),
        "TechMysterious"@,
        AudioType::UI,
        600,
    )
}

impl EventHandler {
    /// Moves a named graphics object to a destination of two or three
    /// coordinates; any other destination length (and a missing object)
    /// changes nothing.
    pub fn teleport_object(&mut self, object_name: &String, new_position: &Vec<i64>)
        requires
            old(self).wf(),
        ensures
            final(self).wf(),
            final(self).deep_view() == spec_teleport(
                old(self).deep_view(),
                object_name@,
                new_position@,
            ),
    {
        let ghost os = self.master_graphics_list.deep_view();
        let mut obj = match self.master_graphics_list.get_object(object_name) {
            Some(o) => o.duplicate(),
            None => {
                return ;
            },
        };
        proof {
            crate::registry::lemma_index_of(os, object_name@);
        }
        let current_position = obj.get_position();
        if new_position.len() == 2 {
            obj.set_position(
                Vec3 {
                    x: crate::fixed::clamp_i128(new_position[0] as i128, -POS_LIMIT, POS_LIMIT),
                    y: crate::fixed::clamp_i128(new_position[1] as i128, -POS_LIMIT, POS_LIMIT),
                    z: current_position.z,
                },
            );
        } else if new_position.len() == 3 {
            obj.set_position(
                Vec3 {
                    x: crate::fixed::clamp_i128(new_position[0] as i128, -POS_LIMIT, POS_LIMIT),
                    y: crate::fixed::clamp_i128(new_position[1] as i128, -POS_LIMIT, POS_LIMIT),
                    z: crate::fixed::clamp_i128(new_position[2] as i128, -POS_LIMIT, POS_LIMIT),
                },
            );
        } else {
            return ;
        }
        self.master_graphics_list.add_object(obj);
    }

    /// Replaces the atlas configuration of a named graphics object.
    pub fn set_atlas_config(
        &mut self,
        object_name: &String,
        new_atlas_config: crate::graphics_object::AtlasConfig,
    )
        requires
            old(self).wf(),
        ensures
            final(self).wf(),
            final(self).deep_view() == spec_set_atlas(
                old(self).deep_view(),
                object_name@,
                new_atlas_config,
            ),
    {
        let ghost os = self.master_graphics_list.deep_view();
        let mut obj = match self.master_graphics_list.get_object(object_name) {
            Some(o) => o.duplicate(),
            None => {
                return ;
            },
        };
        proof {
            crate::registry::lemma_index_of(os, object_name@);
        }
        obj.set_atlas_config(Some(new_atlas_config));
        self.master_graphics_list.add_object(obj);
    }

    /// Replaces the animation configuration of a named graphics object.
    pub fn set_animation_config(
        &mut self,
        object_name: &String,
        new_animation_config: crate::graphics_object::AnimationConfig,
    )
        requires
            old(self).wf(),
        ensures
            final(self).wf(),
            final(self).deep_view() == spec_set_animation(
                old(self).deep_view(),
                object_name@,
                new_animation_config.deep_view(),
            ),
    {
        let ghost os = self.master_graphics_list.deep_view();
        let mut obj = match self.master_graphics_list.get_object(object_name) {
            Some(o) => o.duplicate(),
            None => {
                return ;
            },
        };
        proof {
            crate::registry::lemma_index_of(os, object_name@);
        }
        obj.set_animation_config(Some(new_animation_config));
        self.master_graphics_list.add_object(obj);
    }

    /// Builds and registers the entity and graphics object a template
    /// describes, replacing same-named entries.
    pub fn create_object(&mut self, create_object_args: &ObjectData)
        requires
            old(self).wf(),
        ensures
            final(self).wf(),
            final(self).deep_view() == spec_create(
                old(self).deep_view(),
                create_object_args.deep_view(),
            ),
    {
        let entity = crate::scene_data::build_entity(&create_object_args.entity);
        let graphics = crate::scene_data::build_graphics(&create_object_args.graphics);
        self.master_entity_list.add_entity(entity);
        self.master_graphics_list.add_object(graphics);
    }

    /// Clears both registries and loads the named scene.
    pub fn swap_scene_without_saving(&mut self, scene_name: String)
        requires
            old(self).wf(),
        ensures
            final(self).wf(),
            final(self).deep_view() == spec_swap_scene_without_saving(
                old(self).deep_view(),
                scene_name@,
            ),
    {
        self.master_entity_list.remove_all();
        self.master_graphics_list.remove_all();
        self.scene_manager.load_scene(
            &mut self.game_state,
            &mut self.master_entity_list,
            &mut self.master_graphics_list,
            scene_name,
        );
        proof {
            crate::registry::lemma_index_of(self.scene_manager.deep_view(), scene_name@);
        }
    }

    /// Saves the live registries back into the current scene's template,
    /// then clears them and loads the named scene.
    pub fn swap_scene(&mut self, scene_name: String)
        requires
            old(self).wf(),
        ensures
            final(self).wf(),
            final(self).deep_view() == spec_swap_scene(old(self).deep_view(), scene_name@),
    {
        let current = self.game_state.get_current_scene_name();
        self.scene_manager.save_scene(
            &current,
            &self.master_entity_list,
            &self.master_graphics_list,
        );
        self.master_entity_list.remove_all();
        self.master_graphics_list.remove_all();
        self.scene_manager.load_scene(
            &mut self.game_state,
            &mut self.master_entity_list,
            &mut self.master_graphics_list,
            scene_name,
        );
        proof {
            crate::registry::lemma_index_of(self.scene_manager.deep_view(), scene_name@);
        }
    }

    /// Returns the player object to the origin of its depth layer, with a
    /// cue sound, if the player is present.
    pub fn homebringer_sequence(&mut self)
        requires
            old(self).wf(),
        ensures
            final(self).wf(),
            final(self).deep_view() == spec_homebringer(old(self).deep_view()),
    {
        let player = String::from_str("player");
        let ghost os = self.master_graphics_list.deep_view();
        let mut obj = match self.master_graphics_list.get_object(&player) {
            Some(o) => o.duplicate(),
            None => {
                return ;
            },
        };
        proof {
            crate::registry::lemma_index_of(os, "player"@);
        }
        let player_z = obj.get_position().z;
        obj.set_position(Vec3 { x: 0, y: 0, z: player_z });
        self.master_graphics_list.add_object(obj);
        self.enqueue_audio(String::from_str("Homebringer"), AudioType::UI, 600);
    }

    /// Plays the gorbino music cue.
    pub fn gorbino_sequence(&mut self)
        requires
            old(self).wf(),
        ensures
            final(self).wf(),
            final(self).deep_view() == spec_gorbino(old(self).deep_view()),
    {
        self.enqueue_audio(String::from_str("gorbino"), AudioType::Music, 600);
    }

    /// Snaps the named stage object to the origin, with a cue sound, if it
    /// is present.
    pub fn explosion_sequence(&mut self)
        requires
            old(self).wf(),
        ensures
            final(self).wf(),
            final(self).deep_view() == spec_explosion(old(self).deep_view()),
    {
        let target = String::from_str("testscene_obj4");
        let ghost os = self.master_graphics_list.deep_view();
        let mut obj = match self.master_graphics_list.get_object(&target) {
            Some(o) => o.duplicate(),
            None => {
                return ;
            },
        };
        proof {
            crate::registry::lemma_index_of(os, "testscene_obj4"@);
        }
        obj.set_position(Vec3 { x: 0, y: 0, z: 0 });
        self.master_graphics_list.add_object(obj);
        self.enqueue_audio(String::from_str("RobloxExplosion"), AudioType::UI, 600);
    }

    /// Toggles the player entity's gravity flag, with a cue sound, if the
    /// player is present.
    pub fn gravity_sequence(&mut self)
        requires
            old(self).wf(),
        ensures
            final(self).wf(),
            final(self).deep_view() == spec_gravity_sequence(old(self).deep_view()),
    {
        let player = String::from_str("player");
        let ghost es = self.master_entity_list.deep_view();
        let mut entity = match self.master_entity_list.get_entity(&player) {
            Some(e) => e.duplicate(),
            None => {
                return ;
            },
        };
        proof {
            crate::registry::lemma_index_of(es, "player"@);
        }
        let toggle_gravity = !entity.is_affected_by_gravity();
        entity.set_affected_by_gravity(toggle_gravity);
        self.master_entity_list.add_entity(entity);
        self.enqueue_audio(String::from_str("Gravity"), AudioType::UI, 600);
    }

    /// Swaps back to the test scene, teleports the player to the origin and
    /// plays a cue sound.
    pub fn reset_sequence(&mut self)
        requires
            old(self).wf(),
        ensures
            final(self).wf(),
            final(self).deep_view() == spec_reset(old(self).deep_view()),
    {
        self.swap_scene(String::from_str("testscene"));
        let mut destination: Vec<i64> = Vec::new();
        destination.push(0);
        destination.push(0);
        destination.push(0);
        proof {
            assert(destination@ =~= seq![0i64, 0i64, 0i64]);
        }
        self.teleport_object(&String::from_str("player"), &destination);
        self.enqueue_audio(String::from_str("TechMysterious"), AudioType::UI, 600);
    }
}

/// Whether a scene-level trigger fires against the input snapshot: a
/// key-pressed trigger when one of its keys is down, a key-not-pressed
/// trigger when none is, and never the unimplemented timer kind or a trigger
/// without a key condition.
pub open spec fn scene_trigger_fires(
    t: crate::triggers::SceneTriggerView,
    pressed: Seq<char>,
) -> bool {
    match t.scene_trigger_type {
        SceneTriggerType::KeyPressed => t.conditions matches Some(
            TriggerConditionsView::KeyConditions(c),
        ) && any_key_pressed(c.keys, pressed),
        SceneTriggerType::KeyNotPressed => t.conditions matches Some(
            TriggerConditionsView::KeyConditions(c),
        ) && !any_key_pressed(c.keys, pressed),
        SceneTriggerType::Timer => false,
    }
}

/// The outcomes of the scene-level triggers that fire, in order.
pub open spec fn scene_trigger_outcomes(
    ts: Seq<crate::triggers::SceneTriggerView>,
    pressed: Seq<char>,
) -> Seq<OutcomeView>
    decreases ts.len(),
{
    if ts.len() == 0 {
        Seq::empty()
    } else {
        let rest = scene_trigger_outcomes(ts.drop_first(), pressed);
        if scene_trigger_fires(ts[0], pressed) {
            ts[0].outcome + rest
        } else {
            rest
        }
    }
}

/// One collision event's response: the collision triggers of both parties
/// are evaluated before any mutation, the overlap is resolved, and velocity
/// is exchanged.  A party missing from the entity registry skips the event.
pub open spec fn collision_response_spec(
    entities: Seq<GenericEntityView>,
    objects: Seq<GraphicsObjectView>,
    ev: CollisionEventView,
) -> (Seq<GenericEntityView>, Seq<GraphicsObjectView>, Seq<OutcomeView>) {
    match (lookup(entities, ev.object_name_1), lookup(entities, ev.object_name_2)) {
        (Some(e1), Some(e2)) => {
            let outs = collision_trigger_outcomes(e1.triggers, e2.name)
                + collision_trigger_outcomes(e2.triggers, e1.name);
            let objects1 = crate::collision::resolve_overlap_spec(
                objects,
                e1.name,
                e2.name,
                e1.is_static,
                e2.is_static,
            );
            let pair = crate::collision::transfer_pair_spec(e1, e2);
            let entities1 = upsert(entities, GenericEntityView { velocity: pair.0, ..e1 });
            let entities2 = upsert(entities1, GenericEntityView { velocity: pair.1, ..e2 });
            (entities2, objects1, outs)
        },
        _ => (entities, objects, Seq::empty()),
    }
}

/// The response to a whole batch of collision events, first to last.
pub open spec fn collision_batch_spec(
    entities: Seq<GenericEntityView>,
    objects: Seq<GraphicsObjectView>,
    evs: Seq<CollisionEventView>,
) -> (Seq<GenericEntityView>, Seq<GraphicsObjectView>, Seq<OutcomeView>)
    decreases evs.len(),
{
    if evs.len() == 0 {
        (entities, objects, Seq::empty())
    } else {
        let stepped = collision_response_spec(entities, objects, evs[0]);
        let rest = collision_batch_spec(stepped.0, stepped.1, evs.drop_first());
        (rest.0, rest.1, stepped.2 + rest.2)
    }
}

/// Responding to a batch in two pieces lands in the same lists and chains
/// the two pieces' outcomes in order.
pub proof fn lemma_collision_batch_append(
    entities: Seq<GenericEntityView>,
    objects: Seq<GraphicsObjectView>,
    a: Seq<CollisionEventView>,
    b: Seq<CollisionEventView>,
)
    ensures
        ({
            let whole = collision_batch_spec(entities, objects, a + b);
            let first = collision_batch_spec(entities, objects, a);
            let second = collision_batch_spec(first.0, first.1, b);
            &&& whole.0 == second.0
            &&& whole.1 == second.1
            &&& whole.2 == first.2 + second.2
        }),
    decreases a.len(),
{
    if a.len() == 0 {
        assert(a + b =~= b);
        assert(Seq::<OutcomeView>::empty() + collision_batch_spec(entities, objects, b).2
            =~= collision_batch_spec(entities, objects, b).2);
    } else {
        assert((a + b)[0] == a[0]);
        assert((a + b).drop_first() =~= a.drop_first() + b);
        let stepped = collision_response_spec(entities, objects, a[0]);
        lemma_collision_batch_append(stepped.0, stepped.1, a.drop_first(), b);
        let first = collision_batch_spec(entities, objects, a);
        let second = collision_batch_spec(first.0, first.1, b);
        let rest = collision_batch_spec(stepped.0, stepped.1, a.drop_first());
        assert(stepped.2 + (rest.2 + second.2) =~= (stepped.2 + rest.2) + second.2);
    }
}

/// Every event of a collision batch is answered by the per-pair response at
/// its place: triggers are evaluated, the overlap resolved and velocity
/// exchanged against the lists the earlier events left, for every event of
/// the batch.
pub proof fn lemma_collision_batch_applies_each(
    entities: Seq<GenericEntityView>,
    objects: Seq<GraphicsObjectView>,
    evs: Seq<CollisionEventView>,
    k: int,
)
    requires
        0 <= k < evs.len(),
    ensures
        ({
            let whole = collision_batch_spec(entities, objects, evs);
            let before = collision_batch_spec(entities, objects, evs.take(k));
            let stepped = collision_response_spec(before.0, before.1, evs[k]);
            let after = collision_batch_spec(stepped.0, stepped.1, evs.skip(k + 1));
            &&& whole.0 == after.0
            &&& whole.1 == after.1
            &&& whole.2 == (before.2 + stepped.2) + after.2
        }),
{
    assert(evs =~= evs.take(k) + evs.skip(k));
    lemma_collision_batch_append(entities, objects, evs.take(k), evs.skip(k));
    assert(evs.skip(k)[0] == evs[k]);
    assert(evs.skip(k).drop_first() =~= evs.skip(k + 1));
}

impl EventHandler {
    /// Evaluates the current scene's scene-level triggers against the input
    /// snapshot and queues the outcomes of those that fire.  The timer kind
    /// is not implemented and never fires.
    #[verifier::loop_isolation(false)]
    pub fn check_scene_triggers(&mut self)
        requires
            old(self).wf(),
        ensures
            final(self).wf(),
            final(self).deep_view() == (HandlerView {
                event_outcomes: old(self).deep_view().event_outcomes + (match lookup(
                    old(self).deep_view().scenes,
                    old(self).deep_view().game_state.current_scene_name,
                ) {
                    Some(entry) => scene_trigger_outcomes(
                        entry.scene.scene_triggers,
                        old(self).deep_view().key_states,
                    ),
                    None => Seq::<OutcomeView>::empty(),
                }),
                ..old(self).deep_view()
            }),
    {
        let ghost w0 = self.deep_view();
        let current_scene_name = self.game_state.get_current_scene_name();
        let current_scene_triggers = match self.scene_manager.get_scene(&current_scene_name) {
            Some(current_scene) => current_scene.get_triggers(),
            None => {
                proof {
                    assert(self.deep_view() =~= (HandlerView {
                        event_outcomes: w0.event_outcomes + Seq::<OutcomeView>::empty(),
                        ..w0
                    }));
                }
                return ;
            },
        };
        let ghost ts = current_scene_triggers.deep_view();
        let ghost pressed = self.key_states.deep_view();
        let ghost base = self.event_outcomes.deep_view();
        proof {
            assert(ts.skip(0) =~= ts);
        }
        let mut i: usize = 0;
        while i < current_scene_triggers.len()
            invariant
                0 <= i <= current_scene_triggers.len(),
                self.deep_view().entities == w0.entities,
                self.deep_view().objects == w0.objects,
                self.deep_view().scenes == w0.scenes,
                self.deep_view().game_state == w0.game_state,
                self.deep_view().key_states == w0.key_states,
                self.deep_view().audio_queue == w0.audio_queue,
                self.event_outcomes.deep_view() + scene_trigger_outcomes(ts.skip(i as int), pressed)
                    == base + scene_trigger_outcomes(ts, pressed),
            decreases current_scene_triggers.len() - i,
        {
            proof {
                assert(ts.skip(i as int)[0] == ts[i as int]);
                assert(ts.skip(i as int).drop_first() =~= ts.skip(i as int + 1));
            }
            let scene_trigger = &current_scene_triggers[i];
            let ghost before = self.event_outcomes.deep_view();
            let fire: bool = match scene_trigger.scene_trigger_type {
                SceneTriggerType::KeyPressed => {
                    match &scene_trigger.conditions {
                        Some(TriggerConditions::KeyConditions(cond)) => self
                            .check_key_pressed_trigger(cond),
                        _ => false,
                    }
                },
                SceneTriggerType::KeyNotPressed => {
                    match &scene_trigger.conditions {
                        Some(TriggerConditions::KeyConditions(cond)) => self
                            .check_key_not_pressed_trigger(cond),
                        _ => false,
                    }
                },
                SceneTriggerType::Timer => self.check_timer_trigger(),
            };
            if fire {
                let mut outcomes = crate::triggers::copy_outcomes(&scene_trigger.outcome);
                self.event_outcomes.append(&mut outcomes);
                proof {
                    assert(self.event_outcomes.deep_view() =~= before + ts[i as int].outcome);
                    assert((before + ts[i as int].outcome) + scene_trigger_outcomes(
                        ts.skip(i as int + 1),
                        pressed,
                    ) =~= before + (ts[i as int].outcome + scene_trigger_outcomes(
                        ts.skip(i as int + 1),
                        pressed,
                    )));
                }
            }
            i += 1;
        }
        proof {
            assert(ts.skip(ts.len() as int).len() == 0);
            assert(self.event_outcomes.deep_view() + Seq::<OutcomeView>::empty()
                =~= self.event_outcomes.deep_view());
            assert(self.deep_view() =~= (HandlerView {
                event_outcomes: base + scene_trigger_outcomes(ts, pressed),
                ..w0
            }));
        }
    }

    /// Responds to one collision event: both parties' collision triggers are
    /// gathered before any mutation, the overlap is resolved, and velocity
    /// is exchanged; the triggered outcomes are appended to the given list.
    fn resolve_collision_event(
        &mut self,
        collision_event: &CollisionEvent,
        event_outcomes: &mut Vec<Outcome>,
    )
        requires
            old(self).wf(),
        ensures
            final(self).wf(),
            ({
                let stepped = collision_response_spec(
                    old(self).deep_view().entities,
                    old(self).deep_view().objects,
                    collision_event.deep_view(),
                );
                &&& final(self).deep_view() == (HandlerView {
                    entities: stepped.0,
                    objects: stepped.1,
                    ..old(self).deep_view()
                })
                &&& final(event_outcomes).deep_view() == old(event_outcomes).deep_view()
                    + stepped.2
            }),
    {
        let mut entity_1 = match self.master_entity_list.get_entity(
            &collision_event.object_name_1,
        ) {
            Some(e) => e.duplicate(),
            None => {
                proof {
                    assert(old(event_outcomes).deep_view() + Seq::<OutcomeView>::empty()
                        =~= old(event_outcomes).deep_view());
                }
                return ;
            },
        };
        let mut entity_2 = match self.master_entity_list.get_entity(
            &collision_event.object_name_2,
        ) {
            Some(e) => e.duplicate(),
            None => {
                proof {
                    assert(old(event_outcomes).deep_view() + Seq::<OutcomeView>::empty()
                        =~= old(event_outcomes).deep_view());
                }
                return ;
            },
        };
        proof {
            crate::registry::lemma_index_of(
                old(self).deep_view().entities,
                collision_event.object_name_1@,
            );
            crate::registry::lemma_index_of(
                old(self).deep_view().entities,
                collision_event.object_name_2@,
            );
        }
        let ghost base = event_outcomes.deep_view();
        check_collision_triggers(entity_1.get_triggers(), entity_2.get_name(), event_outcomes);
        check_collision_triggers(entity_2.get_triggers(), entity_1.get_name(), event_outcomes);
        proof {
            let e1 = entity_1.deep_view();
            let e2 = entity_2.deep_view();
            assert((base + collision_trigger_outcomes(e1.triggers, e2.name))
                + collision_trigger_outcomes(e2.triggers, e1.name) =~= base + (
            collision_trigger_outcomes(e1.triggers, e2.name) + collision_trigger_outcomes(
                e2.triggers,
                e1.name,
            )));
        }

        crate::collision::resolve_overlap(&entity_1, &entity_2, &mut self.master_graphics_list);

        crate::collision::transfer_velocity_on_collision(&mut entity_1, &mut entity_2);
        self.master_entity_list.add_entity(entity_1);
        self.master_entity_list.add_entity(entity_2);
    }

    /// Responds to a batch of collision events, first to last, and returns
    /// the outcomes their collision triggers produced.
    #[verifier::loop_isolation(false)]
    pub fn handle_collision_events(&mut self, collision_events: Vec<CollisionEvent>) -> (r: Vec<
        Outcome,
    >)
        requires
            old(self).wf(),
        ensures
            final(self).wf(),
            ({
                let stepped = collision_batch_spec(
                    old(self).deep_view().entities,
                    old(self).deep_view().objects,
                    collision_events.deep_view(),
                );
                &&& final(self).deep_view() == (HandlerView {
                    entities: stepped.0,
                    objects: stepped.1,
                    ..old(self).deep_view()
                })
                &&& r.deep_view() == stepped.2
            }),
    {
        let ghost evs = collision_events.deep_view();
        let ghost full = collision_batch_spec(
            old(self).deep_view().entities,
            old(self).deep_view().objects,
            evs,
        );
        let mut event_outcomes: Vec<Outcome> = Vec::new();
        proof {
            assert(evs.skip(0) =~= evs);
            assert(event_outcomes.deep_view() =~= Seq::<OutcomeView>::empty());
        }
        let mut i: usize = 0;
        while i < collision_events.len()
            invariant
                0 <= i <= collision_events.len(),
                self.wf(),
                self.deep_view().scenes == old(self).deep_view().scenes,
                self.deep_view().game_state == old(self).deep_view().game_state,
                self.deep_view().key_states == old(self).deep_view().key_states,
                self.deep_view().audio_queue == old(self).deep_view().audio_queue,
                self.deep_view().event_outcomes == old(self).deep_view().event_outcomes,
                ({
                    let rem = collision_batch_spec(
                        self.deep_view().entities,
                        self.deep_view().objects,
                        evs.skip(i as int),
                    );
                    &&& rem.0 == full.0
                    &&& rem.1 == full.1
                    &&& event_outcomes.deep_view() + rem.2 == full.2
                }),
            decreases collision_events.len() - i,
        {
            proof {
                assert(evs.skip(i as int)[0] == evs[i as int]);
                assert(evs.skip(i as int).drop_first() =~= evs.skip(i as int + 1));
            }
            let ghost before = event_outcomes.deep_view();
            let ghost stepped = collision_response_spec(
                self.deep_view().entities,
                self.deep_view().objects,
                evs[i as int],
            );
            self.resolve_collision_event(&collision_events[i], &mut event_outcomes);
            proof {
                let rem2 = collision_batch_spec(
                    self.deep_view().entities,
                    self.deep_view().objects,
                    evs.skip(i as int + 1),
                );
                assert((before + stepped.2) + rem2.2 =~= before + (stepped.2 + rem2.2));
            }
            i += 1;
        }
        proof {
            assert(evs.skip(evs.len() as int).len() == 0);
            assert(event_outcomes.deep_view() + Seq::<OutcomeView>::empty()
                =~= event_outcomes.deep_view());
            assert(self.deep_view() =~= (HandlerView {
                entities: full.0,
                objects: full.1,
                ..old(self).deep_view()
            }));
        }
        event_outcomes
    }

    /// Runs the collision pass: detects all collisions of active entities,
    /// responds to each, and queues the triggered outcomes.  A pair sharing
    /// the unimplemented oriented-box mode stops the pass with its error and
    /// changes nothing.
    pub fn process_collisions(&mut self) -> (r: Result<(), CollisionError>)
        requires
            old(self).wf(),
        ensures
            final(self).wf(),
            ({
                let scan = crate::collision::active_scan(
                    old(self).deep_view().entities,
                    old(self).deep_view().objects,
                    old(self).deep_view().entities,
                );
                match r {
                    Err(e) => scan == Err::<Seq<CollisionEventView>, _>(e)
                        && final(self).deep_view() == old(self).deep_view(),
                    Ok(_) => scan matches Ok(evs) && {
                        let stepped = collision_batch_spec(
                            old(self).deep_view().entities,
                            old(self).deep_view().objects,
                            evs,
                        );
                        final(self).deep_view() == (HandlerView {
                            entities: stepped.0,
                            objects: stepped.1,
                            event_outcomes: old(self).deep_view().event_outcomes + stepped.2,
                            ..old(self).deep_view()
                        })
                    },
                }
            }),
    {
        let collision_events = match crate::collision::check_active_entity_collisions(
            &self.master_entity_list,
            &self.master_graphics_list,
        ) {
            Ok(events) => events,
            Err(e) => {
                return Err(e);
            },
        };
        let mut outcomes = self.handle_collision_events(collision_events);
        let ghost before = self.event_outcomes.deep_view();
        let ghost outs = outcomes.deep_view();
        self.event_outcomes.append(&mut outcomes);
        proof {
            assert(self.event_outcomes.deep_view() =~= before + outs);
        }
        Ok(())
    }
}

/// One outcome's effect on the world, together with the outcomes it chains:
/// only the destruction of a registered entity chains, firing the entity's
/// destruction triggers.  Empty target names, unknown sequence names and the
/// movement outcome (handled by the movement pass, not the drain) change
/// nothing.
pub open spec fn apply_outcome(w: HandlerView, o: OutcomeView) -> (HandlerView, Seq<OutcomeView>) {
    match o {
        OutcomeView::Sequence(a) => {
            if a.sequence_name == "homebringer_sequence"@ {
                (spec_homebringer(w), Seq::empty())
            } else if a.sequence_name == "gorbino_sequence"@ {
                (spec_gorbino(w), Seq::empty())
            } else if a.sequence_name == "explosion_sequence"@ {
                (spec_explosion(w), Seq::empty())
            } else if a.sequence_name == "gravity_sequence"@ {
                (spec_gravity_sequence(w), Seq::empty())
            } else {
                (w, Seq::empty())
            }
        },
        OutcomeView::SwapScene(a) => {
            if a.scene_name.len() > 0 {
                (spec_swap_scene(w, a.scene_name), Seq::empty())
            } else {
                (w, Seq::empty())
            }
        },
        OutcomeView::CreateObject(d) => {
            if lookup(w.objects, d.graphics.name) is Some {
                (w, Seq::empty())
            } else {
                (spec_create(w, d), Seq::empty())
            }
        },
        OutcomeView::DestroyObject(a) => {
            if a.object_name.len() > 0 {
                let chained = match lookup(w.entities, a.object_name) {
                    Some(e) => destruction_trigger_outcomes(e.triggers),
                    None => Seq::empty(),
                };
                (
                    HandlerView {
                        entities: remove_named(w.entities, a.object_name),
                        objects: remove_named(w.objects, a.object_name),
                        ..w
                    },
                    chained,
                )
            } else {
                (w, Seq::empty())
            }
        },
        OutcomeView::TeleportObject(a) => {
            if a.object_name.len() > 0 {
                (spec_teleport(w, a.object_name, a.new_position), Seq::empty())
            } else {
                (w, Seq::empty())
            }
        },
        OutcomeView::EnqueueAudio(a) => {
            if a.audio_name.len() > 0 {
                (spec_enqueue_audio(w, a.audio_name, a.audio_type, a.volume), Seq::empty())
            } else {
                (w, Seq::empty())
            }
        },
        OutcomeView::SetAtlasConfig(a) => {
            if a.object_name.len() > 0 {
                (spec_set_atlas(w, a.object_name, a.atlas_config), Seq::empty())
            } else {
                (w, Seq::empty())
            }
        },
        OutcomeView::SetAnimationConfig(a) => {
            if a.object_name.len() > 0 {
                (spec_set_animation(w, a.object_name, a.animation_config), Seq::empty())
            } else {
                (w, Seq::empty())
            }
        },
        OutcomeView::AccelerateObject(_) => (w, Seq::empty()),
    }
}

/// The world after applying a queue of outcomes in order, with everything
/// the applications chained, in order.
pub open spec fn apply_all_collect(w: HandlerView, q: Seq<OutcomeView>) -> (
    HandlerView,
    Seq<OutcomeView>,
)
    decreases q.len(),
{
    if q.len() == 0 {
        (w, Seq::empty())
    } else {
        let stepped = apply_outcome(w, q[0]);
        let rest = apply_all_collect(stepped.0, q.drop_first());
        (rest.0, stepped.1 + rest.1)
    }
}

/// The world after applying a queue of chained outcomes in order, whose own
/// chains are not processed further.
pub open spec fn apply_all_drop(w: HandlerView, q: Seq<OutcomeView>) -> HandlerView
    decreases q.len(),
{
    if q.len() == 0 {
        w
    } else {
        apply_all_drop(apply_outcome(w, q[0]).0, q.drop_first())
    }
}

/// The world a whole drain leaves behind: the queued outcomes are applied in
/// order, then the outcomes they chained, and the queue ends empty.
pub open spec fn drain_spec(w: HandlerView) -> HandlerView {
    let collected = apply_all_collect(w, w.event_outcomes);
    let settled = apply_all_drop(collected.0, collected.1);
    HandlerView { event_outcomes: Seq::empty(), ..settled }
}

/// Every destruction trigger's outcome is among the outcomes fired when the
/// owner is destroyed.
pub proof fn lemma_destruction_trigger_outcome_fires(ts: Seq<TriggerView>, i: int)
    requires
        0 <= i < ts.len(),
        ts[i].trigger_type == TriggerType::Destruction,
    ensures
        destruction_trigger_outcomes(ts).contains(ts[i].outcome),
    decreases ts.len(),
{
    if i == 0 {
        assert(destruction_trigger_outcomes(ts)[0] == ts[0].outcome);
    } else {
        lemma_destruction_trigger_outcome_fires(ts.drop_first(), i - 1);
        let rest = destruction_trigger_outcomes(ts.drop_first());
        let j = choose|j: int| 0 <= j < rest.len() && rest[j] == ts[i].outcome;
        if ts[0].trigger_type == TriggerType::Destruction {
            assert(destruction_trigger_outcomes(ts)[j + 1] == ts[i].outcome);
        }
    }
}

/// Applying a queue in two pieces lands in the same world and chains the
/// two pieces' outcomes in order.
pub proof fn lemma_apply_all_collect_append(w: HandlerView, a: Seq<OutcomeView>, b: Seq<OutcomeView>)
    ensures
        apply_all_collect(w, a + b).0 == apply_all_collect(apply_all_collect(w, a).0, b).0,
        apply_all_collect(w, a + b).1 == apply_all_collect(w, a).1 + apply_all_collect(
            apply_all_collect(w, a).0,
            b,
        ).1,
    decreases a.len(),
{
    if a.len() == 0 {
        assert(a + b =~= b);
        assert(Seq::<OutcomeView>::empty() + apply_all_collect(w, b).1 =~= apply_all_collect(
            w,
            b,
        ).1);
    } else {
        let stepped = apply_outcome(w, a[0]);
        assert((a + b)[0] == a[0]);
        assert((a + b).drop_first() =~= a.drop_first() + b);
        lemma_apply_all_collect_append(stepped.0, a.drop_first(), b);
        let c_rest = apply_all_collect(stepped.0, a.drop_first()).1;
        let c_b = apply_all_collect(apply_all_collect(w, a).0, b).1;
        assert(stepped.1 + (c_rest + c_b) =~= (stepped.1 + c_rest) + c_b);
    }
}

/// Wherever a `DestroyObject` outcome sits in the queue, if its target at
/// that point of the drain owns a destruction trigger with a `SwapScene`
/// outcome, the destroy completes there and the swap is chained into the
/// same drain.
pub proof fn lemma_drain_chains_owned_swap(
    w: HandlerView,
    q: Seq<OutcomeView>,
    i: int,
    n: Seq<char>,
    e: GenericEntityView,
    j: int,
    s: Seq<char>,
)
    requires
        0 <= i < q.len(),
        q[i] == OutcomeView::DestroyObject(
            crate::triggers::DestroyObjectArgsView { object_name: n },
        ),
        n.len() > 0,
        ({
            let w_i = apply_all_collect(w, q.take(i)).0;
            &&& w_i.wf()
            &&& lookup(w_i.entities, n) == Some(e)
        }),
        0 <= j < e.triggers.len(),
        e.triggers[j].trigger_type == TriggerType::Destruction,
        e.triggers[j].outcome == OutcomeView::SwapScene(SwapSceneArgsView { scene_name: s }),
    ensures
        ({
            let w_i = apply_all_collect(w, q.take(i)).0;
            let stepped = apply_outcome(w_i, q[i]);
            &&& lookup(stepped.0.entities, n) is None
            &&& apply_all_collect(w, q).1.contains(
                OutcomeView::SwapScene(SwapSceneArgsView { scene_name: s }),
            )
        }),
{
    let w_i = apply_all_collect(w, q.take(i)).0;
    lemma_destroy_queues_owned_swap(w_i, n, e, j, s);
    let swap = OutcomeView::SwapScene(SwapSceneArgsView { scene_name: s });
    let stepped = apply_outcome(w_i, q[i]);
    assert(q =~= q.take(i) + q.skip(i));
    lemma_apply_all_collect_append(w, q.take(i), q.skip(i));
    assert(q.skip(i)[0] == q[i]);
    let c_i = apply_all_collect(w_i, q.skip(i));
    let c_rest = apply_all_collect(stepped.0, q.skip(i).drop_first());
    assert(c_i.1 == stepped.1 + c_rest.1);
    let k = choose|k: int| 0 <= k < stepped.1.len() && stepped.1[k] == swap;
    assert((stepped.1 + c_rest.1)[k] == swap);
    let total = apply_all_collect(w, q).1;
    let prefix = apply_all_collect(w, q.take(i)).1;
    assert(total == prefix + c_i.1);
    assert(total[prefix.len() + k] == swap);
}

/// Applying a chained queue in two pieces lands in the same world.
pub proof fn lemma_apply_all_drop_append(w: HandlerView, a: Seq<OutcomeView>, b: Seq<OutcomeView>)
    ensures
        apply_all_drop(w, a + b) == apply_all_drop(apply_all_drop(w, a), b),
    decreases a.len(),
{
    if a.len() == 0 {
        assert(a + b =~= b);
    } else {
        assert((a + b)[0] == a[0]);
        assert((a + b).drop_first() =~= a.drop_first() + b);
        lemma_apply_all_drop_append(apply_outcome(w, a[0]).0, a.drop_first(), b);
    }
}

/// Every chained outcome is executed at its place of the drop phase: the
/// phase's final world is reached by applying the outcome at position `k` to
/// the world the outcomes before it left, then the outcomes after it.
pub proof fn lemma_drop_applies_each(w: HandlerView, c: Seq<OutcomeView>, k: int)
    requires
        0 <= k < c.len(),
    ensures
        apply_all_drop(w, c) == apply_all_drop(
            apply_outcome(apply_all_drop(w, c.take(k)), c[k]).0,
            c.skip(k + 1),
        ),
{
    assert(c =~= c.take(k) + c.skip(k));
    lemma_apply_all_drop_append(w, c.take(k), c.skip(k));
    assert(c.skip(k)[0] == c[k]);
    assert(c.skip(k).drop_first() =~= c.skip(k + 1));
}

/// A `DestroyObject` outcome whose target owns a destruction trigger with a
/// `SwapScene` outcome completes the destroy and queues the swap in the same
/// drain.
pub proof fn lemma_destroy_queues_owned_swap(
    w: HandlerView,
    n: Seq<char>,
    e: GenericEntityView,
    i: int,
    s: Seq<char>,
)
    requires
        w.wf(),
        n.len() > 0,
        lookup(w.entities, n) == Some(e),
        0 <= i < e.triggers.len(),
        e.triggers[i].trigger_type == TriggerType::Destruction,
        e.triggers[i].outcome == OutcomeView::SwapScene(SwapSceneArgsView { scene_name: s }),
    ensures
        ({
            let stepped = apply_outcome(
                w,
                OutcomeView::DestroyObject(
                    crate::triggers::DestroyObjectArgsView { object_name: n },
                ),
            );
            &&& lookup(stepped.0.entities, n) is None
            &&& stepped.1.contains(
                OutcomeView::SwapScene(SwapSceneArgsView { scene_name: s }),
            )
        }),
{
    crate::registry::lemma_remove_named(w.entities, n, n);
    lemma_destruction_trigger_outcome_fires(e.triggers, i);
}

/// A `DestroyObject` outcome whose target owns a destruction trigger with a
/// `SwapScene` outcome completes the destroy, queues the swap in the same
/// drain, and the drain then performs the swap.
pub proof fn lemma_destroy_chains_scene_swap(
    w: HandlerView,
    n: Seq<char>,
    e: GenericEntityView,
    s: Seq<char>,
)
    requires
        w.wf(),
        n.len() > 0,
        lookup(w.entities, n) == Some(e),
        destruction_trigger_outcomes(e.triggers) == seq![
            OutcomeView::SwapScene(SwapSceneArgsView { scene_name: s }),
        ],
        s.len() > 0,
        w.event_outcomes == seq![
            OutcomeView::DestroyObject(crate::triggers::DestroyObjectArgsView { object_name: n }),
        ],
    ensures
        ({
            let destroyed = apply_outcome(w, w.event_outcomes[0]).0;
            &&& lookup(destroyed.entities, n) is None
            &&& apply_all_collect(w, w.event_outcomes).1 == seq![
                OutcomeView::SwapScene(SwapSceneArgsView { scene_name: s }),
            ]
            &&& drain_spec(w) == (HandlerView {
                event_outcomes: Seq::<OutcomeView>::empty(),
                ..spec_swap_scene(destroyed, s)
            })
        }),
{
    let q = w.event_outcomes;
    let destroy = q[0];
    let stepped = apply_outcome(w, destroy);
    crate::registry::lemma_remove_named(w.entities, n, n);
    assert(q.drop_first() =~= Seq::<OutcomeView>::empty());
    let chain = seq![OutcomeView::SwapScene(SwapSceneArgsView { scene_name: s })];
    assert(apply_all_collect(stepped.0, q.drop_first()).1 =~= Seq::<OutcomeView>::empty());
    assert(apply_all_collect(w, q).0 == stepped.0);
    assert(stepped.1 + Seq::<OutcomeView>::empty() =~= stepped.1);
    assert(apply_all_collect(w, q).1 == chain);
    assert(chain.drop_first() =~= Seq::<OutcomeView>::empty());
    let swapped = apply_outcome(stepped.0, chain[0]).0;
    assert(apply_all_drop(swapped, chain.drop_first()) == swapped);
    assert(apply_all_drop(stepped.0, chain) == swapped);
    assert(chain[0] == OutcomeView::SwapScene(SwapSceneArgsView { scene_name: s }));
}

impl EventHandler {
    /// Applies one outcome to the world and returns what it chained.
    fn apply_one(&mut self, event_outcome: &Outcome) -> (r: Vec<Outcome>)
        requires
            old(self).wf(),
        ensures
            final(self).wf(),
            final(self).deep_view() == apply_outcome(
                old(self).deep_view(),
                event_outcome.deep_view(),
            ).0,
            r.deep_view() == apply_outcome(old(self).deep_view(), event_outcome.deep_view()).1,
    {
        let empty_chain: Vec<Outcome> = Vec::new();
        proof {
            assert(empty_chain.deep_view() =~= Seq::<OutcomeView>::empty());
        }
        match event_outcome {
            Outcome::Sequence(sequence_args) => {
                if sequence_args.sequence_name.eq(&String::from_str("homebringer_sequence")) {
                    self.homebringer_sequence();
                } else if sequence_args.sequence_name.eq(&String::from_str("gorbino_sequence")) {
                    self.gorbino_sequence();
                } else if sequence_args.sequence_name.eq(&String::from_str("explosion_sequence")) {
                    self.explosion_sequence();
                } else if sequence_args.sequence_name.eq(&String::from_str("gravity_sequence")) {
                    self.gravity_sequence();
                }
                empty_chain
            },
            Outcome::SwapScene(swap_scene_args) => {
                if swap_scene_args.scene_name.as_str().is_empty() {
                    empty_chain
                } else {
                    self.swap_scene(swap_scene_args.scene_name.clone());
                    empty_chain
                }
            },
            Outcome::CreateObject(create_object_args) => {
                if self.master_graphics_list.get_object(
                    &create_object_args.graphics.name,
                ).is_some() {
                    empty_chain
                } else {
                    self.create_object(create_object_args);
                    empty_chain
                }
            },
            Outcome::DestroyObject(destroy_args) => {
                if destroy_args.object_name.as_str().is_empty() {
                    empty_chain
                } else {
                    self.destroy_object(&destroy_args.object_name)
                }
            },
            Outcome::TeleportObject(teleport_args) => {
                if teleport_args.object_name.as_str().is_empty() {
                    empty_chain
                } else {
                    self.teleport_object(&teleport_args.object_name, &teleport_args.new_position);
                    empty_chain
                }
            },
            Outcome::EnqueueAudio(audio_args) => {
                if audio_args.audio_name.as_str().is_empty() {
                    empty_chain
                } else {
                    self.enqueue_audio(
                        audio_args.audio_name.clone(),
                        audio_args.audio_type,
                        audio_args.volume,
                    );
                    empty_chain
                }
            },
            Outcome::SetAtlasConfig(set_atlas_config_args) => {
                if set_atlas_config_args.object_name.as_str().is_empty() {
                    empty_chain
                } else {
                    self.set_atlas_config(
                        &set_atlas_config_args.object_name,
                        set_atlas_config_args.atlas_config,
                    );
                    empty_chain
                }
            },
            Outcome::SetAnimationConfig(set_animation_config_args) => {
                if set_animation_config_args.object_name.as_str().is_empty() {
                    empty_chain
                } else {
                    let cfg = set_animation_config_args.animation_config.duplicate();
                    self.set_animation_config(&set_animation_config_args.object_name, cfg);
                    empty_chain
                }
            },
            Outcome::AccelerateObject(_) => empty_chain,
        }
    }

    /// Drains the outcome queue: every queued outcome is applied in order;
    /// outcomes chained by a destroy are applied after the queue, without
    /// further chaining; and the queue ends empty.
    #[verifier::loop_isolation(false)]
    #[verifier::rlimit(60)]
    pub fn process_event_outcomes(&mut self)
        requires
            old(self).wf(),
        ensures
            final(self).wf(),
            final(self).deep_view() == drain_spec(old(self).deep_view()),
    {
        let ghost w0 = self.deep_view();
        let ghost qv = w0.event_outcomes;
        let ghost full = apply_all_collect(w0, qv);
        let mut chained_outcomes: Vec<Outcome> = Vec::new();
        proof {
            assert(qv.skip(0) =~= qv);
            assert(chained_outcomes.deep_view() =~= Seq::<OutcomeView>::empty());
        }
        let queue_len = self.event_outcomes.len();
        let mut i: usize = 0;
        while i < queue_len
            invariant
                0 <= i <= queue_len,
                self.wf(),
                queue_len == qv.len(),
                self.deep_view().event_outcomes == qv,
                ({
                    let rem = apply_all_collect(self.deep_view(), qv.skip(i as int));
                    &&& rem.0 == full.0
                    &&& chained_outcomes.deep_view() + rem.1 == full.1
                }),
            decreases queue_len - i,
        {
            proof {
                assert(qv.skip(i as int)[0] == qv[i as int]);
                assert(qv.skip(i as int).drop_first() =~= qv.skip(i as int + 1));
            }
            let event_outcome = self.event_outcomes[i].duplicate();
            let ghost before = chained_outcomes.deep_view();
            let ghost stepped = apply_outcome(self.deep_view(), qv[i as int]);
            let mut chained = self.apply_one(&event_outcome);
            proof {
                assert(self.deep_view().event_outcomes == qv);
            }
            chained_outcomes.append(&mut chained);
            proof {
                assert(chained_outcomes.deep_view() =~= before + stepped.1);
                let rem2 = apply_all_collect(self.deep_view(), qv.skip(i as int + 1));
                assert((before + stepped.1) + rem2.1 =~= before + (stepped.1 + rem2.1));
            }
            i += 1;
        }
        proof {
            assert(qv.skip(qv.len() as int).len() == 0);
            assert(chained_outcomes.deep_view() + Seq::<OutcomeView>::empty()
                =~= chained_outcomes.deep_view());
        }

        let ghost cv = chained_outcomes.deep_view();
        proof {
            assert(cv.skip(0) =~= cv);
        }
        let mut j: usize = 0;
        while j < chained_outcomes.len()
            invariant
                0 <= j <= chained_outcomes.len(),
                self.wf(),
                self.deep_view().event_outcomes == qv,
                chained_outcomes.deep_view() == cv,
                apply_all_drop(self.deep_view(), cv.skip(j as int)) == apply_all_drop(full.0, cv),
            decreases chained_outcomes.len() - j,
        {
            proof {
                assert(cv.skip(j as int)[0] == cv[j as int]);
                assert(cv.skip(j as int).drop_first() =~= cv.skip(j as int + 1));
            }
            let event_outcome = chained_outcomes[j].duplicate();
            self.apply_one(&event_outcome);
            j += 1;
        }
        proof {
            assert(cv.skip(cv.len() as int).len() == 0);
        }
        self.event_outcomes.clear();
        proof {
            assert(self.deep_view().event_outcomes =~= Seq::<OutcomeView>::empty());
            assert(self.deep_view() =~= drain_spec(w0));
        }
    }
}

/// One whole simulation tick over the world: gravity, synthetic friction,
/// scene-level triggers, the collision pass, the outcome drain, and finally
/// the integration of velocities into positions.  A collision pass stopped
/// by the unimplemented oriented-box mode ends the tick there, after the
/// trigger scan.
pub open spec fn tick_spec(
    w: HandlerView,
    velocity_friction: int,
    base_friction: int,
    vertical_friction: bool,
    dt: int,
) -> Result<HandlerView, CollisionError> {
    let e1 = Seq::new(
        w.entities.len(),
        |i: int|
            GenericEntityView {
                velocity: if w.entities[i].affected_by_gravity {
                    crate::generic_entity::gravity_step(
                        w.entities[i].velocity,
                        w.game_state.gravity,
                        w.game_state.terminal_velocity,
                        dt,
                    )
                } else {
                    w.entities[i].velocity
                },
                ..w.entities[i]
            },
    );
    let e2 = Seq::new(
        e1.len(),
        |i: int|
            GenericEntityView {
                velocity: crate::player_movement::friction_spec(
                    e1[i],
                    velocity_friction,
                    base_friction,
                    vertical_friction,
                    dt,
                ),
                ..e1[i]
            },
    );
    let w1 = HandlerView { entities: e2, ..w };
    let w2 = HandlerView {
        event_outcomes: w1.event_outcomes + (match lookup(
            w1.scenes,
            w1.game_state.current_scene_name,
        ) {
            Some(entry) => scene_trigger_outcomes(entry.scene.scene_triggers, w1.key_states),
            None => Seq::<OutcomeView>::empty(),
        }),
        ..w1
    };
    match crate::collision::active_scan(w2.entities, w2.objects, w2.entities) {
        Err(e) => Err(e),
        Ok(evs) => {
            let stepped = collision_batch_spec(w2.entities, w2.objects, evs);
            let w3 = HandlerView {
                entities: stepped.0,
                objects: stepped.1,
                event_outcomes: w2.event_outcomes + stepped.2,
                ..w2
            };
            let w4 = drain_spec(w3);
            let w5 = HandlerView {
                objects: crate::player_movement::move_all_spec(w4.entities, w4.objects, dt),
                ..w4
            };
            Ok(w5)
        },
    }
}

impl EventHandler {
    /// Runs one simulation tick, as [`tick_spec`] lays down.  When the
    /// collision pass stops on the unimplemented oriented-box mode, the tick
    /// ends there and the error is handed back.
    pub fn run_tick(
        &mut self,
        velocity_friction: i64,
        base_friction: i64,
        vertical_friction: bool,
        delta_micros: i64,
    ) -> (r: Result<(), CollisionError>)
        requires
            old(self).wf(),
            0 <= velocity_friction <= 1_000_000,
            0 <= base_friction <= crate::fixed::VEL_LIMIT,
            0 <= delta_micros <= crate::fixed::MICROS_PER_SECOND,
        ensures
            final(self).wf(),
            ({
                let stepped = tick_spec(
                    old(self).deep_view(),
                    velocity_friction as int,
                    base_friction as int,
                    vertical_friction,
                    delta_micros as int,
                );
                match r {
                    Ok(_) => stepped matches Ok(w) && final(self).deep_view() == w,
                    Err(e) => stepped == Err::<HandlerView, _>(e),
                }
            }),
    {
        let ghost w0 = self.deep_view();
        let g = self.game_state.get_gravity();
        let t = self.game_state.get_terminal_velocity();
        crate::player_movement::gravity(g, t, &mut self.master_entity_list, delta_micros);
        proof {
            let e1 = Seq::new(
                w0.entities.len(),
                |i: int|
                    GenericEntityView {
                        velocity: if w0.entities[i].affected_by_gravity {
                            crate::generic_entity::gravity_step(
                                w0.entities[i].velocity,
                                w0.game_state.gravity,
                                w0.game_state.terminal_velocity,
                                delta_micros as int,
                            )
                        } else {
                            w0.entities[i].velocity
                        },
                        ..w0.entities[i]
                    },
            );
            assert(self.master_entity_list.deep_view() =~= e1);
        }
        let ghost wg = self.deep_view();
        crate::player_movement::process_all_entities_fake_friction(
            velocity_friction,
            base_friction,
            &mut self.master_entity_list,
            vertical_friction,
            delta_micros,
        );
        proof {
            let e2 = Seq::new(
                wg.entities.len(),
                |i: int|
                    GenericEntityView {
                        velocity: crate::player_movement::friction_spec(
                            wg.entities[i],
                            velocity_friction as int,
                            base_friction as int,
                            vertical_friction,
                            delta_micros as int,
                        ),
                        ..wg.entities[i]
                    },
            );
            assert(self.master_entity_list.deep_view() =~= e2);
        }
        self.check_scene_triggers();
        match self.process_collisions() {
            Ok(_) => {},
            Err(e) => {
                return Err(e);
            },
        }
        self.process_event_outcomes();
        crate::player_movement::process_movement(
            &self.master_entity_list,
            &mut self.master_graphics_list,
            delta_micros,
        );
        Ok(())
    }
}

} // verus!
