//! The first, weight-flag model of collision response.
//!
//! Before triggers carried destruction rules, an entity declared outright
//! whether it can destroy, whether it is destructible, and whether it is
//! actively checked; a heavier destroyer removed a lighter destructible on
//! contact, and overlapping pairs were pushed apart by a fixed force along
//! the larger positional difference.  That model is kept here, against the
//! shared graphics registry.

use vstd::prelude::*;

use crate::fixed::{clamp_spec, Vec3, POS_LIMIT};
use crate::collision::{abs_spec, CollisionEvent, CollisionEventView};
use crate::graphics_object::GraphicsObjectView;
use crate::master_graphics_list::MasterGraphicsList;
use crate::registry::{index_of, lemma_index_of_first_match, lemma_index_of_no_match, lookup,
    names_unique, Named};

verus! {

/// The gameplay state of one game object under the weight-flag model.
#[derive(Debug)]
pub struct GenericEntity {
    object_name: String,
    weight: i64,
    can_destroy: bool,
    destructible: bool,
    active_collision: bool,
}

#[verifier::ext_equal]
pub ghost struct GenericEntityView {
    pub object_name: Seq<char>,
    pub weight: i64,
    pub can_destroy: bool,
    pub destructible: bool,
    pub active_collision: bool,
}

impl DeepView for GenericEntity {
    type V = GenericEntityView;

    closed spec fn deep_view(&self) -> GenericEntityView {
        GenericEntityView {
            object_name: self.object_name@,
            weight: self.weight,
            can_destroy: self.can_destroy,
            destructible: self.destructible,
            active_collision: self.active_collision,
        }
    }
}

impl GenericEntity {
    pub fn new(
        object_name: String,
        weight: i64,
        can_destroy: bool,
        destructible: bool,
        active_collision: bool,
    ) -> (r: GenericEntity)
        ensures
            r.deep_view() == (GenericEntityView {
                object_name: object_name@,
                weight,
                can_destroy,
                destructible,
                active_collision,
            }),
    {
        GenericEntity { object_name, weight, can_destroy, destructible, active_collision }
    }

    pub fn get_name(&self) -> (r: &String)
        ensures
            r@ == self.deep_view().object_name,
    {
        &self.object_name
    }

    pub fn get_weight(&self) -> (r: i64)
        ensures
            r == self.deep_view().weight,
    {
        self.weight
    }

    pub fn can_destroy(&self) -> (r: bool)
        ensures
            r == self.deep_view().can_destroy,
    {
        self.can_destroy
    }

    pub fn is_destructible(&self) -> (r: bool)
        ensures
            r == self.deep_view().destructible,
    {
        self.destructible
    }

    pub fn has_active_collision(&self) -> (r: bool)
        ensures
            r == self.deep_view().active_collision,
    {
        self.active_collision
    }

    /// A copy whose deep view equals the original's.
    pub fn duplicate(&self) -> (r: GenericEntity)
        ensures
            r.deep_view() == self.deep_view(),
    {
        GenericEntity {
            object_name: self.object_name.clone(),
            weight: self.weight,
            can_destroy: self.can_destroy,
            destructible: self.destructible,
            active_collision: self.active_collision,
        }
    }
}

impl Named for GenericEntityView {
    open spec fn key(self) -> Seq<char> {
        self.object_name
    }
}

/// The store of all live weight-flag entities.
#[derive(Debug)]
pub struct MasterEntityList {
    entities: Vec<GenericEntity>,
}

impl DeepView for MasterEntityList {
    type V = Seq<GenericEntityView>;

    closed spec fn deep_view(&self) -> Seq<GenericEntityView> {
        self.entities.deep_view()
    }
}

impl MasterEntityList {
    /// Unique names.
    pub open spec fn wf(self) -> bool {
        names_unique(self.deep_view())
    }

    pub fn new() -> (r: MasterEntityList)
        ensures
            r.deep_view() == Seq::<GenericEntityView>::empty(),
            r.wf(),
    {
        let r = MasterEntityList { entities: Vec::new() };
        proof {
            assert(r.deep_view() =~= Seq::<GenericEntityView>::empty());
        }
        r
    }

    /// Inserts keyed by the entity's name, replacing a previous entry of the
    /// same name in place.
    #[verifier::loop_isolation(false)]
    pub fn add_entity(&mut self, entity: GenericEntity)
        requires
            old(self).wf(),
        ensures
            final(self).wf(),
            ({
                let i = index_of(old(self).deep_view(), entity.deep_view().object_name);
                if i == -1 {
                    final(self).deep_view() == old(self).deep_view().push(entity.deep_view())
                } else {
                    final(self).deep_view() == old(self).deep_view().update(i, entity.deep_view())
                }
            }),
    {
        let ghost s = self.deep_view();
        let ghost name = entity.deep_view().object_name;
        let mut i: usize = 0;
        while i < self.entities.len()
            invariant
                0 <= i <= self.entities.len(),
                s == self.deep_view(),
                name == entity.deep_view().object_name,
                forall|j: int| 0 <= j < i ==> s[j].key() != name,
            decreases self.entities.len() - i,
        {
            if self.entities[i].get_name().eq(entity.get_name()) {
                proof {
                    lemma_index_of_first_match(s, name, i as int);
                }
                self.entities.set(i, entity);
                proof {
                    let t = s.update(i as int, entity.deep_view());
                    assert(self.deep_view() =~= t);
                    assert(s[i as int].key() == entity.deep_view().object_name);
                    assert forall|p: int, q: int| 0 <= p < q < t.len() implies t[p].key()
                        != t[q].key() by {
                        assert(s[p].key() != s[q].key());
                    }
                }
                return ;
            }
            i += 1;
        }
        proof {
            lemma_index_of_no_match(s, name);
        }
        self.entities.push(entity);
        proof {
            let t = s.push(entity.deep_view());
            assert(self.deep_view() =~= t);
            assert forall|p: int, q: int| 0 <= p < q < t.len() implies t[p].key() != t[q].key() by {
                if q < s.len() {
                    assert(s[p].key() != s[q].key());
                } else {
                    assert(s[p].key() != entity.deep_view().object_name);
                }
            }
        }
    }

    /// The entity of this name, if any.
    #[verifier::loop_isolation(false)]
    pub fn get_entity(&self, name: &String) -> (r: Option<&GenericEntity>)
        ensures
            match r {
                Some(e) => lookup(self.deep_view(), name@) == Some(e.deep_view()),
                None => lookup(self.deep_view(), name@) is None,
            },
    {
        let ghost s = self.deep_view();
        let mut i: usize = 0;
        while i < self.entities.len()
            invariant
                0 <= i <= self.entities.len(),
                s == self.deep_view(),
                forall|j: int| 0 <= j < i ==> s[j].key() != name@,
            decreases self.entities.len() - i,
        {
            if self.entities[i].get_name().eq(name) {
                proof {
                    lemma_index_of_first_match(s, name@, i as int);
                }
                return Some(&self.entities[i]);
            }
            i += 1;
        }
        proof {
            lemma_index_of_no_match(s, name@);
        }
        None
    }

    /// A read-only view of all live entities, in insertion order.
    pub fn get_entities(&self) -> (r: &Vec<GenericEntity>)
        ensures
            r.deep_view() == self.deep_view(),
    {
        &self.entities
    }

    /// How many entities are live.
    pub fn len(&self) -> (r: usize)
        ensures
            r == self.deep_view().len(),
    {
        self.entities.len()
    }

    /// Removes the entity of this name; absent names are left alone.
    #[verifier::loop_isolation(false)]
    pub fn remove_entity(&mut self, name: &String)
        requires
            old(self).wf(),
        ensures
            final(self).wf(),
            ({
                let i = index_of(old(self).deep_view(), name@);
                if i == -1 {
                    final(self).deep_view() == old(self).deep_view()
                } else {
                    final(self).deep_view() == old(self).deep_view().remove(i)
                }
            }),
    {
        let ghost s = self.deep_view();
        let mut i: usize = 0;
        while i < self.entities.len()
            invariant
                0 <= i <= self.entities.len(),
                s == self.deep_view(),
                forall|j: int| 0 <= j < i ==> s[j].key() != name@,
            decreases self.entities.len() - i,
        {
            if self.entities[i].get_name().eq(name) {
                proof {
                    lemma_index_of_first_match(s, name@, i as int);
                }
                self.entities.remove(i);
                proof {
                    let t = s.remove(i as int);
                    assert(self.deep_view() =~= t);
                    assert forall|p: int, q: int| 0 <= p < q < t.len() implies t[p].key()
                        != t[q].key() by {
                        let p0: int = if p < i as int { p } else { p + 1 };
                        let q0: int = if q < i as int { q } else { q + 1 };
                        assert(t[p] == s[p0]);
                        assert(t[q] == s[q0]);
                        assert(s[p0].key() != s[q0].key());
                    }
                }
                return ;
            }
            i += 1;
        }
        proof {
            lemma_index_of_no_match(s, name@);
        }
    }

    /// Removes every entity.
    pub fn remove_all(&mut self)
        ensures
            final(self).deep_view() == Seq::<GenericEntityView>::empty(),
            final(self).wf(),
    {
        self.entities.clear();
        proof {
            assert(self.deep_view() =~= Seq::<GenericEntityView>::empty());
        }
    }
}

/// Whether each side of a colliding pair destroys the other: the first
/// component says the second entity is removed, the second says the first
/// is.  Each direction is decided on its own.
pub open spec fn destruction_verdict(e1: GenericEntityView, e2: GenericEntityView) -> (bool, bool) {
    (
        e1.can_destroy && e2.destructible && e1.weight >= e2.weight,
        e2.can_destroy && e1.destructible && e2.weight >= e1.weight,
    )
}

/// Destruction is one-directional per pair, but both directions are checked
/// independently in the same resolution: a heavier destroyer removes a
/// destructible partner, and the symmetric case is decided on its own.
pub proof fn lemma_destruction_both_directions(e1: GenericEntityView, e2: GenericEntityView)
    ensures
        destruction_verdict(e1, e2).0 <==> (e1.can_destroy && e2.destructible && e1.weight
            >= e2.weight),
        destruction_verdict(e1, e2).1 <==> (e2.can_destroy && e1.destructible && e2.weight
            >= e1.weight),
{
}

/// The graphics store after pushing the moved object away from the unmoved
/// one by `f` along the axis of larger positional difference.
pub open spec fn push_spec(
    objects: Seq<GraphicsObjectView>,
    unmoved_name: Seq<char>,
    moved_name: Seq<char>,
    f: int,
) -> Seq<GraphicsObjectView> {
    match (lookup(objects, unmoved_name), lookup(objects, moved_name)) {
        (Some(gu), Some(gm)) => {
            let dx = gu.position.x - gm.position.x;
            let dy = gu.position.y - gm.position.y;
            let moved_pos = if abs_spec(dx) > abs_spec(dy) {
                Vec3 {
                    x: clamp_spec(
                        gm.position.x + if dx < 0 {
                            f
                        } else {
                            -f
                        },
                        -POS_LIMIT as int,
                        POS_LIMIT as int,
                    ) as i64,
                    y: gm.position.y,
                    z: gm.position.z,
                }
            } else {
                Vec3 {
                    x: gm.position.x,
                    y: clamp_spec(
                        gm.position.y + if dy < 0 {
                            f
                        } else {
                            -f
                        },
                        -POS_LIMIT as int,
                        POS_LIMIT as int,
                    ) as i64,
                    z: gm.position.z,
                }
            };
            objects.update(
                index_of(objects, moved_name),
                GraphicsObjectView { position: moved_pos, ..gm },
            )
        },
        _ => objects,
    }
}

/// Both lists after resolving one collision event: each destruction
/// direction is applied, then the lighter (or equally heavy) party is pushed
/// away by the fixed force for that case.
pub open spec fn pair_response_spec(
    entities: Seq<GenericEntityView>,
    objects: Seq<GraphicsObjectView>,
    ev: CollisionEventView,
) -> (Seq<GenericEntityView>, Seq<GraphicsObjectView>) {
    match (lookup(entities, ev.object_name_1), lookup(entities, ev.object_name_2)) {
        (Some(e1), Some(e2)) => {
            let v = destruction_verdict(e1, e2);
            let entities1 = if v.0 {
                crate::registry::remove_named(entities, ev.object_name_2)
            } else {
                entities
            };
            let objects1 = if v.0 {
                crate::registry::remove_named(objects, ev.object_name_2)
            } else {
                objects
            };
            let entities2 = if v.1 {
                crate::registry::remove_named(entities1, ev.object_name_1)
            } else {
                entities1
            };
            let objects2 = if v.1 {
                crate::registry::remove_named(objects1, ev.object_name_1)
            } else {
                objects1
            };
            let objects3 = if e1.weight > e2.weight {
                push_spec(objects2, ev.object_name_1, ev.object_name_2, 50)
            } else if e2.weight > e1.weight {
                push_spec(objects2, ev.object_name_2, ev.object_name_1, 5)
            } else {
                push_spec(
                    push_spec(objects2, ev.object_name_1, ev.object_name_2, 25),
                    ev.object_name_2,
                    ev.object_name_1,
                    25,
                )
            };
            (entities2, objects3)
        },
        _ => (entities, objects),
    }
}

/// Both lists after resolving a whole batch of events, first to last.
pub open spec fn handle_events_spec(
    entities: Seq<GenericEntityView>,
    objects: Seq<GraphicsObjectView>,
    evs: Seq<CollisionEventView>,
) -> (Seq<GenericEntityView>, Seq<GraphicsObjectView>)
    decreases evs.len(),
{
    if evs.len() == 0 {
        (entities, objects)
    } else {
        let stepped = pair_response_spec(entities, objects, evs[0]);
        handle_events_spec(stepped.0, stepped.1, evs.drop_first())
    }
}

/// Resolving a batch in two pieces lands in the same lists.
pub proof fn lemma_handle_events_append(
    entities: Seq<GenericEntityView>,
    objects: Seq<GraphicsObjectView>,
    a: Seq<CollisionEventView>,
    b: Seq<CollisionEventView>,
)
    ensures
        handle_events_spec(entities, objects, a + b) == ({
            let mid = handle_events_spec(entities, objects, a);
            handle_events_spec(mid.0, mid.1, b)
        }),
    decreases a.len(),
{
    if a.len() == 0 {
        assert(a + b =~= b);
    } else {
        assert((a + b)[0] == a[0]);
        assert((a + b).drop_first() =~= a.drop_first() + b);
        let stepped = pair_response_spec(entities, objects, a[0]);
        lemma_handle_events_append(stepped.0, stepped.1, a.drop_first(), b);
    }
}

/// Every event of a batch is resolved by the per-pair response at its place:
/// the batch's final lists are reached by applying the response at position
/// `k` to the lists the earlier events left, then the events after it.  In
/// particular both destruction directions of each pair are decided
/// independently within the same resolution, for every event of the batch.
pub proof fn lemma_handle_events_applies_each(
    entities: Seq<GenericEntityView>,
    objects: Seq<GraphicsObjectView>,
    evs: Seq<CollisionEventView>,
    k: int,
)
    requires
        0 <= k < evs.len(),
    ensures
        handle_events_spec(entities, objects, evs) == ({
            let before = handle_events_spec(entities, objects, evs.take(k));
            let stepped = pair_response_spec(before.0, before.1, evs[k]);
            handle_events_spec(stepped.0, stepped.1, evs.skip(k + 1))
        }),
{
    assert(evs =~= evs.take(k) + evs.skip(k));
    lemma_handle_events_append(entities, objects, evs.take(k), evs.skip(k));
    assert(evs.skip(k)[0] == evs[k]);
    assert(evs.skip(k).drop_first() =~= evs.skip(k + 1));
}

/// Collision response under the weight-flag model.
pub struct EventHandler;

impl EventHandler {
    /// Removes the named entity and its paired graphics object.
    pub fn destroy_object(
        &self,
        master_entity_list: &mut MasterEntityList,
        master_graphics_list: &mut MasterGraphicsList,
        object_name: String,
    )
        requires
            old(master_entity_list).wf(),
            old(master_graphics_list).wf(),
        ensures
            final(master_entity_list).wf(),
            final(master_graphics_list).wf(),
            final(master_entity_list).deep_view() == crate::registry::remove_named(
                old(master_entity_list).deep_view(),
                object_name@,
            ),
            final(master_graphics_list).deep_view() == crate::registry::remove_named(
                old(master_graphics_list).deep_view(),
                object_name@,
            ),
    {
        master_entity_list.remove_entity(&object_name);
        master_graphics_list.remove_object(&object_name);
    }

    /// Pushes the moved entity's graphics object away from the unmoved one
    /// by `push_force`, along the axis of larger positional difference.  A
    /// missing graphics object on either side skips the push.
    pub fn move_entity_based_on_position(
        &self,
        master_graphics_list: &mut MasterGraphicsList,
        unmoved_entity: &GenericEntity,
        moved_entity: &GenericEntity,
        push_force: i64,
    )
        requires
            old(master_graphics_list).wf(),
            0 <= push_force <= POS_LIMIT,
        ensures
            final(master_graphics_list).wf(),
            final(master_graphics_list).deep_view() == push_spec(
                old(master_graphics_list).deep_view(),
                unmoved_entity.deep_view().object_name,
                moved_entity.deep_view().object_name,
                push_force as int,
            ),
    {
        let ghost os = master_graphics_list.deep_view();
        let entity_1_pos = match master_graphics_list.get_object(unmoved_entity.get_name()) {
            Some(o) => o.get_position(),
            None => {
                return ;
            },
        };
        let (entity_2_pos, mut entity_2_graphics) = match master_graphics_list.get_object(
            moved_entity.get_name(),
        ) {
            Some(o) => (o.get_position(), o.duplicate()),
            None => {
                return ;
            },
        };
        proof {
            crate::registry::lemma_index_of(os, unmoved_entity.deep_view().object_name);
            crate::registry::lemma_index_of(os, moved_entity.deep_view().object_name);
        }

        let diff_x: i64 = entity_1_pos.x - entity_2_pos.x;
        let diff_y: i64 = entity_1_pos.y - entity_2_pos.y;
        let abs_x: i64 = if diff_x < 0 {
            -diff_x
        } else {
            diff_x
        };
        let abs_y: i64 = if diff_y < 0 {
            -diff_y
        } else {
            diff_y
        };

        let new_pos: Vec3 = if abs_x > abs_y {
            let step: i64 = if diff_x < 0 {
                push_force
            } else {
                -push_force
            };
            let x = crate::fixed::clamp_i128(
                entity_2_pos.x as i128 + step as i128,
                -POS_LIMIT,
                POS_LIMIT,
            );
            Vec3 { x, y: entity_2_pos.y, z: entity_2_pos.z }
        } else {
            let step: i64 = if diff_y < 0 {
                push_force
            } else {
                -push_force
            };
            let y = crate::fixed::clamp_i128(
                entity_2_pos.y as i128 + step as i128,
                -POS_LIMIT,
                POS_LIMIT,
            );
            Vec3 { x: entity_2_pos.x, y, z: entity_2_pos.z }
        };
        entity_2_graphics.set_position(new_pos);
        master_graphics_list.add_object(entity_2_graphics);
    }

    /// Resolves one collision event: both destruction directions, then the
    /// positional push of the lighter or equally heavy party.
    pub fn resolve_collision_event(
        &self,
        master_entity_list: &mut MasterEntityList,
        master_graphics_list: &mut MasterGraphicsList,
        collision_event: &CollisionEvent,
    )
        requires
            old(master_entity_list).wf(),
            old(master_graphics_list).wf(),
        ensures
            final(master_entity_list).wf(),
            final(master_graphics_list).wf(),
            ({
                let stepped = pair_response_spec(
                    old(master_entity_list).deep_view(),
                    old(master_graphics_list).deep_view(),
                    collision_event.deep_view(),
                );
                &&& final(master_entity_list).deep_view() == stepped.0
                &&& final(master_graphics_list).deep_view() == stepped.1
            }),
    {
        let entity_1 = match master_entity_list.get_entity(&collision_event.object_name_1) {
            Some(e) => e.duplicate(),
            None => {
                return ;
            },
        };
        let entity_2 = match master_entity_list.get_entity(&collision_event.object_name_2) {
            Some(e) => e.duplicate(),
            None => {
                return ;
            },
        };
        proof {
            crate::registry::lemma_index_of(
                old(master_entity_list).deep_view(),
                collision_event.object_name_1@,
            );
            crate::registry::lemma_index_of(
                old(master_entity_list).deep_view(),
                collision_event.object_name_2@,
            );
        }
        if entity_1.can_destroy() && entity_2.is_destructible() && entity_1.get_weight()
            >= entity_2.get_weight() {
            self.destroy_object(
                master_entity_list,
                master_graphics_list,
                entity_2.get_name().clone(),
            );
        }
        if entity_2.can_destroy() && entity_1.is_destructible() && entity_2.get_weight()
            >= entity_1.get_weight() {
            self.destroy_object(
                master_entity_list,
                master_graphics_list,
                entity_1.get_name().clone(),
            );
        }
        if entity_1.get_weight() > entity_2.get_weight() {
            self.move_entity_based_on_position(master_graphics_list, &entity_1, &entity_2, 50);
        }
        if entity_2.get_weight() > entity_1.get_weight() {
            self.move_entity_based_on_position(master_graphics_list, &entity_2, &entity_1, 5);
        }
        if entity_1.get_weight() == entity_2.get_weight() {
            self.move_entity_based_on_position(master_graphics_list, &entity_1, &entity_2, 25);
            self.move_entity_based_on_position(master_graphics_list, &entity_2, &entity_1, 25);
        }
    }

    /// Resolves a batch of collision events, first to last.
    #[verifier::loop_isolation(false)]
    pub fn handle_collision_events(
        &self,
        master_entity_list: &mut MasterEntityList,
        master_graphics_list: &mut MasterGraphicsList,
        collision_events: Vec<CollisionEvent>,
    )
        requires
            old(master_entity_list).wf(),
            old(master_graphics_list).wf(),
        ensures
            final(master_entity_list).wf(),
            final(master_graphics_list).wf(),
            ({
                let stepped = handle_events_spec(
                    old(master_entity_list).deep_view(),
                    old(master_graphics_list).deep_view(),
                    collision_events.deep_view(),
                );
                &&& final(master_entity_list).deep_view() == stepped.0
                &&& final(master_graphics_list).deep_view() == stepped.1
            }),
    {
        let ghost evs = collision_events.deep_view();
        proof {
            assert(evs.skip(0) =~= evs);
        }
        let mut i: usize = 0;
        while i < collision_events.len()
            invariant
                0 <= i <= collision_events.len(),
                master_entity_list.wf(),
                master_graphics_list.wf(),
                handle_events_spec(
                    master_entity_list.deep_view(),
                    master_graphics_list.deep_view(),
                    evs.skip(i as int),
                ) == handle_events_spec(
                    old(master_entity_list).deep_view(),
                    old(master_graphics_list).deep_view(),
                    evs,
                ),
            decreases collision_events.len() - i,
        {
            proof {
                assert(evs.skip(i as int)[0] == evs[i as int]);
                assert(evs.skip(i as int).drop_first() =~= evs.skip(i as int + 1));
            }
            self.resolve_collision_event(
                master_entity_list,
                master_graphics_list,
                &collision_events[i],
            );
            i += 1;
        }
        proof {
            assert(evs.skip(evs.len() as int).len() == 0);
        }
    }
}

} // verus!
