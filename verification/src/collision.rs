//! Collision detection and response.
//!
//! Detection is a broad-phase pairing (every active entity against every
//! other graphics object) with a shape-mode narrow phase: two entities only
//! collide via a collision mode both declare, and the first shared mode whose
//! geometric test passes decides.  The oriented-box mode is declared but
//! unimplemented and is reported as an explicit error, never as a silent
//! miss.
//!
//! All geometry is exact fixed-point arithmetic.  Axis-aligned boxes are
//! compared in doubled coordinates (`2 * centre ± extent`) so that halving
//! never rounds.

use vstd::prelude::*;

use crate::fixed::{clamp_spec, div_trunc, lemma_mul_bounds, Vec2, Vec3, DIM_LIMIT, POS_LIMIT,
    SCALE, SEPARATION_STEP, VEL_LIMIT, WEIGHT_LIMIT};
use crate::generic_entity::{CollisionMode, GenericEntity, GenericEntityView};
use crate::graphics_object::{GraphicsObject, GraphicsObjectView};
use crate::master_entity_list::MasterEntityList;
use crate::master_graphics_list::MasterGraphicsList;
use crate::registry::lookup;

verus! {

/// One detected collision: the initiating object and the one it hit.
#[derive(PartialEq, Debug)]
pub struct CollisionEvent {
    pub object_name_1: String,
    pub object_name_2: String,
}

#[verifier::ext_equal]
pub ghost struct CollisionEventView {
    pub object_name_1: Seq<char>,
    pub object_name_2: Seq<char>,
}

impl DeepView for CollisionEvent {
    type V = CollisionEventView;

    open spec fn deep_view(&self) -> CollisionEventView {
        CollisionEventView {
            object_name_1: self.object_name_1@,
            object_name_2: self.object_name_2@,
        }
    }
}

/// The loud failure of the unimplemented oriented-box mode.
#[derive(Clone, Copy, PartialEq, Eq, Structural, Debug)]
pub enum CollisionError {
    UnimplementedShape,
}

/// Strict overlap of the axis-aligned boxes centred at the two positions, in
/// doubled coordinates.
pub open spec fn aabb_overlap(g1: GraphicsObjectView, g2: GraphicsObjectView) -> bool {
    &&& 2 * g1.position.x - g1.width < 2 * g2.position.x + g2.width
    &&& 2 * g1.position.x + g1.width > 2 * g2.position.x - g2.width
    &&& 2 * g1.position.y - g1.height < 2 * g2.position.y + g2.height
    &&& 2 * g1.position.y + g1.height > 2 * g2.position.y - g2.height
}

/// Squared centre distance strictly below the squared radius sum.
pub open spec fn circles_overlap(g1: GraphicsObjectView, g2: GraphicsObjectView) -> bool {
    let dx = g2.position.x - g1.position.x;
    let dy = g2.position.y - g1.position.y;
    dx * dx + dy * dy < (g1.radius + g2.radius) * (g1.radius + g2.radius)
}

/// The geometric test of one implemented mode.  The scan reports `OBB`
/// before this is consulted, so its arm here is never decisive.
pub open spec fn mode_test(m: CollisionMode, g1: GraphicsObjectView, g2: GraphicsObjectView) -> bool {
    match m {
        CollisionMode::AABB => aabb_overlap(g1, g2),
        CollisionMode::Circle => circles_overlap(g1, g2),
        CollisionMode::OBB => false,
    }
}

/// What the narrow phase concludes for a pair.
#[derive(Clone, Copy, PartialEq, Eq, Structural, Debug)]
pub enum NarrowVerdict {
    Hit,
    Miss,
    Unimplemented,
}

/// Walks the initiator's modes in order; the first mode shared with the other
/// entity either decides the collision by its geometric test or, for the
/// oriented-box mode, stops the scan with an explicit failure.
pub open spec fn shared_mode_scan(
    modes1: Seq<CollisionMode>,
    modes2: Seq<CollisionMode>,
    g1: GraphicsObjectView,
    g2: GraphicsObjectView,
) -> NarrowVerdict
    decreases modes1.len(),
{
    if modes1.len() == 0 {
        NarrowVerdict::Miss
    } else {
        let m = modes1[0];
        if modes2.contains(m) {
            if m == CollisionMode::OBB {
                NarrowVerdict::Unimplemented
            } else if mode_test(m, g1, g2) {
                NarrowVerdict::Hit
            } else {
                shared_mode_scan(modes1.drop_first(), modes2, g1, g2)
            }
        } else {
            shared_mode_scan(modes1.drop_first(), modes2, g1, g2)
        }
    }
}

/// The full narrow-phase verdict for two named objects: both entities and
/// both graphics objects must be registered, the initiator's priority must
/// admit the pairing, and the shared-mode scan must decide.
pub open spec fn is_colliding_spec(
    entities: Seq<GenericEntityView>,
    objects: Seq<GraphicsObjectView>,
    n1: Seq<char>,
    n2: Seq<char>,
) -> NarrowVerdict {
    match lookup(entities, n1) {
        None => NarrowVerdict::Miss,
        Some(e1) => match lookup(entities, n2) {
            None => NarrowVerdict::Miss,
            Some(e2) => {
                if e1.collision_priority >= e2.collision_priority {
                    match lookup(objects, n1) {
                        None => NarrowVerdict::Miss,
                        Some(g1) => match lookup(objects, n2) {
                            None => NarrowVerdict::Miss,
                            Some(g2) => shared_mode_scan(
                                e1.collision_modes,
                                e2.collision_modes,
                                g1,
                                g2,
                            ),
                        },
                    }
                } else {
                    NarrowVerdict::Miss
                }
            },
        },
    }
}

/// Axis-aligned box overlap, strict on both axes.
pub fn is_colliding_aabb(object_1: &GraphicsObject, object_2: &GraphicsObject) -> (r: bool)
    requires
        object_1.valid(),
        object_2.valid(),
    ensures
        r == aabb_overlap(object_1.deep_view(), object_2.deep_view()),
{
    let (width_self, height_self) = object_1.dimensions();
    let (width_other, height_other) = object_2.dimensions();
    let object_1_pos = object_1.get_position();
    let object_2_pos = object_2.get_position();

    let self_min_x: i64 = 2 * object_1_pos.x - width_self;
    let self_max_x: i64 = 2 * object_1_pos.x + width_self;
    let self_min_y: i64 = 2 * object_1_pos.y - height_self;
    let self_max_y: i64 = 2 * object_1_pos.y + height_self;

    let other_min_x: i64 = 2 * object_2_pos.x - width_other;
    let other_max_x: i64 = 2 * object_2_pos.x + width_other;
    let other_min_y: i64 = 2 * object_2_pos.y - height_other;
    let other_max_y: i64 = 2 * object_2_pos.y + height_other;

    self_min_x < other_max_x && self_max_x > other_min_x && self_min_y < other_max_y && self_max_y
        > other_min_y
}

/// Squared centre distance against squared radius sum, avoiding a root.
pub fn is_colliding_circle(object_1: &GraphicsObject, object_2: &GraphicsObject) -> (r: bool)
    requires
        object_1.valid(),
        object_2.valid(),
    ensures
        r == circles_overlap(object_1.deep_view(), object_2.deep_view()),
{
    let object_1_pos = object_1.get_position();
    let object_2_pos = object_2.get_position();

    let dx: i128 = object_2_pos.x as i128 - object_1_pos.x as i128;
    let dy: i128 = object_2_pos.y as i128 - object_1_pos.y as i128;
    proof {
        lemma_mul_bounds(dx as int, dx as int, 2 * POS_LIMIT as int, 2 * POS_LIMIT as int);
        lemma_mul_bounds(dy as int, dy as int, 2 * POS_LIMIT as int, 2 * POS_LIMIT as int);
    }
    let distance_squared: i128 = dx * dx + dy * dy;

    let radius_self = object_1.get_radius();
    let radius_other = object_2.get_radius();

    let radius_sum: i128 = radius_self as i128 + radius_other as i128;
    proof {
        lemma_mul_bounds(
            radius_sum as int,
            radius_sum as int,
            2 * DIM_LIMIT as int,
            2 * DIM_LIMIT as int,
        );
    }
    distance_squared < radius_sum * radius_sum
}

/// The oriented-box test is not implemented; reaching it is an explicit
/// failure, never a silent miss.
pub fn is_colliding_obb() -> (r: Result<bool, CollisionError>)
    ensures
        r == Result::<bool, CollisionError>::Err(CollisionError::UnimplementedShape),
{
    Err(CollisionError::UnimplementedShape)
}

/// Dispatches the geometric test of one mode.
pub fn check_collision(
    object_1: &GraphicsObject,
    object_2: &GraphicsObject,
    mode: CollisionMode,
) -> (r: Result<bool, CollisionError>)
    requires
        object_1.valid(),
        object_2.valid(),
    ensures
        mode != CollisionMode::OBB ==> r == Result::<bool, CollisionError>::Ok(
            mode_test(mode, object_1.deep_view(), object_2.deep_view()),
        ),
        mode == CollisionMode::OBB ==> r == Result::<bool, CollisionError>::Err(
            CollisionError::UnimplementedShape,
        ),
{
    match mode {
        CollisionMode::AABB => Ok(is_colliding_aabb(object_1, object_2)),
        CollisionMode::Circle => Ok(is_colliding_circle(object_1, object_2)),
        CollisionMode::OBB => is_colliding_obb(),
    }
}

/// Whether a vector of modes holds a given mode.
fn contains_mode(modes: &Vec<CollisionMode>, m: CollisionMode) -> (r: bool)
    ensures
        r == modes@.contains(m),
{
    let mut i: usize = 0;
    while i < modes.len()
        invariant
            0 <= i <= modes.len(),
            forall|j: int| 0 <= j < i ==> modes@[j] != m,
        decreases modes.len() - i,
    {
        if modes[i] == m {
            return true;
        }
        i += 1;
    }
    false
}

/// Whether the two named objects collide: they must share a collision mode
/// whose geometric test passes, and the initiator's collision priority must
/// be at least the other's.  A missing entity or graphics object is a miss;
/// a shared oriented-box mode is an explicit error.
#[verifier::loop_isolation(false)]
pub fn is_colliding(
    object_1_name: &String,
    object_2_name: &String,
    master_entity_list: &MasterEntityList,
    master_graphics_list: &MasterGraphicsList,
) -> (r: Result<bool, CollisionError>)
    requires
        master_entity_list.wf(),
        master_graphics_list.wf(),
    ensures
        ({
            let v = is_colliding_spec(
                master_entity_list.deep_view(),
                master_graphics_list.deep_view(),
                object_1_name@,
                object_2_name@,
            );
            match r {
                Ok(b) => (b ==> v == NarrowVerdict::Hit) && (!b ==> v == NarrowVerdict::Miss),
                Err(e) => v == NarrowVerdict::Unimplemented && e
                    == CollisionError::UnimplementedShape,
            }
        }),
{
    let ghost es = master_entity_list.deep_view();
    let ghost os = master_graphics_list.deep_view();
    if let Some(entity_1) = master_entity_list.get_entity(object_1_name) {
        if let Some(entity_2) = master_entity_list.get_entity(object_2_name) {
            if entity_1.get_collision_priority() >= entity_2.get_collision_priority() {
                if let Some(object_1) = master_graphics_list.get_object(object_1_name) {
                    if let Some(object_2) = master_graphics_list.get_object(object_2_name) {
                        proof {
                            crate::registry::lemma_index_of(os, object_1_name@);
                            crate::registry::lemma_index_of(os, object_2_name@);
                        }
                        let ghost m2 = entity_2.deep_view().collision_modes;
                        let ghost g1 = object_1.deep_view();
                        let ghost g2 = object_2.deep_view();
                        let entity_1_collision_modes = entity_1.get_collision_modes();
                        let entity_2_collision_modes = entity_2.get_collision_modes();
                        let ghost m1 = entity_1_collision_modes@;
                        proof {
                            assert(m1.skip(0) =~= m1);
                        }
                        let mut i: usize = 0;
                        while i < entity_1_collision_modes.len()
                            invariant
                                0 <= i <= entity_1_collision_modes.len(),
                                m1 == entity_1_collision_modes@,
                                m2 == entity_2_collision_modes@,
                                object_1.valid(),
                                object_2.valid(),
                                g1 == object_1.deep_view(),
                                g2 == object_2.deep_view(),
                                shared_mode_scan(m1.skip(i as int), m2, g1, g2) == shared_mode_scan(
                                    m1,
                                    m2,
                                    g1,
                                    g2,
                                ),
                            decreases entity_1_collision_modes.len() - i,
                        {
                            proof {
                                assert(m1.skip(i as int)[0] == m1[i as int]);
                                assert(m1.skip(i as int).drop_first() =~= m1.skip(i as int + 1));
                            }
                            let mode = entity_1_collision_modes[i];
                            if contains_mode(entity_2_collision_modes, mode) {
                                match check_collision(object_1, object_2, mode) {
                                    Ok(true) => {
                                        return Ok(true);
                                    },
                                    Ok(false) => {},
                                    Err(e) => {
                                        return Err(e);
                                    },
                                }
                            }
                            i += 1;
                        }
                        proof {
                            assert(m1.skip(m1.len() as int).len() == 0);
                        }
                        return Ok(false);
                    }
                }
            }
        }
    }
    Ok(false)
}

/// The event recorded for a detected pair.
pub open spec fn event_view(n1: Seq<char>, n2: Seq<char>) -> CollisionEventView {
    CollisionEventView { object_name_1: n1, object_name_2: n2 }
}

/// The events an initiator produces against the remaining objects, in store
/// order; a shared oriented-box mode anywhere stops the scan with an error.
pub open spec fn events_scan(
    entities: Seq<GenericEntityView>,
    objects: Seq<GraphicsObjectView>,
    n1: Seq<char>,
    rest: Seq<GraphicsObjectView>,
) -> Result<Seq<CollisionEventView>, CollisionError>
    decreases rest.len(),
{
    if rest.len() == 0 {
        Ok(Seq::empty())
    } else {
        let o = rest[0];
        let tail = rest.drop_first();
        if o.name == n1 {
            events_scan(entities, objects, n1, tail)
        } else {
            match is_colliding_spec(entities, objects, n1, o.name) {
                NarrowVerdict::Unimplemented => Err(CollisionError::UnimplementedShape),
                NarrowVerdict::Hit => match events_scan(entities, objects, n1, tail) {
                    Ok(t) => Ok(seq![event_view(n1, o.name)] + t),
                    Err(e) => Err(e),
                },
                NarrowVerdict::Miss => events_scan(entities, objects, n1, tail),
            }
        }
    }
}

/// All events of one initiating object; an unregistered initiator produces
/// none.
pub open spec fn check_collisions_spec(
    entities: Seq<GenericEntityView>,
    objects: Seq<GraphicsObjectView>,
    n1: Seq<char>,
) -> Result<Seq<CollisionEventView>, CollisionError> {
    if lookup(objects, n1) is None {
        Ok(Seq::empty())
    } else {
        events_scan(entities, objects, n1, objects)
    }
}

/// Collects the collision events of one initiating object against every
/// other object in the graphics registry.
#[verifier::loop_isolation(false)]
fn check_collisions(
    master_entity_list: &MasterEntityList,
    master_graphics_list: &MasterGraphicsList,
    object_name: &String,
) -> (r: Result<Vec<CollisionEvent>, CollisionError>)
    requires
        master_entity_list.wf(),
        master_graphics_list.wf(),
    ensures
        ({
            let spec_r = check_collisions_spec(
                master_entity_list.deep_view(),
                master_graphics_list.deep_view(),
                object_name@,
            );
            match r {
                Ok(events) => spec_r == Ok::<_, CollisionError>(events.deep_view()),
                Err(e) => spec_r == Err::<Seq<CollisionEventView>, _>(e),
            }
        }),
{
    let ghost es = master_entity_list.deep_view();
    let ghost os = master_graphics_list.deep_view();
    let mut collision_events: Vec<CollisionEvent> = Vec::new();

    if master_graphics_list.get_object(object_name).is_none() {
        proof {
            assert(collision_events.deep_view() =~= Seq::<CollisionEventView>::empty());
        }
        return Ok(collision_events);
    }

    let all_objects = master_graphics_list.get_objects();
    proof {
        assert(os.skip(0) =~= os);
    }
    let mut i: usize = 0;
    while i < all_objects.len()
        invariant
            0 <= i <= all_objects.len(),
            match events_scan(es, os, object_name@, os.skip(i as int)) {
                Ok(t) => events_scan(es, os, object_name@, os) == Ok::<_, CollisionError>(
                    collision_events.deep_view() + t,
                ),
                Err(e) => events_scan(es, os, object_name@, os) == Err::<
                    Seq<CollisionEventView>,
                    _,
                >(e),
            },
        decreases all_objects.len() - i,
    {
        proof {
            assert(os.skip(i as int)[0] == os[i as int]);
            assert(os.skip(i as int).drop_first() =~= os.skip(i as int + 1));
        }
        let name = all_objects[i].get_name();
        if !name.eq(object_name) {
            match is_colliding(object_name, name, master_entity_list, master_graphics_list) {
                Ok(true) => {
                    let ghost before = collision_events.deep_view();
                    collision_events.push(
                        CollisionEvent {
                            object_name_1: object_name.clone(),
                            object_name_2: name.clone(),
                        },
                    );
                    proof {
                        assert(collision_events.deep_view() =~= before.push(
                            event_view(object_name@, os[i as int].name),
                        ));
                        if let Ok(t) = events_scan(es, os, object_name@, os.skip(i as int + 1)) {
                            assert(before + (seq![event_view(object_name@, os[i as int].name)] + t)
                                =~= collision_events.deep_view() + t);
                        }
                    }
                },
                Ok(false) => {},
                Err(e) => {
                    return Err(e);
                },
            }
        }
        i += 1;
    }
    proof {
        assert(os.skip(os.len() as int).len() == 0);
        assert(collision_events.deep_view() + Seq::<CollisionEventView>::empty()
            =~= collision_events.deep_view());
    }
    Ok(collision_events)
}

/// The events of every entity flagged for active collision checking, in
/// registry order.
pub open spec fn active_scan(
    entities: Seq<GenericEntityView>,
    objects: Seq<GraphicsObjectView>,
    rest: Seq<GenericEntityView>,
) -> Result<Seq<CollisionEventView>, CollisionError>
    decreases rest.len(),
{
    if rest.len() == 0 {
        Ok(Seq::empty())
    } else if !rest[0].active_collision {
        active_scan(entities, objects, rest.drop_first())
    } else {
        match check_collisions_spec(entities, objects, rest[0].name) {
            Err(e) => Err(e),
            Ok(evts) => match active_scan(entities, objects, rest.drop_first()) {
                Err(e) => Err(e),
                Ok(t) => Ok(evts + t),
            },
        }
    }
}

/// Scans every entity flagged for active collision checking against every
/// other object, and returns all detected collision events in registry
/// order.  A pair sharing the unimplemented oriented-box mode stops the scan
/// with an explicit error.
#[verifier::loop_isolation(false)]
pub fn check_active_entity_collisions(
    master_entity_list: &MasterEntityList,
    master_graphics_list: &MasterGraphicsList,
) -> (r: Result<Vec<CollisionEvent>, CollisionError>)
    requires
        master_entity_list.wf(),
        master_graphics_list.wf(),
    ensures
        ({
            let spec_r = active_scan(
                master_entity_list.deep_view(),
                master_graphics_list.deep_view(),
                master_entity_list.deep_view(),
            );
            match r {
                Ok(events) => spec_r == Ok::<_, CollisionError>(events.deep_view()),
                Err(e) => spec_r == Err::<Seq<CollisionEventView>, _>(e),
            }
        }),
{
    let ghost es = master_entity_list.deep_view();
    let ghost os = master_graphics_list.deep_view();
    let entities = master_entity_list.get_entities();
    let mut collision_events: Vec<CollisionEvent> = Vec::new();
    proof {
        assert(es.skip(0) =~= es);
    }
    let mut i: usize = 0;
    while i < entities.len()
        invariant
            0 <= i <= entities.len(),
            match active_scan(es, os, es.skip(i as int)) {
                Ok(t) => active_scan(es, os, es) == Ok::<_, CollisionError>(
                    collision_events.deep_view() + t,
                ),
                Err(e) => active_scan(es, os, es) == Err::<Seq<CollisionEventView>, _>(e),
            },
        decreases entities.len() - i,
    {
        proof {
            assert(es.skip(i as int)[0] == es[i as int]);
            assert(es.skip(i as int).drop_first() =~= es.skip(i as int + 1));
        }
        if entities[i].has_active_collision() {
            match check_collisions(master_entity_list, master_graphics_list, entities[i].get_name()) {
                Ok(mut events) => {
                    let ghost before = collision_events.deep_view();
                    let ghost evts = events.deep_view();
                    collision_events.append(&mut events);
                    proof {
                        assert(collision_events.deep_view() =~= before + evts);
                        if let Ok(t) = active_scan(es, os, es.skip(i as int + 1)) {
                            assert(before + (evts + t) =~= (before + evts) + t);
                        }
                    }
                },
                Err(e) => {
                    return Err(e);
                },
            }
        }
        i += 1;
    }
    proof {
        assert(es.skip(es.len() as int).len() == 0);
        assert(collision_events.deep_view() + Seq::<CollisionEventView>::empty()
            =~= collision_events.deep_view());
    }
    Ok(collision_events)
}

/// The change a colliding partner makes to one velocity component: the
/// velocity difference, weighted by the other's share of the total weight
/// and scaled by the receiver's own elasticity.
pub open spec fn transfer_delta(vdiff: int, w_other: int, w_total: int, e_own: int) -> int {
    div_trunc(vdiff * w_other * e_own, w_total * SCALE as int)
}

/// One entity's velocity after the weighted, elasticity-scaled exchange,
/// clamped into the velocity limit.
pub open spec fn transferred_velocity(
    v_own: Vec2,
    v_other: Vec2,
    w_other: int,
    w_total: int,
    e_own: int,
) -> Vec2 {
    Vec2 {
        x: clamp_spec(
            v_own.x + transfer_delta(v_other.x - v_own.x, w_other, w_total, e_own),
            -VEL_LIMIT as int,
            VEL_LIMIT as int,
        ) as i64,
        y: clamp_spec(
            v_own.y + transfer_delta(v_other.y - v_own.y, w_other, w_total, e_own),
            -VEL_LIMIT as int,
            VEL_LIMIT as int,
        ) as i64,
    }
}

/// One side of the velocity exchange, computed exactly in wide arithmetic.
fn transfer_component(v_own: i64, v_other: i64, w_other: i64, w_total: i64, e_own: i64) -> (r: i64)
    requires
        -VEL_LIMIT <= v_own <= VEL_LIMIT,
        -VEL_LIMIT <= v_other <= VEL_LIMIT,
        0 <= w_other <= WEIGHT_LIMIT,
        0 < w_total <= 2 * WEIGHT_LIMIT,
        0 <= e_own <= SCALE,
    ensures
        r == clamp_spec(
            v_own + transfer_delta(v_other - v_own, w_other as int, w_total as int, e_own as int),
            -VEL_LIMIT as int,
            VEL_LIMIT as int,
        ),
{
    let vdiff: i128 = v_other as i128 - v_own as i128;
    proof {
        lemma_mul_bounds(vdiff as int, w_other as int, 2 * VEL_LIMIT as int, WEIGHT_LIMIT as int);
    }
    let a2: i128 = vdiff * w_other as i128;
    proof {
        lemma_mul_bounds(
            a2 as int,
            e_own as int,
            2 * VEL_LIMIT as int * WEIGHT_LIMIT as int,
            SCALE as int,
        );
    }
    let a3: i128 = a2 * e_own as i128;
    proof {
        lemma_mul_bounds(w_total as int, SCALE as int, 2 * WEIGHT_LIMIT as int, SCALE as int);
    }
    let d: i128 = crate::fixed::div_trunc_i128(a3, w_total as i128 * SCALE as i128);
    crate::fixed::clamp_i128(v_own as i128 + d, -VEL_LIMIT, VEL_LIMIT)
}

/// The velocities of a colliding pair after the exchange: each non-static
/// entity gains a share of the velocity difference weighted by the other's
/// weight and scaled by its own elasticity; static entities never change,
/// and a weightless pair exchanges nothing.
pub open spec fn transfer_pair_spec(e1: GenericEntityView, e2: GenericEntityView) -> (Vec2, Vec2) {
    let total = e1.weight + e2.weight;
    let v1 = if e1.is_static || total == 0 {
        e1.velocity
    } else {
        transferred_velocity(e1.velocity, e2.velocity, e2.weight as int, total, e1.elasticity as int)
    };
    let v2 = if e2.is_static || total == 0 {
        e2.velocity
    } else {
        transferred_velocity(e2.velocity, e1.velocity, e1.weight as int, total, e2.elasticity as int)
    };
    (v1, v2)
}

/// Exchanges velocity between two colliding entities, as
/// [`transfer_pair_spec`] lays down.
pub fn transfer_velocity_on_collision(entity_1: &mut GenericEntity, entity_2: &mut GenericEntity)
    requires
        old(entity_1).valid(),
        old(entity_2).valid(),
    ensures
        final(entity_1).valid(),
        final(entity_2).valid(),
        final(entity_1).deep_view() == (GenericEntityView {
            velocity: transfer_pair_spec(old(entity_1).deep_view(), old(entity_2).deep_view()).0,
            ..old(entity_1).deep_view()
        }),
        final(entity_2).deep_view() == (GenericEntityView {
            velocity: transfer_pair_spec(old(entity_1).deep_view(), old(entity_2).deep_view()).1,
            ..old(entity_2).deep_view()
        }),
{
    let velocity_1 = entity_1.get_velocity();
    let velocity_2 = entity_2.get_velocity();
    let weight_1 = entity_1.get_weight();
    let weight_2 = entity_2.get_weight();
    let elasticity_1 = entity_1.get_elasticity();
    let elasticity_2 = entity_2.get_elasticity();
    let is_entity_1_static = entity_1.is_static();
    let is_entity_2_static = entity_2.is_static();

    let total_weight: i64 = weight_1 + weight_2;
    if total_weight == 0 {
        return ;
    }

    if !is_entity_1_static {
        let x = transfer_component(velocity_1.x, velocity_2.x, weight_2, total_weight, elasticity_1);
        let y = transfer_component(velocity_1.y, velocity_2.y, weight_2, total_weight, elasticity_1);
        entity_1.set_velocity(Vec2 { x, y });
    }
    if !is_entity_2_static {
        let x = transfer_component(velocity_2.x, velocity_1.x, weight_1, total_weight, elasticity_2);
        let y = transfer_component(velocity_2.y, velocity_1.y, weight_1, total_weight, elasticity_2);
        entity_2.set_velocity(Vec2 { x, y });
    }
}

/// Magnitude of a value.
pub open spec fn abs_spec(x: int) -> int {
    if x < 0 {
        -x
    } else {
        x
    }
}

/// Box overlap depth along the x axis, in doubled coordinates.
pub open spec fn overlap2_x(g1: GraphicsObjectView, g2: GraphicsObjectView) -> int {
    (g1.width + g2.width) - 2 * abs_spec(g1.position.x - g2.position.x)
}

/// Box overlap depth along the y axis, in doubled coordinates.
pub open spec fn overlap2_y(g1: GraphicsObjectView, g2: GraphicsObjectView) -> int {
    (g1.height + g2.height) - 2 * abs_spec(g1.position.y - g2.position.y)
}

/// Where a moved object ends up: pushed away from the other along the axis of
/// least penetration by the fixed separation step, clamped into the world.
pub open spec fn pushed_position(m: Vec3, o: Vec3, ox2: int, oy2: int) -> Vec3 {
    if ox2 < oy2 {
        Vec3 {
            x: clamp_spec(
                m.x + if m.x - o.x > 0 {
                    SEPARATION_STEP as int
                } else {
                    -SEPARATION_STEP as int
                },
                -POS_LIMIT as int,
                POS_LIMIT as int,
            ) as i64,
            y: m.y,
            z: m.z,
        }
    } else {
        Vec3 {
            x: m.x,
            y: clamp_spec(
                m.y + if m.y - o.y > 0 {
                    SEPARATION_STEP as int
                } else {
                    -SEPARATION_STEP as int
                },
                -POS_LIMIT as int,
                POS_LIMIT as int,
            ) as i64,
            z: m.z,
        }
    }
}

/// The graphics store after overlap resolution for the named pair: if both
/// boxes strictly overlap, the first non-static party is moved by the fixed
/// step along the axis of least penetration; static entities are never
/// moved, and a missing object leaves the store untouched.
pub open spec fn resolve_overlap_spec(
    objects: Seq<GraphicsObjectView>,
    n1: Seq<char>,
    n2: Seq<char>,
    static_1: bool,
    static_2: bool,
) -> Seq<GraphicsObjectView> {
    match (lookup(objects, n1), lookup(objects, n2)) {
        (Some(g1), Some(g2)) => {
            let ox2 = overlap2_x(g1, g2);
            let oy2 = overlap2_y(g1, g2);
            if ox2 > 0 && oy2 > 0 {
                if !static_1 {
                    objects.update(
                        crate::registry::index_of(objects, n1),
                        GraphicsObjectView {
                            position: pushed_position(g1.position, g2.position, ox2, oy2),
                            ..g1
                        },
                    )
                } else if !static_2 {
                    objects.update(
                        crate::registry::index_of(objects, n2),
                        GraphicsObjectView {
                            position: pushed_position(g2.position, g1.position, ox2, oy2),
                            ..g2
                        },
                    )
                } else {
                    objects
                }
            } else {
                objects
            }
        },
        _ => objects,
    }
}

/// Magnitude of a position difference.
fn abs_i64(x: i64) -> (r: i64)
    requires
        -4 * POS_LIMIT <= x <= 4 * POS_LIMIT,
    ensures
        r == abs_spec(x as int),
{
    if x < 0 {
        -x
    } else {
        x
    }
}

/// The new position of the moved object.
fn pushed_position_exec(m: Vec3, o: Vec3, ox2: i64, oy2: i64) -> (r: Vec3)
    requires
        m.bounded(POS_LIMIT as int),
        o.bounded(POS_LIMIT as int),
    ensures
        r == pushed_position(m, o, ox2 as int, oy2 as int),
{
    if ox2 < oy2 {
        let step: i64 = if m.x - o.x > 0 {
            SEPARATION_STEP
        } else {
            -SEPARATION_STEP
        };
        let x = crate::fixed::clamp_i128(m.x as i128 + step as i128, -POS_LIMIT, POS_LIMIT);
        Vec3 { x, y: m.y, z: m.z }
    } else {
        let step: i64 = if m.y - o.y > 0 {
            SEPARATION_STEP
        } else {
            -SEPARATION_STEP
        };
        let y = crate::fixed::clamp_i128(m.y as i128 + step as i128, -POS_LIMIT, POS_LIMIT);
        Vec3 { x: m.x, y, z: m.z }
    }
}

/// Resolves the positional overlap of a detected pair: the first non-static
/// entity's graphics object is pushed out along the axis of least
/// penetration by the fixed separation step.  A missing graphics object is a
/// lookup miss: the resolution is skipped and the store left unchanged.
pub fn resolve_overlap(
    entity_1: &GenericEntity,
    entity_2: &GenericEntity,
    master_graphics_list: &mut MasterGraphicsList,
) -> (moved: bool)
    requires
        old(master_graphics_list).wf(),
    ensures
        final(master_graphics_list).wf(),
        final(master_graphics_list).deep_view() == resolve_overlap_spec(
            old(master_graphics_list).deep_view(),
            entity_1.deep_view().name,
            entity_2.deep_view().name,
            entity_1.deep_view().is_static,
            entity_2.deep_view().is_static,
        ),
        moved == match (
            lookup(old(master_graphics_list).deep_view(), entity_1.deep_view().name),
            lookup(old(master_graphics_list).deep_view(), entity_2.deep_view().name),
        ) {
            (Some(g1), Some(g2)) => overlap2_x(g1, g2) > 0 && overlap2_y(g1, g2) > 0 && (
            !entity_1.deep_view().is_static || !entity_2.deep_view().is_static),
            _ => false,
        },
{
    let ghost os = master_graphics_list.deep_view();
    let object_1 = match master_graphics_list.get_object(entity_1.get_name()) {
        Some(o) => o.duplicate(),
        None => {
            return false;
        },
    };
    let object_2 = match master_graphics_list.get_object(entity_2.get_name()) {
        Some(o) => o.duplicate(),
        None => {
            return false;
        },
    };
    proof {
        crate::registry::lemma_index_of(os, entity_1.deep_view().name);
        crate::registry::lemma_index_of(os, entity_2.deep_view().name);
    }

    let pos_1 = object_1.get_position();
    let pos_2 = object_2.get_position();
    let (width_1, height_1) = object_1.dimensions();
    let (width_2, height_2) = object_2.dimensions();

    let diff_x = abs_i64(pos_1.x - pos_2.x);
    let diff_y = abs_i64(pos_1.y - pos_2.y);
    let overlap_x: i64 = (width_1 + width_2) - 2 * diff_x;
    let overlap_y: i64 = (height_1 + height_2) - 2 * diff_y;

    if overlap_x > 0 && overlap_y > 0 {
        if !entity_1.is_static() {
            let mut moved = object_1;
            moved.set_position(pushed_position_exec(pos_1, pos_2, overlap_x, overlap_y));
            master_graphics_list.add_object(moved);
            return true;
        } else if !entity_2.is_static() {
            let mut moved = object_2;
            moved.set_position(pushed_position_exec(pos_2, pos_1, overlap_x, overlap_y));
            master_graphics_list.add_object(moved);
            return true;
        }
    }
    false
}

/// Velocity transfer conserves the velocities of a fully static pair:
/// if both entities are static, neither velocity changes.
pub proof fn lemma_static_pair_velocity_unchanged(e1: GenericEntityView, e2: GenericEntityView)
    requires
        e1.is_static,
        e2.is_static,
    ensures
        transfer_pair_spec(e1, e2).0 == e1.velocity,
        transfer_pair_spec(e1, e2).1 == e2.velocity,
{
}

/// Membership in the tail of a mode list, related to the whole list.
proof fn lemma_modes_drop_first(s: Seq<CollisionMode>)
    requires
        s.len() > 0,
    ensures
        forall|m: CollisionMode| s.drop_first().contains(m) ==> s.contains(m),
        forall|m: CollisionMode| s.contains(m) ==> m == s[0] || s.drop_first().contains(m),
{
    assert forall|m: CollisionMode| s.drop_first().contains(m) implies s.contains(m) by {
        let i = choose|i: int| 0 <= i < s.drop_first().len() && s.drop_first()[i] == m;
        assert(s[i + 1] == m);
    }
    assert forall|m: CollisionMode| s.contains(m) implies m == s[0] || s.drop_first().contains(
        m,
    ) by {
        let i = choose|i: int| 0 <= i < s.len() && s[i] == m;
        if i > 0 {
            assert(s.drop_first()[i - 1] == m);
        }
    }
}

/// Entities with disjoint collision-mode sets never collide, whatever the
/// positions and shapes of their graphics objects.
pub proof fn lemma_disjoint_modes_scan_misses(
    modes1: Seq<CollisionMode>,
    modes2: Seq<CollisionMode>,
    g1: GraphicsObjectView,
    g2: GraphicsObjectView,
)
    requires
        forall|m: CollisionMode| !(modes1.contains(m) && modes2.contains(m)),
    ensures
        shared_mode_scan(modes1, modes2, g1, g2) == NarrowVerdict::Miss,
    decreases modes1.len(),
{
    if modes1.len() > 0 {
        assert(modes1.contains(modes1[0]));
        lemma_modes_drop_first(modes1);
        lemma_disjoint_modes_scan_misses(modes1.drop_first(), modes2, g1, g2);
    }
}

/// For all entities whose mode sets are disjoint, the narrow phase reports a
/// miss regardless of position.
pub proof fn lemma_disjoint_modes_never_collide(
    entities: Seq<GenericEntityView>,
    objects: Seq<GraphicsObjectView>,
    n1: Seq<char>,
    n2: Seq<char>,
    e1: GenericEntityView,
    e2: GenericEntityView,
)
    requires
        lookup(entities, n1) == Some(e1),
        lookup(entities, n2) == Some(e2),
        forall|m: CollisionMode|
            !(e1.collision_modes.contains(m) && e2.collision_modes.contains(m)),
    ensures
        is_colliding_spec(entities, objects, n1, n2) == NarrowVerdict::Miss,
{
    if e1.collision_priority >= e2.collision_priority {
        if let Some(g1) = lookup(objects, n1) {
            if let Some(g2) = lookup(objects, n2) {
                lemma_disjoint_modes_scan_misses(
                    e1.collision_modes,
                    e2.collision_modes,
                    g1,
                    g2,
                );
            }
        }
    }
}

/// When the only mode two entities share is a single implemented mode, the
/// scan reduces to that mode's geometric test.
pub proof fn lemma_single_shared_mode_scan(
    modes1: Seq<CollisionMode>,
    modes2: Seq<CollisionMode>,
    g1: GraphicsObjectView,
    g2: GraphicsObjectView,
    m: CollisionMode,
)
    requires
        m != CollisionMode::OBB,
        forall|k: CollisionMode| modes1.contains(k) && modes2.contains(k) ==> k == m,
    ensures
        shared_mode_scan(modes1, modes2, g1, g2) == if modes1.contains(m) && modes2.contains(m)
            && mode_test(m, g1, g2) {
            NarrowVerdict::Hit
        } else {
            NarrowVerdict::Miss
        },
    decreases modes1.len(),
{
    if modes1.len() > 0 {
        assert(modes1.contains(modes1[0]));
        lemma_modes_drop_first(modes1);
        lemma_single_shared_mode_scan(modes1.drop_first(), modes2, g1, g2, m);
    }
}

/// For all pairs registered under the priority gate whose only shared mode
/// is the axis-aligned box: they collide exactly when their boxes, taken
/// from position and half-dimensions, strictly overlap on both axes.
pub proof fn lemma_aabb_collides_iff_boxes_overlap(
    entities: Seq<GenericEntityView>,
    objects: Seq<GraphicsObjectView>,
    n1: Seq<char>,
    n2: Seq<char>,
    e1: GenericEntityView,
    e2: GenericEntityView,
    g1: GraphicsObjectView,
    g2: GraphicsObjectView,
)
    requires
        lookup(entities, n1) == Some(e1),
        lookup(entities, n2) == Some(e2),
        lookup(objects, n1) == Some(g1),
        lookup(objects, n2) == Some(g2),
        e1.collision_priority >= e2.collision_priority,
        e1.collision_modes.contains(CollisionMode::AABB),
        e2.collision_modes.contains(CollisionMode::AABB),
        forall|k: CollisionMode|
            e1.collision_modes.contains(k) && e2.collision_modes.contains(k) ==> k
                == CollisionMode::AABB,
    ensures
        is_colliding_spec(entities, objects, n1, n2) == NarrowVerdict::Hit <==> aabb_overlap(
            g1,
            g2,
        ),
{
    lemma_single_shared_mode_scan(
        e1.collision_modes,
        e2.collision_modes,
        g1,
        g2,
        CollisionMode::AABB,
    );
}

/// For all pairs registered under the priority gate whose only shared mode
/// is the circle: they collide exactly when the squared distance of their
/// centres is below the squared sum of their radii.
pub proof fn lemma_circle_collides_iff_close(
    entities: Seq<GenericEntityView>,
    objects: Seq<GraphicsObjectView>,
    n1: Seq<char>,
    n2: Seq<char>,
    e1: GenericEntityView,
    e2: GenericEntityView,
    g1: GraphicsObjectView,
    g2: GraphicsObjectView,
)
    requires
        lookup(entities, n1) == Some(e1),
        lookup(entities, n2) == Some(e2),
        lookup(objects, n1) == Some(g1),
        lookup(objects, n2) == Some(g2),
        e1.collision_priority >= e2.collision_priority,
        e1.collision_modes.contains(CollisionMode::Circle),
        e2.collision_modes.contains(CollisionMode::Circle),
        forall|k: CollisionMode|
            e1.collision_modes.contains(k) && e2.collision_modes.contains(k) ==> k
                == CollisionMode::Circle,
    ensures
        is_colliding_spec(entities, objects, n1, n2) == NarrowVerdict::Hit <==> circles_overlap(
            g1,
            g2,
        ),
{
    lemma_single_shared_mode_scan(
        e1.collision_modes,
        e2.collision_modes,
        g1,
        g2,
        CollisionMode::Circle,
    );
}

} // verus!
