//! Movement and physics passes over the live registries: directed
//! acceleration, synthetic friction, gravity, raw key-driven movement and
//! the integration of velocities into graphics positions.

use vstd::prelude::*;

use crate::fixed::{clamp_i128, clamp_spec, div_trunc, div_trunc_i128, isqrt_u128,
    lemma_mul_bounds, lemma_sqrt_floor_bounds, sqrt_floor, Vec2, Vec3, MICROS_PER_SECOND,
    POS_LIMIT, SCALE, VEL_LIMIT};
use crate::generic_entity::{gravity_step, GenericEntityView};
use crate::graphics_object::{GraphicsObject, GraphicsObjectView};
use crate::key_states::KeyStates;
use crate::master_entity_list::MasterEntityList;
use crate::master_graphics_list::MasterGraphicsList;
use crate::registry::{lemma_index_of, lemma_index_of_unique, lookup, upsert};
use crate::triggers::{AccelerateObjectArgs, AccelerateObjectArgsView};

verus! {

/// The magnitude of a fixed-point vector, rounded down.
pub open spec fn magnitude_spec(x: int, y: int) -> int {
    sqrt_floor((x * x + y * y) as nat) as int
}

/// The velocity after a directed acceleration: the acceleration (clamped
/// into the velocity limit, normalized to a thousandth-scale unit vector on
/// request) is integrated over `dt`, and the result is rescaled onto
/// `max_speed` if it exceeds it.
pub open spec fn accelerate_spec(v: Vec2, args: AccelerateObjectArgsView, dt: int) -> Vec2 {
    if args.acceleration.len() != 2 {
        v
    } else {
        let ax = clamp_spec(args.acceleration[0] as int, -VEL_LIMIT as int, VEL_LIMIT as int);
        let ay = clamp_spec(args.acceleration[1] as int, -VEL_LIMIT as int, VEL_LIMIT as int);
        let m = magnitude_spec(ax, ay);
        let axn = if args.normalize && m > 0 {
            div_trunc(ax * SCALE, m)
        } else {
            ax
        };
        let ayn = if args.normalize && m > 0 {
            div_trunc(ay * SCALE, m)
        } else {
            ay
        };
        let vx = clamp_spec(
            v.x + div_trunc(axn * dt, MICROS_PER_SECOND as int),
            -VEL_LIMIT as int,
            VEL_LIMIT as int,
        );
        let vy = clamp_spec(
            v.y + div_trunc(ayn * dt, MICROS_PER_SECOND as int),
            -VEL_LIMIT as int,
            VEL_LIMIT as int,
        );
        let speed = magnitude_spec(vx, vy);
        if speed > args.max_speed && speed > 0 {
            Vec2 {
                x: clamp_spec(
                    div_trunc(vx * args.max_speed, speed),
                    -VEL_LIMIT as int,
                    VEL_LIMIT as int,
                ) as i64,
                y: clamp_spec(
                    div_trunc(vy * args.max_speed, speed),
                    -VEL_LIMIT as int,
                    VEL_LIMIT as int,
                ) as i64,
            }
        } else {
            Vec2 { x: vx as i64, y: vy as i64 }
        }
    }
}

/// The magnitude of a bounded fixed-point vector.
fn magnitude(x: i64, y: i64) -> (r: i64)
    requires
        -VEL_LIMIT <= x <= VEL_LIMIT,
        -VEL_LIMIT <= y <= VEL_LIMIT,
    ensures
        r == magnitude_spec(x as int, y as int),
        0 <= r <= 2 * VEL_LIMIT,
{
    proof {
        lemma_mul_bounds(x as int, x as int, VEL_LIMIT as int, VEL_LIMIT as int);
        lemma_mul_bounds(y as int, y as int, VEL_LIMIT as int, VEL_LIMIT as int);
        assert(x as int * x as int >= 0 && y as int * y as int >= 0) by (nonlinear_arith);
        assert(2 * ((VEL_LIMIT as int) * (VEL_LIMIT as int)) < 0x1_0000_0000_0000_0000)
            by (nonlinear_arith);
    }
    let xx: u128 = (x as i128 * x as i128) as u128;
    let yy: u128 = (y as i128 * y as i128) as u128;
    let r = isqrt_u128(xx + yy);
    proof {
        let n = (xx + yy) as int;
        assert(r <= 2 * VEL_LIMIT) by (nonlinear_arith)
            requires
                r * r <= n,
                n <= 2 * ((VEL_LIMIT as int) * (VEL_LIMIT as int)),
                r >= 0,
                VEL_LIMIT > 0,
        ;
    }
    r as i64
}

/// A component is never larger in magnitude than the vector's magnitude.
proof fn lemma_component_le_magnitude(x: int, y: int)
    ensures
        -magnitude_spec(x, y) <= x <= magnitude_spec(x, y),
        -magnitude_spec(x, y) <= y <= magnitude_spec(x, y),
{
    let n = (x * x + y * y) as nat;
    assert(x * x >= 0 && y * y >= 0 && (if x < 0 {
        -x
    } else {
        x
    }) * (if x < 0 {
        -x
    } else {
        x
    }) == x * x && (if y < 0 {
        -y
    } else {
        y
    }) * (if y < 0 {
        -y
    } else {
        y
    }) == y * y) by (nonlinear_arith);
    let ax: nat = if x < 0 {
        (-x) as nat
    } else {
        x as nat
    };
    let ay: nat = if y < 0 {
        (-y) as nat
    } else {
        y as nat
    };
    assert(ax * ax <= n);
    assert(ay * ay <= n);
    lemma_sqrt_floor_bounds(n, ax);
    lemma_sqrt_floor_bounds(n, ay);
}

/// Applies a directed acceleration to a named entity's velocity and caps the
/// resulting speed, as [`accelerate_spec`] lays down.  An acceleration list
/// that does not hold exactly two components, or an unknown name, changes
/// nothing.
pub fn accelerate_object(
    accelerate_object_args: &AccelerateObjectArgs,
    master_entity_list: &mut MasterEntityList,
    delta_micros: i64,
)
    requires
        old(master_entity_list).wf(),
        0 <= delta_micros <= MICROS_PER_SECOND,
    ensures
        final(master_entity_list).wf(),
        final(master_entity_list).deep_view() == match lookup(
            old(master_entity_list).deep_view(),
            accelerate_object_args.deep_view().object_name,
        ) {
            Some(e) => upsert(
                old(master_entity_list).deep_view(),
                GenericEntityView {
                    velocity: accelerate_spec(
                        e.velocity,
                        accelerate_object_args.deep_view(),
                        delta_micros as int,
                    ),
                    ..e
                },
            ),
            None => old(master_entity_list).deep_view(),
        },
{
    let ghost el = master_entity_list.deep_view();
    let mut entity = match master_entity_list.get_entity(&accelerate_object_args.object_name) {
        Some(e) => e.duplicate(),
        None => {
            return ;
        },
    };
    proof {
        lemma_index_of(el, accelerate_object_args.deep_view().object_name);
    }
    if accelerate_object_args.acceleration.len() == 2 {
        let ax = crate::fixed::clamp_i128(
            accelerate_object_args.acceleration[0] as i128,
            -VEL_LIMIT,
            VEL_LIMIT,
        );
        let ay = crate::fixed::clamp_i128(
            accelerate_object_args.acceleration[1] as i128,
            -VEL_LIMIT,
            VEL_LIMIT,
        );
        let m = magnitude(ax, ay);
        let (axn, ayn): (i64, i64) = if accelerate_object_args.normalize && m > 0 {
            proof {
                lemma_component_le_magnitude(ax as int, ay as int);
                lemma_mul_bounds(ax as int, SCALE as int, VEL_LIMIT as int, SCALE as int);
                lemma_mul_bounds(ay as int, SCALE as int, VEL_LIMIT as int, SCALE as int);
                assert(-(m as int * SCALE as int) <= ax as int * SCALE as int <= m as int
                    * SCALE as int && -(m as int * SCALE as int) <= ay as int * SCALE as int
                    <= m as int * SCALE as int) by (nonlinear_arith)
                    requires
                        -(m as int) <= ax as int <= m as int,
                        -(m as int) <= ay as int <= m as int,
                        SCALE as int > 0,
                ;
            }
            let nx = div_trunc_i128(ax as i128 * SCALE as i128, m as i128);
            let ny = div_trunc_i128(ay as i128 * SCALE as i128, m as i128);
            proof {
                crate::fixed::lemma_div_trunc_bound(ax as int * SCALE as int, m as int, SCALE as int);
                crate::fixed::lemma_div_trunc_bound(ay as int * SCALE as int, m as int, SCALE as int);
            }
            (nx as i64, ny as i64)
        } else {
            (ax, ay)
        };
        proof {
            lemma_mul_bounds(
                axn as int,
                delta_micros as int,
                VEL_LIMIT as int,
                MICROS_PER_SECOND as int,
            );
            lemma_mul_bounds(
                ayn as int,
                delta_micros as int,
                VEL_LIMIT as int,
                MICROS_PER_SECOND as int,
            );
        }
        let velocity = entity.get_velocity();
        let dvx = div_trunc_i128(
            axn as i128 * delta_micros as i128,
            MICROS_PER_SECOND as i128,
        );
        let dvy = div_trunc_i128(
            ayn as i128 * delta_micros as i128,
            MICROS_PER_SECOND as i128,
        );
        let vx = clamp_i128(velocity.x as i128 + dvx, -VEL_LIMIT, VEL_LIMIT);
        let vy = clamp_i128(velocity.y as i128 + dvy, -VEL_LIMIT, VEL_LIMIT);

        let current_speed = magnitude(vx, vy);
        if current_speed > accelerate_object_args.max_speed && current_speed > 0 {
            proof {
                lemma_mul_bounds(
                    vx as int,
                    accelerate_object_args.max_speed as int,
                    VEL_LIMIT as int,
                    0x8000_0000_0000_0000,
                );
                lemma_mul_bounds(
                    vy as int,
                    accelerate_object_args.max_speed as int,
                    VEL_LIMIT as int,
                    0x8000_0000_0000_0000,
                );
                assert(VEL_LIMIT as int * 0x8000_0000_0000_0000 == 9_223_372_036_854_775_808_000_000_000int)
                    by (nonlinear_arith)
                    requires
                        VEL_LIMIT as int == 1_000_000_000,
                ;
                assert(9_223_372_036_854_775_808_000_000_000int < crate::fixed::PRODUCT_LIMIT as int);
            }
            let cx = div_trunc_i128(
                vx as i128 * accelerate_object_args.max_speed as i128,
                current_speed as i128,
            );
            let cy = div_trunc_i128(
                vy as i128 * accelerate_object_args.max_speed as i128,
                current_speed as i128,
            );
            entity.set_velocity(
                Vec2 {
                    x: clamp_i128(cx, -VEL_LIMIT, VEL_LIMIT),
                    y: clamp_i128(cy, -VEL_LIMIT, VEL_LIMIT),
                },
            );
        } else {
            entity.set_velocity(Vec2 { x: vx, y: vy });
        }
    }
    master_entity_list.add_entity(entity);
}

/// Friction derived from collision prediction; the synthetic friction pass
/// below stands in for it, and this step changes nothing.
pub fn process_object_friction() {
}

/// The sign of a value, as the friction pass uses it.
pub open spec fn sign_spec(x: int) -> int {
    if x > 0 {
        1
    } else if x < 0 {
        -1
    } else {
        0
    }
}

/// One velocity component after a synthetic friction step: a base friction
/// plus a share of the speed, integrated over `dt` against the direction of
/// motion.  A step that crosses rest is caught by looking one step ahead
/// from the updated component's own direction, and stops the component.
pub open spec fn friction_component_spec(v: int, vf: int, bf: int, dt: int) -> int {
    if v == 0 {
        0
    } else {
        let f = bf + div_trunc(vf * (if v < 0 {
            -v
        } else {
            v
        }), SCALE as int);
        let step = div_trunc(f * dt, MICROS_PER_SECOND as int);
        let v1 = v - step * sign_spec(v);
        if sign_spec(v1) != sign_spec(v1 - step * sign_spec(v1)) {
            0
        } else {
            clamp_spec(v1, -VEL_LIMIT as int, VEL_LIMIT as int)
        }
    }
}

/// An entity's velocity after the synthetic friction pass.
pub open spec fn friction_spec(
    e: GenericEntityView,
    vf: int,
    bf: int,
    vertical_friction: bool,
    dt: int,
) -> Vec2 {
    Vec2 {
        x: friction_component_spec(e.velocity.x as int, vf, bf, dt) as i64,
        y: if vertical_friction {
            friction_component_spec(e.velocity.y as int, vf, bf, dt) as i64
        } else {
            e.velocity.y
        },
    }
}

/// One friction component, computed exactly.
fn friction_component(v: i64, vf: i64, bf: i64, dt: i64) -> (r: i64)
    requires
        -VEL_LIMIT <= v <= VEL_LIMIT,
        0 <= vf <= 1_000_000,
        0 <= bf <= VEL_LIMIT,
        0 <= dt <= MICROS_PER_SECOND,
    ensures
        r == friction_component_spec(v as int, vf as int, bf as int, dt as int),
        -VEL_LIMIT <= r <= VEL_LIMIT,
{
    if v == 0 {
        return 0;
    }
    let av: i64 = if v < 0 {
        -v
    } else {
        v
    };
    proof {
        lemma_mul_bounds(vf as int, av as int, 1_000_000, VEL_LIMIT as int);
    }
    let f: i128 = bf as i128 + div_trunc_i128(vf as i128 * av as i128, SCALE as i128);
    proof {
        lemma_mul_bounds(
            f as int,
            dt as int,
            VEL_LIMIT as int + 1_000_000 * VEL_LIMIT as int / SCALE as int,
            MICROS_PER_SECOND as int,
        );
    }
    let sign: i128 = if v > 0 {
        1
    } else {
        -1
    };
    let step: i128 = div_trunc_i128(f * dt as i128, MICROS_PER_SECOND as i128);
    let v1: i128 = v as i128 - step * sign;
    let sign_v1: i128 = if v1 > 0 {
        1
    } else if v1 < 0 {
        -1
    } else {
        0
    };
    proof {
        crate::fixed::lemma_div_trunc_bound(
            f as int * dt as int,
            MICROS_PER_SECOND as int,
            VEL_LIMIT as int + 1_000_000 * VEL_LIMIT as int / SCALE as int,
        );
        lemma_mul_bounds(
            step as int,
            sign_v1 as int,
            VEL_LIMIT as int + 1_000_000 * VEL_LIMIT as int / SCALE as int,
            1,
        );
    }
    let v2: i128 = v1 - step * sign_v1;
    let sign_v2: i128 = if v2 > 0 {
        1
    } else if v2 < 0 {
        -1
    } else {
        0
    };
    if sign_v1 != sign_v2 {
        0
    } else {
        clamp_i128(v1, -VEL_LIMIT, VEL_LIMIT)
    }
}

/// Applies the synthetic friction pass to every live entity, for top-down or
/// zero-gravity scenes; vertical friction is applied only on request.
#[verifier::loop_isolation(false)]
pub fn process_all_entities_fake_friction(
    velocity_friction: i64,
    base_friction: i64,
    master_entity_list: &mut MasterEntityList,
    vertical_friction: bool,
    delta_micros: i64,
)
    requires
        old(master_entity_list).wf(),
        0 <= velocity_friction <= 1_000_000,
        0 <= base_friction <= VEL_LIMIT,
        0 <= delta_micros <= MICROS_PER_SECOND,
    ensures
        final(master_entity_list).wf(),
        final(master_entity_list).deep_view().len() == old(master_entity_list).deep_view().len(),
        forall|i: int|
            0 <= i < old(master_entity_list).deep_view().len()
                ==> final(master_entity_list).deep_view()[i] == (GenericEntityView {
                velocity: friction_spec(
                    old(master_entity_list).deep_view()[i],
                    velocity_friction as int,
                    base_friction as int,
                    vertical_friction,
                    delta_micros as int,
                ),
                ..old(master_entity_list).deep_view()[i]
            }),
{
    let ghost el = master_entity_list.deep_view();
    let count = master_entity_list.len();
    let mut i: usize = 0;
    while i < count
        invariant
            0 <= i <= count,
            count == el.len(),
            master_entity_list.wf(),
            master_entity_list.deep_view().len() == el.len(),
            forall|j: int|
                i <= j < el.len() ==> master_entity_list.deep_view()[j] == el[j],
            forall|j: int|
                0 <= j < i ==> master_entity_list.deep_view()[j] == (GenericEntityView {
                    velocity: friction_spec(
                        el[j],
                        velocity_friction as int,
                        base_friction as int,
                        vertical_friction,
                        delta_micros as int,
                    ),
                    ..el[j]
                }),
        decreases count - i,
    {
        proof {
            assert(master_entity_list.deep_view()[i as int].valid());
        }
        let mut entity = master_entity_list.get_entities()[i].duplicate();
        let velocity = entity.get_velocity();
        let x = friction_component(velocity.x, velocity_friction, base_friction, delta_micros);
        let y = if vertical_friction {
            friction_component(velocity.y, velocity_friction, base_friction, delta_micros)
        } else {
            velocity.y
        };
        entity.set_velocity(Vec2 { x, y });
        proof {
            lemma_index_of_unique(master_entity_list.deep_view(), el[i as int].name, i as int);
        }
        master_entity_list.add_entity(entity);
        i += 1;
    }
}

/// Applies gravity and the terminal-velocity clamp to every live entity.
#[verifier::loop_isolation(false)]
pub fn gravity(
    gravity: Vec2,
    terminal_velocity: Vec2,
    master_entity_list: &mut MasterEntityList,
    delta_micros: i64,
)
    requires
        old(master_entity_list).wf(),
        gravity.bounded(VEL_LIMIT as int),
        0 <= terminal_velocity.x <= VEL_LIMIT,
        0 <= terminal_velocity.y <= VEL_LIMIT,
        0 <= delta_micros <= MICROS_PER_SECOND,
    ensures
        final(master_entity_list).wf(),
        final(master_entity_list).deep_view().len() == old(master_entity_list).deep_view().len(),
        forall|i: int|
            0 <= i < old(master_entity_list).deep_view().len()
                ==> final(master_entity_list).deep_view()[i] == (GenericEntityView {
                velocity: if old(master_entity_list).deep_view()[i].affected_by_gravity {
                    gravity_step(
                        old(master_entity_list).deep_view()[i].velocity,
                        gravity,
                        terminal_velocity,
                        delta_micros as int,
                    )
                } else {
                    old(master_entity_list).deep_view()[i].velocity
                },
                ..old(master_entity_list).deep_view()[i]
            }),
{
    let ghost el = master_entity_list.deep_view();
    let count = master_entity_list.len();
    let mut i: usize = 0;
    while i < count
        invariant
            0 <= i <= count,
            count == el.len(),
            master_entity_list.wf(),
            master_entity_list.deep_view().len() == el.len(),
            forall|j: int|
                i <= j < el.len() ==> master_entity_list.deep_view()[j] == el[j],
            forall|j: int|
                0 <= j < i ==> master_entity_list.deep_view()[j] == (GenericEntityView {
                    velocity: if el[j].affected_by_gravity {
                        gravity_step(
                            el[j].velocity,
                            gravity,
                            terminal_velocity,
                            delta_micros as int,
                        )
                    } else {
                        el[j].velocity
                    },
                    ..el[j]
                }),
        decreases count - i,
    {
        proof {
            assert(master_entity_list.deep_view()[i as int].valid());
        }
        let mut entity = master_entity_list.get_entities()[i].duplicate();
        entity.apply_gravity(gravity, terminal_velocity, delta_micros);
        proof {
            lemma_index_of_unique(master_entity_list.deep_view(), el[i as int].name, i as int);
        }
        master_entity_list.add_entity(entity);
        i += 1;
    }
}

/// A graphics object's position after one movement step of a velocity.
pub open spec fn moved_position(p: Vec3, v: Vec2, dt: int) -> Vec3 {
    Vec3 {
        x: clamp_spec(
            p.x + div_trunc(v.x * dt, MICROS_PER_SECOND as int),
            -POS_LIMIT as int,
            POS_LIMIT as int,
        ) as i64,
        y: clamp_spec(
            p.y + div_trunc(v.y * dt, MICROS_PER_SECOND as int),
            -POS_LIMIT as int,
            POS_LIMIT as int,
        ) as i64,
        z: p.z,
    }
}

/// The graphics store after integrating every entity's velocity into its
/// paired object's position; entities without a paired object are skipped.
pub open spec fn move_all_spec(
    entities: Seq<GenericEntityView>,
    objects: Seq<GraphicsObjectView>,
    dt: int,
) -> Seq<GraphicsObjectView>
    decreases entities.len(),
{
    if entities.len() == 0 {
        objects
    } else {
        let stepped = match lookup(objects, entities[0].name) {
            Some(g) => upsert(
                objects,
                GraphicsObjectView {
                    position: moved_position(g.position, entities[0].velocity, dt),
                    ..g
                },
            ),
            None => objects,
        };
        move_all_spec(entities.drop_first(), stepped, dt)
    }
}

/// Integrates every entity's velocity into its paired graphics object's
/// position over `dt`.
#[verifier::loop_isolation(false)]
pub fn process_movement(
    master_entity_list: &MasterEntityList,
    master_graphics_list: &mut MasterGraphicsList,
    delta_micros: i64,
)
    requires
        master_entity_list.wf(),
        old(master_graphics_list).wf(),
        0 <= delta_micros <= MICROS_PER_SECOND,
    ensures
        final(master_graphics_list).wf(),
        final(master_graphics_list).deep_view() == move_all_spec(
            master_entity_list.deep_view(),
            old(master_graphics_list).deep_view(),
            delta_micros as int,
        ),
{
    let ghost el = master_entity_list.deep_view();
    let entities = master_entity_list.get_entities();
    proof {
        assert(el.skip(0) =~= el);
    }
    let mut i: usize = 0;
    while i < entities.len()
        invariant
            0 <= i <= entities.len(),
            master_graphics_list.wf(),
            move_all_spec(el.skip(i as int), master_graphics_list.deep_view(), delta_micros as int)
                == move_all_spec(
                el,
                old(master_graphics_list).deep_view(),
                delta_micros as int,
            ),
        decreases entities.len() - i,
    {
        proof {
            assert(el.skip(i as int)[0] == el[i as int]);
            assert(el.skip(i as int).drop_first() =~= el.skip(i as int + 1));
        }
        let entity = &entities[i];
        let ghost os = master_graphics_list.deep_view();
        if let Some(found) = master_graphics_list.get_object(entity.get_name()) {
            let mut graphics_object = found.duplicate();
            proof {
                lemma_index_of(os, el[i as int].name);
            }
            let velocity = entity.get_velocity();
            proof {
                lemma_mul_bounds(
                    velocity.x as int,
                    delta_micros as int,
                    VEL_LIMIT as int,
                    MICROS_PER_SECOND as int,
                );
                lemma_mul_bounds(
                    velocity.y as int,
                    delta_micros as int,
                    VEL_LIMIT as int,
                    MICROS_PER_SECOND as int,
                );
            }
            let position = graphics_object.get_position();
            let dx = div_trunc_i128(
                velocity.x as i128 * delta_micros as i128,
                MICROS_PER_SECOND as i128,
            );
            let dy = div_trunc_i128(
                velocity.y as i128 * delta_micros as i128,
                MICROS_PER_SECOND as i128,
            );
            graphics_object.set_position(
                Vec3 {
                    x: clamp_i128(position.x as i128 + dx, -POS_LIMIT, POS_LIMIT),
                    y: clamp_i128(position.y as i128 + dy, -POS_LIMIT, POS_LIMIT),
                    z: position.z,
                },
            );
            master_graphics_list.add_object(graphics_object);
        }
        i += 1;
    }
    proof {
        assert(el.skip(el.len() as int).len() == 0);
    }
}

/// A graphics object's state after the raw key-driven movement step: held
/// direction keys move it one unit per second each, the two turn keys rotate
/// it two radians per second, and the reset key squares the rotation away.
pub open spec fn raw_movement_spec(g: GraphicsObjectView, pressed: Seq<char>, dt: int) -> GraphicsObjectView {
    let d = div_trunc(SCALE as int * dt, MICROS_PER_SECOND as int);
    let rd = div_trunc(2 * SCALE as int * dt, MICROS_PER_SECOND as int);
    let dx = (if pressed.contains('D') {
        d
    } else {
        0
    }) - (if pressed.contains('A') {
        d
    } else {
        0
    });
    let dy = (if pressed.contains('W') {
        d
    } else {
        0
    }) - (if pressed.contains('S') {
        d
    } else {
        0
    });
    let dr = (if pressed.contains('Q') {
        rd
    } else {
        0
    }) - (if pressed.contains('E') {
        rd
    } else {
        0
    });
    GraphicsObjectView {
        position: Vec3 {
            x: clamp_spec(g.position.x + dx, -POS_LIMIT as int, POS_LIMIT as int) as i64,
            y: clamp_spec(g.position.y + dy, -POS_LIMIT as int, POS_LIMIT as int) as i64,
            z: g.position.z,
        },
        rotation: if pressed.contains('G') {
            0
        } else {
            clamp_spec(g.rotation + dr, -POS_LIMIT as int, POS_LIMIT as int) as i64
        },
        ..g
    }
}

/// Raw, direct movement of a controlled object from the held keys.
pub fn process_object_raw_movement(
    controlled_obj: &mut GraphicsObject,
    key_states: &KeyStates,
    delta_micros: i64,
)
    requires
        old(controlled_obj).valid(),
        0 <= delta_micros <= MICROS_PER_SECOND,
    ensures
        final(controlled_obj).valid(),
        final(controlled_obj).deep_view() == raw_movement_spec(
            old(controlled_obj).deep_view(),
            key_states.deep_view(),
            delta_micros as int,
        ),
{
    let d: i64 = div_trunc_i128(
        SCALE as i128 * delta_micros as i128,
        MICROS_PER_SECOND as i128,
    ) as i64;
    let rd: i64 = div_trunc_i128(
        2 * SCALE as i128 * delta_micros as i128,
        MICROS_PER_SECOND as i128,
    ) as i64;
    let mut dx: i64 = 0;
    let mut dy: i64 = 0;
    let mut dr: i64 = 0;
    if key_states.is_key_pressed_raw('D') {
        dx = dx + d;
    }
    if key_states.is_key_pressed_raw('A') {
        dx = dx - d;
    }
    if key_states.is_key_pressed_raw('W') {
        dy = dy + d;
    }
    if key_states.is_key_pressed_raw('S') {
        dy = dy - d;
    }
    if key_states.is_key_pressed_raw('Q') {
        dr = dr + rd;
    }
    if key_states.is_key_pressed_raw('E') {
        dr = dr - rd;
    }
    let position = controlled_obj.get_position();
    controlled_obj.set_position(
        Vec3 {
            x: clamp_i128(position.x as i128 + dx as i128, -POS_LIMIT, POS_LIMIT),
            y: clamp_i128(position.y as i128 + dy as i128, -POS_LIMIT, POS_LIMIT),
            z: position.z,
        },
    );
    if key_states.is_key_pressed_raw('G') {
        controlled_obj.set_rotation(0);
    } else {
        let rotation = controlled_obj.get_rotation();
        controlled_obj.set_rotation(clamp_i128(rotation as i128 + dr as i128, -POS_LIMIT, POS_LIMIT));
    }
}

} // verus!
