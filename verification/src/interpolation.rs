//! Interpolation between two snapshots, for display.

use crate::entity::EntityState;
use crate::float::{
    deterministic, exact, holds64, is32, is64, law_clamp, law_numbers, multiplies64, one32, one64,
    subtracts64, sums64, widens, FloatOps, F32, F64,
};
use crate::frame::{framed, WIRE_MAGIC_SNAPSHOT};
use crate::math::{
    law_interpolate_deterministic, law_transform_on_the_way, law_vec3_lerp_deterministic,
    law_vec3_lerp_on_the_way, on_the_way,
};
use crate::snapshot::{SnapshotModel, WorldSnapshot};
use std::collections::HashMap;
use vstd::prelude::*;

verus! {

/// The last entity with the given id.
pub open spec fn with_id(entities: Seq<EntityState>, id: u64) -> Option<EntityState>
    decreases entities.len(),
{
    if entities.len() == 0 {
        None
    } else if entities.last().id == id {
        Some(entities.last())
    } else {
        with_id(entities.drop_last(), id)
    }
}

/// `r` is the newer entity as it is displayed: on `K`, placed between the older
/// and the newer transform and velocity where there is an older one, and as it is
/// where there is none.
pub open spec fn blends<K: FloatOps>(
    older: Option<EntityState>,
    newer: EntityState,
    t: F32,
    r: EntityState,
) -> bool {
    match older {
        Some(older) => {
            &&& r.id == newer.id
            &&& r.archetype == newer.archetype
            &&& r.flags == newer.flags
            &&& older.transform.interpolates::<K>(newer.transform, t, r.transform)
            &&& older.velocity.lerps::<K>(newer.velocity, t, r.velocity)
            &&& r.anim_state == newer.anim_state
            &&& r.anim_play_rate == newer.anim_play_rate
        },
        None => r == newer,
    }
}

/// `r` is `a + (b - a) * t` on `K`, in double precision.
pub open spec fn lerps64<K: FloatOps>(a: F64, b: F64, t: F32, r: F64) -> bool {
    exists|d: F64, w: F64, p: F64| #[trigger]
        subtracts64::<K>(b, a, d) && #[trigger] widens::<K>(t, w) && #[trigger] multiplies64::<K>(
            d,
            w,
            p,
        ) && sums64::<K>(a, p, r)
}

/// `r` is what is displayed on `K` between `a` and the newer `b`.
pub open spec fn interpolates<K: FloatOps>(
    a: SnapshotModel,
    b: SnapshotModel,
    t: F32,
    r: SnapshotModel,
) -> bool {
    &&& r.tick == b.tick
    &&& lerps64::<K>(a.sim_time_s, b.sim_time_s, t.clamped(), r.sim_time_s)
    &&& r.entities.len() == b.entities.len()
    &&& forall|i: int|
        0 <= i < b.entities.len() ==> blends::<K>(
            with_id(a.entities, (#[trigger] b.entities[i]).id),
            b.entities[i],
            t.clamped(),
            r.entities[i],
        )
    &&& r.events == b.events
    &&& r.streaming == b.streaming
}

/// The entity as it is displayed.
fn blend<K: FloatOps>(older: Option<&EntityState>, newer: &EntityState, t: F32) -> (r: EntityState)
    ensures
        blends::<K>(
            match older {
                Some(e) => Some(*e),
                None => None,
            },
            *newer,
            t,
            r,
        ),
{
    match older {
        Some(older) => EntityState {
            id: newer.id,
            archetype: newer.archetype,
            flags: newer.flags,
            transform: older.transform.interpolate::<K>(newer.transform, t),
            velocity: older.velocity.lerp::<K>(newer.velocity, t),
            anim_state: newer.anim_state,
            anim_play_rate: newer.anim_play_rate,
        },
        None => newer.clone(),
    }
}

impl WorldSnapshot {
    /// Interpolation between two authoritative snapshots, where `a` is older and `b` is
    /// newer, with `t` in `[0, 1]`.
    ///
    /// Entities are matched by [`EntityState::id`]: present in both, interpolated;
    /// only in `b`, taken as-is (it just spawned); only in `a`, dropped (it
    /// despawned). Discrete fields (archetype/flags/anim) and the event/streaming
    /// lists are taken from the newer snapshot `b`.
    pub fn interpolate<K: FloatOps>(a: &WorldSnapshot, b: &WorldSnapshot, t: F32) -> (r:
        WorldSnapshot)
        ensures
            interpolates::<K>(a.deep_view(), b.deep_view(), t, r.deep_view()),
    {
        let t = t.clamp_unit();
        let mut older: HashMap<u64, &EntityState> = HashMap::with_capacity(a.entities.len());
        let mut i: usize = 0;
        while i < a.entities.len()
            invariant
                i <= a.entities@.len(),
                forall|id: u64|
                    older@.contains_key(id) <==> with_id(a.entities@.take(i as int), id) is Some,
                forall|id: u64| #[trigger]
                    older@.contains_key(id) ==> with_id(a.entities@.take(i as int), id) == Some(
                        *older@[id],
                    ),
            decreases a.entities@.len() - i,
        {
            let e = &a.entities[i];
            older.insert(e.id, e);
            assert(a.entities@.take(i + 1).drop_last() =~= a.entities@.take(i as int));
            i = i + 1;
        }
        assert(a.entities@.take(i as int) =~= a.entities@);
        let mut entities: Vec<EntityState> = Vec::with_capacity(b.entities.len());
        let mut j: usize = 0;
        while j < b.entities.len()
            invariant
                j <= b.entities@.len(),
                entities@.len() == j,
                forall|id: u64| older@.contains_key(id) <==> with_id(a.entities@, id) is Some,
                forall|id: u64| #[trigger]
                    older@.contains_key(id) ==> with_id(a.entities@, id) == Some(*older@[id]),
                forall|k: int|
                    0 <= k < j ==> blends::<K>(
                        with_id(a.entities@, (#[trigger] b.entities@[k]).id),
                        b.entities@[k],
                        t,
                        entities@[k],
                    ),
            decreases b.entities@.len() - j,
        {
            let newer = &b.entities[j];
            let found = match older.get(&newer.id) {
                Some(e) => Some(*e),
                None => None,
            };
            entities.push(blend::<K>(found, newer, t));
            j = j + 1;
        }
        let d = K::sub64(b.sim_time_s, a.sim_time_s);
        let w = K::widen(t);
        let p = K::mul64(d, w);
        let sim_time_s = K::add64(a.sim_time_s, p);
        assert(subtracts64::<K>(b.sim_time_s, a.sim_time_s, d) && widens::<K>(t, w)
            && multiplies64::<K>(d, w, p) && sums64::<K>(a.sim_time_s, p, sim_time_s));
        let r = WorldSnapshot {
            tick: b.tick,
            sim_time_s,
            entities,
            events: b.events.clone(),
            streaming: b.streaming.clone(),
        };
        proof {
            assert(a.entities.deep_view() =~= a.entities@);
            assert(b.entities.deep_view() =~= b.entities@);
            assert(r.entities.deep_view() =~= r.entities@);
            assert(r.events.deep_view() =~= b.events.deep_view());
        }
        r
    }
}

/// The entity found for an id is the last one with it, and none is found only where
/// none has it.
pub proof fn law_with_id(entities: Seq<EntityState>, id: u64)
    ensures
        match with_id(entities, id) {
            Some(e) => exists|i: int|
                0 <= i < entities.len() && #[trigger] entities[i] == e && e.id == id && (forall|
                    j: int,
                |
                    i < j < entities.len() ==> (#[trigger] entities[j]).id != id),
            None => forall|j: int| 0 <= j < entities.len() ==> (#[trigger] entities[j]).id != id,
        },
    decreases entities.len(),
{
    if entities.len() > 0 {
        let init = entities.drop_last();
        law_with_id(init, id);
        if entities.last().id == id {
            assert(entities[entities.len() - 1] == entities.last());
        } else if let Some(e) = with_id(init, id) {
            let i = choose|i: int|
                0 <= i < init.len() && #[trigger] init[i] == e && e.id == id && forall|j: int|
                    i < j < init.len() ==> (#[trigger] init[j]).id != id;
            assert(entities[i] == e);
            assert forall|j: int| i < j < entities.len() implies (#[trigger] entities[j]).id
                != id by {
                if j < init.len() {
                    assert(init[j] == entities[j]);
                }
            }
        } else {
            assert forall|j: int| 0 <= j < entities.len() implies (#[trigger] entities[j]).id
                != id by {
                if j < init.len() {
                    assert(init[j] == entities[j]);
                }
            }
        }
    }
}

/// What is displayed are the entities of the newer snapshot, in its order and with its
/// discrete fields: one that is only in the newer snapshot is displayed as it is,
/// and one that is only in the older snapshot is not displayed.
pub proof fn law_displayed_entities<K: FloatOps>(
    a: SnapshotModel,
    b: SnapshotModel,
    t: F32,
    r: SnapshotModel,
)
    requires
        interpolates::<K>(a, b, t, r),
    ensures
        r.entities.len() == b.entities.len(),
        forall|i: int|
            0 <= i < b.entities.len() ==> {
                let (shown, newer) = (r.entities[i], #[trigger] b.entities[i]);
                &&& shown.id == newer.id
                &&& shown.archetype == newer.archetype
                &&& shown.flags == newer.flags
                &&& shown.anim_state == newer.anim_state
                &&& shown.anim_play_rate == newer.anim_play_rate
            },
        forall|i: int|
            0 <= i < b.entities.len() && (forall|j: int|
                0 <= j < a.entities.len() ==> (#[trigger] a.entities[j]).id != b.entities[i].id)
                ==> r.entities[i] == #[trigger] b.entities[i],
        forall|id: u64|
            (forall|j: int| 0 <= j < b.entities.len() ==> (#[trigger] b.entities[j]).id != id)
                ==> #[trigger] with_id(r.entities, id) is None,
{
    assert forall|i: int|
        0 <= i < b.entities.len() && (forall|j: int|
            0 <= j < a.entities.len() ==> (#[trigger] a.entities[j]).id
                != b.entities[i].id) implies r.entities[i] == #[trigger] b.entities[i] by {
        law_with_id(a.entities, b.entities[i].id);
    }
    assert forall|id: u64|
        (forall|j: int| 0 <= j < b.entities.len() ==> (#[trigger] b.entities[j]).id
            != id) implies #[trigger] with_id(r.entities, id) is None by {
        law_with_id(r.entities, id);
        if with_id(r.entities, id) is Some {
            let i = choose|i: int|
                0 <= i < r.entities.len() && #[trigger] r.entities[i] == with_id(r.entities, id)->0
                    && r.entities[i].id == id;
            assert(b.entities[i].id == id);
        }
    }
}

/// A parameter outside the interval from zero to one acts as the nearer end of it.
pub proof fn law_parameter_is_clamped<K: FloatOps>(
    a: SnapshotModel,
    b: SnapshotModel,
    t: F32,
    r: SnapshotModel,
)
    ensures
        interpolates::<K>(a, b, t, r) <==> interpolates::<K>(a, b, t.clamped(), r),
        t.less(F32::zero()) ==> (interpolates::<K>(a, b, t, r) <==> interpolates::<K>(
            a,
            b,
            F32::zero(),
            r,
        )),
        F32::one().less(t) ==> (interpolates::<K>(a, b, t, r) <==> interpolates::<K>(
            a,
            b,
            F32::one(),
            r,
        )),
{
    law_clamp(t);
}

/// On a deterministic unit two snapshots have one interpolation.
pub proof fn law_display_deterministic<K: FloatOps>(
    a: SnapshotModel,
    b: SnapshotModel,
    t: F32,
    r: SnapshotModel,
    s: SnapshotModel,
)
    requires
        deterministic::<K>(),
        interpolates::<K>(a, b, t, r),
        interpolates::<K>(a, b, t, s),
    ensures
        r == s,
{
    let u = t.clamped();
    assert forall|i: int| 0 <= i < b.entities.len() implies r.entities[i] == s.entities[i] by {
        let newer = b.entities[i];
        if let Some(older) = with_id(a.entities, newer.id) {
            let (x, y) = (r.entities[i], s.entities[i]);
            law_interpolate_deterministic::<K>(
                older.transform,
                newer.transform,
                u,
                x.transform,
                y.transform,
            );
            law_vec3_lerp_deterministic::<K>(
                older.velocity,
                newer.velocity,
                u,
                x.velocity,
                y.velocity,
            );
        }
    }
    assert(r.entities =~= s.entities);
}

/// On a deterministic unit a parameter and the same parameter clamped display the same
/// snapshot, byte for byte.
pub proof fn law_clamped_display<K: FloatOps>(
    a: SnapshotModel,
    b: SnapshotModel,
    t: F32,
    r: SnapshotModel,
    s: SnapshotModel,
)
    requires
        deterministic::<K>(),
        interpolates::<K>(a, b, t, r),
        interpolates::<K>(a, b, t.clamped(), s),
    ensures
        r == s,
        framed::<WorldSnapshot>(WIRE_MAGIC_SNAPSHOT@, r) == framed::<WorldSnapshot>(
            WIRE_MAGIC_SNAPSHOT@,
            s,
        ),
{
    law_parameter_is_clamped::<K>(a, b, t, s);
    law_display_deterministic::<K>(a, b, t, r, s);
}

/// What is displayed has the tick, the events and the streaming of the newer snapshot,
/// whatever the older one is and however far the way is gone.
pub proof fn law_display_is_of_newer<K: FloatOps>(
    a: SnapshotModel,
    b: SnapshotModel,
    t: F32,
    r: SnapshotModel,
    other: SnapshotModel,
    u: F32,
    s: SnapshotModel,
)
    requires
        interpolates::<K>(a, b, t, r),
        interpolates::<K>(other, b, u, s),
    ensures
        r.tick == b.tick,
        r.events == b.events,
        r.streaming == b.streaming,
        s.tick == r.tick,
        s.events == r.events,
        s.streaming == r.streaming,
{
}

/// `r` lies on the straight way from `a` to `b`, in double precision, as far along it as
/// `t` says: it is `a + (b - a) * t`, wherever numbers can hold each of these.
pub open spec fn on_the_way64(a: F64, b: F64, t: F32, r: F64) -> bool {
    forall|w: int, p: int|
        #![trigger holds64(w), holds64(p)]
        a.is_finite() && b.is_finite() && t.is_finite() && holds64(b.units() - a.units())
            && holds64(w) && w * one32() == t.units() * one64() && holds64(p) && p * one64() == (
        b.units() - a.units()) * w && holds64(a.units() + p) ==> is64(r, a.units() + p)
}

/// On an exact unit the displayed time lies on the way from the older time to the newer:
/// it is the older where the way is not begun.
pub proof fn law_display_time<K: FloatOps>(
    a: SnapshotModel,
    b: SnapshotModel,
    t: F32,
    r: SnapshotModel,
)
    requires
        exact::<K>(),
        interpolates::<K>(a, b, t, r),
    ensures
        on_the_way64(a.sim_time_s, b.sim_time_s, t.clamped(), r.sim_time_s),
        a.sim_time_s.is_finite() && b.sim_time_s.is_finite() && t.is_finite() && t.units() <= 0
            && holds64(b.sim_time_s.units() - a.sim_time_s.units()) ==> is64(
            r.sim_time_s,
            a.sim_time_s.units(),
        ),
{
    let c = t.clamped();
    let (x, y) = (a.sim_time_s, b.sim_time_s);
    let (d, w, p) = choose|d: F64, w: F64, p: F64| #[trigger]
        subtracts64::<K>(y, x, d) && #[trigger] widens::<K>(c, w) && #[trigger] multiplies64::<K>(
            d,
            w,
            p,
        ) && sums64::<K>(x, p, r.sim_time_s);
    assert forall|u: int, v: int|
        #![trigger holds64(u), holds64(v)]
        x.is_finite() && y.is_finite() && c.is_finite() && holds64(y.units() - x.units())
            && holds64(u) && u * one32() == c.units() * one64() && holds64(v) && v * one64() == (
        y.units() - x.units()) * u && holds64(x.units() + v) implies is64(
        r.sim_time_s,
        x.units() + v,
    ) by {
        assert(is64(d, y.units() - x.units()));
        assert(is64(w, u));
        assert(is64(p, v));
    }
    law_numbers();
    law_clamp(t);
    if x.is_finite() && y.is_finite() && t.is_finite() && t.units() <= 0 && holds64(
        y.units() - x.units(),
    ) {
        assert(is32(c, 0));
        let full = y.units() - x.units();
        assert(0 * one32() == 0 * one64() && 0 * one64() == full * 0) by (nonlinear_arith);
        assert(holds64(0) && holds64(x.units() + 0));
    }
}

/// On an exact unit an entity that is in both snapshots is displayed on the way from the
/// older to the newer: its place, its scale and its velocity, component by component. Its
/// rotation is the blend from the older toward the newer.
pub proof fn law_display_motion<K: FloatOps>(
    a: SnapshotModel,
    b: SnapshotModel,
    t: F32,
    r: SnapshotModel,
    j: int,
    i: int,
)
    requires
        exact::<K>(),
        interpolates::<K>(a, b, t, r),
        0 <= i < b.entities.len(),
        0 <= j < a.entities.len(),
        a.entities[j].id == b.entities[i].id,
        forall|k: int|
            j < k < a.entities.len() ==> (#[trigger] a.entities[k]).id != b.entities[i].id,
    ensures
        ({
            let (older, newer, shown) = (a.entities[j], b.entities[i], r.entities[i]);
            let (p, q, s) = (older.transform, newer.transform, shown.transform);
            let (v, w, x) = (older.velocity, newer.velocity, shown.velocity);
            let c = t.clamped();
            &&& on_the_way(p.translation.x, q.translation.x, c, s.translation.x)
            &&& on_the_way(p.translation.y, q.translation.y, c, s.translation.y)
            &&& on_the_way(p.translation.z, q.translation.z, c, s.translation.z)
            &&& on_the_way(p.scale.x, q.scale.x, c, s.scale.x)
            &&& on_the_way(p.scale.y, q.scale.y, c, s.scale.y)
            &&& on_the_way(p.scale.z, q.scale.z, c, s.scale.z)
            &&& p.rotation.nlerps::<K>(q.rotation, c, s.rotation)
            &&& on_the_way(v.x, w.x, c, x.x)
            &&& on_the_way(v.y, w.y, c, x.y)
            &&& on_the_way(v.z, w.z, c, x.z)
        }),
{
    let (older, newer, shown) = (a.entities[j], b.entities[i], r.entities[i]);
    law_with_id(a.entities, newer.id);
    assert(with_id(a.entities, newer.id) == Some(older));
    law_transform_on_the_way::<K>(
        older.transform,
        newer.transform,
        t.clamped(),
        shown.transform,
    );
    law_vec3_lerp_on_the_way::<K>(older.velocity, newer.velocity, t.clamped(), shown.velocity);
}

/// What a call displays has the tick, the events and the streaming of the newer snapshot,
/// and as many entities as it, with its ids.
pub proof fn law_interpolate_is_of_newer<K: FloatOps>(
    a: &WorldSnapshot,
    b: &WorldSnapshot,
    t: F32,
    r: WorldSnapshot,
)
    requires
        call_ensures(WorldSnapshot::interpolate::<K>, (a, b, t), r),
    ensures
        r.tick == b.tick,
        r.events.deep_view() == b.events.deep_view(),
        r.streaming.deep_view() == b.streaming.deep_view(),
        r.entities@.len() == b.entities@.len(),
        forall|i: int|
            0 <= i < b.entities@.len() ==> r.entities@[i].id == (#[trigger] b.entities@[i]).id,
{
    let (x, y, z) = (a.deep_view(), b.deep_view(), r.deep_view());
    law_display_is_of_newer::<K>(x, y, t, z, x, t, z);
    law_displayed_entities::<K>(x, y, t, z);
    assert(y.entities =~= b.entities@);
    assert(z.entities =~= r.entities@);
    assert forall|i: int| 0 <= i < b.entities@.len() implies r.entities@[i].id == (
    #[trigger] b.entities@[i]).id by {
        assert(y.entities[i] == b.entities@[i]);
    }
}

} // verus!
