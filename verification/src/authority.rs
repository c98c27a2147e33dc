//! A tiny, deterministic stand-in for the authoritative game simulation.
//!
//! It ticks at a fixed timestep, consumes [`PlayerInput`], and emits a
//! [`WorldSnapshot`] each tick for the renderer to display.

use crate::codec::Wire;
use crate::entity::{EntityState, Event, FLAG_LOCAL_PLAYER, FLAG_VISIBLE};
use crate::float::{
    converts, cosines, deterministic, divides, exact, holds32, holds64, is32, is64, law_numbers,
    magnitude, multiplies, narrows, one32, roots, sines, sums, sums64, FloatOps, F32, F64,
};
use crate::frame::{framed, WIRE_MAGIC_SNAPSHOT};
use crate::input::PlayerInput;
use crate::math::{Quat, Transform, Vec3};
use crate::snapshot::{SnapshotModel, WorldSnapshot};
use crate::streaming::{
    DataLayerModel, DataLayerRuntimeState, DataLayerState, StreamingModel, StreamingSource,
    StreamingState, StreamingTargetState,
};
use vstd::arithmetic::power2::{lemma2_to64, lemma_pow2_adds, lemma_pow2_pos, pow2};
use vstd::prelude::*;

verus! {

/// Number of orbiting "AI" agents the example spawns.
pub const NUM_AGENTS: u64 = 8;

/// Player movement speed: the bits of 600 cm/s.
pub const PLAYER_SPEED: u32 = 0x4416_0000;

/// Streaming-source activation radius around the player: the bits of 12000 cm.
pub const STREAM_RADIUS: u32 = 0x463b_8000;

/// The length up to which an input direction counts as none: the bits of 0.000001.
pub const DEAD_ZONE: u32 = 0x3586_37bd;

/// A full turn in radians, as bits.
pub const TAU: u32 = 0x40c9_0fdb;

/// How fast the agents orbit: the bits of 0.5 radians per second.
pub const ORBIT_RATE: u32 = 0x3f00_0000;

/// The radius of the agents' orbit: the bits of 1500 cm.
pub const ORBIT_RADIUS: u32 = 0x44bb_8000;

/// What a [`Sim`] holds.
pub struct SimModel {
    pub tick: u64,
    pub time_s: F64,
    pub player_pos: Vec3,
    pub player_vel: Vec3,
    pub pending_input: PlayerInput,
    /// The renderer was told of the entities.
    pub spawned: bool,
}

/// The authoritative world.
pub struct Sim {
    tick: u64,
    time_s: F64,
    player_pos: Vec3,
    player_vel: Vec3,
    pending_input: PlayerInput,
    /// Set by the first snapshot so the renderer gets its spawn events once.
    spawned: bool,
}

impl View for Sim {
    type V = SimModel;

    closed spec fn view(&self) -> SimModel {
        SimModel {
            tick: self.tick,
            time_s: self.time_s,
            player_pos: self.player_pos,
            player_vel: self.player_vel,
            pending_input: self.pending_input,
            spawned: self.spawned,
        }
    }
}

/// The world before its first tick.
pub open spec fn initial() -> SimModel {
    SimModel {
        tick: 0,
        time_s: F64::zero(),
        player_pos: Vec3::zero(),
        player_vel: Vec3::zero(),
        pending_input: PlayerInput::idle(),
        spawned: false,
    }
}

/// The world with another intent queued.
pub open spec fn with_input(s: SimModel, input: PlayerInput) -> SimModel {
    SimModel { pending_input: input, ..s }
}

/// `r` is the length of `v` on `K`.
pub open spec fn measures<K: FloatOps>(v: Vec3, r: F32) -> bool {
    exists|xx: F32, yy: F32, zz: F32, xy: F32, xyz: F32| #[trigger]
        multiplies::<K>(v.x, v.x, xx) && #[trigger] multiplies::<K>(v.y, v.y, yy)
            && #[trigger] multiplies::<K>(v.z, v.z, zz) && #[trigger] sums::<K>(xx, yy, xy)
            && #[trigger] sums::<K>(xy, zz, xyz) && roots::<K>(xyz, r)
}

/// `r` is `c / len` times the player's speed, on `K`.
pub open spec fn paces<K: FloatOps>(c: F32, len: F32, r: F32) -> bool {
    exists|q: F32| #[trigger]
        divides::<K>(c, len, q) && multiplies::<K>(q, (F32 { bits: PLAYER_SPEED }), r)
}

/// `r` is the velocity that an input direction asks for, on `K`: the player's speed
/// along it, or none where the direction is no longer than the dead zone.
pub open spec fn drives<K: FloatOps>(dir: Vec3, r: Vec3) -> bool {
    exists|len: F32| #[trigger]
        measures::<K>(dir, len) && if (F32 { bits: DEAD_ZONE }).less(len) {
            &&& paces::<K>(dir.x, len, r.x)
            &&& paces::<K>(dir.y, len, r.y)
            &&& paces::<K>(dir.z, len, r.z)
        } else {
            r == Vec3::zero()
        }
}

/// `r` is `p + v * dt` on `K`.
pub open spec fn advances<K: FloatOps>(p: F32, v: F32, dt: F32, r: F32) -> bool {
    exists|d: F32| #[trigger] multiplies::<K>(v, dt, d) && sums::<K>(p, d, r)
}

/// `r` is the world `s` after a step of `dt` seconds, on `K`.
pub open spec fn steps<K: FloatOps>(s: SimModel, dt: F64, r: SimModel) -> bool {
    &&& r.tick == s.tick + 1
    &&& sums64::<K>(s.time_s, dt, r.time_s)
    &&& drives::<K>(s.pending_input.move_dir, r.player_vel)
    &&& exists|dt32: F32| #[trigger]
        narrows::<K>(dt, dt32) && advances::<K>(
            s.player_pos.x,
            r.player_vel.x,
            dt32,
            r.player_pos.x,
        ) && advances::<K>(s.player_pos.y, r.player_vel.y, dt32, r.player_pos.y) && advances::<K>(
            s.player_pos.z,
            r.player_vel.z,
            dt32,
            r.player_pos.z,
        )
    &&& r.pending_input == s.pending_input
    &&& r.spawned == s.spawned
}

/// The local player as the renderer sees it.
pub open spec fn player(s: SimModel) -> EntityState {
    EntityState {
        id: 0,
        archetype: 1,
        flags: FLAG_VISIBLE | FLAG_LOCAL_PLAYER,
        transform: Transform {
            translation: s.player_pos,
            rotation: Quat::identity(),
            scale: Vec3::one(),
        },
        velocity: s.player_vel,
        anim_state: if s.player_vel.same(Vec3::zero()) {
            0
        } else {
            1
        },
        anim_play_rate: F32::one(),
    }
}

/// An agent at the given place, as the renderer sees it.
pub open spec fn agent(id: u64, place: Vec3) -> EntityState {
    EntityState {
        id,
        archetype: 2,
        flags: FLAG_VISIBLE,
        transform: Transform {
            translation: place,
            rotation: Quat::identity(),
            scale: Vec3::one(),
        },
        velocity: Vec3::zero(),
        anim_state: 1,
        anim_play_rate: F32::one(),
    }
}

/// `r` is the angle of agent `i` at time `t`, on `K`: `t` times the orbit's rate,
/// plus the agent's share of a full turn.
pub open spec fn turns<K: FloatOps>(t: F32, i: u64, r: F32) -> bool {
    exists|n: F32, whole: F32, count: F32, phase: F32, swept: F32| #[trigger]
        converts::<K>(i, n) && #[trigger] multiplies::<K>(n, (F32 { bits: TAU }), whole)
            && #[trigger] converts::<K>(NUM_AGENTS, count) && #[trigger] divides::<K>(
            whole,
            count,
            phase,
        ) && #[trigger] multiplies::<K>(t, (F32 { bits: ORBIT_RATE }), swept) && sums::<K>(
            swept,
            phase,
            r,
        )
}

/// `r` is the place of agent `i` at time `t`, on `K`: on the orbit, at the agent's
/// angle.
pub open spec fn orbits<K: FloatOps>(t: F32, i: u64, r: Vec3) -> bool {
    exists|angle: F32, c: F32, s: F32| #[trigger]
        turns::<K>(t, i, angle) && #[trigger] cosines::<K>(angle, c) && #[trigger] sines::<K>(
            angle,
            s,
        ) && multiplies::<K>((F32 { bits: ORBIT_RADIUS }), c, r.x) && multiplies::<K>(
            (F32 { bits: ORBIT_RADIUS }),
            s,
            r.y,
        ) && r.z == F32::zero()
}

/// Behind the player stand the agents, in order, each at its place at time `t`, on `K`.
pub open spec fn places_agents<K: FloatOps>(t: F32, entities: Seq<EntityState>) -> bool {
    forall|i: u64|
        1 <= i <= NUM_AGENTS ==> {
            let e = #[trigger] entities[i as int];
            e == agent(i, e.transform.translation) && orbits::<K>(t, i, e.transform.translation)
        }
}

/// A spawn event for each entity, in order.
pub open spec fn spawns(entities: Seq<EntityState>) -> Seq<Event> {
    Seq::new(
        entities.len(),
        |i: int| Event::Spawn { id: entities[i].id, archetype: entities[i].archetype },
    )
}

/// One activation source following the player, and the gameplay layer kept active.
pub open spec fn directives(s: SimModel) -> StreamingModel {
    StreamingModel {
        sources: seq![
            StreamingSource {
                position: s.player_pos,
                radius: F32 { bits: STREAM_RADIUS },
                grid: 0,
                target: StreamingTargetState::Activated,
                priority: 100,
            },
        ],
        data_layers: seq![
            DataLayerModel { name: "Gameplay"@, state: DataLayerRuntimeState::Activated },
        ],
    }
}

/// `r` shows the world `s`, with the agents placed on `K`.
pub open spec fn shows<K: FloatOps>(s: SimModel, r: SnapshotModel) -> bool {
    &&& r.tick == s.tick
    &&& r.sim_time_s == s.time_s
    &&& r.entities.len() == NUM_AGENTS + 1
    &&& r.entities[0] == player(s)
    &&& exists|t: F32| #[trigger]
        narrows::<K>(s.time_s, t) && places_agents::<K>(t, r.entities)
    &&& r.events == if s.spawned {
        Seq::empty()
    } else {
        spawns(r.entities)
    }
    &&& r.streaming == directives(s)
}

impl Sim {
    /// A world before its first tick.
    pub fn new() -> (r: Self)
        ensures
            r@ == initial(),
    {
        Self {
            tick: 0,
            time_s: F64::zero(),
            player_pos: Vec3::zero(),
            player_vel: Vec3::zero(),
            pending_input: PlayerInput::idle(),
            spawned: false,
        }
    }

    /// Queue the latest local player's intent. Last write wins per tick.
    pub fn apply_input(&mut self, input: PlayerInput)
        ensures
            final(self)@ == with_input(old(self)@, input),
    {
        self.pending_input = input;
    }

    /// Whether the tick counter can still count a step.
    pub fn can_step(&self) -> (r: bool)
        ensures
            r == (self@.tick < u64::MAX),
    {
        self.tick < u64::MAX
    }

    /// Advance the simulation by `dt` seconds.
    pub fn step<K: FloatOps>(&mut self, dt: F64)
        requires
            old(self)@.tick < u64::MAX,
        ensures
            steps::<K>(old(self)@, dt, final(self)@),
    {
        let dt32 = K::narrow(dt);
        assert(narrows::<K>(dt, dt32));
        self.player_vel = wanted_velocity::<K>(self.pending_input.move_dir);
        self.player_pos = Vec3::new(
            advance::<K>(self.player_pos.x, self.player_vel.x, dt32),
            advance::<K>(self.player_pos.y, self.player_vel.y, dt32),
            advance::<K>(self.player_pos.z, self.player_vel.z, dt32),
        );
        self.time_s = K::add64(self.time_s, dt);
        self.tick = self.tick + 1;
    }

    /// Build a snapshot of the current authoritative state.
    pub fn snapshot<K: FloatOps>(&mut self) -> (r: WorldSnapshot)
        ensures
            shows::<K>(old(self)@, r.deep_view()),
            final(self)@ == (SimModel { spawned: true, ..old(self)@ }),
    {
        let t = K::narrow(self.time_s);
        assert(narrows::<K>(self.time_s, t));
        let mut entities: Vec<EntityState> = Vec::with_capacity(NUM_AGENTS as usize + 1);
        entities.push(
            EntityState {
                id: 0,
                archetype: 1,  // catalog index: "player character"
                flags: FLAG_VISIBLE | FLAG_LOCAL_PLAYER,
                transform: Transform {
                    translation: self.player_pos,
                    rotation: Quat::identity(),
                    scale: Vec3::one(),
                },
                velocity: self.player_vel,
                anim_state: if self.player_vel == Vec3::zero() {
                    0
                } else {
                    1
                },  // idle/run
                anim_play_rate: F32::one(),
            },
        );
        let mut i: u64 = 1;
        while i <= NUM_AGENTS
            invariant
                1 <= i <= NUM_AGENTS + 1,
                entities@.len() == i,
                entities@[0] == player(old(self)@),
                forall|k: u64|
                    1 <= k < i ==> {
                        let e = #[trigger] entities@[k as int];
                        e == agent(k, e.transform.translation) && orbits::<K>(
                            t,
                            k,
                            e.transform.translation,
                        )
                    },
            decreases NUM_AGENTS + 1 - i,
        {
            let place = agent_place::<K>(t, i);
            entities.push(
                EntityState {
                    id: i,
                    archetype: 2,  // catalog index: "agent"
                    flags: FLAG_VISIBLE,
                    transform: Transform {
                        translation: place,
                        rotation: Quat::identity(),
                        scale: Vec3::one(),
                    },
                    velocity: Vec3::zero(),
                    anim_state: 1,
                    anim_play_rate: F32::one(),
                },
            );
            i = i + 1;
        }
        // The first snapshot tells the renderer to create proxies.
        let events = if self.spawned {
            Vec::new()
        } else {
            self.spawned = true;
            spawn_events(&entities)
        };
        let mut sources: Vec<StreamingSource> = Vec::new();
        sources.push(
            StreamingSource {
                position: self.player_pos,
                radius: F32 { bits: STREAM_RADIUS },
                grid: 0,
                target: StreamingTargetState::Activated,
                priority: 100,
            },
        );
        let mut data_layers: Vec<DataLayerState> = Vec::new();
        data_layers.push(
            DataLayerState {
                name: "Gameplay".to_owned(),
                state: DataLayerRuntimeState::Activated,
            },
        );
        let r = WorldSnapshot {
            tick: self.tick,
            sim_time_s: self.time_s,
            entities,
            events,
            streaming: StreamingState { sources, data_layers },
        };
        proof {
            assert(r.entities.deep_view() =~= r.entities@);
            assert(r.events.deep_view() =~= r.events@);
            assert(r.streaming.deep_view() =~= directives(old(self)@)) by {
                assert(r.streaming.sources.deep_view() =~= directives(old(self)@).sources);
                assert(r.streaming.data_layers.deep_view() =~= directives(old(self)@).data_layers);
            }
        }
        r
    }
}

impl Default for Sim {
    fn default() -> (r: Sim)
        ensures
            r@ == initial(),
    {
        Sim::new()
    }
}

/// The velocity that an input direction asks for.
fn wanted_velocity<K: FloatOps>(dir: Vec3) -> (r: Vec3)
    ensures
        drives::<K>(dir, r),
{
    let xx = K::mul32(dir.x, dir.x);
    let yy = K::mul32(dir.y, dir.y);
    let zz = K::mul32(dir.z, dir.z);
    let xy = K::add32(xx, yy);
    let xyz = K::add32(xy, zz);
    let len = K::sqrt32(xyz);
    assert(multiplies::<K>(dir.x, dir.x, xx) && multiplies::<K>(dir.y, dir.y, yy) && multiplies::<
        K,
    >(dir.z, dir.z, zz));
    assert(sums::<K>(xx, yy, xy) && sums::<K>(xy, zz, xyz) && roots::<K>(xyz, len));
    assert(measures::<K>(dir, len));
    if (F32 { bits: DEAD_ZONE }).lt(len) {
        Vec3::new(pace::<K>(dir.x, len), pace::<K>(dir.y, len), pace::<K>(dir.z, len))
    } else {
        Vec3::zero()
    }
}

fn pace<K: FloatOps>(c: F32, len: F32) -> (r: F32)
    ensures
        paces::<K>(c, len, r),
{
    let q = K::div32(c, len);
    assert(divides::<K>(c, len, q));
    K::mul32(q, F32 { bits: PLAYER_SPEED })
}

fn advance<K: FloatOps>(p: F32, v: F32, dt: F32) -> (r: F32)
    ensures
        advances::<K>(p, v, dt, r),
{
    let d = K::mul32(v, dt);
    assert(multiplies::<K>(v, dt, d));
    K::add32(p, d)
}

/// The place of agent `i` at time `t`.
fn agent_place<K: FloatOps>(t: F32, i: u64) -> (r: Vec3)
    ensures
        orbits::<K>(t, i, r),
{
    let n = K::from_u64(i);
    let whole = K::mul32(n, F32 { bits: TAU });
    let count = K::from_u64(NUM_AGENTS);
    let phase = K::div32(whole, count);
    let swept = K::mul32(t, F32 { bits: ORBIT_RATE });
    let angle = K::add32(swept, phase);
    assert(converts::<K>(i, n) && multiplies::<K>(n, (F32 { bits: TAU }), whole));
    assert(converts::<K>(NUM_AGENTS, count) && divides::<K>(whole, count, phase));
    assert(multiplies::<K>(t, (F32 { bits: ORBIT_RATE }), swept) && sums::<K>(swept, phase, angle));
    assert(turns::<K>(t, i, angle));
    let c = K::cos32(angle);
    let s = K::sin32(angle);
    assert(cosines::<K>(angle, c) && sines::<K>(angle, s));
    Vec3::new(
        K::mul32(F32 { bits: ORBIT_RADIUS }, c),
        K::mul32(F32 { bits: ORBIT_RADIUS }, s),
        F32::zero(),
    )
}

/// A spawn event for each entity.
fn spawn_events(entities: &Vec<EntityState>) -> (r: Vec<Event>)
    ensures
        r@ == spawns(entities@),
{
    let mut events: Vec<Event> = Vec::new();
    let mut i: usize = 0;
    while i < entities.len()
        invariant
            i <= entities@.len(),
            events@ == spawns(entities@).take(i as int),
        decreases entities@.len() - i,
    {
        events.push(Event::Spawn { id: entities[i].id, archetype: entities[i].archetype });
        assert(events@ =~= spawns(entities@).take(i + 1));
        i = i + 1;
    }
    assert(spawns(entities@).take(i as int) =~= spawns(entities@));
    events
}

/// What is asked of a world.
pub enum Call {
    /// An intent is queued.
    Input(PlayerInput),
    /// The world advances by this many seconds.
    Step(F64),
    /// A snapshot is taken.
    Snapshot,
}

/// `s` becomes `r` on `K` when the calls are made of it, in order, and `shown` are the
/// snapshots that were taken.
pub open spec fn plays<K: FloatOps>(
    s: SimModel,
    script: Seq<Call>,
    r: SimModel,
    shown: Seq<SnapshotModel>,
) -> bool
    decreases script.len(),
{
    if script.len() == 0 {
        r == s && shown.len() == 0
    } else {
        match script[0] {
            Call::Input(input) => plays::<K>(with_input(s, input), script.skip(1), r, shown),
            Call::Step(dt) => exists|m: SimModel| #[trigger]
                steps::<K>(s, dt, m) && plays::<K>(m, script.skip(1), r, shown),
            Call::Snapshot => shown.len() > 0 && shows::<K>(s, shown[0]) && plays::<K>(
                SimModel { spawned: true, ..s },
                script.skip(1),
                r,
                shown.skip(1),
            ),
        }
    }
}

/// How many of the calls are steps.
pub open spec fn step_count(script: Seq<Call>) -> nat
    decreases script.len(),
{
    if script.len() == 0 {
        0
    } else {
        step_count(script.skip(1)) + if script[0] is Step {
            1nat
        } else {
            0nat
        }
    }
}

/// Of two intents queued in one tick the last one stands: the world is the very one that
/// the last intent alone leaves, so all that is asked of it later is answered alike.
pub proof fn law_last_input_wins<K: FloatOps>(
    s: SimModel,
    first: PlayerInput,
    last: PlayerInput,
    script: Seq<Call>,
    r: SimModel,
    shown: Seq<SnapshotModel>,
)
    ensures
        with_input(with_input(s, first), last) == with_input(s, last),
        plays::<K>(with_input(with_input(s, first), last), script, r, shown) <==> plays::<K>(
            with_input(s, last),
            script,
            r,
            shown,
        ),
{
}

/// An intent waits for the next step: until then the world is shown as if it had not
/// been queued.
pub proof fn law_input_waits_for_step<K: FloatOps>(
    s: SimModel,
    input: PlayerInput,
    r: SnapshotModel,
)
    ensures
        shows::<K>(with_input(s, input), r) <==> shows::<K>(s, r),
{
}

/// On a deterministic unit a step leads to one world.
pub proof fn law_step_deterministic<K: FloatOps>(s: SimModel, dt: F64, p: SimModel, q: SimModel)
    requires
        deterministic::<K>(),
        steps::<K>(s, dt, p),
        steps::<K>(s, dt, q),
    ensures
        p == q,
{
    lemma_velocity_deterministic::<K>(s.pending_input.move_dir, p.player_vel, q.player_vel);
    assert forall|a: F32, v: F32, d: F32, l: F32, m: F32| #[trigger]
        advances::<K>(a, v, d, l) && #[trigger] advances::<K>(a, v, d, m) implies l == m by {}
}

proof fn lemma_velocity_deterministic<K: FloatOps>(dir: Vec3, p: Vec3, q: Vec3)
    requires
        deterministic::<K>(),
        drives::<K>(dir, p),
        drives::<K>(dir, q),
    ensures
        p == q,
{
    assert forall|l: F32, m: F32| #[trigger] measures::<K>(dir, l) && #[trigger] measures::<K>(
        dir,
        m,
    ) implies l == m by {}
    assert forall|c: F32, len: F32, l: F32, m: F32| #[trigger]
        paces::<K>(c, len, l) && #[trigger] paces::<K>(c, len, m) implies l == m by {}
}

/// On a deterministic unit a world is shown in one way.
pub proof fn law_snapshot_deterministic<K: FloatOps>(
    s: SimModel,
    p: SnapshotModel,
    q: SnapshotModel,
)
    requires
        deterministic::<K>(),
        shows::<K>(s, p),
        shows::<K>(s, q),
    ensures
        p == q,
{
    let t = choose|t: F32| #[trigger]
        narrows::<K>(s.time_s, t) && places_agents::<K>(t, p.entities);
    let u = choose|u: F32| #[trigger]
        narrows::<K>(s.time_s, u) && places_agents::<K>(u, q.entities);
    assert(t == u);
    assert forall|i: int| 0 <= i < p.entities.len() implies p.entities[i] == q.entities[i] by {
        if i > 0 {
            let id = i as u64;
            let (e, f) = (p.entities[id as int], q.entities[id as int]);
            lemma_orbit_deterministic::<K>(
                t,
                id,
                e.transform.translation,
                f.transform.translation,
            );
        }
    }
    assert(p.entities =~= q.entities);
}

proof fn lemma_orbit_deterministic<K: FloatOps>(t: F32, i: u64, p: Vec3, q: Vec3)
    requires
        deterministic::<K>(),
        orbits::<K>(t, i, p),
        orbits::<K>(t, i, q),
    ensures
        p == q,
{
    assert forall|a: F32, b: F32| #[trigger] turns::<K>(t, i, a) && #[trigger] turns::<K>(
        t,
        i,
        b,
    ) implies a == b by {}
}

/// Two worlds that start alike and are fed the same inputs and timesteps, on one
/// deterministic unit, with snapshots taken at the same points, are one world, and their
/// snapshots are the same, byte for byte.
pub proof fn law_plays_deterministic<K: FloatOps>(
    s: SimModel,
    script: Seq<Call>,
    p: SimModel,
    q: SimModel,
    p_shown: Seq<SnapshotModel>,
    q_shown: Seq<SnapshotModel>,
)
    requires
        deterministic::<K>(),
        plays::<K>(s, script, p, p_shown),
        plays::<K>(s, script, q, q_shown),
    ensures
        p == q,
        p_shown == q_shown,
        forall|i: int|
            0 <= i < p_shown.len() ==> framed::<WorldSnapshot>(
                WIRE_MAGIC_SNAPSHOT@,
                #[trigger] p_shown[i],
            ) == framed::<WorldSnapshot>(WIRE_MAGIC_SNAPSHOT@, q_shown[i]),
    decreases script.len(),
{
    if script.len() == 0 {
        assert(p_shown =~= q_shown);
    } else {
        let rest = script.skip(1);
        match script[0] {
            Call::Input(input) => {
                law_plays_deterministic::<K>(with_input(s, input), rest, p, q, p_shown, q_shown);
            },
            Call::Step(dt) => {
                let m = choose|m: SimModel| #[trigger]
                    steps::<K>(s, dt, m) && plays::<K>(m, rest, p, p_shown);
                let n = choose|n: SimModel| #[trigger]
                    steps::<K>(s, dt, n) && plays::<K>(n, rest, q, q_shown);
                law_step_deterministic::<K>(s, dt, m, n);
                law_plays_deterministic::<K>(m, rest, p, q, p_shown, q_shown);
            },
            Call::Snapshot => {
                let told = SimModel { spawned: true, ..s };
                law_snapshot_deterministic::<K>(s, p_shown[0], q_shown[0]);
                law_plays_deterministic::<K>(told, rest, p, q, p_shown.skip(1), q_shown.skip(1));
                assert(seq![p_shown[0]] + p_shown.skip(1) =~= p_shown);
                assert(seq![q_shown[0]] + q_shown.skip(1) =~= q_shown);
            },
        }
    }
}

/// Each step counts one tick and nothing else does, and the ticks of the snapshots lie
/// between the first and the last of them and never fall.
pub proof fn law_ticks_count_steps<K: FloatOps>(
    s: SimModel,
    script: Seq<Call>,
    r: SimModel,
    shown: Seq<SnapshotModel>,
)
    requires
        plays::<K>(s, script, r, shown),
    ensures
        r.tick == s.tick + step_count(script),
        forall|i: int| 0 <= i < shown.len() ==> s.tick <= (#[trigger] shown[i]).tick <= r.tick,
        forall|i: int, j: int|
            0 <= i <= j < shown.len() ==> (#[trigger] shown[i]).tick <= (#[trigger] shown[j]).tick,
    decreases script.len(),
{
    if script.len() > 0 {
        let rest = script.skip(1);
        match script[0] {
            Call::Input(input) => {
                law_ticks_count_steps::<K>(with_input(s, input), rest, r, shown);
            },
            Call::Step(dt) => {
                let m = choose|m: SimModel| #[trigger]
                    steps::<K>(s, dt, m) && plays::<K>(m, rest, r, shown);
                law_ticks_count_steps::<K>(m, rest, r, shown);
            },
            Call::Snapshot => {
                let later = shown.skip(1);
                law_ticks_count_steps::<K>(SimModel { spawned: true, ..s }, rest, r, later);
                assert forall|i: int| 0 < i < shown.len() implies s.tick <= (
                #[trigger] shown[i]).tick <= r.tick by {
                    assert(shown[i] == later[i - 1]);
                }
                assert forall|i: int, j: int| 0 <= i <= j < shown.len() implies (
                #[trigger] shown[i]).tick <= (#[trigger] shown[j]).tick by {
                    if i > 0 {
                        assert(shown[i] == later[i - 1] && shown[j] == later[j - 1]);
                    }
                }
            },
        }
    }
}

/// The first snapshot has a spawn event for every entity; every later one has no
/// event at all, whatever was asked of the world in between.
pub proof fn law_spawned_once<K: FloatOps>(
    s: SimModel,
    script: Seq<Call>,
    r: SimModel,
    shown: Seq<SnapshotModel>,
)
    requires
        plays::<K>(s, script, r, shown),
    ensures
        r.spawned == (s.spawned || shown.len() > 0),
        forall|i: int|
            0 <= i < shown.len() ==> (#[trigger] shown[i]).events == if i == 0 && !s.spawned {
                spawns(shown[i].entities)
            } else {
                Seq::empty()
            },
    decreases script.len(),
{
    if script.len() > 0 {
        let rest = script.skip(1);
        match script[0] {
            Call::Input(input) => {
                law_spawned_once::<K>(with_input(s, input), rest, r, shown);
            },
            Call::Step(dt) => {
                let m = choose|m: SimModel| #[trigger]
                    steps::<K>(s, dt, m) && plays::<K>(m, rest, r, shown);
                law_spawned_once::<K>(m, rest, r, shown);
            },
            Call::Snapshot => {
                let later = shown.skip(1);
                law_spawned_once::<K>(SimModel { spawned: true, ..s }, rest, r, later);
                assert forall|i: int| 0 < i < shown.len() implies (#[trigger] shown[i]).events
                    == Seq::<Event>::empty() by {
                    assert(shown[i] == later[i - 1]);
                }
            },
        }
    }
}

/// A snapshot uses up the spawn events and nothing else: a second one without a step in
/// between has the tick, the time, the player and the streaming of the first and no
/// event, on any unit.
pub proof fn law_snapshot_again<K: FloatOps>(
    s: SimModel,
    first: SnapshotModel,
    second: SnapshotModel,
)
    requires
        shows::<K>(s, first),
        shows::<K>(SimModel { spawned: true, ..s }, second),
    ensures
        second.tick == first.tick,
        second.sim_time_s == first.sim_time_s,
        second.entities.len() == first.entities.len(),
        second.entities[0] == first.entities[0],
        second.streaming == first.streaming,
        second.events.len() == 0,
{
}

/// On a deterministic unit, snapshots without a step in between are the first one without
/// its events, byte for byte.
pub proof fn law_snapshots_repeat<K: FloatOps>(
    s: SimModel,
    first: SnapshotModel,
    second: SnapshotModel,
    third: SnapshotModel,
)
    requires
        deterministic::<K>(),
        shows::<K>(s, first),
        shows::<K>(SimModel { spawned: true, ..s }, second),
        shows::<K>(SimModel { spawned: true, ..s }, third),
    ensures
        second == (SnapshotModel { events: Seq::empty(), ..first }),
        third == second,
        framed::<WorldSnapshot>(WIRE_MAGIC_SNAPSHOT@, second) == framed::<WorldSnapshot>(
            WIRE_MAGIC_SNAPSHOT@,
            SnapshotModel { events: Seq::empty(), ..first },
        ),
        framed::<WorldSnapshot>(WIRE_MAGIC_SNAPSHOT@, third) == framed::<WorldSnapshot>(
            WIRE_MAGIC_SNAPSHOT@,
            second,
        ),
{
    let told = SimModel { spawned: true, ..s };
    let quiet = SnapshotModel { events: Seq::empty(), ..first };
    assert(player(told) == player(s));
    assert(directives(told) == directives(s));
    assert(shows::<K>(told, quiet));
    law_snapshot_deterministic::<K>(told, second, quiet);
    law_snapshot_deterministic::<K>(told, third, second);
}

/// On a deterministic unit the velocity after a step comes from the queued direction
/// alone: where the player was, how it moved, the time, the tick and the length of
/// the step have no part in it.
pub proof fn law_velocity_from_direction<K: FloatOps>(
    s: SimModel,
    s_dt: F64,
    p: SimModel,
    t: SimModel,
    t_dt: F64,
    q: SimModel,
)
    requires
        deterministic::<K>(),
        s.pending_input.move_dir == t.pending_input.move_dir,
        steps::<K>(s, s_dt, p),
        steps::<K>(t, t_dt, q),
    ensures
        p.player_vel == q.player_vel,
{
    lemma_velocity_deterministic::<K>(s.pending_input.move_dir, p.player_vel, q.player_vel);
}

/// A snapshot of the simulation is within the limits of the wire, and its entities are
/// numbered from zero.
pub proof fn law_snapshot_fits<K: FloatOps>(s: SimModel, r: SnapshotModel)
    requires
        shows::<K>(s, r),
    ensures
        WorldSnapshot::fits(r),
        forall|i: int| 0 <= i < r.entities.len() ==> (#[trigger] r.entities[i]).id == i,
{
    reveal_strlit("Gameplay");
    vstd::utf8::is_ascii_chars_encode_utf8("Gameplay"@);
    assert forall|i: int| 0 <= i < r.entities.len() implies (#[trigger] r.entities[i]).id == i by {
        assert(r.entities[i as u64 as int] == r.entities[i]);
    }
}

/// The numbers of the world: the player makes 600 a second, sources reach 12000, and the
/// agents sweep half a radian a second at a distance of 1500.
pub proof fn law_constants()
    ensures
        is32(F32 { bits: PLAYER_SPEED }, 600 * one32()),
        is32(F32 { bits: STREAM_RADIUS }, 12000 * one32()),
        is32(F32 { bits: ORBIT_RADIUS }, 1500 * one32()),
        is32(F32 { bits: ORBIT_RATE }, one32() / 2),
        2 * (one32() / 2) == one32(),
        NUM_AGENTS == 8,
{
    lemma2_to64();
    lemma_pow2_adds(14, 135);
    lemma_pow2_adds(10, 139);
    lemma_pow2_adds(13, 136);
    lemma_pow2_adds(23, 125);
    lemma_pow2_adds(1, 148);
    assert(magnitude(0x4416_0000, 23) == (0x80_0000 + 0x16_0000) * pow2(135));
    assert(magnitude(0x463b_8000, 23) == (0x80_0000 + 0x3b_8000) * pow2(139));
    assert(magnitude(0x44bb_8000, 23) == (0x80_0000 + 0x3b_8000) * pow2(136));
    assert(magnitude(0x3f00_0000, 23) == 0x80_0000 * pow2(125));
    assert((0x80_0000 + 0x16_0000) * pow2(135) == 600 * (0x4000 * pow2(135)))
        by (nonlinear_arith);
    assert((0x80_0000 + 0x3b_8000) * pow2(139) == 12000 * (0x400 * pow2(139)))
        by (nonlinear_arith);
    assert((0x80_0000 + 0x3b_8000) * pow2(136) == 1500 * (0x2000 * pow2(136)))
        by (nonlinear_arith);
    assert(0x80_0000 * pow2(125) == pow2(148));
}

/// A new world stands at tick zero and time zero, with the player at rest at the origin and
/// nothing asked of it, and the renderer was told of nothing.
pub proof fn law_new_world()
    ensures
        initial().tick == 0,
        is64(initial().time_s, 0),
        is32(initial().player_pos.x, 0),
        is32(initial().player_pos.y, 0),
        is32(initial().player_pos.z, 0),
        is32(initial().player_vel.x, 0),
        is32(initial().player_vel.y, 0),
        is32(initial().player_vel.z, 0),
        is32(initial().pending_input.move_dir.x, 0),
        is32(initial().pending_input.move_dir.y, 0),
        is32(initial().pending_input.move_dir.z, 0),
        is32(initial().pending_input.yaw, 0),
        is32(initial().pending_input.pitch, 0),
        initial().pending_input.buttons == 0,
        !initial().spawned,
{
    law_numbers();
}

/// A step adds its length to the time, and leaves the queued intent and what the renderer
/// was told. On an exact unit the new time is the sum, wherever a number can hold it.
pub proof fn law_step_time<K: FloatOps>(s: SimModel, dt: F64, r: SimModel)
    requires
        steps::<K>(s, dt, r),
    ensures
        r.tick == s.tick + 1,
        sums64::<K>(s.time_s, dt, r.time_s),
        r.pending_input == s.pending_input,
        r.spawned == s.spawned,
        exact::<K>() && s.time_s.is_finite() && dt.is_finite() && holds64(
            s.time_s.units() + dt.units(),
        ) ==> is64(r.time_s, s.time_s.units() + dt.units()),
{
}

/// `r` is where `p` gets with velocity `v` in the time `dt`, wherever numbers can hold the
/// distance and the place.
pub open spec fn carried(p: F32, v: F32, dt: F32, r: F32) -> bool {
    forall|d: int| #[trigger]
        holds32(d) && p.is_finite() && v.is_finite() && dt.is_finite() && d * one32() == v.units()
            * dt.units() && holds32(p.units() + d) ==> is32(r, p.units() + d)
}

/// A step carries the player from where it was, with the velocity that it now has, for the
/// length of the step in single precision, along each axis.
pub proof fn law_step_place<K: FloatOps>(s: SimModel, dt: F64, r: SimModel)
    requires
        steps::<K>(s, dt, r),
    ensures
        exists|dt32: F32, x: F32, y: F32, z: F32|
            {
                &&& #[trigger] narrows::<K>(dt, dt32)
                &&& #[trigger] multiplies::<K>(r.player_vel.x, dt32, x)
                &&& #[trigger] multiplies::<K>(r.player_vel.y, dt32, y)
                &&& #[trigger] multiplies::<K>(r.player_vel.z, dt32, z)
                &&& sums::<K>(s.player_pos.x, x, r.player_pos.x)
                &&& sums::<K>(s.player_pos.y, y, r.player_pos.y)
                &&& sums::<K>(s.player_pos.z, z, r.player_pos.z)
            },
        exact::<K>() ==> exists|dt32: F32| #[trigger]
            narrows::<K>(dt, dt32) && carried(
                s.player_pos.x,
                r.player_vel.x,
                dt32,
                r.player_pos.x,
            ) && carried(s.player_pos.y, r.player_vel.y, dt32, r.player_pos.y) && carried(
                s.player_pos.z,
                r.player_vel.z,
                dt32,
                r.player_pos.z,
            ),
{
    let (p, v, q) = (s.player_pos, r.player_vel, r.player_pos);
    let dt32 = choose|dt32: F32| #[trigger]
        narrows::<K>(dt, dt32) && advances::<K>(p.x, v.x, dt32, q.x) && advances::<K>(
            p.y,
            v.y,
            dt32,
            q.y,
        ) && advances::<K>(p.z, v.z, dt32, q.z);
    let x = choose|d: F32| #[trigger] multiplies::<K>(v.x, dt32, d) && sums::<K>(p.x, d, q.x);
    let y = choose|d: F32| #[trigger] multiplies::<K>(v.y, dt32, d) && sums::<K>(p.y, d, q.y);
    let z = choose|d: F32| #[trigger] multiplies::<K>(v.z, dt32, d) && sums::<K>(p.z, d, q.z);
    assert(narrows::<K>(dt, dt32) && multiplies::<K>(v.x, dt32, x));
    assert(multiplies::<K>(v.y, dt32, y) && multiplies::<K>(v.z, dt32, z));
    if exact::<K>() {
        lemma_carried::<K>(p.x, v.x, dt32, x, q.x);
        lemma_carried::<K>(p.y, v.y, dt32, y, q.y);
        lemma_carried::<K>(p.z, v.z, dt32, z, q.z);
    }
}

proof fn lemma_carried<K: FloatOps>(p: F32, v: F32, dt: F32, d: F32, r: F32)
    requires
        exact::<K>(),
        multiplies::<K>(v, dt, d),
        sums::<K>(p, d, r),
    ensures
        carried(p, v, dt, r),
{
    assert forall|u: int| #[trigger]
        holds32(u) && p.is_finite() && v.is_finite() && dt.is_finite() && u * one32() == v.units()
            * dt.units() && holds32(p.units() + u) implies is32(r, p.units() + u) by {
        assert(is32(d, u));
    }
}

/// `r` is `c / n` times the player's speed of 600, wherever numbers can hold the quotient
/// and the product.
pub open spec fn at_speed(c: F32, n: int, r: F32) -> bool {
    forall|q: int, v: int|
        #![trigger holds32(q), holds32(v)]
        c.is_finite() && holds32(q) && q * n == c.units() * one32() && holds32(v) && v == q * 600
            ==> is32(r, v)
}

/// On an exact unit the player is driven along the queued direction at 600 a second,
/// however long the direction is: of a direction of length `n` beyond the dead zone each
/// component is taken as a share of `n`, and a direction that is no longer than the
/// dead zone leaves the player at rest. The squares and their sums must be such as numbers
/// can hold.
pub proof fn law_step_speed<K: FloatOps>(
    s: SimModel,
    dt: F64,
    r: SimModel,
    xx: int,
    yy: int,
    zz: int,
    n: int,
)
    requires
        exact::<K>(),
        steps::<K>(s, dt, r),
        s.pending_input.move_dir.x.is_finite(),
        s.pending_input.move_dir.y.is_finite(),
        s.pending_input.move_dir.z.is_finite(),
        xx * one32() == s.pending_input.move_dir.x.units() * s.pending_input.move_dir.x.units(),
        yy * one32() == s.pending_input.move_dir.y.units() * s.pending_input.move_dir.y.units(),
        zz * one32() == s.pending_input.move_dir.z.units() * s.pending_input.move_dir.z.units(),
        holds32(xx),
        holds32(yy),
        holds32(zz),
        holds32(xx + yy),
        holds32(xx + yy + zz),
        n >= 0,
        holds32(n),
        n * n == (xx + yy + zz) * one32(),
    ensures
        n > (F32 { bits: DEAD_ZONE }).units() ==> {
            &&& at_speed(s.pending_input.move_dir.x, n, r.player_vel.x)
            &&& at_speed(s.pending_input.move_dir.y, n, r.player_vel.y)
            &&& at_speed(s.pending_input.move_dir.z, n, r.player_vel.z)
        },
        n <= (F32 { bits: DEAD_ZONE }).units() ==> {
            &&& is32(r.player_vel.x, 0)
            &&& is32(r.player_vel.y, 0)
            &&& is32(r.player_vel.z, 0)
        },
{
    let d = s.pending_input.move_dir;
    let v = r.player_vel;
    let len = choose|len: F32| #[trigger]
        measures::<K>(d, len) && if (F32 { bits: DEAD_ZONE }).less(len) {
            &&& paces::<K>(d.x, len, v.x)
            &&& paces::<K>(d.y, len, v.y)
            &&& paces::<K>(d.z, len, v.z)
        } else {
            v == Vec3::zero()
        };
    let (x, y, z, xy, xyz) = choose|x: F32, y: F32, z: F32, xy: F32, xyz: F32| #[trigger]
        multiplies::<K>(d.x, d.x, x) && #[trigger] multiplies::<K>(d.y, d.y, y)
            && #[trigger] multiplies::<K>(d.z, d.z, z) && #[trigger] sums::<K>(x, y, xy)
            && #[trigger] sums::<K>(xy, z, xyz) && roots::<K>(xyz, len);
    assert(is32(x, xx) && is32(y, yy) && is32(z, zz));
    assert(is32(xy, xx + yy));
    assert(is32(xyz, xx + yy + zz));
    assert(is32(len, n));
    law_numbers();
    if n > (F32 { bits: DEAD_ZONE }).units() {
        assert(n != 0) by {
            assert((F32 { bits: DEAD_ZONE }).units() >= 0);
        }
        lemma_at_speed::<K>(d.x, len, v.x);
        lemma_at_speed::<K>(d.y, len, v.y);
        lemma_at_speed::<K>(d.z, len, v.z);
    }
}

proof fn lemma_at_speed<K: FloatOps>(c: F32, len: F32, r: F32)
    requires
        exact::<K>(),
        paces::<K>(c, len, r),
        len.is_finite(),
        len.units() != 0,
    ensures
        at_speed(c, len.units(), r),
{
    let speed = F32 { bits: PLAYER_SPEED };
    let share = choose|q: F32| #[trigger] divides::<K>(c, len, q) && multiplies::<K>(q, speed, r);
    law_constants();
    assert forall|q: int, v: int|
        #![trigger holds32(q), holds32(v)]
        c.is_finite() && holds32(q) && q * len.units() == c.units() * one32() && holds32(v) && v
            == q * 600 implies is32(r, v) by {
        assert(is32(share, q));
        assert(v * one32() == q * (600 * one32())) by (nonlinear_arith)
            requires
                v == q * 600,
        ;
    }
}

/// The lengths of the steps among the calls, in order.
pub open spec fn step_lengths(script: Seq<Call>) -> Seq<F64>
    decreases script.len(),
{
    if script.len() == 0 {
        Seq::empty()
    } else {
        match script[0] {
            Call::Step(dt) => seq![dt] + step_lengths(script.skip(1)),
            _ => step_lengths(script.skip(1)),
        }
    }
}

/// `r` is what `K` makes of `t` when the numbers are added to it one after another.
pub open spec fn adds_up<K: FloatOps>(t: F64, dts: Seq<F64>, r: F64) -> bool
    decreases dts.len(),
{
    if dts.len() == 0 {
        r == t
    } else {
        exists|m: F64| #[trigger] sums64::<K>(t, dts[0], m) && adds_up::<K>(m, dts.skip(1), r)
    }
}

/// Time accumulates: whatever is asked of a world, its time is the one it began with and
/// every step added to it in turn, and nothing else.
pub proof fn law_time_accumulates<K: FloatOps>(
    s: SimModel,
    script: Seq<Call>,
    r: SimModel,
    shown: Seq<SnapshotModel>,
)
    requires
        plays::<K>(s, script, r, shown),
    ensures
        adds_up::<K>(s.time_s, step_lengths(script), r.time_s),
    decreases script.len(),
{
    if script.len() > 0 {
        let rest = script.skip(1);
        match script[0] {
            Call::Input(input) => {
                law_time_accumulates::<K>(with_input(s, input), rest, r, shown);
            },
            Call::Step(dt) => {
                let m = choose|m: SimModel| #[trigger]
                    steps::<K>(s, dt, m) && plays::<K>(m, rest, r, shown);
                law_time_accumulates::<K>(m, rest, r, shown);
                let all = step_lengths(script);
                assert(all == seq![dt] + step_lengths(rest));
                assert(all.skip(1) =~= step_lengths(rest));
                assert(sums64::<K>(s.time_s, all[0], m.time_s));
                assert(adds_up::<K>(m.time_s, all.skip(1), r.time_s));
            },
            Call::Snapshot => {
                law_time_accumulates::<K>(
                    SimModel { spawned: true, ..s },
                    rest,
                    r,
                    shown.skip(1),
                );
            },
        }
    }
}

/// The sum of the first `k` numbers, in units.
pub open spec fn total(dts: Seq<F64>, k: int) -> int
    decreases k,
{
    if k <= 0 {
        0
    } else {
        total(dts, k - 1) + dts[k - 1].units()
    }
}

proof fn lemma_total_skip(dts: Seq<F64>, k: int)
    requires
        1 <= k <= dts.len(),
    ensures
        total(dts, k) == dts[0].units() + total(dts.skip(1), k - 1),
    decreases k,
{
    if k > 1 {
        lemma_total_skip(dts, k - 1);
        assert(dts.skip(1)[k - 2] == dts[k - 1]);
    } else {
        assert(total(dts, 1) == total(dts, 0) + dts[0].units());
    }
}

/// On an exact unit numbers that are added up make their sum, wherever a number can hold
/// what has come together at each point.
pub proof fn law_adds_up_exact<K: FloatOps>(t: F64, dts: Seq<F64>, r: F64)
    requires
        exact::<K>(),
        t.is_finite(),
        forall|k: int| 0 <= k < dts.len() ==> (#[trigger] dts[k]).is_finite(),
        forall|k: int| 0 <= k <= dts.len() ==> holds64(t.units() + #[trigger] total(dts, k)),
        adds_up::<K>(t, dts, r),
    ensures
        is64(r, t.units() + total(dts, dts.len() as int)),
    decreases dts.len(),
{
    if dts.len() > 0 {
        let m = choose|m: F64| #[trigger]
            sums64::<K>(t, dts[0], m) && adds_up::<K>(m, dts.skip(1), r);
        assert(total(dts, 1) == total(dts, 0) + dts[0].units());
        assert(is64(m, t.units() + dts[0].units()));
        assert forall|k: int| 0 <= k <= dts.skip(1).len() implies holds64(
            m.units() + #[trigger] total(dts.skip(1), k),
        ) by {
            lemma_total_skip(dts, k + 1);
            assert(holds64(t.units() + total(dts, k + 1)));
        }
        law_adds_up_exact::<K>(m, dts.skip(1), r);
        lemma_total_skip(dts, dts.len() as int);
    }
}

/// A snapshot shows the world as it stands when it is taken: after calls that end with
/// one, the last snapshot has the tick, the time, the player's place and velocity, and the
/// streaming source, of the world that the calls lead to.
pub proof fn law_last_shown<K: FloatOps>(
    s: SimModel,
    script: Seq<Call>,
    r: SimModel,
    shown: Seq<SnapshotModel>,
)
    requires
        plays::<K>(s, script, r, shown),
        script.len() > 0,
        script.last() is Snapshot,
    ensures
        shown.len() > 0,
        shown.last().tick == r.tick,
        shown.last().sim_time_s == r.time_s,
        shown.last().entities[0].transform.translation == r.player_pos,
        shown.last().entities[0].velocity == r.player_vel,
        shown.last().streaming.sources[0].position == r.player_pos,
    decreases script.len(),
{
    let rest = script.skip(1);
    if rest.len() > 0 {
        assert(rest.last() == script.last());
    } else {
        reveal_with_fuel(plays, 2);
    }
    match script[0] {
        Call::Input(input) => {
            law_last_shown::<K>(with_input(s, input), rest, r, shown);
        },
        Call::Step(dt) => {
            let m = choose|m: SimModel| #[trigger]
                steps::<K>(s, dt, m) && plays::<K>(m, rest, r, shown);
            law_last_shown::<K>(m, rest, r, shown);
        },
        Call::Snapshot => {
            if rest.len() > 0 {
                let told = SimModel { spawned: true, ..s };
                law_last_shown::<K>(told, rest, r, shown.skip(1));
                assert(shown.skip(1).last() == shown.last());
            }
        },
    }
}

/// How the player is shown: visible and local, upright, at its own size, running at the
/// normal rate where any component of its velocity is not zero and idle where all are.
pub proof fn law_player_shown<K: FloatOps>(s: SimModel, r: SnapshotModel)
    requires
        shows::<K>(s, r),
    ensures
        ({
            let e = r.entities[0];
            let v = s.player_vel;
            &&& e.id == 0
            &&& e.archetype == 1
            &&& e.flags == 3
            &&& e.transform.translation == s.player_pos
            &&& e.velocity == v
            &&& e.anim_state == 0 || e.anim_state == 1
            &&& e.anim_state == 0 <==> !v.x.is_nan() && !v.y.is_nan() && !v.z.is_nan()
                && v.x.units() == 0 && v.y.units() == 0 && v.z.units() == 0
            &&& upright(e)
        }),
{
    law_numbers();
    assert(1u32 | 2u32 == 3u32) by (bit_vector);
}

/// The entity is turned by nothing, scaled by one, and plays at the rate of one.
pub open spec fn upright(e: EntityState) -> bool {
    &&& is32(e.transform.rotation.x, 0)
    &&& is32(e.transform.rotation.y, 0)
    &&& is32(e.transform.rotation.z, 0)
    &&& is32(e.transform.rotation.w, one32())
    &&& is32(e.transform.scale.x, one32())
    &&& is32(e.transform.scale.y, one32())
    &&& is32(e.transform.scale.z, one32())
    &&& is32(e.anim_play_rate, one32())
}

/// How the agents are shown: eight of them behind the player, each visible, upright and
/// running, and on one orbit about the origin: there is one time, which is the world's in
/// single precision, and each agent stands at the cosine and the sine of its angle at
/// that time, times 1500.
pub proof fn law_agents_shown<K: FloatOps>(s: SimModel, r: SnapshotModel)
    requires
        shows::<K>(s, r),
    ensures
        r.entities.len() == 9,
        forall|i: int|
            1 <= i <= 8 ==> {
                let e = #[trigger] r.entities[i];
                &&& e.id == i
                &&& e.archetype == 2
                &&& e.flags == 1
                &&& e.anim_state == 1
                &&& is32(e.velocity.x, 0)
                &&& is32(e.velocity.y, 0)
                &&& is32(e.velocity.z, 0)
                &&& is32(e.transform.translation.z, 0)
                &&& upright(e)
            },
        exists|t: F32| #[trigger]
            narrows::<K>(s.time_s, t) && forall|i: int|
                1 <= i <= 8 ==> circles::<K>(t, i as u64, (#[trigger] r.entities[i])),
{
    let t = choose|t: F32| #[trigger]
        narrows::<K>(s.time_s, t) && places_agents::<K>(t, r.entities);
    law_numbers();
    assert forall|i: int| 1 <= i <= 8 implies circles::<K>(
        t,
        i as u64,
        (#[trigger] r.entities[i]),
    ) by {
        let e = r.entities[i as u64 as int];
        let place = e.transform.translation;
        let (angle, c, s) = choose|angle: F32, c: F32, s: F32| #[trigger]
            turns::<K>(t, i as u64, angle) && #[trigger] cosines::<K>(angle, c)
                && #[trigger] sines::<K>(angle, s) && multiplies::<K>(
                (F32 { bits: ORBIT_RADIUS }),
                c,
                place.x,
            ) && multiplies::<K>((F32 { bits: ORBIT_RADIUS }), s, place.y) && place.z
                == F32::zero();
        law_constants();
        let radius = F32 { bits: ORBIT_RADIUS };
        assert(multiplies::<K>(radius, c, place.x) && multiplies::<K>(radius, s, place.y));
    }
    assert forall|i: int| 1 <= i <= 8 implies {
        let e = #[trigger] r.entities[i];
        &&& e.id == i
        &&& e.archetype == 2
        &&& e.flags == 1
        &&& e.anim_state == 1
        &&& is32(e.velocity.x, 0)
        &&& is32(e.velocity.y, 0)
        &&& is32(e.velocity.z, 0)
        &&& is32(e.transform.translation.z, 0)
        &&& upright(e)
    } by {
        assert(r.entities[i as u64 as int] == r.entities[i]);
    }
}

/// The entity stands at the cosine and the sine of agent `i`'s angle at time `t`, times a
/// radius of 1500, on `K`.
pub open spec fn circles<K: FloatOps>(t: F32, i: u64, e: EntityState) -> bool {
    exists|angle: F32, c: F32, s: F32, radius: F32|
        {
            &&& turns::<K>(t, i, angle)
            &&& is32(radius, 1500 * one32())
            &&& #[trigger] cosines::<K>(angle, c)
            &&& #[trigger] sines::<K>(angle, s)
            &&& #[trigger] multiplies::<K>(radius, c, e.transform.translation.x)
            &&& multiplies::<K>(radius, s, e.transform.translation.y)
        }
}

/// `phase` is agent `i`'s share of a full turn, on `K`: `i` eighths of it.
pub open spec fn phases<K: FloatOps>(i: u64, phase: F32) -> bool {
    exists|n: F32, whole: F32, count: F32|
        {
            &&& #[trigger] converts::<K>(i, n)
            &&& #[trigger] multiplies::<K>(n, (F32 { bits: TAU }), whole)
            &&& #[trigger] converts::<K>(8, count)
            &&& divides::<K>(whole, count, phase)
        }
}

/// The orbit is uniform: at any two times an agent's angle is its own share of a turn, the
/// same at both, and half of the time that has gone, on a deterministic unit.
pub proof fn law_orbit_uniform<K: FloatOps>(i: u64, early: F32, a: F32, late: F32, b: F32)
    requires
        deterministic::<K>(),
        turns::<K>(early, i, a),
        turns::<K>(late, i, b),
    ensures
        exists|phase: F32, rate: F32, p: F32, q: F32|
            {
                &&& phases::<K>(i, phase)
                &&& is32(rate, one32() / 2)
                &&& #[trigger] multiplies::<K>(early, rate, p)
                &&& #[trigger] multiplies::<K>(late, rate, q)
                &&& #[trigger] sums::<K>(p, phase, a)
                &&& sums::<K>(q, phase, b)
            },
{
    let rate = F32 { bits: ORBIT_RATE };
    let (n, whole, count, phase, p) = choose|
        n: F32,
        whole: F32,
        count: F32,
        phase: F32,
        swept: F32,
    | #[trigger]
        converts::<K>(i, n) && #[trigger] multiplies::<K>(n, (F32 { bits: TAU }), whole)
            && #[trigger] converts::<K>(NUM_AGENTS, count) && #[trigger] divides::<K>(
            whole,
            count,
            phase,
        ) && #[trigger] multiplies::<K>(early, rate, swept) && sums::<K>(
            swept,
            phase,
            a,
        );
    let (n2, whole2, count2, phase2, q) = choose|
        n: F32,
        whole: F32,
        count: F32,
        phase: F32,
        swept: F32,
    | #[trigger]
        converts::<K>(i, n) && #[trigger] multiplies::<K>(n, (F32 { bits: TAU }), whole)
            && #[trigger] converts::<K>(NUM_AGENTS, count) && #[trigger] divides::<K>(
            whole,
            count,
            phase,
        ) && #[trigger] multiplies::<K>(late, rate, swept) && sums::<K>(
            swept,
            phase,
            b,
        );
    assert(n == n2 && count == count2);
    assert(whole == whole2);
    assert(phase == phase2);
    law_constants();
    assert(phases::<K>(i, phase));
    assert(multiplies::<K>(early, rate, p) && multiplies::<K>(late, rate, q) && sums::<K>(p, phase, a)
        && sums::<K>(q, phase, b));
}

/// On an exact unit the angles of an agent at two times differ by half of the difference
/// of the times, wherever numbers can hold the halves and the angles.
pub proof fn law_orbit_rate<K: FloatOps>(
    i: u64,
    phase: F32,
    t: F32,
    a: F32,
    u: F32,
    b: F32,
    h: int,
    k: int,
)
    requires
        deterministic::<K>(),
        exact::<K>(),
        turns::<K>(t, i, a),
        turns::<K>(u, i, b),
        phases::<K>(i, phase),
        phase.is_finite(),
        t.is_finite(),
        u.is_finite(),
        2 * h == t.units(),
        2 * k == u.units(),
        holds32(h),
        holds32(k),
        holds32(h + phase.units()),
        holds32(k + phase.units()),
    ensures
        is32(a, h + phase.units()),
        is32(b, k + phase.units()),
        2 * (a.units() - b.units()) == t.units() - u.units(),
{
    law_orbit_uniform::<K>(i, t, a, u, b);
    let (f, rate, p, q) = choose|f: F32, rate: F32, p: F32, q: F32|
        {
            &&& phases::<K>(i, f)
            &&& is32(rate, one32() / 2)
            &&& #[trigger] multiplies::<K>(t, rate, p)
            &&& #[trigger] multiplies::<K>(u, rate, q)
            &&& #[trigger] sums::<K>(p, f, a)
            &&& sums::<K>(q, f, b)
        };
    assert(f == phase);
    law_constants();
    let half = one32() / 2;
    assert(h * one32() == t.units() * half && k * one32() == u.units() * half)
        by (nonlinear_arith)
        requires
            2 * half == one32(),
            2 * h == t.units(),
            2 * k == u.units(),
    ;
    assert(is32(p, h) && is32(q, k));
}

/// What the renderer is told to stream: one source, active, about the player, of radius
/// 12000 on every grid, and the gameplay layer, active.
pub proof fn law_streaming_shown<K: FloatOps>(s: SimModel, r: SnapshotModel)
    requires
        shows::<K>(s, r),
    ensures
        r.streaming.sources.len() == 1,
        r.streaming.sources[0].position == s.player_pos,
        is32(r.streaming.sources[0].radius, 12000 * one32()),
        r.streaming.sources[0].grid == 0,
        r.streaming.sources[0].target is Activated,
        r.streaming.sources[0].priority == 100,
        r.streaming.data_layers.len() == 1,
        r.streaming.data_layers[0].name == seq!['G', 'a', 'm', 'e', 'p', 'l', 'a', 'y'],
        r.streaming.data_layers[0].state is Activated,
{
    law_constants();
    reveal_strlit("Gameplay");
    assert("Gameplay"@ =~= seq!['G', 'a', 'm', 'e', 'p', 'l', 'a', 'y']);
}

/// A call that steps a world counts one tick and adds the length of the step to its time,
/// and leaves the queued intent and what the renderer was told.
pub proof fn law_step_call<K: FloatOps>(sim: &mut Sim, dt: F64)
    requires
        call_ensures(Sim::step::<K>, (sim, dt), ()),
    ensures
        final(sim)@.tick == old(sim)@.tick + 1,
        sums64::<K>(old(sim)@.time_s, dt, final(sim)@.time_s),
        final(sim)@.pending_input == old(sim)@.pending_input,
        final(sim)@.spawned == old(sim)@.spawned,
{
    law_step_time::<K>(old(sim)@, dt, final(sim)@);
}

/// A call that queues an intent changes that alone.
pub proof fn law_apply_input_call(sim: &mut Sim, input: PlayerInput)
    requires
        call_ensures(Sim::apply_input, (sim, input), ()),
    ensures
        final(sim)@.pending_input == input,
        final(sim)@.tick == old(sim)@.tick,
        final(sim)@.time_s == old(sim)@.time_s,
        final(sim)@.player_pos == old(sim)@.player_pos,
        final(sim)@.player_vel == old(sim)@.player_vel,
        final(sim)@.spawned == old(sim)@.spawned,
{
}

/// A call that takes a snapshot shows the world as it stands, and changes nothing but that
/// the renderer was told.
pub proof fn law_snapshot_call<K: FloatOps>(sim: &mut Sim, r: WorldSnapshot)
    requires
        call_ensures(Sim::snapshot::<K>, (sim,), r),
    ensures
        r.tick == old(sim)@.tick,
        r.sim_time_s == old(sim)@.time_s,
        r.deep_view().entities[0].transform.translation == old(sim)@.player_pos,
        r.deep_view().entities[0].velocity == old(sim)@.player_vel,
        r.deep_view().events.len() == if old(sim)@.spawned {
            0int
        } else {
            9
        },
        final(sim)@.tick == old(sim)@.tick,
        final(sim)@.time_s == old(sim)@.time_s,
        final(sim)@.player_pos == old(sim)@.player_pos,
        final(sim)@.player_vel == old(sim)@.player_vel,
        final(sim)@.pending_input == old(sim)@.pending_input,
        final(sim)@.spawned,
{
    law_player_shown::<K>(old(sim)@, r.deep_view());
}

} // verus!
