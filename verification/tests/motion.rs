//! Blending, the example authority and the bridge, on the machine's own arithmetic.

use ue_renderer::authority::{
    DEAD_ZONE, NUM_AGENTS, ORBIT_RADIUS, ORBIT_RATE, PLAYER_SPEED, STREAM_RADIUS, TAU,
};
use ue_renderer::{
    lerp_f32, ue_bridge_abi_version, ue_bridge_create, ue_bridge_handle_is_null,
    ue_bridge_latest_snapshot, ue_bridge_push_input, ue_bridge_tick, DataLayerRuntimeState,
    EntityState, Event, FloatOps, PlayerInput, Quat, Sim, StreamingState, StreamingTargetState,
    Transform, Vec3, WorldSnapshot, F32, F64, FLAG_LOCAL_PLAYER, FLAG_VISIBLE,
    UE_BRIDGE_ABI_VERSION, UE_ERR_BUFFER_TOO_SMALL, UE_ERR_DECODE, UE_ERR_NULL, UE_ERR_PANIC,
    UE_OK,
};

struct Native;

fn f(x: f32) -> F32 {
    F32::from_bits(x.to_bits())
}

fn g(x: F32) -> f32 {
    f32::from_bits(x.to_bits())
}

fn d(x: f64) -> F64 {
    F64::from_bits(x.to_bits())
}

fn e(x: F64) -> f64 {
    f64::from_bits(x.to_bits())
}

impl FloatOps for Native {
    fn add32(a: F32, b: F32) -> F32 {
        f(g(a) + g(b))
    }
    fn sub32(a: F32, b: F32) -> F32 {
        f(g(a) - g(b))
    }
    fn mul32(a: F32, b: F32) -> F32 {
        f(g(a) * g(b))
    }
    fn div32(a: F32, b: F32) -> F32 {
        f(g(a) / g(b))
    }
    fn sqrt32(a: F32) -> F32 {
        f(g(a).sqrt())
    }
    fn sin32(a: F32) -> F32 {
        f(g(a).sin())
    }
    fn cos32(a: F32) -> F32 {
        f(g(a).cos())
    }
    fn from_u64(n: u64) -> F32 {
        f(n as f32)
    }
    fn narrow(a: F64) -> F32 {
        f(e(a) as f32)
    }
    fn widen(a: F32) -> F64 {
        d(g(a) as f64)
    }
    fn add64(a: F64, b: F64) -> F64 {
        d(e(a) + e(b))
    }
    fn sub64(a: F64, b: F64) -> F64 {
        d(e(a) - e(b))
    }
    fn mul64(a: F64, b: F64) -> F64 {
        d(e(a) * e(b))
    }
}

fn v(x: f32, y: f32, z: f32) -> Vec3 {
    Vec3::new(f(x), f(y), f(z))
}

fn moving(x: f32, y: f32, z: f32) -> PlayerInput {
    PlayerInput { move_dir: v(x, y, z), ..Default::default() }
}

fn entity(id: u64, archetype: u32, transform: Transform) -> EntityState {
    EntityState {
        id,
        archetype,
        flags: FLAG_VISIBLE,
        transform,
        velocity: Vec3::zero(),
        anim_state: 0,
        anim_play_rate: f(1.0),
    }
}

fn at(x: f32, y: f32, z: f32) -> Transform {
    Transform { translation: v(x, y, z), ..Transform::identity() }
}

#[test]
fn transform_interpolation_endpoints_and_mid() {
    let a = Transform::identity();
    let b = Transform {
        translation: v(10.0, 0.0, 0.0),
        rotation: Quat::identity(),
        scale: v(3.0, 3.0, 3.0),
    };
    assert_eq!(a.interpolate::<Native>(b, f(0.0)), a);
    assert_eq!(a.interpolate::<Native>(b, f(1.0)).translation, b.translation);
    let mid = a.interpolate::<Native>(b, f(0.5));
    assert_eq!(mid.translation, v(5.0, 0.0, 0.0));
    assert_eq!(mid.scale, v(2.0, 2.0, 2.0));
}

#[test]
fn nlerp_stays_normalized() {
    let a = Quat::identity();
    let b = Quat::new(f(0.0), f(0.0), f(1.0), f(0.0)); // 180° about Z
    let q = a.nlerp::<Native>(b, f(0.5));
    let len = g(q.length::<Native>());
    assert!((len - 1.0).abs() < 1e-5, "len was {}", len);
}

#[test]
fn snapshot_interpolation_matches_by_id() {
    // a: {1, 2}; b: {2 (moved), 3 (spawned)}. Expect {2 interpolated, 3 as-is}.
    let a = WorldSnapshot {
        tick: 1,
        sim_time_s: d(0.0),
        entities: vec![
            entity(1, 0, Transform::identity()),
            entity(2, 0, Transform::identity()),
        ],
        events: vec![],
        streaming: StreamingState::default(),
    };
    let mut moved = Transform::identity();
    moved.translation = v(8.0, 0.0, 0.0);
    let b = WorldSnapshot {
        tick: 2,
        sim_time_s: d(1.0),
        entities: vec![entity(2, 0, moved), entity(3, 5, moved)],
        events: vec![Event::Spawn { id: 3, archetype: 5 }],
        streaming: StreamingState::default(),
    };

    let mid = WorldSnapshot::interpolate::<Native>(&a, &b, f(0.5));
    assert_eq!(mid.entities.len(), 2, "entity 1 (despawned) should be dropped");
    let e2 = mid.entities.iter().find(|e| e.id == 2).unwrap();
    assert_eq!(e2.transform.translation, v(4.0, 0.0, 0.0));
    let e3 = mid.entities.iter().find(|e| e.id == 3).unwrap();
    assert_eq!(
        e3.transform.translation,
        v(8.0, 0.0, 0.0),
        "spawned entity taken as-is"
    );
    assert_eq!(mid.sim_time_s, d(0.5));
    assert_eq!(mid.events, b.events, "events come from the newer snapshot");
}

#[test]
fn interpolation_takes_discrete_fields_from_the_newer_snapshot() {
    let mut a = WorldSnapshot::default();
    let mut b = WorldSnapshot { tick: 9, ..Default::default() };
    a.entities.push(entity(5, 1, at(0.0, 0.0, 0.0)));
    let mut newer = entity(5, 2, at(4.0, 0.0, 0.0));
    newer.flags = FLAG_LOCAL_PLAYER;
    newer.anim_state = 7;
    newer.anim_play_rate = f(2.0);
    newer.velocity = v(8.0, 0.0, 0.0);
    b.entities.push(newer);
    let r = WorldSnapshot::interpolate::<Native>(&a, &b, f(0.25));
    assert_eq!(r.tick, 9);
    let shown = &r.entities[0];
    assert_eq!((shown.archetype, shown.flags, shown.anim_state), (2, FLAG_LOCAL_PLAYER, 7));
    assert_eq!(shown.anim_play_rate, f(2.0));
    assert_eq!(shown.transform.translation, v(1.0, 0.0, 0.0));
    assert_eq!(shown.velocity, v(2.0, 0.0, 0.0));
}

#[test]
fn interpolation_matches_the_last_of_equal_ids() {
    let mut a = WorldSnapshot::default();
    let mut b = WorldSnapshot::default();
    a.entities.push(entity(5, 0, at(100.0, 0.0, 0.0)));
    a.entities.push(entity(5, 0, at(0.0, 0.0, 0.0)));
    b.entities.push(entity(5, 0, at(2.0, 0.0, 0.0)));
    let r = WorldSnapshot::interpolate::<Native>(&a, &b, f(0.5));
    assert_eq!(r.entities[0].transform.translation, v(1.0, 0.0, 0.0));
}

#[test]
fn interpolation_parameter_is_clamped() {
    let mut a = WorldSnapshot { sim_time_s: d(2.0), ..Default::default() };
    let mut b = WorldSnapshot { sim_time_s: d(4.0), ..Default::default() };
    a.entities.push(entity(1, 0, at(0.0, 0.0, 0.0)));
    b.entities.push(entity(1, 0, at(4.0, 0.0, 0.0)));
    let below = WorldSnapshot::interpolate::<Native>(&a, &b, f(-3.0));
    let above = WorldSnapshot::interpolate::<Native>(&a, &b, f(7.0));
    assert_eq!(below, WorldSnapshot::interpolate::<Native>(&a, &b, f(0.0)));
    assert_eq!(above, WorldSnapshot::interpolate::<Native>(&a, &b, f(1.0)));
    assert_eq!(below.sim_time_s, d(2.0));
    assert_eq!(above.sim_time_s, d(4.0));
    assert_eq!(above.entities[0].transform.translation, v(4.0, 0.0, 0.0));
}

#[test]
fn formulas_on_exact_values() {
    assert_eq!(lerp_f32::<Native>(f(2.0), f(6.0), f(0.25)), f(3.0));
    assert_eq!(v(0.0, 4.0, -4.0).lerp::<Native>(v(2.0, 8.0, 4.0), f(0.5)), v(1.0, 6.0, 0.0));
    let p = Quat::new(f(1.0), f(2.0), f(3.0), f(4.0));
    let q = Quat::new(f(5.0), f(6.0), f(7.0), f(8.0));
    assert_eq!(p.dot::<Native>(q), f(70.0));
    let two = Quat::new(f(0.0), f(2.0), f(0.0), f(0.0));
    assert_eq!(two.length::<Native>(), f(2.0));
    assert_eq!(two.normalized::<Native>(), Quat::new(f(0.0), f(1.0), f(0.0), f(0.0)));
    let none = Quat::new(f(0.0), f(0.0), f(0.0), f(0.0));
    assert_eq!(none.normalized::<Native>(), Quat::identity());
    let nan = Quat::new(f(f32::NAN), f(0.0), f(0.0), f(0.0));
    assert_eq!(nan.normalized::<Native>(), Quat::identity());
}

#[test]
fn nlerp_takes_the_shortest_arc() {
    let a = Quat::identity();
    let far = Quat::new(f(0.0), f(0.0), f(0.0), f(-1.0));
    // Both signs are the same rotation: nothing turns on the way.
    assert_eq!(a.nlerp::<Native>(far, f(0.5)), Quat::identity());
}

fn quat(x: f32, y: f32, z: f32, w: f32) -> Quat {
    Quat::new(f(x), f(y), f(z), f(w))
}

#[test]
fn normalized_is_unit_length_whatever_the_size() {
    // The squares overflow.
    let q = Quat::new(f(1e30), f(0.0), f(0.0), f(0.0));
    assert_eq!(q.normalized::<Native>(), quat(1.0, 0.0, 0.0, 0.0));
    assert_eq!(quat(0.0, -1e30, 0.0, 0.0).normalized::<Native>(), quat(0.0, -1.0, 0.0, 0.0));
    // The squares lose their digits.
    assert_eq!(quat(0.0, 0.0, 3e-23, 0.0).normalized::<Native>(), quat(0.0, 0.0, 1.0, 0.0));
    let m = f32::MAX;
    assert_eq!(quat(m, -m, m, -m).normalized::<Native>(), quat(0.5, -0.5, 0.5, -0.5));
    for scale in [1e-22f32, 1e-19, 1e-3, 1.0, 1e3, 1e18, 1e19, 1e37] {
        let q = quat(scale, -2.0 * scale, 3.0 * scale, 0.5 * scale);
        let len = g(q.normalized::<Native>().length::<Native>());
        assert!((len - 1.0).abs() < 1e-5, "len was {}", len);
    }
}

#[test]
fn normalized_keeps_a_plain_quotient_of_unit_length() {
    for e in -75..=63 {
        for part in [1.0f32, 1.1, 1.37, 1.73, 1.99] {
            let s = part * 2.0f32.powi(e);
            let (x, y, z, w) = (s, -0.5 * s, 0.25 * s, 0.75 * s);
            let len = (x * x + y * y + z * z + w * w).sqrt();
            let p = quat(x / len, y / len, z / len, w / len);
            let out = quat(x, y, z, w).normalized::<Native>();
            if (g(p.length::<Native>()) - 1.0).abs() < 1e-5 {
                for (a, b) in [(out.x, p.x), (out.y, p.y), (out.z, p.z), (out.w, p.w)] {
                    assert_eq!(a.to_bits(), b.to_bits());
                }
            } else if len > 0.0 {
                assert!((g(out.length::<Native>()) - 1.0).abs() < 1e-5);
            } else {
                assert_eq!(out, Quat::identity());
            }
        }
    }
}

#[test]
fn degenerate_quaternions_normalize_to_the_identity() {
    for q in [
        quat(0.0, 0.0, 0.0, 0.0),
        quat(-0.0, 0.0, -0.0, 0.0),
        quat(1e-30, 0.0, 0.0, 0.0),
        quat(f32::INFINITY, 0.0, 0.0, 0.0),
        quat(1.0, f32::NEG_INFINITY, 0.0, 0.0),
        quat(1.0, 0.0, f32::NAN, 0.0),
    ] {
        assert_eq!(q.normalized::<Native>(), Quat::identity());
    }
}

#[test]
fn large_rotations_blend_to_unit_length() {
    let a = quat(1e30, 0.0, 0.0, 0.0);
    let b = quat(0.0, 1e30, 0.0, 0.0);
    let len = g(a.nlerp::<Native>(b, f(0.5)).length::<Native>());
    assert!((len - 1.0).abs() < 1e-5, "len was {}", len);
}

#[test]
fn a_target_and_its_negation_give_one_blend() {
    let a = quat(0.1, -0.7, 0.3, 0.6);
    let b = quat(-0.4, 0.2, 0.8, -0.3);
    let n = quat(0.4, -0.2, -0.8, 0.3);
    for t in [0.0f32, 0.25, 0.5, 1.0] {
        assert_eq!(a.nlerp::<Native>(b, f(t)), a.nlerp::<Native>(n, f(t)));
    }
    let turned = quat(0.0, 0.0, 0.0, -1.0);
    assert_eq!(Quat::identity().nlerp::<Native>(turned, f(1.0)), Quat::identity());
}

#[test]
fn constants_are_the_documented_numbers() {
    assert_eq!(NUM_AGENTS, 8);
    assert_eq!(PLAYER_SPEED, 600.0f32.to_bits());
    assert_eq!(STREAM_RADIUS, 12_000.0f32.to_bits());
    assert_eq!(DEAD_ZONE, 1e-6f32.to_bits());
    assert_eq!(TAU, std::f32::consts::TAU.to_bits());
    assert_eq!(ORBIT_RATE, 0.5f32.to_bits());
    assert_eq!(ORBIT_RADIUS, 1500.0f32.to_bits());
}

#[test]
fn deterministic_snapshots() {
    // Two sims fed identical inputs/timesteps must produce identical bytes.
    let mut a = Sim::new();
    let mut b = Sim::new();
    let input = moving(1.0, 0.0, 0.0);
    for _ in 0..120 {
        a.apply_input(input);
        b.apply_input(input);
        a.step::<Native>(d(1.0 / 60.0));
        b.step::<Native>(d(1.0 / 60.0));
    }
    assert_eq!(a.snapshot::<Native>().encode(), b.snapshot::<Native>().encode());
}

#[test]
fn input_moves_player_and_first_tick_spawns() {
    let mut sim = Sim::new();
    sim.apply_input(moving(1.0, 0.0, 0.0));
    sim.step::<Native>(d(1.0));
    let snap = sim.snapshot::<Native>();
    // First snapshot emits Spawn events for every entity.
    assert_eq!(snap.events.len(), snap.entities.len());
    // Player (id 0) moved along +X at PLAYER_SPEED for 1 s.
    let player = snap.entities.iter().find(|e| e.id == 0).unwrap();
    let speed = f32::from_bits(PLAYER_SPEED);
    assert!((g(player.transform.translation.x) - speed).abs() < 1e-3);
    assert_ne!(player.anim_state, 0, "moving player should not be idle");
    // Second snapshot no longer re-spawns.
    sim.step::<Native>(d(1.0));
    assert!(sim.snapshot::<Native>().events.is_empty());
}

#[test]
fn worlds_with_snapshots_in_between_stay_alike() {
    let mut a = Sim::new();
    let mut b = Sim::new();
    let mut last = 0u64;
    for n in 0..10u64 {
        if n % 3 == 0 {
            let input = moving(n as f32, 1.0, -2.0);
            a.apply_input(input);
            b.apply_input(input);
        }
        a.step::<Native>(d(1.0 / 60.0));
        b.step::<Native>(d(1.0 / 60.0));
        let (x, y) = (a.snapshot::<Native>(), b.snapshot::<Native>());
        assert_eq!(x.encode(), y.encode());
        assert_eq!(x.events.len(), if n == 0 { 9 } else { 0 });
        assert_eq!(x.tick, n + 1);
        assert!(last <= x.tick);
        last = x.tick;
    }
}

#[test]
fn snapshots_without_a_step_repeat() {
    let mut sim = Sim::new();
    sim.apply_input(moving(1.0, 2.0, 3.0));
    sim.step::<Native>(d(0.5));
    let first = sim.snapshot::<Native>();
    let second = sim.snapshot::<Native>();
    sim.apply_input(moving(-1.0, 0.0, 0.0));
    let third = sim.snapshot::<Native>();
    assert_eq!(first.events.len(), 9);
    let quiet = WorldSnapshot { events: vec![], ..first };
    assert_eq!(second.encode(), quiet.encode());
    assert_eq!(third.encode(), quiet.encode());
}

#[test]
fn speed_comes_from_the_direction_alone() {
    let mut fresh = Sim::new();
    let mut moved = Sim::new();
    moved.apply_input(moving(-1.0, 5.0, 0.0));
    moved.step::<Native>(d(3.0));
    for sim in [&mut fresh, &mut moved] {
        sim.apply_input(moving(3.0, 0.0, 4.0));
    }
    fresh.step::<Native>(d(1.0));
    moved.step::<Native>(d(0.25));
    let (x, y) = (fresh.snapshot::<Native>(), moved.snapshot::<Native>());
    assert_eq!(x.entities[0].velocity, y.entities[0].velocity);
    // The direction need not be normalized: the speed is the same for any length of it.
    for scale in [1e-3f32, 0.5, 7.0, 1e6, 1e17] {
        let mut sim = Sim::new();
        sim.apply_input(moving(3.0 * scale, 0.0, 4.0 * scale));
        sim.step::<Native>(d(1.0));
        let velocity = sim.snapshot::<Native>().entities[0].velocity;
        assert!((g(velocity.x) - 360.0).abs() < 1e-3);
        assert_eq!(g(velocity.y), 0.0);
        assert!((g(velocity.z) - 480.0).abs() < 1e-3);
    }
}

#[test]
fn snapshot_shows_the_whole_world() {
    let mut sim = Sim::default();
    sim.apply_input(moving(0.0, 3.0, 4.0));
    sim.step::<Native>(d(0.5));
    let snap = sim.snapshot::<Native>();
    assert_eq!(snap.tick, 1);
    assert_eq!(snap.sim_time_s, d(0.5));
    assert_eq!(snap.entities.len(), 9);
    let player = &snap.entities[0];
    assert_eq!(player.archetype, 1);
    assert_eq!(player.flags, FLAG_VISIBLE | FLAG_LOCAL_PLAYER);
    assert_eq!(player.velocity, v(0.0, 3.0 / 5.0 * 600.0, 4.0 / 5.0 * 600.0));
    assert_eq!(
        player.transform.translation,
        v(0.0, 3.0 / 5.0 * 600.0 * 0.5, 4.0 / 5.0 * 600.0 * 0.5)
    );
    for i in 1..=8u64 {
        let agent = &snap.entities[i as usize];
        let phase = i as f32 * std::f32::consts::TAU / 8u64 as f32;
        let angle = 0.5f32 * 0.5 + phase;
        assert_eq!((agent.id, agent.archetype, agent.flags), (i, 2, FLAG_VISIBLE));
        assert_eq!(
            agent.transform.translation,
            v(1500.0 * angle.cos(), 1500.0 * angle.sin(), 0.0)
        );
        assert_eq!(agent.transform.scale, v(1.0, 1.0, 1.0));
        assert_eq!(agent.transform.rotation, Quat::identity());
        assert_eq!(agent.velocity, Vec3::zero());
        assert_eq!(agent.anim_state, 1);
        assert_eq!(snap.events[i as usize], Event::Spawn { id: i, archetype: 2 });
    }
    let source = snap.streaming.sources[0];
    assert_eq!(source.position, player.transform.translation);
    assert_eq!(source.radius, f(12_000.0));
    assert_eq!((source.grid, source.priority), (0, 100));
    assert_eq!(source.target, StreamingTargetState::Activated);
    assert_eq!(snap.streaming.data_layers[0].name, "Gameplay");
    assert_eq!(snap.streaming.data_layers[0].state, DataLayerRuntimeState::Activated);
    assert_eq!(WorldSnapshot::decode(&snap.encode()), Ok(snap));
}

#[test]
fn last_input_wins_and_stays_queued() {
    let mut sim = Sim::new();
    sim.apply_input(moving(1.0, 0.0, 0.0));
    sim.apply_input(moving(0.0, -2.0, 0.0));
    sim.step::<Native>(d(1.0));
    sim.step::<Native>(d(1.0));
    let snap = sim.snapshot::<Native>();
    assert_eq!(snap.tick, 2);
    assert_eq!(snap.entities[0].transform.translation, v(0.0, -1200.0, 0.0));
    assert!(sim.can_step());
}

#[test]
fn tiny_and_missing_directions_stand_still() {
    for input in [moving(0.0, 0.0, 0.0), moving(1e-7, 0.0, 0.0), moving(f32::NAN, 0.0, 0.0)] {
        let mut sim = Sim::new();
        sim.apply_input(input);
        sim.step::<Native>(d(1.0));
        let snap = sim.snapshot::<Native>();
        assert_eq!(snap.entities[0].velocity, Vec3::zero());
        assert_eq!(snap.entities[0].transform.translation, Vec3::zero());
        assert_eq!(snap.entities[0].anim_state, 0);
    }
}

#[test]
fn lifecycle_tick_and_pull() {
    let mut h = ue_bridge_create();
    assert_eq!(ue_bridge_handle_is_null(Some(&h)), 0);
    assert_eq!(ue_bridge_abi_version(), UE_BRIDGE_ABI_VERSION);

    // Push input, tick, pull the latest snapshot.
    let input = moving(1.0, 0.0, 0.0);
    let in_bytes = input.encode();
    assert_eq!(ue_bridge_push_input(Some(&mut h), Some(&in_bytes)), UE_OK);
    assert_eq!(ue_bridge_tick::<Native>(Some(&mut h), d(1.0 / 60.0)), UE_OK);

    // First query without a buffer reports the required size.
    let mut needed: usize = 0;
    let rc = ue_bridge_latest_snapshot(Some(&h), None, Some(&mut needed));
    assert_eq!(rc, UE_ERR_BUFFER_TOO_SMALL);
    assert!(needed > 0);

    // Allocate and pull for real.
    let mut buf = vec![0u8; needed];
    let mut got: usize = 0;
    let rc = ue_bridge_latest_snapshot(Some(&h), Some(&mut buf), Some(&mut got));
    assert_eq!(rc, UE_OK);
    assert_eq!(got, needed);

    // The bytes decode into a real snapshot whose player has moved.
    let snap = WorldSnapshot::decode(&buf[..got]).expect("decode");
    let player = snap.entities.iter().find(|e| e.id == 0).expect("player");
    assert!(g(player.transform.translation.x) > 0.0);
}

#[test]
fn null_and_bad_input_are_rejected_not_crashed() {
    assert_eq!(ue_bridge_tick::<Native>(None, d(0.016)), UE_ERR_NULL);
    let mut len = 0usize;
    assert_eq!(ue_bridge_latest_snapshot(None, None, Some(&mut len)), UE_ERR_NULL);

    let mut h = ue_bridge_create();
    let garbage = [0xFFu8; 8];
    assert_eq!(ue_bridge_push_input(Some(&mut h), Some(&garbage)), UE_ERR_DECODE);
    assert_eq!(ue_bridge_push_input(Some(&mut h), None), UE_ERR_NULL);
    assert_eq!(ue_bridge_push_input(None, Some(&garbage)), UE_ERR_NULL);
    assert_eq!(ue_bridge_latest_snapshot(Some(&h), None, None), UE_ERR_NULL);
    assert_eq!(ue_bridge_handle_is_null(None), 1);
}

#[test]
fn small_buffers_are_left_alone_and_large_ones_keep_their_tail() {
    let mut h = ue_bridge_create();
    let mut len = 99usize;
    let mut empty: [u8; 0] = [];
    // Before the first tick there is nothing to pull.
    assert_eq!(ue_bridge_latest_snapshot(Some(&h), Some(&mut empty), Some(&mut len)), UE_OK);
    assert_eq!(len, 0);
    assert_eq!(ue_bridge_tick::<Native>(Some(&mut h), d(0.5)), UE_OK);
    let mut small = [7u8; 16];
    assert_eq!(
        ue_bridge_latest_snapshot(Some(&h), Some(&mut small), Some(&mut len)),
        UE_ERR_BUFFER_TOO_SMALL
    );
    assert_eq!(small, [7u8; 16]);
    let mut large = vec![7u8; len + 3];
    assert_eq!(ue_bridge_latest_snapshot(Some(&h), Some(&mut large), Some(&mut len)), UE_OK);
    assert_eq!(large[len..], [7, 7, 7]);
    assert_eq!(large[..4], *b"UERS");
}

#[test]
fn latest_snapshot_replaces_the_one_before() {
    let mut h = ue_bridge_create();
    let mut len = 0usize;
    for tick in 1..=3u64 {
        assert_eq!(ue_bridge_tick::<Native>(Some(&mut h), d(0.5)), UE_OK);
        ue_bridge_latest_snapshot(Some(&h), None, Some(&mut len));
        let mut buf = vec![0u8; len];
        assert_eq!(ue_bridge_latest_snapshot(Some(&h), Some(&mut buf), Some(&mut len)), UE_OK);
        let snap = WorldSnapshot::decode(&buf).expect("decode");
        assert_eq!(snap.tick, tick);
        assert_eq!(snap.events.len(), if tick == 1 { 9 } else { 0 });
    }
}

#[test]
fn malformed_input_changes_nothing() {
    let mut h = ue_bridge_create();
    let good = moving(0.0, 1.0, 0.0).encode();
    assert_eq!(ue_bridge_push_input(Some(&mut h), Some(&good)), UE_OK);
    assert_eq!(ue_bridge_push_input(Some(&mut h), Some(&good[..31])), UE_ERR_DECODE);
    assert_eq!(ue_bridge_push_input(Some(&mut h), Some(&[])), UE_ERR_DECODE);
    assert_eq!(ue_bridge_push_input(Some(&mut h), None), UE_ERR_NULL);
    assert_eq!(ue_bridge_tick::<Native>(Some(&mut h), d(1.0)), UE_OK);
    let mut len = 0usize;
    ue_bridge_latest_snapshot(Some(&h), None, Some(&mut len));
    let mut buf = vec![0u8; len];
    assert_eq!(ue_bridge_latest_snapshot(Some(&h), Some(&mut buf), Some(&mut len)), UE_OK);
    let snap = WorldSnapshot::decode(&buf).expect("decode");
    assert_eq!(snap.entities[0].transform.translation, v(0.0, 600.0, 0.0));
}

#[test]
fn bridges_fed_alike_hold_the_same_bytes() {
    let mut a = ue_bridge_create();
    let mut b = ue_bridge_create();
    let input = moving(0.25, -3.0, 0.5).encode();
    let mut bytes = vec![];
    for bridge in [&mut a, &mut b] {
        for _ in 0..5 {
            assert_eq!(ue_bridge_push_input(Some(&mut *bridge), Some(&input)), UE_OK);
            assert_eq!(ue_bridge_tick::<Native>(Some(&mut *bridge), d(1.0 / 30.0)), UE_OK);
        }
        let mut len = 0usize;
        ue_bridge_latest_snapshot(Some(&*bridge), None, Some(&mut len));
        let mut buf = vec![0u8; len];
        let rc = ue_bridge_latest_snapshot(Some(&*bridge), Some(&mut buf), Some(&mut len));
        assert_eq!(rc, UE_OK);
        bytes.push(buf);
    }
    assert_eq!(bytes[0], bytes[1]);
}

#[test]
fn codes_are_the_documented_numbers() {
    assert_eq!(
        [UE_OK, UE_ERR_NULL, UE_ERR_PANIC, UE_ERR_BUFFER_TOO_SMALL, UE_ERR_DECODE],
        [0, -1, -2, -3, -4]
    );
    assert_eq!(UE_BRIDGE_ABI_VERSION, 1);
}
