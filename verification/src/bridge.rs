//! The narrow, handle-based boundary that the engine's plugin calls.
//!
//! * **Opaque handle.** Nothing crosses the boundary except bytes and primitives. A
//!   missing pointer is a `None`.
//! * **Latest-wins, caller-owned buffer.** The renderer pulls the most recent
//!   encoded snapshot into its own reusable buffer.
//! * **ABI version handshake** via [`ue_bridge_abi_version`].

use crate::authority::{
    adds_up, carried, circles, drives, initial, law_agents_shown, law_new_world,
    law_snapshot_deterministic, law_snapshot_fits, law_step_deterministic, law_step_place, law_step_time, player, shows, spawns,
    steps, with_input, Sim, SimModel, NUM_AGENTS,
};
use crate::float::{
    deterministic, exact, holds64, is64, multiplies, narrows, sums, sums64, FloatOps, F32, F64,
};
use crate::frame::{decoded, framed, law_frame_read_back, WIRE_MAGIC_INPUT, WIRE_MAGIC_SNAPSHOT};
use crate::input::PlayerInput;
use crate::snapshot::{SnapshotModel, WorldSnapshot};
use vstd::prelude::*;

verus! {

/// Success.
pub const UE_OK: i32 = 0;

/// A required pointer argument was null.
pub const UE_ERR_NULL: i32 = -1;

/// A panic was caught at the boundary (state may be unchanged).
pub const UE_ERR_PANIC: i32 = -2;

/// The caller buffer was too small; the length argument holds the required size.
pub const UE_ERR_BUFFER_TOO_SMALL: i32 = -3;

/// The provided input bytes failed to decode.
pub const UE_ERR_DECODE: i32 = -4;

/// The ABI/contract version. The caller must check this at load time and
/// refuse to run on a mismatch. Bump on any breaking change to these functions.
pub const UE_BRIDGE_ABI_VERSION: u32 = 1;

/// Opaque handle.
pub struct UeBridge {
    sim: Sim,
    /// The most recently encoded snapshot (latest-wins).
    latest: Vec<u8>,
}

/// What a [`UeBridge`] holds.
#[verifier::ext_equal]
pub struct BridgeModel {
    pub sim: SimModel,
    pub latest: Seq<u8>,
}

impl View for UeBridge {
    type V = BridgeModel;

    closed spec fn view(&self) -> BridgeModel {
        BridgeModel { sim: self.sim@, latest: self.latest@ }
    }
}

/// `r` is the bridge `s` after a tick of `dt` seconds, on `K`, by way of the stepped
/// simulation and the snapshot that shows it.
pub open spec fn ticks_through<K: FloatOps>(
    s: BridgeModel,
    dt: F64,
    stepped: SimModel,
    shown: SnapshotModel,
    r: BridgeModel,
) -> bool {
    &&& steps::<K>(s.sim, dt, stepped)
    &&& shows::<K>(stepped, shown)
    &&& r.sim == (SimModel { spawned: true, ..stepped })
    &&& r.latest == framed::<WorldSnapshot>(WIRE_MAGIC_SNAPSHOT@, shown)
}

/// `r` is the bridge `s` after a tick of `dt` seconds, on `K`: the simulation has made a
/// step, and the latest snapshot shows where it led.
pub open spec fn ticks<K: FloatOps>(s: BridgeModel, dt: F64, r: BridgeModel) -> bool {
    exists|stepped: SimModel, shown: SnapshotModel|
        ticks_through::<K>(s, dt, stepped, shown, r)
}

/// The answer to a pull of `latest` into a buffer with the given room, if there is one.
pub open spec fn pull_code(latest: Seq<u8>, room: Option<nat>) -> i32 {
    match room {
        None => UE_ERR_BUFFER_TOO_SMALL,
        Some(cap) => if latest.len() > cap {
            UE_ERR_BUFFER_TOO_SMALL
        } else {
            UE_OK
        },
    }
}

/// A buffer after a pull of `latest` into it: the snapshot at its front where there
/// is room for it, and untouched where there is not.
pub open spec fn pulled(latest: Seq<u8>, buffer: Seq<u8>) -> Seq<u8> {
    if latest.len() > buffer.len() {
        buffer
    } else {
        latest + buffer.skip(latest.len() as int)
    }
}

/// The bridge after the bytes of an input were pushed, and the answer: an input
/// is queued, and bytes that are none change nothing.
pub open spec fn pushed(s: BridgeModel, data: Seq<u8>) -> (BridgeModel, i32) {
    match decoded::<PlayerInput>(WIRE_MAGIC_INPUT@, data) {
        Ok(input) => (BridgeModel { sim: with_input(s.sim, input), ..s }, UE_OK),
        Err(_) => (s, UE_ERR_DECODE),
    }
}

/// Create a new bridge instance.
pub fn ue_bridge_create() -> (r: UeBridge)
    ensures
        r@ == (BridgeModel { sim: initial(), latest: Seq::empty() }),
{
    UeBridge { sim: Sim::new(), latest: Vec::new() }
}

/// Advance the authoritative simulation by `dt_seconds` and refresh the latest
/// snapshot. Returns [`UE_OK`] or an `UE_ERR_*` code: where the tick counter can
/// count no further tick the answer is [`UE_ERR_PANIC`], and the bridge stays as it is.
pub fn ue_bridge_tick<K: FloatOps>(handle: Option<&mut UeBridge>, dt_seconds: F64) -> (rc: i32)
    ensures
        match handle {
            None => rc == UE_ERR_NULL,
            Some(bridge) => if bridge@.sim.tick < u64::MAX {
                rc == UE_OK && ticks::<K>(bridge@, dt_seconds, final(bridge)@)
            } else {
                rc == UE_ERR_PANIC && final(bridge)@ == bridge@
            },
        },
{
    match handle {
        None => UE_ERR_NULL,
        Some(bridge) => {
            if !bridge.sim.can_step() {
                return UE_ERR_PANIC;
            }
            bridge.sim.step::<K>(dt_seconds);
            let ghost stepped = bridge.sim@;
            let shown = bridge.sim.snapshot::<K>();
            let ghost before = handle->0@;
            bridge.latest = shown.encode();
            assert(ticks_through::<K>(before, dt_seconds, stepped, shown.deep_view(), bridge@));
            UE_OK
        },
    }
}

/// Copy the latest encoded snapshot into the caller-owned buffer (latest-wins).
///
/// On success returns [`UE_OK`] and writes the byte count to `out_len`. If
/// the buffer is too small (or there is none), returns [`UE_ERR_BUFFER_TOO_SMALL`]
/// and still writes the required size to `out_len`, so the caller can grow its
/// buffer and retry.
pub fn ue_bridge_latest_snapshot(
    handle: Option<&UeBridge>,
    out: Option<&mut [u8]>,
    out_len: Option<&mut usize>,
) -> (rc: i32)
    ensures
        rc == match (handle, out_len) {
            (Some(bridge), Some(_)) => pull_code(
                bridge@.latest,
                match out {
                    Some(buffer) => Some(buffer@.len()),
                    None => None,
                },
            ),
            _ => UE_ERR_NULL,
        },
        out_len matches Some(len) ==> *final(len) == match handle {
            Some(bridge) => bridge@.latest.len(),
            None => *len as nat,
        },
        out matches Some(buffer) ==> final(buffer)@ == match (handle, out_len) {
            (Some(bridge), Some(_)) => pulled(bridge@.latest, buffer@),
            _ => buffer@,
        },
{
    match handle {
        None => UE_ERR_NULL,
        Some(bridge) => match out_len {
            None => UE_ERR_NULL,
            Some(out_len) => {
                let needed = bridge.latest.len();
                *out_len = needed;
                match out {
                    None => UE_ERR_BUFFER_TOO_SMALL,
                    Some(buffer) => {
                        if needed > buffer.len() {
                            UE_ERR_BUFFER_TOO_SMALL
                        } else {
                            copy_front(buffer, &bridge.latest);
                            UE_OK
                        }
                    },
                }
            },
        },
    }
}

/// Copies `bytes` to the front of `buffer`.
fn copy_front(buffer: &mut [u8], bytes: &Vec<u8>)
    requires
        bytes@.len() <= old(buffer)@.len(),
    ensures
        final(buffer)@ == bytes@ + old(buffer)@.skip(bytes@.len() as int),
{
    let mut i: usize = 0;
    while i < bytes.len()
        invariant
            i <= bytes@.len() <= old(buffer)@.len(),
            buffer@ == bytes@.take(i as int) + old(buffer)@.skip(i as int),
        decreases bytes@.len() - i,
    {
        buffer[i] = bytes[i];
        i = i + 1;
        assert(buffer@ =~= bytes@.take(i as int) + old(buffer)@.skip(i as int));
    }
    assert(bytes@.take(i as int) =~= bytes@);
}

/// Feed one framed [`PlayerInput`]. Returns [`UE_OK`], [`UE_ERR_DECODE`] on malformed
/// bytes, or another `UE_ERR_*` code.
pub fn ue_bridge_push_input(handle: Option<&mut UeBridge>, data: Option<&[u8]>) -> (rc: i32)
    ensures
        rc == match (handle, data) {
            (Some(bridge), Some(bytes)) => pushed(bridge@, bytes@).1,
            _ => UE_ERR_NULL,
        },
        handle matches Some(bridge) ==> final(bridge)@ == match data {
            Some(bytes) => pushed(bridge@, bytes@).0,
            None => bridge@,
        },
{
    match handle {
        None => UE_ERR_NULL,
        Some(bridge) => match data {
            None => UE_ERR_NULL,
            Some(bytes) => match PlayerInput::decode(bytes) {
                Ok(input) => {
                    bridge.sim.apply_input(input);
                    UE_OK
                },
                Err(_) => UE_ERR_DECODE,
            },
        },
    }
}

/// Returns the ABI version this library was built with. The caller must
/// compare it against its own expectation before using any other call.
pub fn ue_bridge_abi_version() -> (r: u32)
    ensures
        r == UE_BRIDGE_ABI_VERSION,
{
    UE_BRIDGE_ABI_VERSION
}

/// Reserved; one for a missing handle and zero for any other.
pub fn ue_bridge_handle_is_null(handle: Option<&UeBridge>) -> (r: i32)
    ensures
        r == if handle is None {
            1i32
        } else {
            0i32
        },
{
    match handle {
        None => 1,
        Some(_) => 0,
    }
}

/// What is asked of a bridge.
pub enum BridgeCall {
    /// The bytes of an input are pushed, well-formed or not.
    Push(Seq<u8>),
    /// The bridge ticks by this many seconds.
    Tick(F64),
}

/// `s` becomes `r` on `K` by one call; a tick is one that the counter could count.
pub open spec fn answers<K: FloatOps>(s: BridgeModel, call: BridgeCall, r: BridgeModel) -> bool {
    match call {
        BridgeCall::Push(data) => r == pushed(s, data).0,
        BridgeCall::Tick(dt) => ticks::<K>(s, dt, r),
    }
}

/// `s` becomes `r` on `K` when the calls are made of it, in order.
pub open spec fn serves<K: FloatOps>(
    s: BridgeModel,
    script: Seq<BridgeCall>,
    r: BridgeModel,
) -> bool
    decreases script.len(),
{
    if script.len() == 0 {
        r == s
    } else {
        exists|m: BridgeModel|
            serves::<K>(s, script.drop_last(), m) && #[trigger] answers::<K>(m, script.last(), r)
    }
}

/// How many of the calls are ticks.
pub open spec fn tick_count(script: Seq<BridgeCall>) -> nat
    decreases script.len(),
{
    if script.len() == 0 {
        0
    } else {
        tick_count(script.drop_last()) + if script.last() is Tick {
            1nat
        } else {
            0nat
        }
    }
}

/// The bytes that a tick leaves decode to a snapshot of the world it led to: its
/// tick and time, its player, its streaming source, and a spawn for each entity where none
/// were told of before.
pub proof fn law_latest_decodes<K: FloatOps>(s: BridgeModel, dt: F64, r: BridgeModel)
    requires
        ticks::<K>(s, dt, r),
    ensures
        decoded::<WorldSnapshot>(WIRE_MAGIC_SNAPSHOT@, r.latest) matches Ok(shown) && {
            &&& r.latest == framed::<WorldSnapshot>(WIRE_MAGIC_SNAPSHOT@, shown)
            &&& shown.tick == s.sim.tick + 1
            &&& shown.tick == r.sim.tick
            &&& shown.sim_time_s == r.sim.time_s
            &&& shown.entities[0] == player(r.sim)
            &&& shown.streaming.sources[0].position == r.sim.player_pos
            &&& shown.entities.len() == NUM_AGENTS + 1
            &&& shown.events == if s.sim.spawned {
                Seq::empty()
            } else {
                spawns(shown.entities)
            }
            &&& r.sim.spawned
        },
{
    let (stepped, shown) = choose|stepped: SimModel, shown: SnapshotModel|
        ticks_through::<K>(s, dt, stepped, shown, r);
    law_snapshot_fits::<K>(stepped, shown);
    law_frame_read_back::<WorldSnapshot>(WIRE_MAGIC_SNAPSHOT@, shown, Seq::empty());
    assert(r.latest + Seq::<u8>::empty() =~= r.latest);
}

/// The latest snapshot replaces the one before: a tick leads to the same bridge
/// whatever snapshot it held.
pub proof fn law_latest_wins<K: FloatOps>(
    s: BridgeModel,
    other: Seq<u8>,
    dt: F64,
    r: BridgeModel,
)
    ensures
        ticks::<K>(s, dt, r) <==> ticks::<K>(BridgeModel { latest: other, ..s }, dt, r),
{
    let o = BridgeModel { latest: other, ..s };
    assert(forall|stepped: SimModel, shown: SnapshotModel|
        #![trigger ticks_through::<K>(s, dt, stepped, shown, r)]
        #![trigger ticks_through::<K>(o, dt, stepped, shown, r)]
        ticks_through::<K>(s, dt, stepped, shown, r) == ticks_through::<K>(
            o,
            dt,
            stepped,
            shown,
            r,
        ));
}

/// A framed input is taken, whatever follows it, and replaces the one before.
pub proof fn law_pushed_input(s: BridgeModel, before: Seq<u8>, input: PlayerInput, rest: Seq<u8>)
    ensures
        pushed(s, framed::<PlayerInput>(WIRE_MAGIC_INPUT@, input) + rest) == (
            BridgeModel { sim: with_input(s.sim, input), ..s },
            UE_OK,
        ),
        pushed(
            pushed(s, before).0,
            framed::<PlayerInput>(WIRE_MAGIC_INPUT@, input) + rest,
        ) == pushed(s, framed::<PlayerInput>(WIRE_MAGIC_INPUT@, input) + rest),
{
    law_frame_read_back::<PlayerInput>(WIRE_MAGIC_INPUT@, input, rest);
}

/// Bytes that do not decode as an input are refused and change nothing.
pub proof fn law_malformed_input(s: BridgeModel, data: Seq<u8>)
    requires
        decoded::<PlayerInput>(WIRE_MAGIC_INPUT@, data) is Err,
    ensures
        pushed(s, data) == (s, UE_ERR_DECODE),
{
}

/// A pull that was told the required size succeeds with a buffer of that size, and fills
/// it with the snapshot.
pub proof fn law_pull_retry(latest: Seq<u8>, buffer: Seq<u8>)
    requires
        buffer.len() == latest.len(),
    ensures
        pull_code(latest, Some(buffer.len())) == UE_OK,
        pulled(latest, buffer) == latest,
{
    assert(latest + buffer.skip(latest.len() as int) =~= latest);
}

/// From an input to the picture: a framed input is pushed, the bridge ticks, and a pull
/// into a buffer of the required size gives bytes that decode to a snapshot of the
/// next tick, in which the player moves as that input asks.
pub proof fn law_lifecycle<K: FloatOps>(
    s: BridgeModel,
    input: PlayerInput,
    dt: F64,
    r: BridgeModel,
    buffer: Seq<u8>,
)
    requires
        ticks::<K>(pushed(s, framed::<PlayerInput>(WIRE_MAGIC_INPUT@, input)).0, dt, r),
        buffer.len() == r.latest.len(),
    ensures
        pushed(s, framed::<PlayerInput>(WIRE_MAGIC_INPUT@, input)).1 == UE_OK,
        pull_code(r.latest, Some(buffer.len())) == UE_OK,
        decoded::<WorldSnapshot>(WIRE_MAGIC_SNAPSHOT@, pulled(r.latest, buffer)) matches Ok(shown)
            && {
            &&& shown.tick == s.sim.tick + 1
            &&& shown.entities[0] == player(r.sim)
            &&& shown.entities[0].transform.translation == r.sim.player_pos
            &&& drives::<K>(input.move_dir, shown.entities[0].velocity)
        },
{
    let bytes = framed::<PlayerInput>(WIRE_MAGIC_INPUT@, input);
    law_pushed_input(s, Seq::empty(), input, Seq::empty());
    assert(bytes + Seq::<u8>::empty() =~= bytes);
    law_pull_retry(r.latest, buffer);
    law_latest_decodes::<K>(pushed(s, bytes).0, dt, r);
}

/// On a deterministic unit a tick leads to one bridge, down to the bytes of its snapshot.
pub proof fn law_tick_deterministic<K: FloatOps>(
    s: BridgeModel,
    dt: F64,
    p: BridgeModel,
    q: BridgeModel,
)
    requires
        deterministic::<K>(),
        ticks::<K>(s, dt, p),
        ticks::<K>(s, dt, q),
    ensures
        p == q,
{
    let (p_sim, p_shown) = choose|stepped: SimModel, shown: SnapshotModel|
        ticks_through::<K>(s, dt, stepped, shown, p);
    let (q_sim, q_shown) = choose|stepped: SimModel, shown: SnapshotModel|
        ticks_through::<K>(s, dt, stepped, shown, q);
    law_step_deterministic::<K>(s.sim, dt, p_sim, q_sim);
    law_snapshot_deterministic::<K>(p_sim, p_shown, q_shown);
}

/// The history of a new bridge, whatever is pushed between its ticks: it counts them, and
/// its bytes decode to a snapshot of the last one, with a spawn for each of the nine
/// entities after the first tick and no event after a later one. Before the first tick
/// there are no bytes.
pub proof fn law_history<K: FloatOps>(script: Seq<BridgeCall>, r: BridgeModel)
    requires
        serves::<K>(BridgeModel { sim: initial(), latest: Seq::empty() }, script, r),
    ensures
        r.sim.tick == tick_count(script),
        r.sim.spawned == (tick_count(script) > 0),
        tick_count(script) == 0 ==> r.latest == Seq::<u8>::empty(),
        tick_count(script) > 0 ==> (decoded::<WorldSnapshot>(
            WIRE_MAGIC_SNAPSHOT@,
            r.latest,
        ) matches Ok(shown) && {
            &&& shown.tick == tick_count(script)
            &&& shown.entities.len() == 9
            &&& shown.events == if tick_count(script) == 1 {
                spawns(shown.entities)
            } else {
                Seq::empty()
            }
        }),
    decreases script.len(),
{
    let new = BridgeModel { sim: initial(), latest: Seq::empty() };
    if script.len() > 0 {
        let m = choose|m: BridgeModel|
            serves::<K>(new, script.drop_last(), m) && #[trigger] answers::<K>(m, script.last(), r);
        law_history::<K>(script.drop_last(), m);
        if let BridgeCall::Tick(dt) = script.last() {
            law_latest_decodes::<K>(m, dt, r);
        }
    }
}

/// On a deterministic unit two bridges that start alike and are fed alike are one bridge,
/// down to the bytes of its snapshot.
pub proof fn law_history_deterministic<K: FloatOps>(
    s: BridgeModel,
    script: Seq<BridgeCall>,
    p: BridgeModel,
    q: BridgeModel,
)
    requires
        deterministic::<K>(),
        serves::<K>(s, script, p),
        serves::<K>(s, script, q),
    ensures
        p == q,
    decreases script.len(),
{
    if script.len() > 0 {
        let m = choose|m: BridgeModel|
            serves::<K>(s, script.drop_last(), m) && #[trigger] answers::<K>(m, script.last(), p);
        let n = choose|n: BridgeModel|
            serves::<K>(s, script.drop_last(), n) && #[trigger] answers::<K>(n, script.last(), q);
        law_history_deterministic::<K>(s, script.drop_last(), m, n);
        if let BridgeCall::Tick(dt) = script.last() {
            law_tick_deterministic::<K>(m, dt, p, q);
        }
    }
}

/// A tick advances the world by the seconds that it is given: they are added to the time,
/// and the player is carried from where it was, with the velocity that the queued direction
/// asks for, for so many seconds. On an exact unit the new time is the sum, and the player's
/// place is the old one and the distance.
pub proof fn law_tick_advances<K: FloatOps>(s: BridgeModel, dt: F64, r: BridgeModel)
    requires
        ticks::<K>(s, dt, r),
    ensures
        r.sim.tick == s.sim.tick + 1,
        r.sim.pending_input == s.sim.pending_input,
        sums64::<K>(s.sim.time_s, dt, r.sim.time_s),
        exact::<K>() && s.sim.time_s.is_finite() && dt.is_finite() && holds64(
            s.sim.time_s.units() + dt.units(),
        ) ==> is64(r.sim.time_s, s.sim.time_s.units() + dt.units()),
        drives::<K>(s.sim.pending_input.move_dir, r.sim.player_vel),
        ({
            let (p, v, q) = (s.sim.player_pos, r.sim.player_vel, r.sim.player_pos);
            exists|dt32: F32, x: F32, y: F32, z: F32|
                {
                    &&& #[trigger] narrows::<K>(dt, dt32)
                    &&& #[trigger] multiplies::<K>(v.x, dt32, x)
                    &&& #[trigger] multiplies::<K>(v.y, dt32, y)
                    &&& #[trigger] multiplies::<K>(v.z, dt32, z)
                    &&& sums::<K>(p.x, x, q.x)
                    &&& sums::<K>(p.y, y, q.y)
                    &&& sums::<K>(p.z, z, q.z)
                }
        }),
        exact::<K>() ==> {
            let (p, v, q) = (s.sim.player_pos, r.sim.player_vel, r.sim.player_pos);
            exists|dt32: F32| #[trigger]
                narrows::<K>(dt, dt32) && carried(p.x, v.x, dt32, q.x) && carried(
                    p.y,
                    v.y,
                    dt32,
                    q.y,
                ) && carried(p.z, v.z, dt32, q.z)
        },
{
    let (stepped, shown) = choose|stepped: SimModel, shown: SnapshotModel|
        ticks_through::<K>(s, dt, stepped, shown, r);
    law_step_time::<K>(s.sim, dt, stepped);
    law_step_place::<K>(s.sim, dt, stepped);
    let (p, v, q) = (s.sim.player_pos, r.sim.player_vel, r.sim.player_pos);
    let (dt32, x, y, z) = choose|dt32: F32, x: F32, y: F32, z: F32|
        {
            &&& #[trigger] narrows::<K>(dt, dt32)
            &&& #[trigger] multiplies::<K>(stepped.player_vel.x, dt32, x)
            &&& #[trigger] multiplies::<K>(stepped.player_vel.y, dt32, y)
            &&& #[trigger] multiplies::<K>(stepped.player_vel.z, dt32, z)
            &&& sums::<K>(s.sim.player_pos.x, x, stepped.player_pos.x)
            &&& sums::<K>(s.sim.player_pos.y, y, stepped.player_pos.y)
            &&& sums::<K>(s.sim.player_pos.z, z, stepped.player_pos.z)
        };
    assert(narrows::<K>(dt, dt32) && multiplies::<K>(v.x, dt32, x));
    assert(multiplies::<K>(v.y, dt32, y) && multiplies::<K>(v.z, dt32, z));
}

/// The bytes that a tick of `dt` leaves decode to a snapshot whose time is the time before
/// and `dt` added up, whose player stands where the tick brought it, with the velocity that
/// brought it there, and whose agents stand on the orbit at that time.
pub proof fn law_latest_shows_advance<K: FloatOps>(s: BridgeModel, dt: F64, r: BridgeModel)
    requires
        ticks::<K>(s, dt, r),
    ensures
        decoded::<WorldSnapshot>(WIRE_MAGIC_SNAPSHOT@, r.latest) matches Ok(shown) && {
            &&& sums64::<K>(s.sim.time_s, dt, shown.sim_time_s)
            &&& shown.sim_time_s == r.sim.time_s
            &&& shown.entities[0].transform.translation == r.sim.player_pos
            &&& shown.entities[0].velocity == r.sim.player_vel
            &&& exists|t: F32| #[trigger]
                narrows::<K>(shown.sim_time_s, t) && forall|i: int|
                    1 <= i <= 8 ==> circles::<K>(t, i as u64, (#[trigger] shown.entities[i]))
        },
{
    let (stepped, shown) = choose|stepped: SimModel, shown: SnapshotModel|
        ticks_through::<K>(s, dt, stepped, shown, r);
    law_step_time::<K>(s.sim, dt, stepped);
    law_snapshot_fits::<K>(stepped, shown);
    law_agents_shown::<K>(stepped, shown);
    law_frame_read_back::<WorldSnapshot>(WIRE_MAGIC_SNAPSHOT@, shown, Seq::empty());
    assert(r.latest + Seq::<u8>::empty() =~= r.latest);
}

/// The seconds of the ticks among the calls, in order.
pub open spec fn tick_lengths(script: Seq<BridgeCall>) -> Seq<F64>
    decreases script.len(),
{
    if script.len() == 0 {
        Seq::empty()
    } else {
        match script.last() {
            BridgeCall::Tick(dt) => tick_lengths(script.drop_last()).push(dt),
            BridgeCall::Push(_) => tick_lengths(script.drop_last()),
        }
    }
}

proof fn lemma_adds_up_push<K: FloatOps>(t: F64, dts: Seq<F64>, m: F64, dt: F64, r: F64)
    requires
        adds_up::<K>(t, dts, m),
        sums64::<K>(m, dt, r),
    ensures
        adds_up::<K>(t, dts.push(dt), r),
    decreases dts.len(),
{
    let all = dts.push(dt);
    if dts.len() == 0 {
        assert(sums64::<K>(t, all[0], r));
        assert(all.skip(1).len() == 0);
        assert(adds_up::<K>(r, all.skip(1), r));
    } else {
        let n = choose|n: F64| #[trigger]
            sums64::<K>(t, dts[0], n) && adds_up::<K>(n, dts.skip(1), m);
        lemma_adds_up_push::<K>(n, dts.skip(1), m, dt, r);
        assert(all.skip(1) =~= dts.skip(1).push(dt));
        assert(sums64::<K>(t, all[0], n));
    }
}

/// The time of a bridge is the one it began with and the seconds of every tick added to it
/// in turn, whatever is pushed in between.
pub proof fn law_history_time<K: FloatOps>(s: BridgeModel, script: Seq<BridgeCall>, r: BridgeModel)
    requires
        serves::<K>(s, script, r),
    ensures
        adds_up::<K>(s.sim.time_s, tick_lengths(script), r.sim.time_s),
    decreases script.len(),
{
    if script.len() > 0 {
        let m = choose|m: BridgeModel|
            serves::<K>(s, script.drop_last(), m) && #[trigger] answers::<K>(m, script.last(), r);
        law_history_time::<K>(s, script.drop_last(), m);
        if let BridgeCall::Tick(dt) = script.last() {
            law_tick_advances::<K>(m, dt, r);
            lemma_adds_up_push::<K>(
                s.sim.time_s,
                tick_lengths(script.drop_last()),
                m.sim.time_s,
                dt,
                r.sim.time_s,
            );
        }
    }
}

/// A pull succeeds exactly where there is a buffer with room for the snapshot. Then the
/// snapshot stands at its front and what lies behind is kept; otherwise the buffer is
/// kept as it was.
pub proof fn law_pull(latest: Seq<u8>, buffer: Seq<u8>)
    ensures
        pull_code(latest, None) == UE_ERR_BUFFER_TOO_SMALL,
        pull_code(latest, Some(buffer.len())) == UE_OK <==> latest.len() <= buffer.len(),
        pull_code(latest, Some(buffer.len())) == UE_ERR_BUFFER_TOO_SMALL <==> latest.len()
            > buffer.len(),
        pulled(latest, buffer).len() == buffer.len(),
        latest.len() > buffer.len() ==> pulled(latest, buffer) == buffer,
        latest.len() <= buffer.len() ==> forall|i: int|
            0 <= i < buffer.len() ==> #[trigger] pulled(latest, buffer)[i] == if i < latest.len() {
                latest[i]
            } else {
                buffer[i]
            },
{
}

/// A push changes the queued intent at most: tick, time, player, what was told and the
/// latest bytes stay.
pub proof fn law_push_queues_only(s: BridgeModel, data: Seq<u8>)
    ensures
        ({
            let r = pushed(s, data).0;
            &&& r.latest == s.latest
            &&& r.sim.tick == s.sim.tick
            &&& r.sim.time_s == s.sim.time_s
            &&& r.sim.player_pos == s.sim.player_pos
            &&& r.sim.player_vel == s.sim.player_vel
            &&& r.sim.spawned == s.sim.spawned
        }),
        pushed(s, data).1 == UE_OK <==> decoded::<PlayerInput>(WIRE_MAGIC_INPUT@, data) is Ok,
        decoded::<PlayerInput>(WIRE_MAGIC_INPUT@, data) matches Ok(input) ==> pushed(
            s,
            data,
        ).0.sim.pending_input == input,
{
}

/// A call that pulls without a handle or without a place for the length changes nothing
/// and says so; one with both tells the length, whether or not the snapshot fits.
pub proof fn law_pull_call(
    handle: Option<&UeBridge>,
    out: Option<&mut [u8]>,
    out_len: Option<&mut usize>,
    rc: i32,
)
    requires
        call_ensures(ue_bridge_latest_snapshot, (handle, out, out_len), rc),
    ensures
        rc == UE_ERR_NULL <==> handle is None || out_len is None,
        handle is None && out_len is Some ==> *final(out_len->0) == *(out_len->0),
        (handle is None || out_len is None) && out is Some ==> final(out->0)@ == out->0@,
        handle is Some && out_len is Some ==> *final(out_len->0) == handle->0@.latest.len(),
{
}

/// A new bridge holds a new world and no bytes.
pub proof fn law_create_call(r: UeBridge)
    requires
        call_ensures(ue_bridge_create, (), r),
    ensures
        r@.sim.tick == 0,
        is64(r@.sim.time_s, 0),
        !r@.sim.spawned,
        r@.latest.len() == 0,
{
    law_new_world();
}

/// A call that ticks without a handle says so. One with a handle counts the tick, adds the
/// seconds that it was given to the time and leaves bytes that decode to a snapshot of that
/// tick and that time, until the counter is full; then it says so and changes nothing.
pub proof fn law_tick_call<K: FloatOps>(handle: Option<&mut UeBridge>, dt: F64, rc: i32)
    requires
        call_ensures(ue_bridge_tick::<K>, (handle, dt), rc),
    ensures
        handle is None ==> rc == UE_ERR_NULL,
        handle is Some && handle->0@.sim.tick == u64::MAX ==> rc == UE_ERR_PANIC
            && final(handle->0)@ == handle->0@,
        handle is Some && handle->0@.sim.tick < u64::MAX ==> {
            let (s, r) = (handle->0@, final(handle->0)@);
            &&& rc == UE_OK
            &&& r.sim.tick == s.sim.tick + 1
            &&& sums64::<K>(s.sim.time_s, dt, r.sim.time_s)
            &&& r.sim.pending_input == s.sim.pending_input
            &&& decoded::<WorldSnapshot>(WIRE_MAGIC_SNAPSHOT@, r.latest) matches Ok(shown)
                && shown.tick == s.sim.tick + 1 && sums64::<K>(
                s.sim.time_s,
                dt,
                shown.sim_time_s,
            ) && shown.entities[0].transform.translation == r.sim.player_pos
        },
{
    if handle is Some && handle->0@.sim.tick < u64::MAX {
        let (s, r) = (handle->0@, final(handle->0)@);
        law_tick_advances::<K>(s, dt, r);
        law_latest_shows_advance::<K>(s, dt, r);
        law_latest_decodes::<K>(s, dt, r);
    }
}

/// A call that pushes without a handle or without bytes says so. One with both queues the
/// input that the bytes decode to, or refuses them, and changes nothing else.
pub proof fn law_push_call(handle: Option<&mut UeBridge>, data: Option<&[u8]>, rc: i32)
    requires
        call_ensures(ue_bridge_push_input, (handle, data), rc),
    ensures
        rc == UE_ERR_NULL <==> handle is None || data is None,
        handle is Some && data is None ==> final(handle->0)@ == handle->0@,
        handle is Some && data is Some ==> {
            let (s, r) = (handle->0@, final(handle->0)@);
            let input = decoded::<PlayerInput>(WIRE_MAGIC_INPUT@, data->0@);
            &&& rc == UE_OK <==> input is Ok
            &&& rc == UE_ERR_DECODE <==> input is Err
            &&& input is Err ==> r == s
            &&& input is Ok ==> r.sim.pending_input == input->Ok_0
            &&& r.latest == s.latest
            &&& r.sim.tick == s.sim.tick
            &&& r.sim.time_s == s.sim.time_s
            &&& r.sim.player_pos == s.sim.player_pos
            &&& r.sim.player_vel == s.sim.player_vel
            &&& r.sim.spawned == s.sim.spawned
        },
{
    if handle is Some && data is Some {
        law_push_queues_only(handle->0@, data->0@);
    }
}

} // verus!
