//! Where each field stands on the wire, byte by byte.

use crate::codec::Wire;
use crate::endian::{
    law_le_value_of_bytes, le_bytes, le_value, lemma_le_bytes_len, lemma_pow256, pow256,
};
use crate::entity::{law_entity_size, law_event_size, EntityState, Event};
use crate::float::{F32, F64};
use crate::frame::{framed, header, WIRE_MAGIC_INPUT, WIRE_MAGIC_SNAPSHOT, WIRE_VERSION};
use crate::input::PlayerInput;
use crate::math::{law_transform_size, law_vec3_size, Quat, Transform, Vec3};
use crate::sequence::wire_all;
use crate::snapshot::{SnapshotModel, WorldSnapshot};
use crate::streaming::{
    DataLayerModel, DataLayerRuntimeState, DataLayerState, StreamingModel, StreamingSource,
    StreamingState, StreamingTargetState,
};
use vstd::prelude::*;
use vstd::utf8::encode_utf8;

verus! {

/// The number in the `n` bytes of `s` from `at` on, least significant byte first.
pub open spec fn number_at(s: Seq<u8>, at: int, n: int) -> nat {
    le_value(s.subrange(at, at + n))
}

/// Each byte of a number is a digit to the base 256, the least significant first.
pub proof fn law_digits(x: nat, n: nat, i: nat)
    requires
        i < n,
    ensures
        le_bytes(x, n).len() == n,
        le_bytes(x, n)[i as int] == (x / pow256(i)) % 256,
    decreases n,
{
    lemma_le_bytes_len(x, n);
    if i == 0 {
        assert(x / 1 == x);
    } else {
        let p = pow256((i - 1) as nat);
        law_digits(x / 256, (n - 1) as nat, (i - 1) as nat);
        lemma_le_bytes_len(x / 256, (n - 1) as nat);
        assert(le_bytes(x, n)[i as int] == le_bytes(x / 256, (n - 1) as nat)[i - 1]);
        lemma_pow256_pos((i - 1) as nat);
        vstd::arithmetic::div_mod::lemma_div_denominator(x as int, 256, p as int);
    }
}

proof fn lemma_pow256_pos(n: nat)
    ensures
        pow256(n) > 0,
    decreases n,
{
    if n > 0 {
        lemma_pow256_pos((n - 1) as nat);
    }
}

/// A number stands behind what precedes it, whatever follows.
proof fn lemma_number_at(pre: Seq<u8>, x: nat, n: nat, post: Seq<u8>)
    requires
        x < pow256(n),
    ensures
        number_at(pre + le_bytes(x, n) + post, pre.len() as int, n as int) == x,
        le_bytes(x, n).len() == n,
{
    lemma_le_bytes_len(x, n);
    law_le_value_of_bytes(x, n);
    let s = pre + le_bytes(x, n) + post;
    assert(s.subrange(pre.len() as int, (pre.len() + n) as int) =~= le_bytes(x, n));
}

/// A vector is its `x`, `y` and `z`, four bytes each.
pub proof fn law_vec3_layout(v: Vec3)
    ensures
        Vec3::wire(v).len() == 12,
        number_at(Vec3::wire(v), 0, 4) == v.x.bits,
        number_at(Vec3::wire(v), 4, 4) == v.y.bits,
        number_at(Vec3::wire(v), 8, 4) == v.z.bits,
{
    lemma_pow256();
    law_vec3_size(v);
    let (x, y, z) = (F32::wire(v.x), F32::wire(v.y), F32::wire(v.z));
    let e = Seq::<u8>::empty();
    lemma_number_at(e, v.x.bits as nat, 4, y + z);
    lemma_number_at(x, v.y.bits as nat, 4, z);
    lemma_number_at(x + y, v.z.bits as nat, 4, e);
    assert(e + x + (y + z) =~= x + y + z);
    assert(x + y + z + e =~= x + y + z);
}

/// A rotation is its `x`, `y`, `z` and `w`, four bytes each.
pub proof fn law_quat_layout(v: Quat)
    ensures
        Quat::wire(v).len() == 16,
        number_at(Quat::wire(v), 0, 4) == v.x.bits,
        number_at(Quat::wire(v), 4, 4) == v.y.bits,
        number_at(Quat::wire(v), 8, 4) == v.z.bits,
        number_at(Quat::wire(v), 12, 4) == v.w.bits,
{
    lemma_pow256();
    let (x, y, z, w) = (F32::wire(v.x), F32::wire(v.y), F32::wire(v.z), F32::wire(v.w));
    let e = Seq::<u8>::empty();
    lemma_number_at(e, v.x.bits as nat, 4, y + z + w);
    lemma_number_at(x, v.y.bits as nat, 4, z + w);
    lemma_number_at(x + y, v.z.bits as nat, 4, w);
    lemma_number_at(x + y + z, v.w.bits as nat, 4, e);
    assert(e + x + (y + z + w) =~= x + y + z + w);
    assert(x + y + (z + w) =~= x + y + z + w);
    assert(x + y + z + w + e =~= x + y + z + w);
}

/// A transform is its place, its rotation and its scale.
pub proof fn law_transform_layout(v: Transform)
    ensures
        Transform::wire(v).len() == 40,
        Transform::wire(v).subrange(0, 12) == Vec3::wire(v.translation),
        Transform::wire(v).subrange(12, 28) == Quat::wire(v.rotation),
        Transform::wire(v).subrange(28, 40) == Vec3::wire(v.scale),
{
    law_transform_size(v);
    law_vec3_size(v.translation);
    law_vec3_size(v.scale);
    law_quat_layout(v.rotation);
    let s = Transform::wire(v);
    assert(s.subrange(0, 12) =~= Vec3::wire(v.translation));
    assert(s.subrange(12, 28) =~= Quat::wire(v.rotation));
    assert(s.subrange(28, 40) =~= Vec3::wire(v.scale));
}

/// An entity is its id, archetype, flags, transform, velocity, animation state and rate.
pub proof fn law_entity_layout(v: EntityState)
    ensures
        EntityState::wire(v).len() == 74,
        number_at(EntityState::wire(v), 0, 8) == v.id,
        number_at(EntityState::wire(v), 8, 4) == v.archetype,
        number_at(EntityState::wire(v), 12, 4) == v.flags,
        EntityState::wire(v).subrange(16, 56) == Transform::wire(v.transform),
        EntityState::wire(v).subrange(56, 68) == Vec3::wire(v.velocity),
        number_at(EntityState::wire(v), 68, 2) == v.anim_state,
        number_at(EntityState::wire(v), 70, 4) == v.anim_play_rate.bits,
{
    lemma_pow256();
    law_entity_size(v);
    law_transform_size(v.transform);
    law_vec3_size(v.velocity);
    let s = EntityState::wire(v);
    lemma_number(s, 0, v.id as nat, 8);
    lemma_number(s, 8, v.archetype as nat, 4);
    lemma_number(s, 12, v.flags as nat, 4);
    lemma_number(s, 68, v.anim_state as nat, 2);
    lemma_number(s, 70, v.anim_play_rate.bits as nat, 4);
    let a = u64::wire(v.id);
    let b = u32::wire(v.archetype);
    let c = u32::wire(v.flags);
    let d = Transform::wire(v.transform);
    let e = Vec3::wire(v.velocity);
    let f = u16::wire(v.anim_state);
    let g = F32::wire(v.anim_play_rate);
    assert(s.subrange(0, 8) =~= a);
    assert(s.subrange(8, 12) =~= b);
    assert(s.subrange(12, 16) =~= c);
    assert(s.subrange(16, 56) =~= d);
    assert(s.subrange(56, 68) =~= e);
    assert(s.subrange(68, 70) =~= f);
    assert(s.subrange(70, 74) =~= g);
}

/// Bytes that are those of a number are read as it.
proof fn lemma_number(s: Seq<u8>, at: int, x: nat, n: nat)
    requires
        x < pow256(n),
    ensures
        le_bytes(x, n).len() == n,
        s.subrange(at, at + n) == le_bytes(x, n) ==> number_at(s, at, n as int) == x,
{
    lemma_le_bytes_len(x, n);
    law_le_value_of_bytes(x, n);
}

/// An event is a tag, zero for a spawn, one for a despawn and two for a cue, and then its
/// fields in order.
pub proof fn law_event_layout(v: Event)
    ensures
        match v {
            Event::Spawn { id, archetype } => {
                &&& Event::wire(v).len() == 13
                &&& Event::wire(v)[0] == 0
                &&& number_at(Event::wire(v), 1, 8) == id
                &&& number_at(Event::wire(v), 9, 4) == archetype
            },
            Event::Despawn { id } => {
                &&& Event::wire(v).len() == 9
                &&& Event::wire(v)[0] == 1
                &&& number_at(Event::wire(v), 1, 8) == id
            },
            Event::OneShot { cue, position } => {
                &&& Event::wire(v).len() == 17
                &&& Event::wire(v)[0] == 2
                &&& number_at(Event::wire(v), 1, 4) == cue
                &&& Event::wire(v).subrange(5, 17) == Vec3::wire(position)
            },
        },
{
    lemma_pow256();
    law_event_size(v);
    let s = Event::wire(v);
    law_digits(v.tag() as nat, 1, 0);
    assert(pow256(0) == 1);
    match v {
        Event::Spawn { id, archetype } => {
            lemma_number(s, 1, id as nat, 8);
            lemma_number(s, 9, archetype as nat, 4);
            assert(s.subrange(1, 9) =~= le_bytes(id as nat, 8));
            assert(s.subrange(9, 13) =~= le_bytes(archetype as nat, 4));
        },
        Event::Despawn { id } => {
            lemma_number(s, 1, id as nat, 8);
            assert(s.subrange(1, 9) =~= le_bytes(id as nat, 8));
        },
        Event::OneShot { cue, position } => {
            law_vec3_size(position);
            lemma_number(s, 1, cue as nat, 4);
            assert(s.subrange(1, 5) =~= le_bytes(cue as nat, 4));
            assert(s.subrange(5, 17) =~= Vec3::wire(position));
        },
    }
}

/// The states of sources and of layers are one byte each.
pub proof fn law_state_layout()
    ensures
        StreamingTargetState::wire(StreamingTargetState::Loaded) == seq![0u8],
        StreamingTargetState::wire(StreamingTargetState::Activated) == seq![1u8],
        DataLayerRuntimeState::wire(DataLayerRuntimeState::Unloaded) == seq![0u8],
        DataLayerRuntimeState::wire(DataLayerRuntimeState::Loaded) == seq![1u8],
        DataLayerRuntimeState::wire(DataLayerRuntimeState::Activated) == seq![2u8],
{
    reveal_with_fuel(le_bytes, 2);
    assert(le_bytes(0, 1) =~= seq![0u8]);
    assert(le_bytes(1, 1) =~= seq![1u8]);
    assert(le_bytes(2, 1) =~= seq![2u8]);
}

/// A source is its place, radius, grid, target state and priority.
pub proof fn law_source_layout(v: StreamingSource)
    ensures
        StreamingSource::wire(v).len() == 22,
        StreamingSource::wire(v).subrange(0, 12) == Vec3::wire(v.position),
        number_at(StreamingSource::wire(v), 12, 4) == v.radius.bits,
        number_at(StreamingSource::wire(v), 16, 4) == v.grid,
        StreamingSource::wire(v)[20] == if v.target is Loaded {
            0u8
        } else {
            1u8
        },
        StreamingSource::wire(v)[21] == v.priority,
{
    lemma_pow256();
    law_vec3_size(v.position);
    law_state_layout();
    let s = StreamingSource::wire(v);
    lemma_number(s, 12, v.radius.bits as nat, 4);
    lemma_number(s, 16, v.grid as nat, 4);
    law_digits(v.priority as nat, 1, 0);
    assert(pow256(0) == 1);
    assert(s.subrange(0, 12) =~= Vec3::wire(v.position));
    assert(s.subrange(12, 16) =~= F32::wire(v.radius));
    assert(s.subrange(16, 20) =~= u32::wire(v.grid));
}

/// A layer is the length of its name, the name in UTF-8, and its state.
pub proof fn law_layer_layout(v: DataLayerModel)
    ensures
        ({
            let (s, text) = (DataLayerState::wire(v), encode_utf8(v.name));
            &&& s.len() == 4 + text.len() + 1
            &&& text.len() < 0x1_0000_0000 ==> number_at(s, 0, 4) == text.len()
            &&& s.subrange(4, (4 + text.len()) as int) == text
            &&& s.last() == match v.state {
                DataLayerRuntimeState::Unloaded => 0u8,
                DataLayerRuntimeState::Loaded => 1u8,
                DataLayerRuntimeState::Activated => 2u8,
            }
        }),
{
    lemma_pow256();
    law_state_layout();
    let (s, text) = (DataLayerState::wire(v), encode_utf8(v.name));
    let count = (text.len() % 0x1_0000_0000) as u32;
    lemma_number(s, 0, count as nat, 4);
    assert(s.subrange(0, 4) =~= u32::wire(count));
    assert(s.subrange(4, (4 + text.len()) as int) =~= text);
}

/// A sequence is its length and its elements, each behind the one before.
pub proof fn law_sequence_layout<T: Wire>(v: Seq<T::Val>, x: T::Val)
    ensures
        v.len() < 0x1_0000_0000 ==> number_at(Vec::<T>::wire(v), 0, 4) == v.len(),
        Vec::<T>::wire(v).skip(4) == wire_all::<T>(v),
        wire_all::<T>(Seq::empty()) == Seq::<u8>::empty(),
        wire_all::<T>(seq![x] + v) == T::wire(x) + wire_all::<T>(v),
{
    lemma_pow256();
    let s = Vec::<T>::wire(v);
    let count = (v.len() % 0x1_0000_0000) as u32;
    lemma_number(s, 0, count as nat, 4);
    assert(s.subrange(0, 4) =~= u32::wire(count));
    assert(s.skip(4) =~= wire_all::<T>(v));
    assert((seq![x] + v).skip(1) =~= v);
}

/// The directives are the sources and then the layers.
pub proof fn law_streaming_layout(v: StreamingModel)
    ensures
        ({
            let (s, sources) = (StreamingState::wire(v), Vec::<StreamingSource>::wire(v.sources));
            &&& s.take(sources.len() as int) == sources
            &&& s.skip(sources.len() as int) == Vec::<DataLayerState>::wire(v.data_layers)
        }),
{
    let (s, sources) = (StreamingState::wire(v), Vec::<StreamingSource>::wire(v.sources));
    assert(s.take(sources.len() as int) =~= sources);
    assert(s.skip(sources.len() as int) =~= Vec::<DataLayerState>::wire(v.data_layers));
}

/// A snapshot is its tick, its time, its entities, its events and its directives.
pub proof fn law_snapshot_layout(v: SnapshotModel)
    ensures
        ({
            let s = WorldSnapshot::wire(v);
            let entities = Vec::<EntityState>::wire(v.entities);
            let events = Vec::<Event>::wire(v.events);
            &&& number_at(s, 0, 8) == v.tick
            &&& number_at(s, 8, 8) == v.sim_time_s.bits
            &&& s.skip(16).take(entities.len() as int) == entities
            &&& s.skip(16).skip(entities.len() as int).take(events.len() as int) == events
            &&& s.skip(16).skip(entities.len() as int).skip(events.len() as int)
                == StreamingState::wire(v.streaming)
        }),
{
    lemma_pow256();
    let s = WorldSnapshot::wire(v);
    let entities = Vec::<EntityState>::wire(v.entities);
    let events = Vec::<Event>::wire(v.events);
    let streaming = StreamingState::wire(v.streaming);
    lemma_number(s, 0, v.tick as nat, 8);
    lemma_number(s, 8, v.sim_time_s.bits as nat, 8);
    assert(s.subrange(0, 8) =~= u64::wire(v.tick));
    assert(s.subrange(8, 16) =~= F64::wire(v.sim_time_s));
    let body = s.skip(16);
    assert(body =~= entities + events + streaming);
    assert(body.take(entities.len() as int) =~= entities);
    let tail = body.skip(entities.len() as int);
    assert(tail =~= events + streaming);
    assert(tail.take(events.len() as int) =~= events);
    assert(tail.skip(events.len() as int) =~= streaming);
}

/// An input is its direction, yaw, pitch and buttons.
pub proof fn law_input_layout(v: PlayerInput)
    ensures
        PlayerInput::wire(v).len() == 24,
        PlayerInput::wire(v).subrange(0, 12) == Vec3::wire(v.move_dir),
        number_at(PlayerInput::wire(v), 12, 4) == v.yaw.bits,
        number_at(PlayerInput::wire(v), 16, 4) == v.pitch.bits,
        number_at(PlayerInput::wire(v), 20, 4) == v.buttons,
{
    lemma_pow256();
    law_vec3_size(v.move_dir);
    let s = PlayerInput::wire(v);
    lemma_number(s, 12, v.yaw.bits as nat, 4);
    lemma_number(s, 16, v.pitch.bits as nat, 4);
    lemma_number(s, 20, v.buttons as nat, 4);
    assert(s.subrange(0, 12) =~= Vec3::wire(v.move_dir));
    assert(s.subrange(12, 16) =~= F32::wire(v.yaw));
    assert(s.subrange(16, 20) =~= F32::wire(v.pitch));
    assert(s.subrange(20, 24) =~= u32::wire(v.buttons));
}

/// A frame is four letters, `UERS` or `UEPI`, version one, flags of zero, and the body.
pub proof fn law_frame_layout(snapshot: SnapshotModel, input: PlayerInput)
    ensures
        ({
            let s = framed::<WorldSnapshot>(WIRE_MAGIC_SNAPSHOT@, snapshot);
            &&& s[0] == 0x55 && s[1] == 0x45 && s[2] == 0x52 && s[3] == 0x53
            &&& number_at(s, 4, 2) == 1
            &&& number_at(s, 6, 2) == 0
            &&& s.skip(8) == WorldSnapshot::wire(snapshot)
        }),
        ({
            let s = framed::<PlayerInput>(WIRE_MAGIC_INPUT@, input);
            &&& s[0] == 0x55 && s[1] == 0x45 && s[2] == 0x50 && s[3] == 0x49
            &&& number_at(s, 4, 2) == 1
            &&& number_at(s, 6, 2) == 0
            &&& s.skip(8) == PlayerInput::wire(input)
        }),
{
    lemma_frame::<WorldSnapshot>(WIRE_MAGIC_SNAPSHOT@, snapshot);
    lemma_frame::<PlayerInput>(WIRE_MAGIC_INPUT@, input);
}

proof fn lemma_frame<T: Wire>(magic: Seq<u8>, v: T::Val)
    requires
        magic.len() == 4,
    ensures
        framed::<T>(magic, v).len() >= 8,
        framed::<T>(magic, v).take(4) == magic,
        forall|i: int| 0 <= i < 4 ==> #[trigger] framed::<T>(magic, v)[i] == magic[i],
        number_at(framed::<T>(magic, v), 4, 2) == WIRE_VERSION,
        number_at(framed::<T>(magic, v), 6, 2) == 0,
        framed::<T>(magic, v).skip(8) == T::wire(v),
{
    lemma_pow256();
    let s = framed::<T>(magic, v);
    lemma_number(s, 4, WIRE_VERSION as nat, 2);
    lemma_number(s, 6, 0, 2);
    assert(header(magic, WIRE_VERSION, 0).len() == 8);
    assert(s.take(4) =~= magic);
    assert(s.subrange(4, 6) =~= u16::wire(WIRE_VERSION));
    assert(s.subrange(6, 8) =~= u16::wire(0));
    assert(s.skip(8) =~= T::wire(v));
}

} // verus!
