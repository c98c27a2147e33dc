//! Entities and events.

use crate::codec::{after, map_parsed, Codec, Wire};
use crate::endian::lemma_le_bytes_len;
use crate::error::DecodeError;
use crate::float::F32;
use crate::math::{law_transform_size, law_vec3_size, Transform, Vec3};
use crate::reader::Reader;
use vstd::prelude::*;

verus! {

/// `flags` bit: the entity should be rendered.
pub const FLAG_VISIBLE: u32 = 1;

/// `flags` bit: this entity is the local player (the renderer may extrapolate/predict it).
pub const FLAG_LOCAL_PLAYER: u32 = 2;

/// One renderable entity, owned by the authority and "puppeted" by the renderer.
#[derive(Debug, PartialEq)]
pub struct EntityState {
    /// Stable id used to match entities across snapshots (for interpolation).
    pub id: u64,
    /// Index into the cooked content catalog (which mesh/skeleton to use).
    pub archetype: u32,
    /// Bitfield of `FLAG_*`.
    pub flags: u32,
    pub transform: Transform,
    /// Linear velocity (cm/s), used by the renderer for extrapolation.
    pub velocity: Vec3,
    /// Opaque locomotion/anim state id handed to the animation graph.
    pub anim_state: u16,
    pub anim_play_rate: F32,
}

impl Clone for EntityState {
    fn clone(&self) -> (r: Self)
        ensures
            r == *self,
    {
        EntityState {
            id: self.id,
            archetype: self.archetype,
            flags: self.flags,
            transform: self.transform,
            velocity: self.velocity,
            anim_state: self.anim_state,
            anim_play_rate: self.anim_play_rate,
        }
    }
}

impl DeepView for EntityState {
    type V = EntityState;

    open spec fn deep_view(&self) -> EntityState {
        *self
    }
}

/// The fields of an [`EntityState`], in order.
pub type EntityStateFields = (u64, (u32, (u32, (Transform, (Vec3, (u16, F32))))));

/// An [`EntityState`] as its fields, in order.
pub open spec fn entity_fields(
    v: EntityState,
) -> (u64, (u32, (u32, (Transform, (Vec3, (u16, F32)))))) {
    (v.id, (v.archetype, (v.flags, (v.transform, (v.velocity, (v.anim_state, v.anim_play_rate))))))
}

/// The bytes are those of the fields.
proof fn lemma_entity_layout(v: EntityState)
    ensures
        EntityStateFields::wire(entity_fields(v)) == EntityState::wire(v),
{
    let a = u64::wire(v.id);
    let b = u32::wire(v.archetype);
    let c = u32::wire(v.flags);
    let d = Transform::wire(v.transform);
    let e = Vec3::wire(v.velocity);
    let f = u16::wire(v.anim_state);
    let g = F32::wire(v.anim_play_rate);
    assert(a + (b + (c + (d + (e + (f + g))))) =~= a + b + c + d + e + f + g);
}

impl Wire for EntityState {
    type Val = EntityState;

    open spec fn wire(v: EntityState) -> Seq<u8> {
        u64::wire(v.id) + u32::wire(v.archetype) + u32::wire(v.flags) + Transform::wire(v.transform)
            + Vec3::wire(v.velocity) + u16::wire(v.anim_state) + F32::wire(v.anim_play_rate)
    }

    open spec fn fits(v: EntityState) -> bool {
        true
    }

    open spec fn parse(s: Seq<u8>) -> (Result<EntityState, DecodeError>, nat) {
        map_parsed(
            EntityStateFields::parse(s),
            |f: (u64, (u32, (u32, (Transform, (Vec3, (u16, F32))))))| EntityState {
                id: f.0,
                archetype: f.1.0,
                flags: f.1.1.0,
                transform: f.1.1.1.0,
                velocity: f.1.1.1.1.0,
                anim_state: f.1.1.1.1.1.0,
                anim_play_rate: f.1.1.1.1.1.1,
            },
        )
    }

    proof fn law_within(s: Seq<u8>) {
        EntityStateFields::law_within(s);
    }

    proof fn law_read_back(v: EntityState, rest: Seq<u8>) {
        lemma_entity_layout(v);
        EntityStateFields::law_read_back(entity_fields(v), rest);
    }

    proof fn law_canonical(s: Seq<u8>) {
        EntityStateFields::law_canonical(s);
        if let Ok(v) = Self::parse(s).0 {
            lemma_entity_layout(v);
        }
    }

    proof fn law_truncated(v: EntityState, k: nat) {
        lemma_entity_layout(v);
        EntityStateFields::law_truncated(entity_fields(v), k);
    }
}

impl Codec for EntityState {
    fn write(&self, out: &mut Vec<u8>) {
        self.id.write(out);
        self.archetype.write(out);
        self.flags.write(out);
        self.transform.write(out);
        self.velocity.write(out);
        self.anim_state.write(out);
        self.anim_play_rate.write(out);
        assert(out@ =~= old(out)@ + Self::wire(*self));
    }

    fn read(r: &mut Reader) -> (res: Result<Self, DecodeError>) {
        let (id, (archetype, (flags, rest))) = EntityStateFields::read(r)?;
        let (transform, (velocity, (anim_state, anim_play_rate))) = rest;
        Ok(EntityState { id, archetype, flags, transform, velocity, anim_state, anim_play_rate })
    }
}

/// Transient, fire-once events emitted by the authority for a single tick.
#[derive(Debug, PartialEq)]
pub enum Event {
    /// A new entity appeared this tick (renderer should create a proxy).
    Spawn { id: u64, archetype: u32 },
    /// An entity was removed this tick (renderer should destroy its proxy).
    Despawn { id: u64 },
    /// A one-shot cosmetic cue (VFX/audio) at a world location.
    OneShot { cue: u32, position: Vec3 },
}

impl Clone for Event {
    fn clone(&self) -> (r: Self)
        ensures
            r == *self,
    {
        match self {
            Event::Spawn { id, archetype } => Event::Spawn { id: *id, archetype: *archetype },
            Event::Despawn { id } => Event::Despawn { id: *id },
            Event::OneShot { cue, position } => Event::OneShot { cue: *cue, position: *position },
        }
    }
}

impl DeepView for Event {
    type V = Event;

    open spec fn deep_view(&self) -> Event {
        *self
    }
}

impl Event {
    /// The byte that tells the kinds of event apart.
    pub open spec fn tag(self) -> u8 {
        match self {
            Event::Spawn { .. } => 0,
            Event::Despawn { .. } => 1,
            Event::OneShot { .. } => 2,
        }
    }

    /// The bytes behind the tag.
    pub open spec fn payload(self) -> Seq<u8> {
        match self {
            Event::Spawn { id, archetype } => u64::wire(id) + u32::wire(archetype),
            Event::Despawn { id } => u64::wire(id),
            Event::OneShot { cue, position } => u32::wire(cue) + Vec3::wire(position),
        }
    }

    /// What is read behind the tag.
    pub open spec fn parse_payload(tag: u8, s: Seq<u8>) -> (Result<Event, DecodeError>, nat) {
        match tag {
            0 => map_parsed(
                <(u64, u32)>::parse(s),
                |f: (u64, u32)| Event::Spawn { id: f.0, archetype: f.1 },
            ),
            1 => map_parsed(u64::parse(s), |id: u64| Event::Despawn { id }),
            2 => map_parsed(
                <(u32, Vec3)>::parse(s),
                |f: (u32, Vec3)| Event::OneShot { cue: f.0, position: f.1 },
            ),
            _ => (Err(DecodeError::BadTag(tag)), 0),
        }
    }

    proof fn lemma_payload_within(tag: u8, s: Seq<u8>)
        ensures
            Self::parse_payload(tag, s).1 <= s.len(),
    {
        <(u64, u32)>::law_within(s);
        u64::law_within(s);
        <(u32, Vec3)>::law_within(s);
    }

    proof fn lemma_payload_read_back(v: Event, rest: Seq<u8>)
        ensures
            Self::parse_payload(v.tag(), v.payload() + rest) == (
                Ok::<Event, DecodeError>(v),
                v.payload().len(),
            ),
    {
        match v {
            Event::Spawn { id, archetype } => {
                <(u64, u32)>::law_read_back((id, archetype), rest);
            },
            Event::Despawn { id } => {
                u64::law_read_back(id, rest);
            },
            Event::OneShot { cue, position } => {
                <(u32, Vec3)>::law_read_back((cue, position), rest);
            },
        }
    }

    proof fn lemma_payload_canonical(tag: u8, s: Seq<u8>)
        ensures
            Self::parse_payload(tag, s).0 matches Ok(v) ==> v.tag() == tag && v.payload() == s.take(
                Self::parse_payload(tag, s).1 as int,
            ),
    {
        <(u64, u32)>::law_canonical(s);
        u64::law_canonical(s);
        <(u32, Vec3)>::law_canonical(s);
    }

    proof fn lemma_payload_truncated(v: Event, k: nat)
        requires
            k < v.payload().len(),
        ensures
            Self::parse_payload(v.tag(), v.payload().take(k as int)).0 == Err::<
                Event,
                DecodeError,
            >(DecodeError::UnexpectedEof),
    {
        match v {
            Event::Spawn { id, archetype } => {
                <(u64, u32)>::law_truncated((id, archetype), k);
            },
            Event::Despawn { id } => {
                u64::law_truncated(id, k);
            },
            Event::OneShot { cue, position } => {
                <(u32, Vec3)>::law_truncated((cue, position), k);
            },
        }
    }
}

impl Wire for Event {
    type Val = Event;

    open spec fn wire(v: Event) -> Seq<u8> {
        u8::wire(v.tag()) + v.payload()
    }

    open spec fn fits(v: Event) -> bool {
        true
    }

    open spec fn parse(s: Seq<u8>) -> (Result<Event, DecodeError>, nat) {
        let (head, n) = u8::parse(s);
        match head {
            Err(e) => (Err(e), n),
            Ok(tag) => after(n, Event::parse_payload(tag, s.skip(n as int))),
        }
    }

    proof fn law_within(s: Seq<u8>) {
        let (head, n) = u8::parse(s);
        u8::law_within(s);
        if head is Ok {
            Event::lemma_payload_within(head->Ok_0, s.skip(n as int));
        }
    }

    proof fn law_read_back(v: Event, rest: Seq<u8>) {
        let (tag, body) = (u8::wire(v.tag()), v.payload());
        u8::law_read_back(v.tag(), body + rest);
        Event::lemma_payload_read_back(v, rest);
        assert(tag + body + rest =~= tag + (body + rest));
        assert((tag + (body + rest)).skip(tag.len() as int) =~= body + rest);
    }

    proof fn law_canonical(s: Seq<u8>) {
        let (head, n) = u8::parse(s);
        let tail = s.skip(n as int);
        u8::law_within(s);
        u8::law_canonical(s);
        if head is Ok {
            let m = Event::parse_payload(head->Ok_0, tail).1;
            Event::lemma_payload_within(head->Ok_0, tail);
            Event::lemma_payload_canonical(head->Ok_0, tail);
            assert(s.take(n as int) + tail.take(m as int) =~= s.take((n + m) as int));
        }
    }

    proof fn law_truncated(v: Event, k: nat) {
        let (tag, body) = (u8::wire(v.tag()), v.payload());
        let cut = (tag + body).take(k as int);
        if k < tag.len() {
            u8::law_truncated(v.tag(), k);
            assert(cut =~= tag.take(k as int));
        } else {
            let j = (k - tag.len()) as nat;
            u8::law_read_back(v.tag(), body.take(j as int));
            Event::lemma_payload_truncated(v, j);
            assert(cut =~= tag + body.take(j as int));
            assert(cut.skip(tag.len() as int) =~= body.take(j as int));
        }
    }
}

impl Codec for Event {
    fn write(&self, out: &mut Vec<u8>) {
        match self {
            Event::Spawn { id, archetype } => {
                0u8.write(out);
                id.write(out);
                archetype.write(out);
            },
            Event::Despawn { id } => {
                1u8.write(out);
                id.write(out);
            },
            Event::OneShot { cue, position } => {
                2u8.write(out);
                cue.write(out);
                position.write(out);
            },
        }
        assert(out@ =~= old(out)@ + Self::wire(*self));
    }

    fn read(r: &mut Reader) -> (res: Result<Self, DecodeError>) {
        match u8::read(r)? {
            0 => Ok(Event::Spawn { id: u64::read(r)?, archetype: u32::read(r)? }),
            1 => Ok(Event::Despawn { id: u64::read(r)? }),
            2 => Ok(Event::OneShot { cue: u32::read(r)?, position: Vec3::read(r)? }),
            t => Err(DecodeError::BadTag(t)),
        }
    }
}

/// An event of an unknown kind is refused by its tag, whatever follows.
pub proof fn law_event_tag_refused(tag: u8, rest: Seq<u8>)
    requires
        tag > 2,
    ensures
        Event::parse(u8::wire(tag) + rest).0 == Err::<Event, DecodeError>(DecodeError::BadTag(tag)),
{
    u8::law_read_back(tag, rest);
}

/// An entity takes 74 bytes.
pub proof fn law_entity_size(v: EntityState)
    ensures
        EntityState::wire(v).len() == 74,
{
    lemma_le_bytes_len(v.id as nat, 8);
    lemma_le_bytes_len(v.archetype as nat, 4);
    lemma_le_bytes_len(v.flags as nat, 4);
    law_transform_size(v.transform);
    law_vec3_size(v.velocity);
    lemma_le_bytes_len(v.anim_state as nat, 2);
    lemma_le_bytes_len(v.anim_play_rate.bits as nat, 4);
}

/// An event takes 13, 9 or 17 bytes, by its kind.
pub proof fn law_event_size(v: Event)
    ensures
        Event::wire(v).len() == match v {
            Event::Spawn { .. } => 13int,
            Event::Despawn { .. } => 9,
            Event::OneShot { .. } => 17,
        },
{
    lemma_le_bytes_len(v.tag() as nat, 1);
    match v {
        Event::Spawn { id, archetype } => {
            lemma_le_bytes_len(id as nat, 8);
            lemma_le_bytes_len(archetype as nat, 4);
        },
        Event::Despawn { id } => {
            lemma_le_bytes_len(id as nat, 8);
        },
        Event::OneShot { cue, position } => {
            lemma_le_bytes_len(cue as nat, 4);
            law_vec3_size(position);
        },
    }
}

} // verus!
