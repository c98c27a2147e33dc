//! The view of the world that the authority hands to the renderer.

use crate::codec::{map_parsed, Codec, Wire};
use crate::entity::{EntityState, Event};
use crate::error::DecodeError;
use crate::float::F64;
use crate::frame::{
    decode_framed, decoded, encode_framed, framed, law_frame_magic, law_frame_read_back,
    WIRE_MAGIC_INPUT, WIRE_MAGIC_SNAPSHOT,
};
use crate::input::PlayerInput;
use crate::reader::Reader;
use crate::streaming::{StreamingModel, StreamingState};
use vstd::prelude::*;

verus! {

/// A complete authoritative view of the world for one tick (authority to renderer).
#[derive(Debug, PartialEq)]
pub struct WorldSnapshot {
    /// Monotonic authoritative tick number.
    pub tick: u64,
    /// Authoritative simulation time in seconds.
    pub sim_time_s: F64,
    pub entities: Vec<EntityState>,
    pub events: Vec<Event>,
    pub streaming: StreamingState,
}

/// What a [`WorldSnapshot`] holds.
#[verifier::ext_equal]
pub struct SnapshotModel {
    pub tick: u64,
    pub sim_time_s: F64,
    pub entities: Seq<EntityState>,
    pub events: Seq<Event>,
    pub streaming: StreamingModel,
}

impl DeepView for WorldSnapshot {
    type V = SnapshotModel;

    open spec fn deep_view(&self) -> SnapshotModel {
        SnapshotModel {
            tick: self.tick,
            sim_time_s: self.sim_time_s,
            entities: self.entities.deep_view(),
            events: self.events.deep_view(),
            streaming: self.streaming.deep_view(),
        }
    }
}

impl WorldSnapshot {
    /// Encode to a framed byte buffer (`magic | version | flags | body`).
    pub fn encode(&self) -> (r: Vec<u8>)
        ensures
            r@ == framed::<WorldSnapshot>(WIRE_MAGIC_SNAPSHOT@, self.deep_view()),
    {
        encode_framed(&WIRE_MAGIC_SNAPSHOT, self)
    }

    /// Decode from a framed byte buffer produced by [`WorldSnapshot::encode`].
    pub fn decode(buf: &[u8]) -> (res: Result<Self, DecodeError>)
        ensures
            match res {
                Ok(v) => decoded::<WorldSnapshot>(WIRE_MAGIC_SNAPSHOT@, buf@) == Ok::<
                    SnapshotModel,
                    DecodeError,
                >(v.deep_view()),
                Err(e) => decoded::<WorldSnapshot>(WIRE_MAGIC_SNAPSHOT@, buf@) == Err::<
                    SnapshotModel,
                    DecodeError,
                >(e),
            },
    {
        decode_framed(&WIRE_MAGIC_SNAPSHOT, buf)
    }
}

impl Default for WorldSnapshot {
    fn default() -> (r: WorldSnapshot)
        ensures
            r.deep_view() == (SnapshotModel {
                tick: 0,
                sim_time_s: F64::zero(),
                entities: Seq::empty(),
                events: Seq::empty(),
                streaming: StreamingModel { sources: Seq::empty(), data_layers: Seq::empty() },
            }),
    {
        let r = WorldSnapshot {
            tick: 0,
            sim_time_s: F64::zero(),
            entities: Vec::new(),
            events: Vec::new(),
            streaming: StreamingState::default(),
        };
        assert(r.entities.deep_view() =~= Seq::empty());
        assert(r.events.deep_view() =~= Seq::empty());
        r
    }
}

impl Clone for WorldSnapshot {
    fn clone(&self) -> (r: Self)
        ensures
            r.deep_view() == self.deep_view(),
    {
        let r = WorldSnapshot {
            tick: self.tick,
            sim_time_s: self.sim_time_s,
            entities: self.entities.clone(),
            events: self.events.clone(),
            streaming: self.streaming.clone(),
        };
        assert(r.entities.deep_view() =~= self.entities.deep_view());
        assert(r.events.deep_view() =~= self.events.deep_view());
        r
    }
}

/// The fields of a [`WorldSnapshot`], in order.
pub type WorldSnapshotFields = (u64, (F64, (Vec<EntityState>, (Vec<Event>, StreamingState))));

/// A [`WorldSnapshot`] as its fields, in order.
pub open spec fn snapshot_fields(
    v: SnapshotModel,
) -> (u64, (F64, (Seq<EntityState>, (Seq<Event>, StreamingModel)))) {
    (v.tick, (v.sim_time_s, (v.entities, (v.events, v.streaming))))
}

/// The bytes are those of the fields.
proof fn lemma_snapshot_layout(v: SnapshotModel)
    ensures
        WorldSnapshotFields::wire(snapshot_fields(v)) == WorldSnapshot::wire(v),
{
    let a = u64::wire(v.tick);
    let b = F64::wire(v.sim_time_s);
    let c = Vec::<EntityState>::wire(v.entities);
    let d = Vec::<Event>::wire(v.events);
    let e = StreamingState::wire(v.streaming);
    assert(a + (b + (c + (d + e))) =~= a + b + c + d + e);
}

impl Wire for WorldSnapshot {
    type Val = SnapshotModel;

    open spec fn wire(v: SnapshotModel) -> Seq<u8> {
        u64::wire(v.tick) + F64::wire(v.sim_time_s) + Vec::<EntityState>::wire(v.entities)
            + Vec::<Event>::wire(v.events) + StreamingState::wire(v.streaming)
    }

    open spec fn fits(v: SnapshotModel) -> bool {
        Vec::<EntityState>::fits(v.entities) && Vec::<Event>::fits(v.events)
            && StreamingState::fits(v.streaming)
    }

    open spec fn parse(s: Seq<u8>) -> (Result<SnapshotModel, DecodeError>, nat) {
        map_parsed(
            WorldSnapshotFields::parse(s),
            |f: (u64, (F64, (Seq<EntityState>, (Seq<Event>, StreamingModel))))| SnapshotModel {
                tick: f.0,
                sim_time_s: f.1.0,
                entities: f.1.1.0,
                events: f.1.1.1.0,
                streaming: f.1.1.1.1,
            },
        )
    }

    proof fn law_within(s: Seq<u8>) {
        WorldSnapshotFields::law_within(s);
    }

    proof fn law_read_back(v: SnapshotModel, rest: Seq<u8>) {
        lemma_snapshot_layout(v);
        WorldSnapshotFields::law_read_back(snapshot_fields(v), rest);
    }

    proof fn law_canonical(s: Seq<u8>) {
        WorldSnapshotFields::law_canonical(s);
        if let Ok(v) = Self::parse(s).0 {
            lemma_snapshot_layout(v);
        }
    }

    proof fn law_truncated(v: SnapshotModel, k: nat) {
        lemma_snapshot_layout(v);
        WorldSnapshotFields::law_truncated(snapshot_fields(v), k);
    }
}

impl Codec for WorldSnapshot {
    fn write(&self, out: &mut Vec<u8>) {
        self.tick.write(out);
        self.sim_time_s.write(out);
        self.entities.write(out);
        self.events.write(out);
        self.streaming.write(out);
        assert(out@ =~= old(out)@ + Self::wire(self.deep_view()));
    }

    fn read(r: &mut Reader) -> (res: Result<Self, DecodeError>) {
        let (tick, (sim_time_s, (entities, (events, streaming)))) = WorldSnapshotFields::read(r)?;
        Ok(WorldSnapshot { tick, sim_time_s, entities, events, streaming })
    }
}

/// A snapshot is decoded from its encoding, whatever follows it, exactly where each of
/// its sequences and strings is within the limit.
pub proof fn law_snapshot_read_back(v: SnapshotModel, rest: Seq<u8>)
    ensures
        decoded::<WorldSnapshot>(
            WIRE_MAGIC_SNAPSHOT@,
            framed::<WorldSnapshot>(WIRE_MAGIC_SNAPSHOT@, v) + rest,
        ) == Ok::<SnapshotModel, DecodeError>(v) <==> WorldSnapshot::fits(v),
{
    law_frame_read_back::<WorldSnapshot>(WIRE_MAGIC_SNAPSHOT@, v, rest);
}

/// Neither message is taken for the other.
pub proof fn law_messages_told_apart(snapshot: SnapshotModel, input: PlayerInput, rest: Seq<u8>)
    ensures
        decoded::<WorldSnapshot>(
            WIRE_MAGIC_SNAPSHOT@,
            framed::<PlayerInput>(WIRE_MAGIC_INPUT@, input) + rest,
        ) == Err::<SnapshotModel, DecodeError>(DecodeError::BadMagic),
        decoded::<PlayerInput>(
            WIRE_MAGIC_INPUT@,
            framed::<WorldSnapshot>(WIRE_MAGIC_SNAPSHOT@, snapshot) + rest,
        ) == Err::<PlayerInput, DecodeError>(DecodeError::BadMagic),
{
    let p = framed::<PlayerInput>(WIRE_MAGIC_INPUT@, input) + rest;
    let s = framed::<WorldSnapshot>(WIRE_MAGIC_SNAPSHOT@, snapshot) + rest;
    assert(p.take(4)[2] == 0x50 && s.take(4)[2] == 0x52);
    law_frame_magic::<WorldSnapshot>(WIRE_MAGIC_SNAPSHOT@, p);
    law_frame_magic::<PlayerInput>(WIRE_MAGIC_INPUT@, s);
}

/// What one call encodes another call decodes: of a snapshot within the limits, whatever
/// bytes follow, the same snapshot comes back.
pub proof fn law_encode_decode(
    v: &WorldSnapshot,
    bytes: Vec<u8>,
    buf: &[u8],
    rest: Seq<u8>,
    res: Result<WorldSnapshot, DecodeError>,
)
    requires
        call_ensures(WorldSnapshot::encode, (v,), bytes),
        buf@ == bytes@ + rest,
        call_ensures(WorldSnapshot::decode, (buf,), res),
        WorldSnapshot::fits(v.deep_view()),
    ensures
        res matches Ok(back) && back.deep_view() == v.deep_view(),
{
    law_snapshot_read_back(v.deep_view(), rest);
}

} // verus!
