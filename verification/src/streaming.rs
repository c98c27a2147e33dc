//! Streaming directives: the authority decides, the renderer executes.

use crate::codec::{map_parsed, Codec, Wire};
use crate::error::DecodeError;
use crate::float::F32;
use crate::math::Vec3;
use crate::reader::Reader;
use vstd::prelude::*;

verus! {

/// Desired world partition cell state.
#[derive(Debug, Clone, Copy, PartialEq, Eq)]
pub enum StreamingTargetState {
    /// In memory but not visible.
    Loaded,
    /// In memory and visible.
    Activated,
}

impl StreamingTargetState {
    /// The byte that stands for the state.
    pub open spec fn tag(self) -> u8 {
        match self {
            StreamingTargetState::Loaded => 0,
            StreamingTargetState::Activated => 1,
        }
    }
}

impl DeepView for StreamingTargetState {
    type V = StreamingTargetState;

    open spec fn deep_view(&self) -> StreamingTargetState {
        *self
    }
}

impl Wire for StreamingTargetState {
    type Val = StreamingTargetState;

    open spec fn wire(v: StreamingTargetState) -> Seq<u8> {
        u8::wire(v.tag())
    }

    open spec fn fits(v: StreamingTargetState) -> bool {
        true
    }

    open spec fn parse(s: Seq<u8>) -> (Result<StreamingTargetState, DecodeError>, nat) {
        let (head, n) = u8::parse(s);
        match head {
            Err(e) => (Err(e), n),
            Ok(tag) => match tag {
                0 => (Ok(StreamingTargetState::Loaded), n),
                1 => (Ok(StreamingTargetState::Activated), n),
                _ => (Err(DecodeError::BadTag(tag)), n),
            },
        }
    }

    proof fn law_within(s: Seq<u8>) {
        u8::law_within(s);
    }

    proof fn law_read_back(v: StreamingTargetState, rest: Seq<u8>) {
        u8::law_read_back(v.tag(), rest);
    }

    proof fn law_canonical(s: Seq<u8>) {
        u8::law_canonical(s);
    }

    proof fn law_truncated(v: StreamingTargetState, k: nat) {
        u8::law_truncated(v.tag(), k);
    }
}

impl Codec for StreamingTargetState {
    fn write(&self, out: &mut Vec<u8>) {
        let tag: u8 = match self {
            StreamingTargetState::Loaded => 0,
            StreamingTargetState::Activated => 1,
        };
        tag.write(out);
    }

    fn read(r: &mut Reader) -> (res: Result<Self, DecodeError>) {
        match u8::read(r)? {
            0 => Ok(StreamingTargetState::Loaded),
            1 => Ok(StreamingTargetState::Activated),
            t => Err(DecodeError::BadTag(t)),
        }
    }
}

/// Desired data layer runtime state.
#[derive(Debug, Clone, Copy, PartialEq, Eq)]
pub enum DataLayerRuntimeState {
    Unloaded,
    Loaded,
    Activated,
}

impl DataLayerRuntimeState {
    /// The byte that stands for the state.
    pub open spec fn tag(self) -> u8 {
        match self {
            DataLayerRuntimeState::Unloaded => 0,
            DataLayerRuntimeState::Loaded => 1,
            DataLayerRuntimeState::Activated => 2,
        }
    }
}

impl DeepView for DataLayerRuntimeState {
    type V = DataLayerRuntimeState;

    open spec fn deep_view(&self) -> DataLayerRuntimeState {
        *self
    }
}

impl Wire for DataLayerRuntimeState {
    type Val = DataLayerRuntimeState;

    open spec fn wire(v: DataLayerRuntimeState) -> Seq<u8> {
        u8::wire(v.tag())
    }

    open spec fn fits(v: DataLayerRuntimeState) -> bool {
        true
    }

    open spec fn parse(s: Seq<u8>) -> (Result<DataLayerRuntimeState, DecodeError>, nat) {
        let (head, n) = u8::parse(s);
        match head {
            Err(e) => (Err(e), n),
            Ok(tag) => match tag {
                0 => (Ok(DataLayerRuntimeState::Unloaded), n),
                1 => (Ok(DataLayerRuntimeState::Loaded), n),
                2 => (Ok(DataLayerRuntimeState::Activated), n),
                _ => (Err(DecodeError::BadTag(tag)), n),
            },
        }
    }

    proof fn law_within(s: Seq<u8>) {
        u8::law_within(s);
    }

    proof fn law_read_back(v: DataLayerRuntimeState, rest: Seq<u8>) {
        u8::law_read_back(v.tag(), rest);
    }

    proof fn law_canonical(s: Seq<u8>) {
        u8::law_canonical(s);
    }

    proof fn law_truncated(v: DataLayerRuntimeState, k: nat) {
        u8::law_truncated(v.tag(), k);
    }
}

impl Codec for DataLayerRuntimeState {
    fn write(&self, out: &mut Vec<u8>) {
        let tag: u8 = match self {
            DataLayerRuntimeState::Unloaded => 0,
            DataLayerRuntimeState::Loaded => 1,
            DataLayerRuntimeState::Activated => 2,
        };
        tag.write(out);
    }

    fn read(r: &mut Reader) -> (res: Result<Self, DecodeError>) {
        match u8::read(r)? {
            0 => Ok(DataLayerRuntimeState::Unloaded),
            1 => Ok(DataLayerRuntimeState::Loaded),
            2 => Ok(DataLayerRuntimeState::Activated),
            t => Err(DecodeError::BadTag(t)),
        }
    }
}

/// A synthetic streaming source that the renderer registers with the engine.
#[derive(Debug, Clone, Copy, PartialEq)]
pub struct StreamingSource {
    pub position: Vec3,
    pub radius: F32,
    /// Target grid id (0 = all/default).
    pub grid: u32,
    pub target: StreamingTargetState,
    /// Higher priority preempts unload of lower-priority sources.
    pub priority: u8,
}

impl DeepView for StreamingSource {
    type V = StreamingSource;

    open spec fn deep_view(&self) -> StreamingSource {
        *self
    }
}

/// The fields of a [`StreamingSource`], in order.
pub type StreamingSourceFields = (Vec3, (F32, (u32, (StreamingTargetState, u8))));

/// A [`StreamingSource`] as its fields, in order.
pub open spec fn source_fields(
    v: StreamingSource,
) -> (Vec3, (F32, (u32, (StreamingTargetState, u8)))) {
    (v.position, (v.radius, (v.grid, (v.target, v.priority))))
}

/// The bytes are those of the fields.
proof fn lemma_source_layout(v: StreamingSource)
    ensures
        StreamingSourceFields::wire(source_fields(v)) == StreamingSource::wire(v),
{
    let a = Vec3::wire(v.position);
    let b = F32::wire(v.radius);
    let c = u32::wire(v.grid);
    let d = StreamingTargetState::wire(v.target);
    let e = u8::wire(v.priority);
    assert(a + (b + (c + (d + e))) =~= a + b + c + d + e);
}

impl Wire for StreamingSource {
    type Val = StreamingSource;

    open spec fn wire(v: StreamingSource) -> Seq<u8> {
        Vec3::wire(v.position) + F32::wire(v.radius) + u32::wire(v.grid)
            + StreamingTargetState::wire(v.target) + u8::wire(v.priority)
    }

    open spec fn fits(v: StreamingSource) -> bool {
        true
    }

    open spec fn parse(s: Seq<u8>) -> (Result<StreamingSource, DecodeError>, nat) {
        map_parsed(
            StreamingSourceFields::parse(s),
            |f: (Vec3, (F32, (u32, (StreamingTargetState, u8))))| StreamingSource {
                position: f.0,
                radius: f.1.0,
                grid: f.1.1.0,
                target: f.1.1.1.0,
                priority: f.1.1.1.1,
            },
        )
    }

    proof fn law_within(s: Seq<u8>) {
        StreamingSourceFields::law_within(s);
    }

    proof fn law_read_back(v: StreamingSource, rest: Seq<u8>) {
        lemma_source_layout(v);
        StreamingSourceFields::law_read_back(source_fields(v), rest);
    }

    proof fn law_canonical(s: Seq<u8>) {
        StreamingSourceFields::law_canonical(s);
        if let Ok(v) = Self::parse(s).0 {
            lemma_source_layout(v);
        }
    }

    proof fn law_truncated(v: StreamingSource, k: nat) {
        lemma_source_layout(v);
        StreamingSourceFields::law_truncated(source_fields(v), k);
    }
}

impl Codec for StreamingSource {
    fn write(&self, out: &mut Vec<u8>) {
        self.position.write(out);
        self.radius.write(out);
        self.grid.write(out);
        self.target.write(out);
        self.priority.write(out);
        assert(out@ =~= old(out)@ + Self::wire(*self));
    }

    fn read(r: &mut Reader) -> (res: Result<Self, DecodeError>) {
        let (position, (radius, (grid, (target, priority)))) = StreamingSourceFields::read(r)?;
        Ok(StreamingSource { position, radius, grid, target, priority })
    }
}

/// A data layer that the renderer should drive to a state.
#[derive(Debug, PartialEq)]
pub struct DataLayerState {
    /// The cooked data layer asset name.
    pub name: String,
    pub state: DataLayerRuntimeState,
}

/// What a [`DataLayerState`] holds.
#[verifier::ext_equal]
pub struct DataLayerModel {
    pub name: Seq<char>,
    pub state: DataLayerRuntimeState,
}

impl DeepView for DataLayerState {
    type V = DataLayerModel;

    open spec fn deep_view(&self) -> DataLayerModel {
        DataLayerModel { name: self.name@, state: self.state }
    }
}

impl Clone for DataLayerState {
    fn clone(&self) -> (r: Self)
        ensures
            r.deep_view() == self.deep_view(),
    {
        DataLayerState { name: self.name.clone(), state: self.state }
    }
}

/// The fields of a [`DataLayerState`], in order.
pub type DataLayerStateFields = (String, DataLayerRuntimeState);

/// A [`DataLayerState`] as its fields, in order.
pub open spec fn layer_fields(v: DataLayerModel) -> (Seq<char>, DataLayerRuntimeState) {
    (v.name, v.state)
}

impl Wire for DataLayerState {
    type Val = DataLayerModel;

    open spec fn wire(v: DataLayerModel) -> Seq<u8> {
        String::wire(v.name) + DataLayerRuntimeState::wire(v.state)
    }

    open spec fn fits(v: DataLayerModel) -> bool {
        String::fits(v.name)
    }

    open spec fn parse(s: Seq<u8>) -> (Result<DataLayerModel, DecodeError>, nat) {
        map_parsed(
            DataLayerStateFields::parse(s),
            |f: (Seq<char>, DataLayerRuntimeState)| DataLayerModel {
                name: f.0,
                state: f.1,
            },
        )
    }

    proof fn law_within(s: Seq<u8>) {
        DataLayerStateFields::law_within(s);
    }

    proof fn law_read_back(v: DataLayerModel, rest: Seq<u8>) {
        DataLayerStateFields::law_read_back(layer_fields(v), rest);
    }

    proof fn law_canonical(s: Seq<u8>) {
        DataLayerStateFields::law_canonical(s);
    }

    proof fn law_truncated(v: DataLayerModel, k: nat) {
        DataLayerStateFields::law_truncated(layer_fields(v), k);
    }
}

impl Codec for DataLayerState {
    fn write(&self, out: &mut Vec<u8>) {
        self.name.write(out);
        self.state.write(out);
        assert(out@ =~= old(out)@ + Self::wire(self.deep_view()));
    }

    fn read(r: &mut Reader) -> (res: Result<Self, DecodeError>) {
        let (name, state) = DataLayerStateFields::read(r)?;
        Ok(DataLayerState { name, state })
    }
}

/// The full set of streaming directives for a tick. The renderer makes the
/// engine's streaming match this.
#[derive(Debug, PartialEq)]
pub struct StreamingState {
    pub sources: Vec<StreamingSource>,
    pub data_layers: Vec<DataLayerState>,
}

/// What a [`StreamingState`] holds.
#[verifier::ext_equal]
pub struct StreamingModel {
    pub sources: Seq<StreamingSource>,
    pub data_layers: Seq<DataLayerModel>,
}

impl DeepView for StreamingState {
    type V = StreamingModel;

    open spec fn deep_view(&self) -> StreamingModel {
        StreamingModel {
            sources: self.sources.deep_view(),
            data_layers: self.data_layers.deep_view(),
        }
    }
}

impl Default for StreamingState {
    fn default() -> (r: StreamingState)
        ensures
            r.deep_view() == (StreamingModel {
                sources: Seq::empty(),
                data_layers: Seq::empty(),
            }),
    {
        let r = StreamingState { sources: Vec::new(), data_layers: Vec::new() };
        assert(r.sources.deep_view() =~= Seq::empty());
        assert(r.data_layers.deep_view() =~= Seq::empty());
        r
    }
}

impl Clone for StreamingState {
    fn clone(&self) -> (r: Self)
        ensures
            r.deep_view() == self.deep_view(),
    {
        let r = StreamingState {
            sources: self.sources.clone(),
            data_layers: self.data_layers.clone(),
        };
        assert(r.sources.deep_view() =~= self.sources.deep_view());
        assert(r.data_layers.deep_view() =~= self.data_layers.deep_view());
        r
    }
}

/// The fields of a [`StreamingState`], in order.
pub type StreamingStateFields = (Vec<StreamingSource>, Vec<DataLayerState>);

/// A [`StreamingState`] as its fields, in order.
pub open spec fn streaming_fields(
    v: StreamingModel,
) -> (Seq<StreamingSource>, Seq<DataLayerModel>) {
    (v.sources, v.data_layers)
}

impl Wire for StreamingState {
    type Val = StreamingModel;

    open spec fn wire(v: StreamingModel) -> Seq<u8> {
        Vec::<StreamingSource>::wire(v.sources) + Vec::<DataLayerState>::wire(v.data_layers)
    }

    open spec fn fits(v: StreamingModel) -> bool {
        Vec::<StreamingSource>::fits(v.sources) && Vec::<DataLayerState>::fits(v.data_layers)
    }

    open spec fn parse(s: Seq<u8>) -> (Result<StreamingModel, DecodeError>, nat) {
        map_parsed(
            StreamingStateFields::parse(s),
            |f: (Seq<StreamingSource>, Seq<DataLayerModel>)| StreamingModel {
                sources: f.0,
                data_layers: f.1,
            },
        )
    }

    proof fn law_within(s: Seq<u8>) {
        StreamingStateFields::law_within(s);
    }

    proof fn law_read_back(v: StreamingModel, rest: Seq<u8>) {
        StreamingStateFields::law_read_back(streaming_fields(v), rest);
    }

    proof fn law_canonical(s: Seq<u8>) {
        StreamingStateFields::law_canonical(s);
    }

    proof fn law_truncated(v: StreamingModel, k: nat) {
        StreamingStateFields::law_truncated(streaming_fields(v), k);
    }
}

impl Codec for StreamingState {
    fn write(&self, out: &mut Vec<u8>) {
        self.sources.write(out);
        self.data_layers.write(out);
        assert(out@ =~= old(out)@ + Self::wire(self.deep_view()));
    }

    fn read(r: &mut Reader) -> (res: Result<Self, DecodeError>) {
        let (sources, data_layers) = StreamingStateFields::read(r)?;
        Ok(StreamingState { sources, data_layers })
    }
}

/// A state that is not known is refused by its tag, whatever follows.
pub proof fn law_state_tag_refused(tag: u8, rest: Seq<u8>)
    ensures
        tag > 1 ==> StreamingTargetState::parse(u8::wire(tag) + rest).0 == Err::<
            StreamingTargetState,
            DecodeError,
        >(DecodeError::BadTag(tag)),
        tag > 2 ==> DataLayerRuntimeState::parse(u8::wire(tag) + rest).0 == Err::<
            DataLayerRuntimeState,
            DecodeError,
        >(DecodeError::BadTag(tag)),
{
    u8::law_read_back(tag, rest);
}

} // verus!
