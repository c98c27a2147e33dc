//! The contract between an authoritative simulation and the renderer that draws
//! it: the messages, their byte layout, the interpolation the renderer displays,
//! an example authority and the handle-based bridge that joins the two.
//!
//! Two messages cross the boundary:
//!
//! * [`WorldSnapshot`], authority to renderer, once per tick. The renderer
//!   interpolates between successive snapshots for display (see
//!   [`WorldSnapshot::interpolate`]).
//! * [`PlayerInput`], renderer to authority, the local player's intent.
//!
//! All integers and floats on the wire are little-endian. Sequences are a `u32` count
//! followed by that many elements. Strings are a `u32` byte length followed by UTF-8
//! bytes. A message is framed as `magic | version | flags | body`.

pub mod authority;
pub mod bridge;
pub mod codec;
pub mod endian;
pub mod entity;
pub mod error;
pub mod float;
pub mod frame;
pub mod input;
pub mod interpolation;
pub mod layout;
pub mod math;
pub mod number;
pub mod reader;
pub mod sequence;
pub mod snapshot;
pub mod streaming;

pub use authority::Sim;
pub use bridge::{
    ue_bridge_abi_version, ue_bridge_create, ue_bridge_handle_is_null, ue_bridge_latest_snapshot,
    ue_bridge_push_input, ue_bridge_tick, UeBridge, UE_BRIDGE_ABI_VERSION, UE_ERR_BUFFER_TOO_SMALL,
    UE_ERR_DECODE, UE_ERR_NULL, UE_ERR_PANIC, UE_OK,
};
pub use codec::Codec;
pub use entity::{EntityState, Event, FLAG_LOCAL_PLAYER, FLAG_VISIBLE};
pub use error::DecodeError;
pub use float::{F32, F64, FloatOps};
pub use frame::{WIRE_MAGIC_INPUT, WIRE_MAGIC_SNAPSHOT, WIRE_VERSION};
pub use input::PlayerInput;
pub use math::{lerp_f32, Quat, Transform, Vec3};
pub use reader::Reader;
pub use snapshot::WorldSnapshot;
pub use streaming::{
    DataLayerRuntimeState, DataLayerState, StreamingSource, StreamingState, StreamingTargetState,
};
