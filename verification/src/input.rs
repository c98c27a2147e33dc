//! The local player's intent.

use crate::codec::{map_parsed, Codec, Wire};
use crate::endian::lemma_le_bytes_len;
use crate::error::DecodeError;
use crate::float::F32;
use crate::frame::{
    decode_framed, decoded, encode_framed, framed, law_frame_read_back, WIRE_MAGIC_INPUT,
    WIRE_VERSION,
};
use crate::math::{law_vec3_size, Vec3};
use crate::reader::Reader;
use vstd::prelude::*;

verus! {

/// The local player's intent for a tick (renderer to authority).
#[derive(Debug, Clone, Copy, PartialEq)]
pub struct PlayerInput {
    /// Desired move direction in world space (need not be normalized).
    pub move_dir: Vec3,
    /// Look direction / aim (radians: yaw, pitch).
    pub yaw: F32,
    pub pitch: F32,
    /// Bitfield of pressed buttons (game-defined).
    pub buttons: u32,
}

impl PlayerInput {
    /// No movement, no look, no buttons.
    #[verifier::allow_in_spec]
    pub fn idle() -> PlayerInput
        returns
            (PlayerInput {
                move_dir: Vec3::zero(),
                yaw: F32::zero(),
                pitch: F32::zero(),
                buttons: 0,
            }),
    {
        PlayerInput { move_dir: Vec3::zero(), yaw: F32::zero(), pitch: F32::zero(), buttons: 0 }
    }

    /// Encode to a framed byte buffer (`magic | version | flags | body`).
    pub fn encode(&self) -> (r: Vec<u8>)
        ensures
            r@ == framed::<PlayerInput>(WIRE_MAGIC_INPUT@, *self),
    {
        encode_framed(&WIRE_MAGIC_INPUT, self)
    }

    /// Decode from a framed byte buffer produced by [`PlayerInput::encode`].
    pub fn decode(buf: &[u8]) -> (res: Result<Self, DecodeError>)
        ensures
            res == decoded::<PlayerInput>(WIRE_MAGIC_INPUT@, buf@),
    {
        decode_framed(&WIRE_MAGIC_INPUT, buf)
    }
}

impl Default for PlayerInput {
    fn default() -> (r: PlayerInput)
        ensures
            r == PlayerInput::idle(),
    {
        PlayerInput::idle()
    }
}

impl DeepView for PlayerInput {
    type V = PlayerInput;

    open spec fn deep_view(&self) -> PlayerInput {
        *self
    }
}

/// The fields of a [`PlayerInput`], in order.
pub type PlayerInputFields = (Vec3, (F32, (F32, u32)));

/// A [`PlayerInput`] as its fields, in order.
pub open spec fn input_fields(v: PlayerInput) -> (Vec3, (F32, (F32, u32))) {
    (v.move_dir, (v.yaw, (v.pitch, v.buttons)))
}

/// The bytes are those of the fields.
proof fn lemma_input_layout(v: PlayerInput)
    ensures
        PlayerInputFields::wire(input_fields(v)) == PlayerInput::wire(v),
{
    let a = Vec3::wire(v.move_dir);
    let b = F32::wire(v.yaw);
    let c = F32::wire(v.pitch);
    let d = u32::wire(v.buttons);
    assert(a + (b + (c + d)) =~= a + b + c + d);
}

impl Wire for PlayerInput {
    type Val = PlayerInput;

    open spec fn wire(v: PlayerInput) -> Seq<u8> {
        Vec3::wire(v.move_dir) + F32::wire(v.yaw) + F32::wire(v.pitch) + u32::wire(v.buttons)
    }

    open spec fn fits(v: PlayerInput) -> bool {
        true
    }

    open spec fn parse(s: Seq<u8>) -> (Result<PlayerInput, DecodeError>, nat) {
        map_parsed(
            PlayerInputFields::parse(s),
            |f: (Vec3, (F32, (F32, u32)))| PlayerInput {
                move_dir: f.0,
                yaw: f.1.0,
                pitch: f.1.1.0,
                buttons: f.1.1.1,
            },
        )
    }

    proof fn law_within(s: Seq<u8>) {
        PlayerInputFields::law_within(s);
    }

    proof fn law_read_back(v: PlayerInput, rest: Seq<u8>) {
        lemma_input_layout(v);
        PlayerInputFields::law_read_back(input_fields(v), rest);
    }

    proof fn law_canonical(s: Seq<u8>) {
        PlayerInputFields::law_canonical(s);
        if let Ok(v) = Self::parse(s).0 {
            lemma_input_layout(v);
        }
    }

    proof fn law_truncated(v: PlayerInput, k: nat) {
        lemma_input_layout(v);
        PlayerInputFields::law_truncated(input_fields(v), k);
    }
}

impl Codec for PlayerInput {
    fn write(&self, out: &mut Vec<u8>) {
        self.move_dir.write(out);
        self.yaw.write(out);
        self.pitch.write(out);
        self.buttons.write(out);
        assert(out@ =~= old(out)@ + Self::wire(*self));
    }

    fn read(r: &mut Reader) -> (res: Result<Self, DecodeError>) {
        let (move_dir, (yaw, (pitch, buttons))) = PlayerInputFields::read(r)?;
        Ok(PlayerInput { move_dir, yaw, pitch, buttons })
    }
}

/// Every input is decoded from its encoding, whatever follows it; the encoding takes
/// 32 bytes.
pub proof fn law_input_read_back(v: PlayerInput, rest: Seq<u8>)
    ensures
        decoded::<PlayerInput>(
            WIRE_MAGIC_INPUT@,
            framed::<PlayerInput>(WIRE_MAGIC_INPUT@, v) + rest,
        ) == Ok::<PlayerInput, DecodeError>(v),
        framed::<PlayerInput>(WIRE_MAGIC_INPUT@, v).len() == 32,
{
    law_frame_read_back::<PlayerInput>(WIRE_MAGIC_INPUT@, v, rest);
    lemma_le_bytes_len(WIRE_VERSION as nat, 2);
    lemma_le_bytes_len(0, 2);
    law_vec3_size(v.move_dir);
    lemma_le_bytes_len(v.yaw.bits as nat, 4);
    lemma_le_bytes_len(v.pitch.bits as nat, 4);
    lemma_le_bytes_len(v.buttons as nat, 4);
}

/// What one call encodes another call decodes, whatever bytes follow.
pub proof fn law_encode_decode(
    v: &PlayerInput,
    bytes: Vec<u8>,
    buf: &[u8],
    rest: Seq<u8>,
    res: Result<PlayerInput, DecodeError>,
)
    requires
        call_ensures(PlayerInput::encode, (v,), bytes),
        buf@ == bytes@ + rest,
        call_ensures(PlayerInput::decode, (buf,), res),
    ensures
        res == Ok::<PlayerInput, DecodeError>(*v),
        bytes@.len() == 32,
{
    law_input_read_back(*v, rest);
}

} // verus!
