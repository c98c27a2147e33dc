//! The frame of a message: `magic | version | flags | body`.

use crate::codec::{Codec, Wire};
use crate::error::DecodeError;
use crate::reader::Reader;
use vstd::prelude::*;

verus! {

/// Magic prefix for a framed [`crate::WorldSnapshot`]: the bytes of `UERS`.
pub const WIRE_MAGIC_SNAPSHOT: [u8; 4] = [0x55, 0x45, 0x52, 0x53];

/// Magic prefix for a framed [`crate::PlayerInput`]: the bytes of `UEPI`.
pub const WIRE_MAGIC_INPUT: [u8; 4] = [0x55, 0x45, 0x50, 0x49];

/// Wire format version. Bump on any breaking layout change.
pub const WIRE_VERSION: u16 = 1;

/// A header: the magic, the version and the flags.
pub open spec fn header(magic: Seq<u8>, version: u16, flags: u16) -> Seq<u8> {
    magic + u16::wire(version) + u16::wire(flags)
}

/// The frame of a value; the flags are reserved and zero.
pub open spec fn framed<T: Wire>(magic: Seq<u8>, v: T::Val) -> Seq<u8> {
    header(magic, WIRE_VERSION, 0) + T::wire(v)
}

/// What the header at the front of `s` is found to be, and how many bytes were
/// consumed. The flags are read and left aside.
pub open spec fn parse_header(magic: Seq<u8>, s: Seq<u8>) -> (Result<(), DecodeError>, nat) {
    if s.len() < 4 {
        (Err(DecodeError::UnexpectedEof), 0)
    } else if s.take(4) != magic {
        (Err(DecodeError::BadMagic), 4)
    } else if s.len() < 6 {
        (Err(DecodeError::UnexpectedEof), 4)
    } else {
        match u16::parse(s.skip(4)).0 {
            Err(e) => (Err(e), 4),
            Ok(version) => if version != WIRE_VERSION {
                (Err(DecodeError::UnsupportedVersion(version)), 6)
            } else if s.len() < 8 {
                (Err(DecodeError::UnexpectedEof), 6)
            } else {
                (Ok(()), 8)
            },
        }
    }
}

/// What a framed message is decoded as. Bytes behind the body are left aside.
pub open spec fn decoded<T: Wire>(magic: Seq<u8>, s: Seq<u8>) -> Result<T::Val, DecodeError> {
    match parse_header(magic, s).0 {
        Err(e) => Err(e),
        Ok(_) => T::parse(s.skip(8)).0,
    }
}

/// Validate a framed message's `magic | version | flags` header.
pub fn check_frame(r: &mut Reader, expected_magic: &[u8; 4]) -> (res: Result<(), DecodeError>)
    ensures
        res == parse_header(expected_magic@, old(r)@).0,
        final(r)@ == old(r)@.skip(parse_header(expected_magic@, old(r)@).1 as int),
{
    let ghost start = r@;
    let magic = match r.take(4) {
        Ok(magic) => magic,
        Err(e) => {
            assert(start.skip(0) =~= start);
            return Err(e);
        },
    };
    if magic[0] != expected_magic[0] || magic[1] != expected_magic[1] || magic[2]
        != expected_magic[2] || magic[3] != expected_magic[3] {
        return Err(DecodeError::BadMagic);
    }
    assert(magic@ =~= expected_magic@);
    let version = match u16::read(r) {
        Ok(version) => version,
        Err(e) => {
            assert(start.skip(4).skip(0) =~= start.skip(4));
            return Err(e);
        },
    };
    assert(r@ =~= start.skip(6));
    if version != WIRE_VERSION {
        return Err(DecodeError::UnsupportedVersion(version));
    }
    match u16::read(r) {
        Ok(_flags) => {
            assert(r@ =~= start.skip(8));
            Ok(())
        },
        Err(e) => {
            assert(start.skip(6).skip(0) =~= start.skip(6));
            Err(e)
        },
    }
}

/// The frame of a value.
pub fn encode_framed<T: Codec>(magic: &[u8; 4], v: &T) -> (r: Vec<u8>)
    ensures
        r@ == framed::<T>(magic@, v.deep_view()),
{
    let mut out: Vec<u8> = Vec::with_capacity(64);
    out.extend_from_slice(magic);
    assert(out@ =~= magic@);
    WIRE_VERSION.write(&mut out);
    0u16.write(&mut out);
    v.write(&mut out);
    out
}

/// The value in a frame.
pub fn decode_framed<T: Codec>(magic: &[u8; 4], buf: &[u8]) -> (res: Result<T, DecodeError>)
    ensures
        match res {
            Ok(v) => decoded::<T>(magic@, buf@) == Ok::<T::Val, DecodeError>(v.deep_view()),
            Err(e) => decoded::<T>(magic@, buf@) == Err::<T::Val, DecodeError>(e),
        },
{
    let mut r = Reader::new(buf);
    check_frame(&mut r, magic)?;
    T::read(&mut r)
}

/// A header is eight bytes long and is found to be in order.
proof fn lemma_header(magic: Seq<u8>, version: u16, flags: u16, rest: Seq<u8>)
    requires
        magic.len() == 4,
    ensures
        header(magic, version, flags).len() == 8,
        (header(magic, version, flags) + rest).skip(8) == rest,
        version == WIRE_VERSION ==> parse_header(magic, header(magic, version, flags) + rest) == (
            Ok::<(), DecodeError>(()),
            8nat,
        ),
        version != WIRE_VERSION ==> parse_header(magic, header(magic, version, flags) + rest) == (
            Err::<(), DecodeError>(DecodeError::UnsupportedVersion(version)),
            6nat,
        ),
{
    let s = header(magic, version, flags) + rest;
    let tail = u16::wire(flags) + rest;
    u16::law_read_back(version, tail);
    u16::law_read_back(flags, rest);
    assert(s.take(4) =~= magic);
    assert(s.skip(4) =~= u16::wire(version) + tail);
    assert(s.skip(8) =~= rest);
}

/// A framed value is decoded as itself, whatever follows it, exactly where it is
/// within the limits.
pub proof fn law_frame_read_back<T: Wire>(magic: Seq<u8>, v: T::Val, rest: Seq<u8>)
    requires
        magic.len() == 4,
    ensures
        decoded::<T>(magic, framed::<T>(magic, v) + rest) == Ok::<T::Val, DecodeError>(v)
            <==> T::fits(v),
{
    let s = framed::<T>(magic, v) + rest;
    lemma_header(magic, WIRE_VERSION, 0, T::wire(v) + rest);
    assert(s =~= header(magic, WIRE_VERSION, 0) + (T::wire(v) + rest));
    if T::fits(v) {
        T::law_read_back(v, rest);
    } else {
        T::law_canonical(s.skip(8));
    }
}

/// Two values within the limits that have one frame are one value.
pub proof fn law_frame_injective<T: Wire>(magic: Seq<u8>, v: T::Val, w: T::Val)
    requires
        magic.len() == 4,
        T::fits(v),
        T::fits(w),
        framed::<T>(magic, v) == framed::<T>(magic, w),
    ensures
        v == w,
{
    law_frame_read_back::<T>(magic, v, Seq::empty());
    law_frame_read_back::<T>(magic, w, Seq::empty());
}

/// Cut anywhere before its end, a frame is an unexpected end of the buffer.
pub proof fn law_frame_truncated<T: Wire>(magic: Seq<u8>, v: T::Val, k: nat)
    requires
        magic.len() == 4,
        T::fits(v),
        k < framed::<T>(magic, v).len(),
    ensures
        decoded::<T>(magic, framed::<T>(magic, v).take(k as int)) == Err::<T::Val, DecodeError>(
            DecodeError::UnexpectedEof,
        ),
{
    let head = header(magic, WIRE_VERSION, 0);
    let cut = framed::<T>(magic, v).take(k as int);
    lemma_header(magic, WIRE_VERSION, 0, T::wire(v));
    if k >= 8 {
        let j = (k - 8) as nat;
        T::law_truncated(v, j);
        lemma_header(magic, WIRE_VERSION, 0, T::wire(v).take(j as int));
        assert(cut =~= head + T::wire(v).take(j as int));
    } else if k >= 4 {
        assert(cut.take(4) =~= magic);
        if k >= 6 {
            u16::law_read_back(WIRE_VERSION, cut.skip(6));
            assert(cut.skip(4) =~= u16::wire(WIRE_VERSION) + cut.skip(6));
        }
    }
}

/// Whatever is decoded is within the limits, and the buffer is its frame, up to
/// the flags, and then whatever follows.
pub proof fn law_frame_canonical<T: Wire>(magic: Seq<u8>, s: Seq<u8>)
    requires
        magic.len() == 4,
    ensures
        decoded::<T>(magic, s) matches Ok(v) ==> T::fits(v) && exists|flags: u16, rest: Seq<u8>|
            s == #[trigger] (header(magic, WIRE_VERSION, flags) + T::wire(v) + rest),
{
    if let Ok(v) = decoded::<T>(magic, s) {
        let body = s.skip(8);
        let used = T::parse(body).1;
        let flags = u16::parse(s.skip(6)).0->Ok_0;
        T::law_within(body);
        T::law_canonical(body);
        u16::law_canonical(s.skip(4));
        u16::law_canonical(s.skip(6));
        assert(s.skip(4).take(2) =~= s.subrange(4, 6));
        assert(s.skip(6).take(2) =~= s.subrange(6, 8));
        assert(header(magic, WIRE_VERSION, flags) =~= s.take(8));
        assert(s =~= header(magic, WIRE_VERSION, flags) + T::wire(v) + body.skip(used as int));
    }
}

/// The flags are read past, whatever they are.
pub proof fn law_frame_flags_ignored<T: Wire>(magic: Seq<u8>, flags: u16, body: Seq<u8>)
    requires
        magic.len() == 4,
    ensures
        decoded::<T>(magic, header(magic, WIRE_VERSION, flags) + body) == T::parse(body).0,
{
    lemma_header(magic, WIRE_VERSION, flags, body);
}

/// A frame of another version is refused by that version, whatever its body.
pub proof fn law_frame_version<T: Wire>(magic: Seq<u8>, version: u16, flags: u16, body: Seq<u8>)
    requires
        magic.len() == 4,
        version != WIRE_VERSION,
    ensures
        decoded::<T>(magic, header(magic, version, flags) + body) == Err::<T::Val, DecodeError>(
            DecodeError::UnsupportedVersion(version),
        ),
{
    lemma_header(magic, version, flags, body);
}

/// A buffer with another magic in front is refused for it.
pub proof fn law_frame_magic<T: Wire>(magic: Seq<u8>, s: Seq<u8>)
    requires
        s.len() >= 4,
        s.take(4) != magic,
    ensures
        decoded::<T>(magic, s) == Err::<T::Val, DecodeError>(DecodeError::BadMagic),
{
}

} // verus!
