//! The numbers on the wire.

use crate::codec::{map_parsed, Codec, Wire};
use crate::endian::{
    get_le, law_le_bytes_of_value, law_le_value_of_bytes, le_bytes, le_value, lemma_le_bytes_len,
    lemma_pow256, pow256, put_le,
};
use crate::error::DecodeError;
use crate::float::{F32, F64};
use crate::reader::Reader;
use vstd::prelude::*;

verus! {

/// Reads `n` bytes as a number.
pub open spec fn parse_uint(s: Seq<u8>, n: nat) -> (Result<nat, DecodeError>, nat) {
    if s.len() < n {
        (Err(DecodeError::UnexpectedEof), 0)
    } else {
        (Ok(le_value(s.take(n as int))), n)
    }
}

proof fn lemma_uint_read_back(x: nat, n: nat, rest: Seq<u8>)
    requires
        x < pow256(n),
    ensures
        parse_uint(le_bytes(x, n) + rest, n) == (Ok::<nat, DecodeError>(x), n),
        le_bytes(x, n).len() == n,
{
    lemma_le_bytes_len(x, n);
    law_le_value_of_bytes(x, n);
    assert((le_bytes(x, n) + rest).take(n as int) =~= le_bytes(x, n));
}

proof fn lemma_uint_canonical(s: Seq<u8>, n: nat)
    ensures
        parse_uint(s, n).0 matches Ok(x) ==> x < pow256(n) && le_bytes(x, n) == s.take(n as int),
{
    if s.len() >= n {
        law_le_bytes_of_value(s.take(n as int));
    }
}

proof fn lemma_uint_truncated(x: nat, n: nat, k: nat)
    requires
        k < n,
    ensures
        le_bytes(x, n).len() == n,
        parse_uint(le_bytes(x, n).take(k as int), n).0 == Err::<nat, DecodeError>(
            DecodeError::UnexpectedEof,
        ),
{
    lemma_le_bytes_len(x, n);
}

/// Reads `n` bytes as a number.
fn read_uint(r: &mut Reader, n: usize) -> (res: Result<u64, DecodeError>)
    requires
        n <= 8,
    ensures
        final(r)@ == old(r)@.skip(parse_uint(old(r)@, n as nat).1 as int),
        match res {
            Ok(x) => parse_uint(old(r)@, n as nat).0 == Ok::<nat, DecodeError>(x as nat),
            Err(e) => parse_uint(old(r)@, n as nat).0 == Err::<nat, DecodeError>(e),
        },
{
    match r.take(n) {
        Ok(bytes) => Ok(get_le(bytes)),
        Err(e) => {
            assert(r@ =~= old(r)@.skip(0));
            Err(e)
        },
    }
}

impl Wire for u8 {
    type Val = u8;

    open spec fn wire(v: u8) -> Seq<u8> {
        le_bytes(v as nat, 1)
    }

    open spec fn fits(v: u8) -> bool {
        true
    }

    open spec fn parse(s: Seq<u8>) -> (Result<u8, DecodeError>, nat) {
        map_parsed(parse_uint(s, 1), |x: nat| x as u8)
    }

    proof fn law_within(s: Seq<u8>) {
    }

    proof fn law_read_back(v: u8, rest: Seq<u8>) {
        lemma_pow256();
        lemma_uint_read_back(v as nat, 1, rest);
    }

    proof fn law_canonical(s: Seq<u8>) {
        lemma_pow256();
        lemma_uint_canonical(s, 1);
    }

    proof fn law_truncated(v: u8, k: nat) {
        lemma_le_bytes_len(v as nat, 1);
        lemma_uint_truncated(v as nat, 1, k);
    }
}

impl Codec for u8 {
    fn write(&self, out: &mut Vec<u8>) {
        put_le(*self as u64, 1, out);
    }

    fn read(r: &mut Reader) -> (res: Result<u8, DecodeError>) {
        proof {
            lemma_pow256();
            lemma_uint_canonical(r@, 1);
        }
        match read_uint(r, 1) {
            Ok(x) => Ok(x as u8),
            Err(e) => Err(e),
        }
    }
}

impl Wire for u16 {
    type Val = u16;

    open spec fn wire(v: u16) -> Seq<u8> {
        le_bytes(v as nat, 2)
    }

    open spec fn fits(v: u16) -> bool {
        true
    }

    open spec fn parse(s: Seq<u8>) -> (Result<u16, DecodeError>, nat) {
        map_parsed(parse_uint(s, 2), |x: nat| x as u16)
    }

    proof fn law_within(s: Seq<u8>) {
    }

    proof fn law_read_back(v: u16, rest: Seq<u8>) {
        lemma_pow256();
        lemma_uint_read_back(v as nat, 2, rest);
    }

    proof fn law_canonical(s: Seq<u8>) {
        lemma_pow256();
        lemma_uint_canonical(s, 2);
    }

    proof fn law_truncated(v: u16, k: nat) {
        lemma_le_bytes_len(v as nat, 2);
        lemma_uint_truncated(v as nat, 2, k);
    }
}

impl Codec for u16 {
    fn write(&self, out: &mut Vec<u8>) {
        put_le(*self as u64, 2, out);
    }

    fn read(r: &mut Reader) -> (res: Result<u16, DecodeError>) {
        proof {
            lemma_pow256();
            lemma_uint_canonical(r@, 2);
        }
        match read_uint(r, 2) {
            Ok(x) => Ok(x as u16),
            Err(e) => Err(e),
        }
    }
}

impl Wire for u32 {
    type Val = u32;

    open spec fn wire(v: u32) -> Seq<u8> {
        le_bytes(v as nat, 4)
    }

    open spec fn fits(v: u32) -> bool {
        true
    }

    open spec fn parse(s: Seq<u8>) -> (Result<u32, DecodeError>, nat) {
        map_parsed(parse_uint(s, 4), |x: nat| x as u32)
    }

    proof fn law_within(s: Seq<u8>) {
    }

    proof fn law_read_back(v: u32, rest: Seq<u8>) {
        lemma_pow256();
        lemma_uint_read_back(v as nat, 4, rest);
    }

    proof fn law_canonical(s: Seq<u8>) {
        lemma_pow256();
        lemma_uint_canonical(s, 4);
    }

    proof fn law_truncated(v: u32, k: nat) {
        lemma_le_bytes_len(v as nat, 4);
        lemma_uint_truncated(v as nat, 4, k);
    }
}

impl Codec for u32 {
    fn write(&self, out: &mut Vec<u8>) {
        put_le(*self as u64, 4, out);
    }

    fn read(r: &mut Reader) -> (res: Result<u32, DecodeError>) {
        proof {
            lemma_pow256();
            lemma_uint_canonical(r@, 4);
        }
        match read_uint(r, 4) {
            Ok(x) => Ok(x as u32),
            Err(e) => Err(e),
        }
    }
}

impl Wire for u64 {
    type Val = u64;

    open spec fn wire(v: u64) -> Seq<u8> {
        le_bytes(v as nat, 8)
    }

    open spec fn fits(v: u64) -> bool {
        true
    }

    open spec fn parse(s: Seq<u8>) -> (Result<u64, DecodeError>, nat) {
        map_parsed(parse_uint(s, 8), |x: nat| x as u64)
    }

    proof fn law_within(s: Seq<u8>) {
    }

    proof fn law_read_back(v: u64, rest: Seq<u8>) {
        lemma_pow256();
        lemma_uint_read_back(v as nat, 8, rest);
    }

    proof fn law_canonical(s: Seq<u8>) {
        lemma_pow256();
        lemma_uint_canonical(s, 8);
    }

    proof fn law_truncated(v: u64, k: nat) {
        lemma_le_bytes_len(v as nat, 8);
        lemma_uint_truncated(v as nat, 8, k);
    }
}

impl Codec for u64 {
    fn write(&self, out: &mut Vec<u8>) {
        put_le(*self, 8, out);
    }

    fn read(r: &mut Reader) -> (res: Result<u64, DecodeError>) {
        proof {
            lemma_pow256();
            lemma_uint_canonical(r@, 8);
        }
        match read_uint(r, 8) {
            Ok(x) => Ok(x),
            Err(e) => Err(e),
        }
    }
}

/// The pattern of a signed number in two's complement.
pub open spec fn pattern_i32(v: i32) -> nat {
    if v < 0 {
        (v + 0x1_0000_0000) as nat
    } else {
        v as nat
    }
}

/// The signed number of a pattern in two's complement.
pub open spec fn value_i32(x: nat) -> i32 {
    if x < 0x8000_0000 {
        x as i32
    } else {
        (x - 0x1_0000_0000) as i32
    }
}

impl Wire for i32 {
    type Val = i32;

    open spec fn wire(v: i32) -> Seq<u8> {
        le_bytes(pattern_i32(v), 4)
    }

    open spec fn fits(v: i32) -> bool {
        true
    }

    open spec fn parse(s: Seq<u8>) -> (Result<i32, DecodeError>, nat) {
        map_parsed(parse_uint(s, 4), |x: nat| value_i32(x))
    }

    proof fn law_within(s: Seq<u8>) {
    }

    proof fn law_read_back(v: i32, rest: Seq<u8>) {
        lemma_pow256();
        lemma_uint_read_back(pattern_i32(v), 4, rest);
    }

    proof fn law_canonical(s: Seq<u8>) {
        lemma_pow256();
        lemma_uint_canonical(s, 4);
    }

    proof fn law_truncated(v: i32, k: nat) {
        lemma_le_bytes_len(pattern_i32(v), 4);
        lemma_uint_truncated(pattern_i32(v), 4, k);
    }
}

impl Codec for i32 {
    fn write(&self, out: &mut Vec<u8>) {
        let pattern: u64 = if *self < 0 {
            (*self as i64 + 0x1_0000_0000) as u64
        } else {
            *self as u64
        };
        put_le(pattern, 4, out);
    }

    fn read(r: &mut Reader) -> (res: Result<i32, DecodeError>) {
        proof {
            lemma_pow256();
            lemma_uint_canonical(r@, 4);
        }
        match read_uint(r, 4) {
            Ok(x) => {
                if x < 0x8000_0000 {
                    Ok(x as i32)
                } else {
                    Ok((x as i64 - 0x1_0000_0000) as i32)
                }
            },
            Err(e) => Err(e),
        }
    }
}

/// The pattern of a signed number in two's complement.
pub open spec fn pattern_i64(v: i64) -> nat {
    if v < 0 {
        (v + 0x1_0000_0000_0000_0000) as nat
    } else {
        v as nat
    }
}

/// The signed number of a pattern in two's complement.
pub open spec fn value_i64(x: nat) -> i64 {
    if x < 0x8000_0000_0000_0000 {
        x as i64
    } else {
        (x - 0x1_0000_0000_0000_0000) as i64
    }
}

impl Wire for i64 {
    type Val = i64;

    open spec fn wire(v: i64) -> Seq<u8> {
        le_bytes(pattern_i64(v), 8)
    }

    open spec fn fits(v: i64) -> bool {
        true
    }

    open spec fn parse(s: Seq<u8>) -> (Result<i64, DecodeError>, nat) {
        map_parsed(parse_uint(s, 8), |x: nat| value_i64(x))
    }

    proof fn law_within(s: Seq<u8>) {
    }

    proof fn law_read_back(v: i64, rest: Seq<u8>) {
        lemma_pow256();
        lemma_uint_read_back(pattern_i64(v), 8, rest);
    }

    proof fn law_canonical(s: Seq<u8>) {
        lemma_pow256();
        lemma_uint_canonical(s, 8);
    }

    proof fn law_truncated(v: i64, k: nat) {
        lemma_le_bytes_len(pattern_i64(v), 8);
        lemma_uint_truncated(pattern_i64(v), 8, k);
    }
}

impl Codec for i64 {
    fn write(&self, out: &mut Vec<u8>) {
        let pattern: u64 = if *self < 0 {
            (*self as i128 + 0x1_0000_0000_0000_0000) as u64
        } else {
            *self as u64
        };
        put_le(pattern, 8, out);
    }

    fn read(r: &mut Reader) -> (res: Result<i64, DecodeError>) {
        proof {
            lemma_pow256();
            lemma_uint_canonical(r@, 8);
        }
        match read_uint(r, 8) {
            Ok(x) => {
                if x < 0x8000_0000_0000_0000 {
                    Ok(x as i64)
                } else {
                    Ok((x as i128 - 0x1_0000_0000_0000_0000) as i64)
                }
            },
            Err(e) => Err(e),
        }
    }
}

impl Wire for F32 {
    type Val = F32;

    open spec fn wire(v: F32) -> Seq<u8> {
        u32::wire(v.bits)
    }

    open spec fn fits(v: F32) -> bool {
        true
    }

    open spec fn parse(s: Seq<u8>) -> (Result<F32, DecodeError>, nat) {
        map_parsed(u32::parse(s), |x: u32| F32 { bits: x })
    }

    proof fn law_within(s: Seq<u8>) {
        u32::law_within(s);
    }

    proof fn law_read_back(v: F32, rest: Seq<u8>) {
        u32::law_read_back(v.bits, rest);
    }

    proof fn law_canonical(s: Seq<u8>) {
        u32::law_canonical(s);
    }

    proof fn law_truncated(v: F32, k: nat) {
        u32::law_truncated(v.bits, k);
    }
}

impl Codec for F32 {
    fn write(&self, out: &mut Vec<u8>) {
        self.bits.write(out);
    }

    fn read(r: &mut Reader) -> (res: Result<F32, DecodeError>) {
        match u32::read(r) {
            Ok(bits) => Ok(F32 { bits }),
            Err(e) => Err(e),
        }
    }
}

impl Wire for F64 {
    type Val = F64;

    open spec fn wire(v: F64) -> Seq<u8> {
        u64::wire(v.bits)
    }

    open spec fn fits(v: F64) -> bool {
        true
    }

    open spec fn parse(s: Seq<u8>) -> (Result<F64, DecodeError>, nat) {
        map_parsed(u64::parse(s), |x: u64| F64 { bits: x })
    }

    proof fn law_within(s: Seq<u8>) {
        u64::law_within(s);
    }

    proof fn law_read_back(v: F64, rest: Seq<u8>) {
        u64::law_read_back(v.bits, rest);
    }

    proof fn law_canonical(s: Seq<u8>) {
        u64::law_canonical(s);
    }

    proof fn law_truncated(v: F64, k: nat) {
        u64::law_truncated(v.bits, k);
    }
}

impl Codec for F64 {
    fn write(&self, out: &mut Vec<u8>) {
        self.bits.write(out);
    }

    fn read(r: &mut Reader) -> (res: Result<F64, DecodeError>) {
        match u64::read(r) {
            Ok(bits) => Ok(F64 { bits }),
            Err(e) => Err(e),
        }
    }
}

} // verus!
