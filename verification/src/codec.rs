//! The symmetric little-endian serializer of the wire types.
//!
//! [`Wire`] says what the bytes of a value are and what bytes are read
//! as, and carries the laws that tie the two; [`Codec`] is the executable reader
//! and writer.

use crate::error::DecodeError;
use crate::reader::Reader;
use vstd::prelude::*;

verus! {

/// Upper bound on a decoded sequence length, to bound work on malformed input.
pub const MAX_SEQ_LEN: usize = 8_000_000;

/// A byte format: the bytes of each value, and what is read from any bytes.
pub trait Wire {
    /// The values of the format.
    type Val;

    /// The bytes of a value.
    spec fn wire(v: Self::Val) -> Seq<u8>;

    /// Every sequence in the value is within [`MAX_SEQ_LEN`].
    spec fn fits(v: Self::Val) -> bool;

    /// What is read from the front of `s`: the value or the error, and how many
    /// bytes were consumed either way.
    spec fn parse(s: Seq<u8>) -> (Result<Self::Val, DecodeError>, nat);

    /// No more is consumed than is there.
    proof fn law_within(s: Seq<u8>)
        ensures
            Self::parse(s).1 <= s.len(),
    ;

    /// What was written is read back, whatever follows it, and nothing of what
    /// follows is consumed.
    proof fn law_read_back(v: Self::Val, rest: Seq<u8>)
        requires
            Self::fits(v),
        ensures
            Self::parse(Self::wire(v) + rest) == (
                Ok::<Self::Val, DecodeError>(v),
                Self::wire(v).len(),
            ),
    ;

    /// A value that was read is within the limits and is written again as the very
    /// bytes that were consumed.
    proof fn law_canonical(s: Seq<u8>)
        ensures
            Self::parse(s).0 matches Ok(v) ==> Self::fits(v) && Self::wire(v) == s.take(
                Self::parse(s).1 as int,
            ),
    ;

    /// Cut anywhere before its end, a written value is an unexpected end of the
    /// buffer.
    proof fn law_truncated(v: Self::Val, k: nat)
        requires
            Self::fits(v),
            k < Self::wire(v).len(),
        ensures
            Self::parse(Self::wire(v).take(k as int)).0 == Err::<Self::Val, DecodeError>(
                DecodeError::UnexpectedEof,
            ),
    ;
}

/// One value after another.
impl<A: Wire, B: Wire> Wire for (A, B) {
    type Val = (A::Val, B::Val);

    open spec fn wire(v: (A::Val, B::Val)) -> Seq<u8> {
        A::wire(v.0) + B::wire(v.1)
    }

    open spec fn fits(v: (A::Val, B::Val)) -> bool {
        A::fits(v.0) && B::fits(v.1)
    }

    open spec fn parse(s: Seq<u8>) -> (Result<(A::Val, B::Val), DecodeError>, nat) {
        let (first, n) = A::parse(s);
        match first {
            Err(e) => (Err(e), n),
            Ok(a) => {
                let (second, m) = B::parse(s.skip(n as int));
                match second {
                    Err(e) => (Err(e), n + m),
                    Ok(b) => (Ok((a, b)), n + m),
                }
            },
        }
    }

    proof fn law_within(s: Seq<u8>) {
        A::law_within(s);
        B::law_within(s.skip(A::parse(s).1 as int));
    }

    proof fn law_read_back(v: (A::Val, B::Val), rest: Seq<u8>) {
        let (a, b) = (A::wire(v.0), B::wire(v.1));
        A::law_read_back(v.0, b + rest);
        B::law_read_back(v.1, rest);
        assert(a + b + rest =~= a + (b + rest));
        assert((a + (b + rest)).skip(a.len() as int) =~= b + rest);
    }

    proof fn law_canonical(s: Seq<u8>) {
        let (first, n) = A::parse(s);
        let tail = s.skip(n as int);
        let (second, m) = B::parse(tail);
        A::law_within(s);
        A::law_canonical(s);
        B::law_within(tail);
        B::law_canonical(tail);
        if first is Ok && second is Ok {
            assert(s.take(n as int) + tail.take(m as int) =~= s.take((n + m) as int));
        }
    }

    proof fn law_truncated(v: (A::Val, B::Val), k: nat) {
        let (a, b) = (A::wire(v.0), B::wire(v.1));
        let cut = (a + b).take(k as int);
        if k < a.len() {
            A::law_truncated(v.0, k);
            assert(cut =~= a.take(k as int));
        } else {
            let j = (k - a.len()) as nat;
            A::law_read_back(v.0, b.take(j as int));
            B::law_truncated(v.1, j);
            assert(cut =~= a + b.take(j as int));
            assert(cut.skip(a.len() as int) =~= b.take(j as int));
        }
    }
}

/// A parse whose value is put in another form.
pub open spec fn map_parsed<A, B>(
    p: (Result<A, DecodeError>, nat),
    f: spec_fn(A) -> B,
) -> (Result<B, DecodeError>, nat) {
    match p.0 {
        Ok(a) => (Ok(f(a)), p.1),
        Err(e) => (Err(e), p.1),
    }
}

/// A parse that follows `n` consumed bytes.
pub open spec fn after<A>(n: nat, p: (Result<A, DecodeError>, nat)) -> (
    Result<A, DecodeError>,
    nat,
) {
    (p.0, n + p.1)
}

/// Symmetric little-endian serializer/deserializer for the wire types.
pub trait Codec: Wire + DeepView<V = <Self as Wire>::Val> + Sized {
    /// Appends the bytes of the value.
    fn write(&self, out: &mut Vec<u8>)
        ensures
            final(out)@ == old(out)@ + Self::wire(self.deep_view()),
    ;

    /// Reads a value at the cursor, and leaves the cursor behind what was consumed.
    fn read(r: &mut Reader) -> (res: Result<Self, DecodeError>)
        ensures
            final(r)@ == old(r)@.skip(Self::parse(old(r)@).1 as int),
            match res {
                Ok(v) => Self::parse(old(r)@).0 == Ok::<Self::Val, DecodeError>(v.deep_view()),
                Err(e) => Self::parse(old(r)@).0 == Err::<Self::Val, DecodeError>(e),
            },
    ;
}

impl<A: Codec, B: Codec> Codec for (A, B) {
    fn write(&self, out: &mut Vec<u8>) {
        self.0.write(out);
        self.1.write(out);
        assert(out@ =~= old(out)@ + Self::wire(self.deep_view()));
    }

    fn read(r: &mut Reader) -> (res: Result<Self, DecodeError>) {
        let ghost start = r@;
        proof {
            A::law_within(start);
        }
        let a = A::read(r)?;
        proof {
            B::law_within(r@);
        }
        let b = B::read(r)?;
        Ok((a, b))
    }
}

} // verus!
