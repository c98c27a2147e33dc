//! A bounds-checked cursor over a byte slice.

use crate::error::DecodeError;
use vstd::prelude::*;
use vstd::slice::slice_subrange;

verus! {

/// A bounds-checked cursor over a byte slice. Its view is the bytes not yet
/// consumed.
pub struct Reader<'a> {
    buf: &'a [u8],
    pos: usize,
}

impl<'a> View for Reader<'a> {
    type V = Seq<u8>;

    closed spec fn view(&self) -> Seq<u8> {
        self.buf@.skip(self.pos as int)
    }
}

impl<'a> Reader<'a> {
    /// The cursor stands inside the buffer or at its end.
    #[verifier::type_invariant]
    spec fn wf(self) -> bool {
        self.pos <= self.buf@.len()
    }

    /// A cursor at the start of `buf`.
    pub fn new(buf: &'a [u8]) -> (r: Self)
        ensures
            r@ == buf@,
    {
        let r = Self { buf, pos: 0 };
        assert(r@ =~= buf@);
        r
    }

    /// The next `n` bytes, which are consumed, or an error where fewer are
    /// left, and then none is consumed.
    pub fn take(&mut self, n: usize) -> (r: Result<&'a [u8], DecodeError>)
        ensures
            match r {
                Ok(bytes) => {
                    &&& n <= old(self)@.len()
                    &&& bytes@ == old(self)@.take(n as int)
                    &&& final(self)@ == old(self)@.skip(n as int)
                },
                Err(e) => {
                    &&& n > old(self)@.len()
                    &&& e == DecodeError::UnexpectedEof
                    &&& final(self)@ == old(self)@
                },
            },
    {
        proof {
            use_type_invariant(&*self);
        }
        let total = self.buf.len();
        let end = match self.pos.checked_add(n) {
            Some(end) => end,
            None => return Err(DecodeError::UnexpectedEof),
        };
        if end > total {
            return Err(DecodeError::UnexpectedEof);
        }
        let bytes = slice_subrange(self.buf, self.pos, end);
        self.pos = end;
        assert(bytes@ =~= old(self)@.take(n as int));
        assert(self@ =~= old(self)@.skip(n as int));
        Ok(bytes)
    }

    /// Bytes not yet consumed.
    pub fn remaining(&self) -> (r: usize)
        ensures
            r == self@.len(),
    {
        proof {
            use_type_invariant(self);
        }
        self.buf.len() - self.pos
    }
}

} // verus!
