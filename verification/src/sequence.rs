//! Sequences and strings on the wire: a `u32` count, then the elements or the
//! UTF-8 bytes.

use crate::codec::{Codec, Wire, MAX_SEQ_LEN};
use crate::error::DecodeError;
use crate::reader::Reader;
use vstd::prelude::*;
use vstd::string::*;
use vstd::utf8::{
    decode_utf8, decode_utf8_encode_utf8, encode_utf8, encode_utf8_decode_utf8,
    encode_utf8_valid_utf8, valid_utf8,
};

verus! {

/// The number that is written as the length of `n` elements: its low 32 bits.
pub open spec fn written_count(n: nat) -> u32 {
    (n % 0x1_0000_0000) as u32
}

/// The bytes of the elements, one after another.
pub open spec fn wire_all<T: Wire>(v: Seq<T::Val>) -> Seq<u8>
    decreases v.len(),
{
    if v.len() == 0 {
        Seq::empty()
    } else {
        T::wire(v[0]) + wire_all::<T>(v.skip(1))
    }
}

/// Every element is within the limits.
pub open spec fn all_fit<T: Wire>(v: Seq<T::Val>) -> bool {
    forall|i: int| 0 <= i < v.len() ==> #[trigger] T::fits(v[i])
}

/// Reads `n` elements, one after another.
pub open spec fn parse_all<T: Wire>(n: nat, s: Seq<u8>) -> (Result<Seq<T::Val>, DecodeError>, nat)
    decreases n,
{
    if n == 0 {
        (Ok(Seq::empty()), 0)
    } else {
        let (first, k) = T::parse(s);
        match first {
            Err(e) => (Err(e), k),
            Ok(x) => {
                let (others, m) = parse_all::<T>((n - 1) as nat, s.skip(k as int));
                match others {
                    Err(e) => (Err(e), k + m),
                    Ok(xs) => (Ok(seq![x] + xs), k + m),
                }
            },
        }
    }
}

proof fn lemma_all_within<T: Wire>(n: nat, s: Seq<u8>)
    ensures
        parse_all::<T>(n, s).1 <= s.len(),
    decreases n,
{
    if n > 0 {
        T::law_within(s);
        lemma_all_within::<T>((n - 1) as nat, s.skip(T::parse(s).1 as int));
    }
}

proof fn lemma_all_read_back<T: Wire>(v: Seq<T::Val>, rest: Seq<u8>)
    requires
        all_fit::<T>(v),
    ensures
        parse_all::<T>(v.len(), wire_all::<T>(v) + rest) == (
            Ok::<Seq<T::Val>, DecodeError>(v),
            wire_all::<T>(v).len(),
        ),
    decreases v.len(),
{
    if v.len() == 0 {
        assert(v =~= Seq::empty());
    } else {
        let head = T::wire(v[0]);
        let tail = wire_all::<T>(v.skip(1));
        assert(T::fits(v[0]));
        assert forall|i: int| 0 <= i < v.skip(1).len() implies #[trigger] T::fits(v.skip(1)[i]) by {
            assert(T::fits(v[i + 1]));
        }
        T::law_read_back(v[0], tail + rest);
        lemma_all_read_back::<T>(v.skip(1), rest);
        assert(head + tail + rest =~= head + (tail + rest));
        assert((head + (tail + rest)).skip(head.len() as int) =~= tail + rest);
        assert(seq![v[0]] + v.skip(1) =~= v);
    }
}

proof fn lemma_all_canonical<T: Wire>(n: nat, s: Seq<u8>)
    ensures
        parse_all::<T>(n, s).0 matches Ok(v) ==> v.len() == n && all_fit::<T>(v) && wire_all::<T>(v)
            == s.take(parse_all::<T>(n, s).1 as int),
    decreases n,
{
    if n == 0 {
        assert(s.take(0) =~= Seq::empty());
    } else {
        let (first, k) = T::parse(s);
        let tail = s.skip(k as int);
        let (others, m) = parse_all::<T>((n - 1) as nat, tail);
        T::law_within(s);
        T::law_canonical(s);
        lemma_all_within::<T>((n - 1) as nat, tail);
        lemma_all_canonical::<T>((n - 1) as nat, tail);
        if first is Ok && others is Ok {
            let v = seq![first->Ok_0] + others->Ok_0;
            assert(v.skip(1) =~= others->Ok_0);
            assert(s.take(k as int) + tail.take(m as int) =~= s.take((k + m) as int));
            assert forall|i: int| 0 <= i < v.len() implies #[trigger] T::fits(v[i]) by {
                if i > 0 {
                    assert(T::fits(others->Ok_0[i - 1]));
                }
            }
        }
    }
}

proof fn lemma_all_truncated<T: Wire>(v: Seq<T::Val>, k: nat)
    requires
        all_fit::<T>(v),
        k < wire_all::<T>(v).len(),
    ensures
        parse_all::<T>(v.len(), wire_all::<T>(v).take(k as int)).0 == Err::<
            Seq<T::Val>,
            DecodeError,
        >(DecodeError::UnexpectedEof),
    decreases v.len(),
{
    let head = T::wire(v[0]);
    let tail = wire_all::<T>(v.skip(1));
    let cut = (head + tail).take(k as int);
    assert(T::fits(v[0]));
    if k < head.len() {
        T::law_truncated(v[0], k);
        assert(cut =~= head.take(k as int));
    } else {
        let j = (k - head.len()) as nat;
        assert forall|i: int| 0 <= i < v.skip(1).len() implies #[trigger] T::fits(v.skip(1)[i]) by {
            assert(T::fits(v[i + 1]));
        }
        T::law_read_back(v[0], tail.take(j as int));
        lemma_all_truncated::<T>(v.skip(1), j);
        assert(cut =~= head + tail.take(j as int));
        assert(cut.skip(head.len() as int) =~= tail.take(j as int));
    }
}

/// Appending an element appends its bytes.
proof fn lemma_wire_all_push<T: Wire>(v: Seq<T::Val>, x: T::Val)
    ensures
        wire_all::<T>(v.push(x)) == wire_all::<T>(v) + T::wire(x),
    decreases v.len(),
{
    if v.len() == 0 {
        assert(v.push(x).skip(1) =~= Seq::empty());
        assert(wire_all::<T>(v.push(x).skip(1)) =~= Seq::empty());
        assert(wire_all::<T>(v.push(x)) =~= wire_all::<T>(v) + T::wire(x));
    } else {
        lemma_wire_all_push::<T>(v.skip(1), x);
        assert(v.push(x).skip(1) =~= v.skip(1).push(x));
        assert(wire_all::<T>(v.push(x)) =~= wire_all::<T>(v) + T::wire(x));
    }
}

impl<T: Wire> Wire for Vec<T> {
    type Val = Seq<T::Val>;

    open spec fn wire(v: Seq<T::Val>) -> Seq<u8> {
        u32::wire(written_count(v.len())) + wire_all::<T>(v)
    }

    open spec fn fits(v: Seq<T::Val>) -> bool {
        v.len() <= MAX_SEQ_LEN && all_fit::<T>(v)
    }

    open spec fn parse(s: Seq<u8>) -> (Result<Seq<T::Val>, DecodeError>, nat) {
        let (head, k) = u32::parse(s);
        match head {
            Err(e) => (Err(e), k),
            Ok(count) => if count > MAX_SEQ_LEN {
                (Err(DecodeError::SequenceTooLong(count as usize)), k)
            } else {
                let (all, m) = parse_all::<T>(count as nat, s.skip(k as int));
                (all, k + m)
            },
        }
    }

    proof fn law_within(s: Seq<u8>) {
        let (head, k) = u32::parse(s);
        u32::law_within(s);
        if head is Ok {
            lemma_all_within::<T>(head->Ok_0 as nat, s.skip(k as int));
        }
    }

    proof fn law_read_back(v: Seq<T::Val>, rest: Seq<u8>) {
        let head = u32::wire(written_count(v.len()));
        let tail = wire_all::<T>(v);
        u32::law_read_back(written_count(v.len()), tail + rest);
        lemma_all_read_back::<T>(v, rest);
        assert(head + tail + rest =~= head + (tail + rest));
        assert((head + (tail + rest)).skip(head.len() as int) =~= tail + rest);
    }

    proof fn law_canonical(s: Seq<u8>) {
        let (head, k) = u32::parse(s);
        let tail = s.skip(k as int);
        u32::law_within(s);
        u32::law_canonical(s);
        if head is Ok && head->Ok_0 <= MAX_SEQ_LEN {
            let m = parse_all::<T>(head->Ok_0 as nat, tail).1;
            lemma_all_within::<T>(head->Ok_0 as nat, tail);
            lemma_all_canonical::<T>(head->Ok_0 as nat, tail);
            assert(s.take(k as int) + tail.take(m as int) =~= s.take((k + m) as int));
        }
    }

    proof fn law_truncated(v: Seq<T::Val>, k: nat) {
        let head = u32::wire(written_count(v.len()));
        let tail = wire_all::<T>(v);
        let cut = (head + tail).take(k as int);
        if k < head.len() {
            u32::law_truncated(written_count(v.len()), k);
            assert(cut =~= head.take(k as int));
        } else {
            let j = (k - head.len()) as nat;
            u32::law_read_back(written_count(v.len()), tail.take(j as int));
            lemma_all_truncated::<T>(v, j);
            assert(cut =~= head + tail.take(j as int));
            assert(cut.skip(head.len() as int) =~= tail.take(j as int));
        }
    }
}

impl<T: Codec> Codec for Vec<T> {
    fn write(&self, out: &mut Vec<u8>) {
        let count: u32 = (self.len() as u64 % 0x1_0000_0000) as u32;
        count.write(out);
        let ghost before = out@;
        let ghost all = self.deep_view();
        let mut i: usize = 0;
        assert(before + wire_all::<T>(all.take(0)) =~= before);
        while i < self.len()
            invariant
                i <= self@.len(),
                all == self.deep_view(),
                out@ == before + wire_all::<T>(all.take(i as int)),
            decreases self@.len() - i,
        {
            self[i].write(out);
            proof {
                lemma_wire_all_push::<T>(all.take(i as int), all[i as int]);
                assert(all.take(i + 1) =~= all.take(i as int).push(all[i as int]));
                assert(out@ =~= before + wire_all::<T>(all.take(i + 1)));
            }
            i = i + 1;
        }
        assert(all.take(i as int) =~= all);
        assert(out@ =~= old(out)@ + Self::wire(self.deep_view()));
    }

    fn read(r: &mut Reader) -> (res: Result<Self, DecodeError>) {
        let ghost start = r@;
        proof {
            u32::law_within(start);
        }
        let count: usize = match u32::read(r) {
            Ok(count) => count as usize,
            Err(e) => return Err(e),
        };
        if count > MAX_SEQ_LEN {
            return Err(DecodeError::SequenceTooLong(count));
        }
        // The count is the sender's word, so it is no more than a hint.
        let mut v: Vec<T> = Vec::with_capacity(if count < 1024 { count } else { 1024 });
        let ghost k = u32::parse(start).1;
        let ghost mut used: nat = 0;
        let mut i: usize = 0;
        proof {
            assert(start.skip(k as int).skip(0) =~= start.skip(k as int));
            let (all, m) = parse_all::<T>(count as nat, start.skip(k as int));
            if all is Ok {
                assert(v.deep_view() + all->Ok_0 =~= all->Ok_0);
            }
        }
        while i < count
            invariant
                i <= count <= MAX_SEQ_LEN,
                start == old(r)@,
                u32::parse(start) == (Ok::<u32, DecodeError>(count as u32), k),
                k <= start.len(),
                used <= start.skip(k as int).len(),
                r@ == start.skip(k as int).skip(used as int),
                ({
                    let (all, n) = parse_all::<T>(count as nat, start.skip(k as int));
                    let (others, m) = parse_all::<T>((count - i) as nat, r@);
                    &&& n == used + m
                    &&& match others {
                        Ok(xs) => all == Ok::<Seq<T::Val>, DecodeError>(v.deep_view() + xs),
                        Err(e) => all == Err::<Seq<T::Val>, DecodeError>(e),
                    }
                }),
            decreases count - i,
        {
            let ghost here = r@;
            let ghost had = v.deep_view();
            proof {
                T::law_within(here);
            }
            match T::read(r) {
                Ok(x) => {
                    v.push(x);
                    proof {
                        let step = T::parse(here).1;
                        used = used + step;
                        assert(r@ =~= start.skip(k as int).skip(used as int));
                        assert(v.deep_view() =~= had.push(x.deep_view()));
                        let (others, m) = parse_all::<T>((count - i - 1) as nat, r@);
                        if others is Ok {
                            assert(had + (seq![x.deep_view()] + others->Ok_0) =~= v.deep_view()
                                + others->Ok_0);
                        }
                    }
                },
                Err(e) => {
                    assert(r@ =~= start.skip((k + used + T::parse(here).1) as int));
                    return Err(e);
                },
            }
            i = i + 1;
        }
        assert(v.deep_view() + Seq::<T::Val>::empty() =~= v.deep_view());
        assert(r@ =~= start.skip((k + used) as int));
        Ok(v)
    }
}

/// The standard library's check of UTF-8: bytes that are valid UTF-8 are the string
/// whose encoding they are, and all other bytes are an error.
pub assume_specification[ core::str::from_utf8 ](v: &[u8]) -> (r: Result<
    &str,
    core::str::Utf8Error,
>)
    ensures
        r is Ok <==> valid_utf8(v@),
        r matches Ok(s) ==> encode_utf8(s@) == v@,
;

/// The error of [`core::str::from_utf8`], which is only told apart from success.
#[verifier::external_type_specification]
#[verifier::external_body]
pub struct ExUtf8Error(core::str::Utf8Error);

impl Wire for String {
    type Val = Seq<char>;

    open spec fn wire(v: Seq<char>) -> Seq<u8> {
        u32::wire(written_count(encode_utf8(v).len())) + encode_utf8(v)
    }

    open spec fn fits(v: Seq<char>) -> bool {
        encode_utf8(v).len() <= MAX_SEQ_LEN
    }

    open spec fn parse(s: Seq<u8>) -> (Result<Seq<char>, DecodeError>, nat) {
        let (head, k) = u32::parse(s);
        match head {
            Err(e) => (Err(e), k),
            Ok(count) => {
                let rest = s.skip(k as int);
                let text = rest.take(count as int);
                if count > MAX_SEQ_LEN {
                    (Err(DecodeError::SequenceTooLong(count as usize)), k)
                } else if rest.len() < count {
                    (Err(DecodeError::UnexpectedEof), k)
                } else if !valid_utf8(text) {
                    (Err(DecodeError::BadUtf8), k + count as nat)
                } else {
                    (Ok(decode_utf8(text)), k + count as nat)
                }
            },
        }
    }

    proof fn law_within(s: Seq<u8>) {
        u32::law_within(s);
    }

    proof fn law_read_back(v: Seq<char>, rest: Seq<u8>) {
        let head = u32::wire(written_count(encode_utf8(v).len()));
        let text = encode_utf8(v);
        u32::law_read_back(written_count(text.len()), text + rest);
        encode_utf8_valid_utf8(v);
        encode_utf8_decode_utf8(v);
        assert(head + text + rest =~= head + (text + rest));
        assert((head + (text + rest)).skip(head.len() as int) =~= text + rest);
        assert((text + rest).take(text.len() as int) =~= text);
    }

    proof fn law_canonical(s: Seq<u8>) {
        let (head, k) = u32::parse(s);
        u32::law_within(s);
        u32::law_canonical(s);
        if Self::parse(s).0 is Ok {
            let count = head->Ok_0;
            let text = s.skip(k as int).take(count as int);
            decode_utf8_encode_utf8(text);
            assert(s.take(k as int) + text =~= s.take((k + count) as int));
        }
    }

    proof fn law_truncated(v: Seq<char>, k: nat) {
        let text = encode_utf8(v);
        let head = u32::wire(written_count(text.len()));
        let cut = (head + text).take(k as int);
        if k < head.len() {
            u32::law_truncated(written_count(text.len()), k);
            assert(cut =~= head.take(k as int));
        } else {
            let j = (k - head.len()) as nat;
            u32::law_read_back(written_count(text.len()), text.take(j as int));
            assert(cut =~= head + text.take(j as int));
            assert(cut.skip(head.len() as int) =~= text.take(j as int));
        }
    }
}

impl Codec for String {
    fn write(&self, out: &mut Vec<u8>) {
        let bytes = self.as_str().as_bytes();
        let count: u32 = (bytes.len() as u64 % 0x1_0000_0000) as u32;
        count.write(out);
        out.extend_from_slice(bytes);
        assert(out@ =~= old(out)@ + Self::wire(self.deep_view()));
    }

    fn read(r: &mut Reader) -> (res: Result<Self, DecodeError>) {
        let ghost start = r@;
        proof {
            u32::law_within(start);
        }
        let ghost k = u32::parse(start).1;
        let len: usize = match u32::read(r) {
            Ok(len) => len as usize,
            Err(e) => return Err(e),
        };
        if len > MAX_SEQ_LEN {
            return Err(DecodeError::SequenceTooLong(len));
        }
        let bytes = match r.take(len) {
            Ok(bytes) => bytes,
            Err(e) => return Err(e),
        };
        assert(r@ =~= start.skip((k + len) as int));
        match core::str::from_utf8(bytes) {
            Ok(s) => {
                proof {
                    encode_utf8_decode_utf8(s@);
                }
                Ok(s.to_owned())
            },
            Err(_) => Err(DecodeError::BadUtf8),
        }
    }
}

/// A declared count above the limit is refused by that count, for sequences and for
/// strings, whatever follows.
pub proof fn law_count_refused<T: Wire>(count: u32, rest: Seq<u8>)
    requires
        count > MAX_SEQ_LEN,
    ensures
        Vec::<T>::parse(u32::wire(count) + rest).0 == Err::<Seq<T::Val>, DecodeError>(
            DecodeError::SequenceTooLong(count as usize),
        ),
        String::parse(u32::wire(count) + rest).0 == Err::<Seq<char>, DecodeError>(
            DecodeError::SequenceTooLong(count as usize),
        ),
{
    u32::law_read_back(count, rest);
}

/// Text that is not UTF-8 is refused, whatever follows.
pub proof fn law_text_refused(text: Seq<u8>, rest: Seq<u8>)
    requires
        text.len() <= MAX_SEQ_LEN,
        !valid_utf8(text),
    ensures
        String::parse(u32::wire(text.len() as u32) + text + rest).0 == Err::<
            Seq<char>,
            DecodeError,
        >(DecodeError::BadUtf8),
{
    let head = u32::wire(text.len() as u32);
    u32::law_read_back(text.len() as u32, text + rest);
    assert(head + text + rest =~= head + (text + rest));
    assert((head + (text + rest)).skip(head.len() as int) =~= text + rest);
    assert((text + rest).take(text.len() as int) =~= text);
}

} // verus!
