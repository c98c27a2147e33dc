//! Why a buffer could not be decoded.

use vstd::prelude::*;
use vstd::string::*;

verus! {

/// Error returned when decoding a malformed buffer.
#[derive(Debug, PartialEq, Eq)]
pub enum DecodeError {
    /// The 4-byte magic prefix did not match the expected message kind.
    BadMagic,
    /// The wire version is not supported by this build.
    UnsupportedVersion(u16),
    /// The buffer ended before a value could be fully read.
    UnexpectedEof,
    /// An enum tag byte was out of range.
    BadTag(u8),
    /// A string field was not valid UTF-8.
    BadUtf8,
    /// A declared sequence length exceeded the limit.
    SequenceTooLong(usize),
}

impl Clone for DecodeError {
    fn clone(&self) -> (r: Self)
        ensures
            r == *self,
    {
        match self {
            DecodeError::BadMagic => DecodeError::BadMagic,
            DecodeError::UnsupportedVersion(v) => DecodeError::UnsupportedVersion(*v),
            DecodeError::UnexpectedEof => DecodeError::UnexpectedEof,
            DecodeError::BadTag(t) => DecodeError::BadTag(*t),
            DecodeError::BadUtf8 => DecodeError::BadUtf8,
            DecodeError::SequenceTooLong(n) => DecodeError::SequenceTooLong(*n),
        }
    }
}

/// The character of a decimal digit.
pub open spec fn digit(d: nat) -> char {
    (48 + d) as char
}

/// A number in decimal, without leading zeros.
pub open spec fn decimal(n: nat) -> Seq<char>
    decreases n,
{
    if n < 10 {
        seq![digit(n)]
    } else {
        decimal(n / 10).push(digit(n % 10))
    }
}

fn digit_text(d: u64) -> (r: &'static str)
    requires
        d < 10,
    ensures
        r@ == seq![digit(d as nat)],
{
    proof {
        reveal_strlit("0");
        reveal_strlit("1");
        reveal_strlit("2");
        reveal_strlit("3");
        reveal_strlit("4");
        reveal_strlit("5");
        reveal_strlit("6");
        reveal_strlit("7");
        reveal_strlit("8");
        reveal_strlit("9");
    }
    let r = match d {
        0 => "0",
        1 => "1",
        2 => "2",
        3 => "3",
        4 => "4",
        5 => "5",
        6 => "6",
        7 => "7",
        8 => "8",
        _ => "9",
    };
    assert(r@ =~= seq![digit(d as nat)]);
    r
}

fn append_decimal(out: &mut String, n: u64)
    ensures
        final(out)@ == old(out)@ + decimal(n as nat),
    decreases n,
{
    if n >= 10 {
        append_decimal(out, n / 10);
    }
    out.append(digit_text(n % 10));
    assert(out@ =~= old(out)@ + decimal(n as nat));
}

impl DecodeError {
    /// The text that [`DecodeError::message`] gives.
    pub open spec fn text(self) -> Seq<char> {
        match self {
            DecodeError::BadMagic => "bad magic prefix"@,
            DecodeError::UnsupportedVersion(v) => "unsupported wire version "@ + decimal(v as nat),
            DecodeError::UnexpectedEof => "unexpected end of buffer"@,
            DecodeError::BadTag(t) => "invalid enum tag "@ + decimal(t as nat),
            DecodeError::BadUtf8 => "invalid utf-8 in string"@,
            DecodeError::SequenceTooLong(n) => "sequence length "@ + decimal(n as nat)
                + " exceeds limit"@,
        }
    }

    /// The error in words.
    pub fn message(&self) -> (r: String)
        ensures
            r@ == self.text(),
    {
        let mut out = String::new();
        match self {
            DecodeError::BadMagic => {
                out.append("bad magic prefix");
            },
            DecodeError::UnsupportedVersion(v) => {
                out.append("unsupported wire version ");
                append_decimal(&mut out, *v as u64);
            },
            DecodeError::UnexpectedEof => {
                out.append("unexpected end of buffer");
            },
            DecodeError::BadTag(t) => {
                out.append("invalid enum tag ");
                append_decimal(&mut out, *t as u64);
            },
            DecodeError::BadUtf8 => {
                out.append("invalid utf-8 in string");
            },
            DecodeError::SequenceTooLong(n) => {
                out.append("sequence length ");
                append_decimal(&mut out, *n as u64);
                out.append(" exceeds limit");
            },
        }
        assert(out@ =~= self.text());
        out
    }
}

} // verus!
