//! The body collector: reads on until the declared content length.

use vstd::prelude::*;
use vstd::slice::slice_to_vec;
use crate::error::Error;
use crate::header::{lookup, HttpHeader};

verus! {

/// The field name `Content-Length`.
pub open spec fn content_length_name() -> Seq<u8> {
    seq![67u8, 111u8, 110u8, 116u8, 101u8, 110u8, 116u8, 45u8, 76u8, 101u8, 110u8, 103u8, 116u8, 104u8]
}

/// An ASCII decimal digit.
pub open spec fn is_digit(b: u8) -> bool {
    48 <= b && b <= 57
}

/// The number that a string of decimal digits denotes.
pub open spec fn decimal_value(s: Seq<u8>) -> nat
    decreases s.len(),
{
    if s.len() == 0 {
        0
    } else {
        decimal_value(s.drop_last()) * 10 + (s.last() - 48) as nat
    }
}

/// The number in `s`, when `s` is one or more decimal digits whose value
/// fits in `usize`.
pub open spec fn parse_decimal(s: Seq<u8>) -> Option<nat> {
    if s.len() > 0 && (forall|i: int| 0 <= i < s.len() ==> is_digit(#[trigger] s[i]))
        && decimal_value(s) <= usize::MAX {
        Some(decimal_value(s))
    } else {
        None
    }
}

/// The declared body length of a header with the given fields.
pub open spec fn body_length(fields: Seq<(Seq<u8>, Seq<u8>)>) -> Result<nat, Error> {
    match lookup(fields, content_length_name()) {
        None => Err(Error::MissingLength),
        Some(v) => match parse_decimal(v) {
            Some(n) => Ok(n),
            None => Err(Error::InvalidLength),
        },
    }
}

/// A longer string of digits denotes at least as much.
proof fn lemma_decimal_grows(s: Seq<u8>, i: int)
    requires
        0 <= i <= s.len(),
    ensures
        decimal_value(s.take(i)) <= decimal_value(s),
    decreases s.len() - i,
{
    if i < s.len() {
        lemma_decimal_grows(s, i + 1);
        assert(s.take(i + 1).drop_last() =~= s.take(i));
        let v = decimal_value(s.take(i));
        assert(v <= v * 10) by (nonlinear_arith);
    } else {
        assert(s.take(i) =~= s);
    }
}

/// Reads a decimal number that fits in `usize`.
pub fn parse_length(s: &[u8]) -> (r: Option<usize>)
    ensures
        match r {
            Some(n) => parse_decimal(s@) == Some(n as nat),
            None => parse_decimal(s@) is None,
        },
{
    let n = s.len();
    if n == 0 {
        return None;
    }
    let mut value: usize = 0;
    let mut i: usize = 0;
    while i < n
        invariant
            n == s@.len(),
            i <= n,
            forall|j: int| 0 <= j < i ==> is_digit(#[trigger] s@[j]),
            value as nat == decimal_value(s@.take(i as int)),
        decreases n - i,
    {
        let b = s[i];
        if b < 48 || b > 57 {
            return None;
        }
        assert(s@.take(i + 1).drop_last() =~= s@.take(i as int));
        let d = (b - 48) as usize;
        match value.checked_mul(10) {
            Some(tens) => match tens.checked_add(d) {
                Some(next) => {
                    value = next;
                },
                None => {
                    proof {
                        lemma_decimal_grows(s@, i + 1);
                    }
                    return None;
                },
            },
            None => {
                proof {
                    lemma_decimal_grows(s@, i + 1);
                }
                return None;
            },
        }
        i = i + 1;
    }
    assert(s@.take(n as int) =~= s@);
    Some(value)
}

/// The declared body length: `MissingLength` without a `Content-Length`
/// field, `InvalidLength` when its value is not a decimal number that fits.
pub fn content_length(header: &HttpHeader) -> (r: Result<usize, Error>)
    ensures
        match r {
            Ok(n) => body_length(header.field_seq()) == Ok::<nat, Error>(n as nat),
            Err(e) => body_length(header.field_seq()) == Err::<nat, Error>(e),
        },
{
    let name: [u8; 14] = [67, 111, 110, 116, 101, 110, 116, 45, 76, 101, 110, 103, 116, 104];
    assert(name@ =~= content_length_name());
    match header.get(&name) {
        None => Err(Error::MissingLength),
        Some(v) => match parse_length(v.as_slice()) {
            Some(n) => Ok(n),
            None => Err(Error::InvalidLength),
        },
    }
}

/// What the collector returns once it holds `acc` and expects `n` bytes:
/// the first `n` bytes when that many have come, else `None`.
pub open spec fn body_outcome(acc: Seq<u8>, n: nat) -> Option<Seq<u8>> {
    if acc.len() >= n {
        Some(acc.take(n as int))
    } else {
        None
    }
}

/// Accumulates body bytes until the declared length is reached.
pub struct BodyCollector {
    buf: Vec<u8>,
    length: usize,
}

/// The result of handing bytes to a body collector.
pub enum BodyStep {
    /// Fewer bytes than declared: read another chunk into the collector.
    NeedMore(BodyCollector),
    /// Exactly the declared number of bytes; anything beyond is dropped.
    Complete(Vec<u8>),
}

impl BodyCollector {
    /// The bytes received so far.
    pub closed spec fn received(self) -> Seq<u8> {
        self.buf@
    }

    /// The declared body length.
    pub closed spec fn length(self) -> nat {
        self.length as nat
    }

    /// Starts from the bytes that followed the header delimiter.
    pub fn new(length: usize, trailing: Vec<u8>) -> (r: BodyStep)
        ensures
            match r {
                BodyStep::NeedMore(c) => {
                    &&& c.received() == trailing@
                    &&& c.length() == length
                    &&& body_outcome(trailing@, length as nat) is None
                },
                BodyStep::Complete(body) => body_outcome(trailing@, length as nat) == Some(body@),
            },
    {
        let start = BodyCollector { buf: Vec::new(), length };
        assert(trailing@.len() == trailing.len());
        start.feed(trailing.as_slice())
    }

    /// Appends `chunk` and checks whether the declared length is reached.
    pub fn feed(self, chunk: &[u8]) -> (r: BodyStep)
        requires
            self.received().len() + chunk@.len() <= usize::MAX,
        ensures
            match r {
                BodyStep::NeedMore(c) => {
                    &&& c.received() == self.received() + chunk@
                    &&& c.length() == self.length()
                    &&& body_outcome(c.received(), c.length()) is None
                },
                BodyStep::Complete(body) => body_outcome(self.received() + chunk@, self.length())
                    == Some(body@),
            },
    {
        let BodyCollector { mut buf, length } = self;
        let mut more = slice_to_vec(chunk);
        buf.append(&mut more);
        if buf.len() >= length {
            let body = slice_to_vec(&buf.as_slice()[0..length]);
            assert(body@ =~= buf@.take(length as int));
            BodyStep::Complete(body)
        } else {
            BodyStep::NeedMore(BodyCollector { buf, length })
        }
    }
}

/// A header without `Content-Length` is refused with `MissingLength` before
/// any body byte is awaited.
pub proof fn lemma_missing_length(fields: Seq<(Seq<u8>, Seq<u8>)>)
    requires
        lookup(fields, content_length_name()) is None,
    ensures
        body_length(fields) == Err::<nat, Error>(Error::MissingLength),
{
}

} // verus!
