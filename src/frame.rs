//! The frame reader: accumulates reads until the header delimiter.

use vstd::prelude::*;
use vstd::slice::slice_to_vec;
use crate::bytes::{find_bytes, find_first, find_from, lemma_find_from, matches_at};
use crate::error::Error;

verus! {

/// The header size bound used when none is configured.
pub const DEFAULT_MAX_HEADER_SIZE: usize = 4096;

/// The header/body delimiter, `\r\n\r\n`.
pub open spec fn delimiter() -> Seq<u8> {
    seq![13u8, 10u8, 13u8, 10u8]
}

/// What the reader decides once it holds `acc` under the bound `limit`:
/// `None` to read on; the header and the bytes after the delimiter when the
/// first delimiter ends within the bound; `HeaderTooLarge` when more than
/// `limit` bytes have come without that.
pub open spec fn frame_outcome(acc: Seq<u8>, limit: nat) -> Option<Result<(Seq<u8>, Seq<u8>), Error>> {
    match find_first(acc, delimiter()) {
        Some(p) if p + 4 <= limit => Some(Ok((acc.take(p), acc.skip(p + 4)))),
        _ => if acc.len() > limit {
            Some(Err(Error::HeaderTooLarge))
        } else {
            None
        },
    }
}

/// Position of the first header delimiter in `buf`, if there is one.
pub fn check_http_header(buf: &[u8]) -> (r: Option<usize>)
    ensures
        match r {
            Some(p) => find_first(buf@, delimiter()) == Some(p as int),
            None => find_first(buf@, delimiter()) is None,
        },
{
    let delim: [u8; 4] = [13, 10, 13, 10];
    assert(delim@ =~= delimiter());
    find_bytes(buf, &delim)
}

/// Accumulates the bytes of one request until its header is complete.
pub struct FrameReader {
    buf: Vec<u8>,
    limit: usize,
}

/// The result of handing a chunk to a [`FrameReader`].
pub enum FrameStep {
    /// No decision yet: read another chunk into the returned reader.
    NeedMore(FrameReader),
    /// The header (without the delimiter) and the bytes after the delimiter.
    Complete(Vec<u8>, Vec<u8>),
    /// The request is refused; nothing more is to be read.
    Failed(Error),
}

impl FrameReader {
    /// The bytes received so far.
    pub closed spec fn received(self) -> Seq<u8> {
        self.buf@
    }

    /// The header size bound.
    pub closed spec fn limit(self) -> nat {
        self.limit as nat
    }

    /// An empty reader that accepts headers of at most `limit` bytes.
    pub fn new(limit: usize) -> (r: FrameReader)
        ensures
            r.received() == Seq::<u8>::empty(),
            r.limit() == limit,
    {
        FrameReader { buf: Vec::new(), limit }
    }

    /// Appends `chunk` and scans everything received for the delimiter.
    pub fn feed(self, chunk: &[u8]) -> (r: FrameStep)
        requires
            self.received().len() + chunk@.len() <= usize::MAX,
        ensures
            match r {
                FrameStep::NeedMore(next) => {
                    &&& next.received() == self.received() + chunk@
                    &&& next.limit() == self.limit()
                    &&& frame_outcome(next.received(), self.limit()) is None
                },
                FrameStep::Complete(header, trailing) => frame_outcome(
                    self.received() + chunk@,
                    self.limit(),
                ) == Some(Ok::<(Seq<u8>, Seq<u8>), Error>((header@, trailing@))),
                FrameStep::Failed(e) => frame_outcome(self.received() + chunk@, self.limit())
                    == Some(Err::<(Seq<u8>, Seq<u8>), Error>(e)),
            },
    {
        let FrameReader { mut buf, limit } = self;
        let mut more = slice_to_vec(chunk);
        buf.append(&mut more);
        let n = buf.len();
        match check_http_header(buf.as_slice()) {
            Some(p) => {
                if p <= limit && limit - p >= 4 {
                    proof {
                        lemma_find_from(buf@, delimiter(), 0);
                    }
                    assert(matches_at(buf@, delimiter(), p as int));
                    let header = slice_to_vec(&buf[0..p]);
                    let trailing = slice_to_vec(&buf[p + 4..n]);
                    assert(header@ =~= buf@.take(p as int));
                    assert(trailing@ =~= buf@.skip(p + 4));
                    return FrameStep::Complete(header, trailing);
                }
            },
            None => {},
        }
        if n > limit {
            FrameStep::Failed(Error::HeaderTooLarge)
        } else {
            FrameStep::NeedMore(FrameReader { buf, limit })
        }
    }
}

/// Searching a prefix of `s` that holds the first occurrence of `pat`
/// finds it there; a shorter prefix holds no occurrence at all.
proof fn lemma_find_in_prefix(s: Seq<u8>, pat: Seq<u8>, n: int, p: int, i: int)
    requires
        find_first(s, pat) == Some(p),
        0 <= n <= s.len(),
        0 <= i <= p,
    ensures
        find_from(s.take(n), pat, i) == if n >= p + pat.len() {
            Some(p)
        } else {
            None::<int>
        },
    decreases p - i,
{
    lemma_find_from(s, pat, 0);
    let t = s.take(n);
    if i + pat.len() <= n {
        assert(t.subrange(i, i + pat.len()) =~= s.subrange(i, i + pat.len()));
        assert(matches_at(t, pat, i) == matches_at(s, pat, i));
        if i < p {
            assert(!matches_at(s, pat, i));
            lemma_find_in_prefix(s, pat, n, p, i + 1);
        } else {
            assert(matches_at(s, pat, p));
        }
    }
}

/// Wherever the chunk boundaries fall, once the bytes received are a
/// prefix of `s` of length `n`: if the first delimiter of `s` starts at `p`
/// and ends within the bound, the reader reads on while `n < p + 4`, and
/// from then on returns exactly the bytes before the delimiter as header
/// and the received bytes after it as trailing data.
pub proof fn lemma_frame_finds_delimiter(s: Seq<u8>, n: int, limit: nat, p: int)
    requires
        find_first(s, delimiter()) == Some(p),
        p + 4 <= limit,
        0 <= n <= s.len(),
    ensures
        frame_outcome(s.take(n), limit) == if n >= p + 4 {
            Some(Ok::<(Seq<u8>, Seq<u8>), Error>((s.take(p), s.subrange(p + 4, n))))
        } else {
            None::<Result<(Seq<u8>, Seq<u8>), Error>>
        },
{
    lemma_find_from(s, delimiter(), 0);
    lemma_find_in_prefix(s, delimiter(), n, p, 0);
    if n >= p + 4 {
        assert(s.take(n).take(p) =~= s.take(p));
        assert(s.take(n).skip(p + 4) =~= s.subrange(p + 4, n));
    }
}

/// Once more than `limit` bytes have been received with no delimiter ending
/// within the bound, the reader fails with `HeaderTooLarge`; the failure
/// hands back no reader, so nothing more is read.
pub proof fn lemma_frame_too_large(acc: Seq<u8>, limit: nat)
    requires
        acc.len() > limit,
        !(find_first(acc, delimiter()) matches Some(p) && p + 4 <= limit),
    ensures
        frame_outcome(acc, limit) == Some(Err::<(Seq<u8>, Seq<u8>), Error>(Error::HeaderTooLarge)),
{
}

} // verus!
