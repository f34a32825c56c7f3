//! The header parser: start line and `name: value` fields.

use vstd::prelude::*;
use vstd::slice::slice_to_vec;
use vstd::utf8::valid_utf8;
use crate::bytes::{
    bytes_eq, is_utf8, split_bytes, split_on, split_once, split_once_bytes, trim, trim_bytes,
    views,
};
use crate::error::Error;
use crate::frame::{check_http_header, delimiter};

verus! {

/// The line terminator `\r\n`.
pub open spec fn crlf() -> Seq<u8> {
    seq![13u8, 10u8]
}

/// The field separator `": "`.
pub open spec fn field_separator() -> Seq<u8> {
    seq![58u8, 32u8]
}

/// A single space.
pub open spec fn space() -> Seq<u8> {
    seq![32u8]
}

/// The lines of a header: its pieces between `\r\n`, less a final empty
/// piece left by a closing terminator.
pub open spec fn header_lines(h: Seq<u8>) -> Seq<Seq<u8>> {
    let pieces = split_on(h, crlf());
    if pieces.len() > 0 && pieces.last().len() == 0 {
        pieces.drop_last()
    } else {
        pieces
    }
}

/// Every line holds `sep`.
pub open spec fn all_split(lines: Seq<Seq<u8>>, sep: Seq<u8>) -> bool {
    forall|i: int| 0 <= i < lines.len() ==> (#[trigger] split_once(lines[i], sep)) is Some
}

/// Each line cut at its first `sep`, both sides trimmed.
pub open spec fn trimmed_pairs(lines: Seq<Seq<u8>>, sep: Seq<u8>) -> Seq<(Seq<u8>, Seq<u8>)> {
    Seq::new(
        lines.len(),
        |i: int|
            {
                let kv = split_once(lines[i], sep)->0;
                (trim(kv.0), trim(kv.1))
            },
    )
}

/// The views of a sequence of byte-vector pairs.
pub open spec fn pair_views(v: Seq<(Vec<u8>, Vec<u8>)>) -> Seq<(Seq<u8>, Seq<u8>)> {
    v.map_values(|kv: (Vec<u8>, Vec<u8>)| (kv.0@, kv.1@))
}

/// The value of the last field named `key`.
pub open spec fn lookup(fields: Seq<(Seq<u8>, Seq<u8>)>, key: Seq<u8>) -> Option<Seq<u8>>
    decreases fields.len(),
{
    if fields.len() == 0 {
        None
    } else if fields.last().0 == key {
        Some(fields.last().1)
    } else {
        lookup(fields.drop_last(), key)
    }
}

/// What header bytes parse to: the start-line tokens and the fields.
pub open spec fn parse_header(h: Seq<u8>) -> Result<(Seq<Seq<u8>>, Seq<(Seq<u8>, Seq<u8>)>), Error> {
    let lines = header_lines(h);
    if !valid_utf8(h) {
        Err(Error::Encoding)
    } else if lines.len() == 0 || split_on(lines[0], space()).len() < 3 {
        Err(Error::MalformedStartLine)
    } else if !all_split(lines.drop_first(), field_separator()) {
        Err(Error::MalformedField)
    } else {
        Ok((split_on(lines[0], space()), trimmed_pairs(lines.drop_first(), field_separator())))
    }
}

/// A parsed request header.
pub struct HttpHeader {
    /// Tokens of the start line: method, target, version, and any more.
    pub start_line: Vec<Vec<u8>>,
    /// Fields in the order received; a later field shadows an earlier one
    /// of the same name.
    pub fields: Vec<(Vec<u8>, Vec<u8>)>,
}

impl HttpHeader {
    /// The start-line tokens.
    pub open spec fn tokens(self) -> Seq<Seq<u8>> {
        views(self.start_line@)
    }

    /// The fields as byte sequences.
    pub open spec fn field_seq(self) -> Seq<(Seq<u8>, Seq<u8>)> {
        pair_views(self.fields@)
    }

    /// The value of the last field named `key`.
    pub fn get(&self, key: &[u8]) -> (r: Option<&Vec<u8>>)
        ensures
            match r {
                Some(v) => lookup(self.field_seq(), key@) == Some(v@),
                None => lookup(self.field_seq(), key@) is None,
            },
    {
        find_field(&self.fields, key)
    }
}

/// The value of the last pair in `fields` whose name is `key`.
pub fn find_field<'a>(fields: &'a Vec<(Vec<u8>, Vec<u8>)>, key: &[u8]) -> (r: Option<&'a Vec<u8>>)
    ensures
        match r {
            Some(v) => lookup(pair_views(fields@), key@) == Some(v@),
            None => lookup(pair_views(fields@), key@) is None,
        },
{
    let mut i: usize = fields.len();
    assert(pair_views(fields@).take(i as int) =~= pair_views(fields@));
    while i > 0
        invariant
            i <= fields@.len(),
            lookup(pair_views(fields@), key@) == lookup(pair_views(fields@).take(i as int), key@),
        decreases i,
    {
        let ghost f = pair_views(fields@).take(i as int);
        assert(f.drop_last() =~= pair_views(fields@).take(i - 1));
        if bytes_eq(fields[i - 1].0.as_slice(), key) {
            return Some(&fields[i - 1].1);
        }
        i = i - 1;
    }
    None
}

/// Parses header bytes (without the delimiter) into start line and fields.
pub fn split_header(header: Vec<u8>) -> (r: Result<HttpHeader, Error>)
    ensures
        match r {
            Ok(h) => parse_header(header@) == Ok::<_, Error>((h.tokens(), h.field_seq())),
            Err(e) => parse_header(header@) == Err::<(Seq<Seq<u8>>, Seq<(Seq<u8>, Seq<u8>)>), Error>(e),
        },
{
    if !is_utf8(header.as_slice()) {
        return Err(Error::Encoding);
    }
    let crlf_bytes: [u8; 2] = [13, 10];
    assert(crlf_bytes@ =~= crlf());
    let mut lines = split_bytes(header.as_slice(), &crlf_bytes);
    let ghost pieces = views(lines@);
    if lines.len() > 0 && lines[lines.len() - 1].len() == 0 {
        lines.pop();
        assert(views(lines@) =~= pieces.drop_last());
    }
    assert(views(lines@) == header_lines(header@));
    if lines.len() == 0 {
        return Err(Error::MalformedStartLine);
    }
    let space_bytes: [u8; 1] = [32];
    assert(space_bytes@ =~= space());
    let start_line = split_bytes(lines[0].as_slice(), &space_bytes);
    if start_line.len() < 3 {
        return Err(Error::MalformedStartLine);
    }
    let sep_bytes: [u8; 2] = [58, 32];
    assert(sep_bytes@ =~= field_separator());
    assert(views(lines@)[0] == lines@[0]@);
    let ghost rest = header_lines(header@).drop_first();
    let mut fields: Vec<(Vec<u8>, Vec<u8>)> = Vec::new();
    let mut i: usize = 1;
    while i < lines.len()
        invariant
            1 <= i <= lines@.len(),
            views(lines@) == header_lines(header@),
            rest == header_lines(header@).drop_first(),
            sep_bytes@ == field_separator(),
            valid_utf8(header@),
            start_line@.len() >= 3,
            views(start_line@) == split_on(header_lines(header@)[0], space()),
            forall|j: int| 0 <= j < i - 1 ==> (#[trigger] split_once(rest[j], field_separator())) is Some,
            pair_views(fields@) == trimmed_pairs(rest.take(i - 1), field_separator()),
        decreases lines@.len() - i,
    {
        assert(rest[i - 1] == lines@[i as int]@);
        match split_once_bytes(lines[i].as_slice(), &sep_bytes) {
            Some((k, v)) => {
                let key = trim_bytes(k.as_slice());
                let value = trim_bytes(v.as_slice());
                let ghost before = fields@;
                fields.push((key, value));
                assert(pair_views(fields@) =~= pair_views(before) + seq![(trim(k@), trim(v@))]);
                assert(trimmed_pairs(rest.take(i as int), field_separator()) =~= trimmed_pairs(
                    rest.take(i - 1),
                    field_separator(),
                ) + seq![(trim(k@), trim(v@))]);
            },
            None => {
                assert(!all_split(rest, field_separator()));
                return Err(Error::MalformedField);
            },
        }
        i = i + 1;
    }
    assert(rest.take(i - 1) =~= rest);
    Ok(HttpHeader { start_line, fields })
}

/// Splits a received frame at its first delimiter and parses the header;
/// also returns the bytes after the delimiter.
pub fn split_header_from(msg: Vec<u8>) -> (r: Result<(HttpHeader, Vec<u8>), Error>)
    ensures
        match crate::bytes::find_first(msg@, delimiter()) {
            None => r == Err::<(HttpHeader, Vec<u8>), Error>(Error::TruncatedRequest),
            Some(p) => match r {
                Ok((h, trailing)) => {
                    &&& parse_header(msg@.take(p)) == Ok::<_, Error>((h.tokens(), h.field_seq()))
                    &&& trailing@ == msg@.skip(p + 4)
                },
                Err(e) => parse_header(msg@.take(p)) == Err::<(Seq<Seq<u8>>, Seq<(Seq<u8>, Seq<u8>)>), Error>(e),
            },
        },
{
    match check_http_header(msg.as_slice()) {
        Some(p) => {
            proof {
                crate::bytes::lemma_find_from(msg@, delimiter(), 0);
            }
            assert(crate::bytes::matches_at(msg@, delimiter(), p as int));
            let n = msg.len();
            let header = slice_to_vec(&msg.as_slice()[0..p]);
            let trailing = slice_to_vec(&msg.as_slice()[p + 4..n]);
            assert(header@ =~= msg@.take(p as int));
            assert(trailing@ =~= msg@.skip(p + 4));
            match split_header(header) {
                Ok(h) => Ok((h, trailing)),
                Err(e) => Err(e),
            }
        },
        None => Err(Error::TruncatedRequest),
    }
}

} // verus!
