//! The frame decoder: one RESP value from the start of a buffer.
use vstd::prelude::*;
use crate::lines::{copy_range, lines, split_lines};
use crate::number::{length_of, parse_length};
use crate::value::{ParseError, RespModel, RespValue};

verus! {

/// The header line at `k` starts with `marker`.
pub open spec fn starts_with(ls: Seq<Seq<u8>>, k: int, marker: u8) -> bool {
    0 <= k < ls.len() && ls[k].len() > 0 && ls[k][0] == marker
}

/// A bulk string whose header is the line at `k`: its payload and the line
/// after it.
pub open spec fn bulk_at(ls: Seq<Seq<u8>>, k: int) -> Result<(Seq<u8>, int), ParseError> {
    if k < 0 || k >= ls.len() {
        Err(ParseError::UnexpectedEnd)
    } else if !starts_with(ls, k, 36u8) {
        Err(ParseError::InvalidFormat)
    } else {
        match length_of(ls[k].drop_first()) {
            None => Err(ParseError::InvalidLength),
            Some(n) => if k + 1 >= ls.len() {
                Err(ParseError::UnexpectedEnd)
            } else if ls[k + 1].len() != n {
                Err(ParseError::MalformedInput)
            } else {
                Ok((ls[k + 1], k + 2))
            },
        }
    }
}

/// `n` bulk strings, one after another, from the line at `k` on.
pub open spec fn elements_at(ls: Seq<Seq<u8>>, k: int, n: nat) -> Result<Seq<Seq<u8>>, ParseError>
    decreases n,
{
    if n == 0 {
        Ok(Seq::empty())
    } else {
        match bulk_at(ls, k) {
            Err(e) => Err(e),
            Ok((b, next)) => match elements_at(ls, next, (n - 1) as nat) {
                Err(e) => Err(e),
                Ok(rest) => Ok(seq![b] + rest),
            },
        }
    }
}

/// An array whose header is the line at `k`.
pub open spec fn array_at(ls: Seq<Seq<u8>>, k: int) -> Result<Seq<Seq<u8>>, ParseError> {
    if k < 0 || k >= ls.len() {
        Err(ParseError::UnexpectedEnd)
    } else if !starts_with(ls, k, 42u8) {
        Err(ParseError::InvalidFormat)
    } else {
        match length_of(ls[k].drop_first()) {
            None => Err(ParseError::InvalidLength),
            Some(n) => elements_at(ls, k + 1, n),
        }
    }
}

/// A line whose first byte is `marker`, without that byte.
pub open spec fn text_at(ls: Seq<Seq<u8>>, k: int, marker: u8) -> Result<Seq<u8>, ParseError> {
    if k < 0 || k >= ls.len() {
        Err(ParseError::UnexpectedEnd)
    } else if !starts_with(ls, k, marker) {
        Err(ParseError::InvalidFormat)
    } else {
        Ok(ls[k].drop_first())
    }
}

/// The one value at the start of a buffer's lines, chosen by the first byte
/// of the first line.
pub open spec fn decode_lines(ls: Seq<Seq<u8>>) -> Result<RespModel, ParseError> {
    if starts_with(ls, 0, 42u8) {
        match array_at(ls, 0) {
            Ok(items) => Ok(RespModel::Array(items)),
            Err(e) => Err(e),
        }
    } else if starts_with(ls, 0, 36u8) {
        match bulk_at(ls, 0) {
            Ok((b, _)) => Ok(RespModel::Bulk(b)),
            Err(e) => Err(e),
        }
    } else if starts_with(ls, 0, 43u8) {
        match text_at(ls, 0, 43u8) {
            Ok(t) => Ok(RespModel::Simple(t)),
            Err(e) => Err(e),
        }
    } else if starts_with(ls, 0, 45u8) {
        match text_at(ls, 0, 45u8) {
            Ok(t) => Ok(RespModel::Error(t)),
            Err(e) => Err(e),
        }
    } else {
        Err(ParseError::InvalidFormat)
    }
}

/// The value that a buffer decodes to. Lines are split on `\r\n` before
/// anything else, so a payload that holds `\r\n` does not decode as itself;
/// bytes after the first value are ignored.
pub open spec fn decode(s: Seq<u8>) -> Result<RespModel, ParseError> {
    decode_lines(lines(s))
}

/// A buffer's lines and the position of the next one to read.
pub struct LineCursor {
    pub lines: Vec<Vec<u8>>,
    pub pos: usize,
}

impl LineCursor {
    pub open spec fn segments(&self) -> Seq<Seq<u8>> {
        self.lines@.map_values(|l: Vec<u8>| l@)
    }

    /// A cursor at the first line of `input`.
    pub fn new(input: &[u8]) -> (r: LineCursor)
        ensures
            r.segments() == lines(input@),
            r.pos == 0,
    {
        LineCursor { lines: split_lines(input), pos: 0 }
    }
}

/// Reads the line under the cursor as a header with `marker` and returns the
/// length it declares.
fn read_header(lines: &mut LineCursor, marker: u8) -> (r: Result<u32, ParseError>)
    ensures
        final(lines).segments() == old(lines).segments(),
        ({
            let ls = old(lines).segments();
            let k = old(lines).pos as int;
            if k >= ls.len() {
                r == Err::<u32, ParseError>(ParseError::UnexpectedEnd)
            } else if !starts_with(ls, k, marker) {
                r == Err::<u32, ParseError>(ParseError::InvalidFormat)
            } else {
                match length_of(ls[k].drop_first()) {
                    None => r == Err::<u32, ParseError>(ParseError::InvalidLength),
                    Some(n) => r == Ok::<u32, ParseError>(n as u32) && final(lines).pos == k + 1,
                }
            }
        }),
{
    let ghost ls = lines.segments();
    let k = lines.pos;
    if k >= lines.lines.len() {
        return Err(ParseError::UnexpectedEnd);
    }
    let line = &lines.lines[k];
    assert(line@ == ls[k as int]);
    if line.len() == 0 || line[0] != marker {
        return Err(ParseError::InvalidFormat);
    }
    let n = parse_length(line.as_slice(), 1);
    assert(line@.skip(1) =~= line@.drop_first());
    match n {
        None => Err(ParseError::InvalidLength),
        Some(n) => {
            lines.pos = k + 1;
            Ok(n)
        },
    }
}

/// Decodes a bulk string whose header is the line under the cursor, and
/// moves the cursor past its payload.
pub fn parse_bulk_string(lines: &mut LineCursor) -> (r: Result<RespValue, ParseError>)
    ensures
        final(lines).segments() == old(lines).segments(),
        match bulk_at(old(lines).segments(), old(lines).pos as int) {
            Ok((b, next)) => r matches Ok(v) && v is BulkString && v@ == RespModel::Bulk(b)
                && final(lines).pos == next,
            Err(e) => r matches Err(f) && f == e,
        },
{
    let n = read_header(lines, 36u8)?;
    let k = lines.pos;
    if k >= lines.lines.len() {
        return Err(ParseError::UnexpectedEnd);
    }
    let content = &lines.lines[k];
    if content.len() != n as usize {
        return Err(ParseError::MalformedInput);
    }
    let payload = copy_range(content.as_slice(), 0, content.len());
    assert(content@.subrange(0, content@.len() as int) =~= content@);
    lines.pos = k + 1;
    Ok(RespValue::BulkString(payload))
}

/// Reads the line under the cursor, which must start with `marker`, and
/// returns the rest of it.
fn read_text(lines: &mut LineCursor, marker: u8) -> (r: Result<Vec<u8>, ParseError>)
    ensures
        final(lines).segments() == old(lines).segments(),
        match text_at(old(lines).segments(), old(lines).pos as int, marker) {
            Ok(t) => r matches Ok(v) && v@ == t && final(lines).pos == old(lines).pos + 1,
            Err(e) => r matches Err(f) && f == e,
        },
{
    let ghost ls = lines.segments();
    let k = lines.pos;
    if k >= lines.lines.len() {
        return Err(ParseError::UnexpectedEnd);
    }
    let line = &lines.lines[k];
    assert(line@ == ls[k as int]);
    if line.len() == 0 || line[0] != marker {
        return Err(ParseError::InvalidFormat);
    }
    let text = copy_range(line.as_slice(), 1, line.len());
    assert(line@.subrange(1, line@.len() as int) =~= line@.drop_first());
    lines.pos = k + 1;
    Ok(text)
}

/// Decodes a simple string from the line under the cursor.
pub fn parse_simple_string(lines: &mut LineCursor) -> (r: Result<RespValue, ParseError>)
    ensures
        final(lines).segments() == old(lines).segments(),
        match text_at(old(lines).segments(), old(lines).pos as int, 43u8) {
            Ok(t) => r matches Ok(v) && v@ == RespModel::Simple(t) && final(lines).pos == old(
                lines,
            ).pos + 1,
            Err(e) => r matches Err(f) && f == e,
        },
{
    let text = read_text(lines, 43u8)?;
    Ok(RespValue::SimpleString(text))
}

/// Decodes an error string from the line under the cursor.
pub fn parse_error_string(lines: &mut LineCursor) -> (r: Result<RespValue, ParseError>)
    ensures
        final(lines).segments() == old(lines).segments(),
        match text_at(old(lines).segments(), old(lines).pos as int, 45u8) {
            Ok(t) => r matches Ok(v) && v@ == RespModel::Error(t) && final(lines).pos == old(
                lines,
            ).pos + 1,
            Err(e) => r matches Err(f) && f == e,
        },
{
    let text = read_text(lines, 45u8)?;
    Ok(RespValue::Error(text))
}

/// How a run of elements continues a prefix already read.
pub open spec fn extend(acc: Seq<Seq<u8>>, rest: Result<Seq<Seq<u8>>, ParseError>) -> Result<
    Seq<Seq<u8>>,
    ParseError,
> {
    match rest {
        Ok(r) => Ok(acc + r),
        Err(e) => Err(e),
    }
}

/// Decodes an array of bulk strings whose header is the line under the
/// cursor.
pub fn parse_array(lines: &mut LineCursor) -> (r: Result<RespValue, ParseError>)
    ensures
        final(lines).segments() == old(lines).segments(),
        match array_at(old(lines).segments(), old(lines).pos as int) {
            Ok(items) => r matches Ok(v) && v.is_flat() && v@ == RespModel::Array(items),
            Err(e) => r matches Err(f) && f == e,
        },
{
    let ghost ls = lines.segments();
    let ghost k0 = lines.pos as int;
    let count = read_header(lines, 42u8)?;
    let ghost n = count as nat;
    let mut elements: Vec<RespValue> = Vec::new();
    let ghost mut acc: Seq<Seq<u8>> = Seq::empty();
    let mut i: u32 = 0;
    while i < count
        invariant
            lines.segments() == ls,
            ls == old(lines).segments(),
            k0 == old(lines).pos as int,
            0 <= i <= count,
            n == count as nat,
            array_at(ls, k0) == extend(acc, elements_at(ls, lines.pos as int, (n - i) as nat)),
            elements@.len() == acc.len(),
            forall|j: int|
                0 <= j < acc.len() ==> #[trigger] elements@[j] is BulkString
                    && elements@[j].payload() == acc[j],
        decreases count - i,
    {
        let ghost k = lines.pos as int;
        let item = parse_bulk_string(lines);
        match item {
            Ok(v) => {
                proof {
                    let (b, next) = bulk_at(ls, k).unwrap();
                    let rest = elements_at(ls, next, (n - i - 1) as nat);
                    assert(elements_at(ls, k, (n - i) as nat) == match rest {
                        Err(e) => Err(e),
                        Ok(r) => Ok(seq![b] + r),
                    });
                    match rest {
                        Ok(r) => {
                            assert(acc + (seq![b] + r) =~= acc.push(b) + r);
                        },
                        Err(e) => {},
                    }
                    acc = acc.push(b);
                }
                elements.push(v);
            },
            Err(e) => {
                assert(elements_at(ls, k, (n - i) as nat) == Err::<Seq<Seq<u8>>, ParseError>(e));
                return Err(e);
            },
        }
        i = i + 1;
    }
    proof {
        assert(acc + Seq::<Seq<u8>>::empty() =~= acc);
        assert(elements@.map_values(|e: RespValue| e.payload()) =~= acc);
    }
    Ok(RespValue::Array(elements))
}

/// Decodes the one value at the start of `input`.
pub fn parse_redis_protocol(input: &[u8]) -> (r: Result<RespValue, ParseError>)
    ensures
        match decode(input@) {
            Ok(m) => r matches Ok(v) && v.is_flat() && v@ == m,
            Err(e) => r matches Err(f) && f == e,
        },
{
    let mut lines = LineCursor::new(input);
    let ghost ls = lines.segments();
    let first: u8 = if lines.lines.len() > 0 && lines.lines[0].len() > 0 {
        lines.lines[0][0]
    } else {
        0u8
    };
    assert(lines.lines@.len() > 0 && lines.lines@[0]@.len() > 0 ==> first == ls[0][0]);
    if first == 42u8 {
        parse_array(&mut lines)
    } else if first == 36u8 {
        parse_bulk_string(&mut lines)
    } else if first == 43u8 {
        parse_simple_string(&mut lines)
    } else if first == 45u8 {
        parse_error_string(&mut lines)
    } else {
        Err(ParseError::InvalidFormat)
    }
}

} // verus!
