//! The frame encoder: the wire form of replies and of requests.
use vstd::prelude::*;
use crate::lines::crlf_bytes;
use crate::number::{decimal, push_decimal};
use crate::value::{RespModel, RespValue};

verus! {

/// A header line: a marker byte, a decimal count and the terminator.
pub open spec fn header(marker: u8, n: nat) -> Seq<u8> {
    seq![marker] + decimal(n) + crlf_bytes()
}

/// The wire form of one bulk string.
pub open spec fn bulk_bytes(b: Seq<u8>) -> Seq<u8> {
    header(36u8, b.len()) + b + crlf_bytes()
}

/// The wire forms of bulk strings, one after another.
pub open spec fn bulks_bytes(items: Seq<Seq<u8>>) -> Seq<u8>
    decreases items.len(),
{
    if items.len() == 0 {
        Seq::empty()
    } else {
        bulk_bytes(items[0]) + bulks_bytes(items.drop_first())
    }
}

/// The wire form of the null bulk string, `$-1\r\n`.
pub open spec fn null_bytes() -> Seq<u8> {
    seq![36u8, 45u8, 49u8, 13u8, 10u8]
}

/// The wire form of a value.
pub open spec fn encoding(m: RespModel) -> Seq<u8> {
    match m {
        RespModel::Array(items) => header(42u8, items.len()) + bulks_bytes(items),
        RespModel::Bulk(b) => bulk_bytes(b),
        RespModel::Null => null_bytes(),
        RespModel::Simple(t) => seq![43u8] + t + crlf_bytes(),
        RespModel::Error(t) => seq![45u8] + t + crlf_bytes(),
    }
}

proof fn lemma_bulks_push(items: Seq<Seq<u8>>, b: Seq<u8>)
    ensures
        bulks_bytes(items.push(b)) == bulks_bytes(items) + bulk_bytes(b),
    decreases items.len(),
{
    if items.len() == 0 {
        let s = items.push(b);
        assert(s.drop_first() =~= Seq::<Seq<u8>>::empty());
        assert(s[0] == b);
        assert(bulks_bytes(s.drop_first()) == Seq::<u8>::empty());
        assert(bulks_bytes(s) =~= bulks_bytes(items) + bulk_bytes(b));
    } else {
        lemma_bulks_push(items.drop_first(), b);
        assert(items.push(b).drop_first() =~= items.drop_first().push(b));
        assert(bulks_bytes(items.push(b)) =~= bulks_bytes(items) + bulk_bytes(b));
    }
}

/// Appends `b` to `out`.
fn push_all(out: &mut Vec<u8>, b: &[u8])
    ensures
        final(out)@ == old(out)@ + b@,
{
    let mut i: usize = 0;
    while i < b.len()
        invariant
            i <= b@.len(),
            out@ == old(out)@ + b@.take(i as int),
        decreases b@.len() - i,
    {
        out.push(b[i]);
        assert(out@ =~= old(out)@ + b@.take(i + 1));
        i = i + 1;
    }
    assert(b@.take(b@.len() as int) =~= b@);
}

/// Appends a header line.
fn push_header(out: &mut Vec<u8>, marker: u8, n: usize)
    ensures
        final(out)@ == old(out)@ + header(marker, n as nat),
{
    out.push(marker);
    push_decimal(out, n);
    out.push(13u8);
    out.push(10u8);
    assert(final(out)@ =~= old(out)@ + header(marker, n as nat));
}

/// Appends the wire form of one bulk string.
fn push_bulk(out: &mut Vec<u8>, b: &[u8])
    ensures
        final(out)@ == old(out)@ + bulk_bytes(b@),
{
    push_header(out, 36u8, b.len());
    push_all(out, b);
    out.push(13u8);
    out.push(10u8);
    assert(final(out)@ =~= old(out)@ + bulk_bytes(b@));
}

/// Appends a marker, a line of text and the terminator.
fn push_line(out: &mut Vec<u8>, marker: u8, t: &[u8])
    ensures
        final(out)@ == old(out)@ + (seq![marker] + t@ + crlf_bytes()),
{
    out.push(marker);
    push_all(out, t);
    out.push(13u8);
    out.push(10u8);
    assert(final(out)@ =~= old(out)@ + (seq![marker] + t@ + crlf_bytes()));
}

/// The wire form of a value. Arrays are written as arrays of bulk strings,
/// the request shape; replies are never arrays.
pub fn encode(v: &RespValue) -> (r: Vec<u8>)
    requires
        v.is_flat(),
    ensures
        r@ == encoding(v@),
{
    let mut out: Vec<u8> = Vec::new();
    match v {
        RespValue::Array(items) => {
            push_header(&mut out, 42u8, items.len());
            let ghost start = out@;
            let mut i: usize = 0;
            while i < items.len()
                invariant
                    v.is_flat(),
                    *v == RespValue::Array(*items),
                    i <= items@.len(),
                    out@ == start + bulks_bytes(
                        items@.map_values(|e: RespValue| e.payload()).take(i as int),
                    ),
                decreases items@.len() - i,
            {
                let ghost ps = items@.map_values(|e: RespValue| e.payload());
                assert(items@[i as int] is BulkString);
                if let RespValue::BulkString(b) = &items[i] {
                    push_bulk(&mut out, b.as_slice());
                }
                proof {
                    lemma_bulks_push(ps.take(i as int), ps[i as int]);
                    assert(ps.take(i as int).push(ps[i as int]) =~= ps.take(i + 1));
                }
                i = i + 1;
            }
            proof {
                let ps = items@.map_values(|e: RespValue| e.payload());
                assert(ps.take(items@.len() as int) =~= ps);
            }
        },
        RespValue::BulkString(b) => push_bulk(&mut out, b.as_slice()),
        RespValue::NullBulkString => {
            out.push(36u8);
            out.push(45u8);
            out.push(49u8);
            out.push(13u8);
            out.push(10u8);
            assert(out@ =~= null_bytes());
        },
        RespValue::SimpleString(t) => push_line(&mut out, 43u8, t.as_slice()),
        RespValue::Error(t) => push_line(&mut out, 45u8, t.as_slice()),
    }
    out
}

/// The wire form of a request: an array of the given bulk strings.
pub fn encode_command(args: &Vec<Vec<u8>>) -> (r: Vec<u8>)
    ensures
        r@ == encoding(RespModel::Array(args@.map_values(|a: Vec<u8>| a@))),
{
    let mut out: Vec<u8> = Vec::new();
    push_header(&mut out, 42u8, args.len());
    let ghost start = out@;
    let ghost ps = args@.map_values(|a: Vec<u8>| a@);
    let mut i: usize = 0;
    while i < args.len()
        invariant
            i <= args@.len(),
            ps == args@.map_values(|a: Vec<u8>| a@),
            out@ == start + bulks_bytes(ps.take(i as int)),
        decreases args@.len() - i,
    {
        push_bulk(&mut out, args[i].as_slice());
        proof {
            lemma_bulks_push(ps.take(i as int), ps[i as int]);
            assert(ps.take(i as int).push(ps[i as int]) =~= ps.take(i + 1));
        }
        i = i + 1;
    }
    assert(ps.take(args@.len() as int) =~= ps);
    out
}

} // verus!
