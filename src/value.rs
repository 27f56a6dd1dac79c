//! RESP values, their mathematical model, and decode errors.
use vstd::prelude::*;

verus! {

/// Why a buffer could not be decoded as one RESP value.
#[derive(Debug, Clone, Copy, PartialEq, Eq, Structural)]
pub enum ParseError {
    InvalidFormat,
    InvalidLength,
    MalformedInput,
    UnexpectedEnd,
}

/// A RESP value, as decoded from a request or produced as a reply.
#[derive(Debug)]
pub enum RespValue {
    Array(Vec<RespValue>),
    BulkString(Vec<u8>),
    /// The null bulk string, which stands for an absent value.
    NullBulkString,
    SimpleString(Vec<u8>),
    Error(Vec<u8>),
}

/// The mathematical model of a RESP value. Arrays are arrays of bulk strings,
/// the only array shape that this protocol subset carries.
pub enum RespModel {
    Array(Seq<Seq<u8>>),
    Bulk(Seq<u8>),
    Null,
    Simple(Seq<u8>),
    Error(Seq<u8>),
}

impl RespValue {
    /// The payload of a bulk string; empty for any other value.
    pub open spec fn payload(&self) -> Seq<u8> {
        match self {
            RespValue::BulkString(b) => b@,
            _ => Seq::empty(),
        }
    }

    /// An array holds bulk strings only; every other value qualifies.
    pub open spec fn is_flat(&self) -> bool {
        match self {
            RespValue::Array(items) => forall|i: int|
                0 <= i < items@.len() ==> #[trigger] items@[i] is BulkString,
            _ => true,
        }
    }
}

impl View for RespValue {
    type V = RespModel;

    open spec fn view(&self) -> RespModel {
        match self {
            RespValue::Array(items) => RespModel::Array(
                items@.map_values(|e: RespValue| e.payload()),
            ),
            RespValue::BulkString(b) => RespModel::Bulk(b@),
            RespValue::NullBulkString => RespModel::Null,
            RespValue::SimpleString(s) => RespModel::Simple(s@),
            RespValue::Error(s) => RespModel::Error(s@),
        }
    }
}

} // verus!
