//! One request from received bytes to reply bytes, and the connection step.
use vstd::prelude::*;
use vstd::string::StringSliceAdditionalSpecFns;
use crate::command::{command_reply, handle_redis_command, models, text};
use crate::decode::{decode, parse_redis_protocol};
use crate::encode::{encode, encoding};
use crate::store::Store;
use crate::value::{RespModel, RespValue};

verus! {

pub open spec fn protocol_error() -> Seq<u8> {
    "ERR protocol error".spec_bytes()
}

pub open spec fn unexpected_format() -> Seq<u8> {
    "ERR unexpected command format".spec_bytes()
}

/// The bulk strings of a request array, as command elements.
pub open spec fn as_bulks(items: Seq<Seq<u8>>) -> Seq<RespModel> {
    items.map_values(|b: Seq<u8>| RespModel::Bulk(b))
}

/// The reply to a decoded request and the store's contents after it. Only
/// an array is a command.
pub open spec fn request_reply(m: Map<Seq<u8>, Seq<u8>>, req: RespModel) -> (
    RespModel,
    Map<Seq<u8>, Seq<u8>>,
) {
    match req {
        RespModel::Array(items) => command_reply(m, as_bulks(items)),
        _ => (RespModel::Error(unexpected_format()), m),
    }
}

/// The bytes sent back for one received buffer, and the store's contents
/// after it. A buffer that does not decode gets the protocol error.
pub open spec fn response(m: Map<Seq<u8>, Seq<u8>>, input: Seq<u8>) -> (
    Seq<u8>,
    Map<Seq<u8>, Seq<u8>>,
) {
    match decode(input) {
        Err(_) => (encoding(RespModel::Error(protocol_error())), m),
        Ok(req) => {
            let (r, m2) = request_reply(m, req);
            (encoding(r), m2)
        },
    }
}

/// Runs a decoded request against the store and returns its reply.
pub fn dispatch(store: &mut Store, req: &RespValue) -> (r: RespValue)
    requires
        old(store).wf(),
        req.is_flat(),
    ensures
        final(store).wf(),
        (r@, final(store)@) == request_reply(old(store)@, req@),
        r !is Array,
{
    match req {
        RespValue::Array(items) => {
            proof {
                assert(models(items@) =~= as_bulks(items@.map_values(|e: RespValue| e.payload())));
            }
            handle_redis_command(store, items.as_slice())
        },
        _ => {
            RespValue::Error(text("ERR unexpected command format"))
        },
    }
}

/// Handles one received buffer: decodes the request, runs it, and returns
/// the encoded reply.
pub fn respond(store: &mut Store, input: &[u8]) -> (r: Vec<u8>)
    requires
        old(store).wf(),
    ensures
        final(store).wf(),
        (r@, final(store)@) == response(old(store)@, input@),
{
    match parse_redis_protocol(input) {
        Ok(req) => {
            let reply = dispatch(store, &req);
            encode(&reply)
        },
        Err(_) => {
            encode(&RespValue::Error(text("ERR protocol error")))
        },
    }
}

/// What a connection does with the chunk that a read returned: an empty
/// chunk means the peer closed the connection (`None`); any other chunk is a
/// request, answered with the bytes to write.
pub fn on_read(store: &mut Store, chunk: &[u8]) -> (r: Option<Vec<u8>>)
    requires
        old(store).wf(),
    ensures
        final(store).wf(),
        chunk@.len() == 0 ==> r is None && final(store)@ == old(store)@,
        chunk@.len() > 0 ==> (r matches Some(out) && (out@, final(store)@) == response(
            old(store)@,
            chunk@,
        )),
{
    if chunk.len() == 0 {
        None
    } else {
        Some(respond(store, chunk))
    }
}

} // verus!
