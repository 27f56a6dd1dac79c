//! The command model and dispatcher: PING, ECHO, SET and GET.
use vstd::prelude::*;
use vstd::string::StringSliceAdditionalSpecFns;
use crate::lines::copy_range;
use crate::store::Store;
use crate::value::{RespModel, RespValue};

verus! {

/// A byte with ASCII lower-case letters made upper-case.
pub open spec fn upper_byte(c: u8) -> u8 {
    if 97 <= c <= 122 {
        (c - 32) as u8
    } else {
        c
    }
}

/// A byte string with ASCII lower-case letters made upper-case; verbs are
/// compared in this form.
pub open spec fn ascii_upper(s: Seq<u8>) -> Seq<u8> {
    s.map_values(|c: u8| upper_byte(c))
}

pub open spec fn ping_verb() -> Seq<u8> {
    seq![80u8, 73u8, 78u8, 71u8]
}

pub open spec fn echo_verb() -> Seq<u8> {
    seq![69u8, 67u8, 72u8, 79u8]
}

pub open spec fn set_verb() -> Seq<u8> {
    seq![83u8, 69u8, 84u8]
}

pub open spec fn get_verb() -> Seq<u8> {
    seq![71u8, 69u8, 84u8]
}

pub open spec fn pong_text() -> Seq<u8> {
    seq![80u8, 79u8, 78u8, 71u8]
}

pub open spec fn ok_text() -> Seq<u8> {
    seq![79u8, 75u8]
}

pub open spec fn unknown_command() -> Seq<u8> {
    "ERR unknown command".spec_bytes()
}

pub open spec fn invalid_command_format() -> Seq<u8> {
    "ERR invalid command format".spec_bytes()
}

pub open spec fn invalid_argument_type() -> Seq<u8> {
    "ERR invalid argument type".spec_bytes()
}

pub open spec fn echo_arity() -> Seq<u8> {
    "ERR wrong number of arguments for 'echo' command".spec_bytes()
}

pub open spec fn set_arity() -> Seq<u8> {
    "ERR wrong number of arguments for 'set' command".spec_bytes()
}

pub open spec fn get_arity() -> Seq<u8> {
    "ERR wrong number of arguments for 'get' command".spec_bytes()
}

/// The reply to a command (verb first, then its arguments) and the store's
/// contents after it.
pub open spec fn command_reply(m: Map<Seq<u8>, Seq<u8>>, args: Seq<RespModel>) -> (
    RespModel,
    Map<Seq<u8>, Seq<u8>>,
) {
    if args.len() == 0 {
        (RespModel::Error(unknown_command()), m)
    } else {
        match args[0] {
            RespModel::Bulk(word) => {
                let verb = ascii_upper(word);
                if verb == ping_verb() {
                    (RespModel::Simple(pong_text()), m)
                } else if verb == echo_verb() {
                    if args.len() != 2 {
                        (RespModel::Error(echo_arity()), m)
                    } else {
                        match args[1] {
                            RespModel::Bulk(msg) => (RespModel::Bulk(msg), m),
                            _ => (RespModel::Error(invalid_argument_type()), m),
                        }
                    }
                } else if verb == set_verb() {
                    if args.len() != 3 {
                        (RespModel::Error(set_arity()), m)
                    } else {
                        match (args[1], args[2]) {
                            (RespModel::Bulk(k), RespModel::Bulk(v)) => (
                                RespModel::Simple(ok_text()),
                                m.insert(k, v),
                            ),
                            _ => (RespModel::Error(invalid_argument_type()), m),
                        }
                    }
                } else if verb == get_verb() {
                    if args.len() != 2 {
                        (RespModel::Error(get_arity()), m)
                    } else {
                        match args[1] {
                            RespModel::Bulk(k) => if m.contains_key(k) {
                                (RespModel::Bulk(m[k]), m)
                            } else {
                                (RespModel::Null, m)
                            },
                            _ => (RespModel::Error(invalid_argument_type()), m),
                        }
                    }
                } else {
                    (RespModel::Error(unknown_command()), m)
                }
            },
            _ => (RespModel::Error(invalid_command_format()), m),
        }
    }
}

/// The models of a command's elements.
pub open spec fn models(args: Seq<RespValue>) -> Seq<RespModel> {
    args.map_values(|a: RespValue| a@)
}

/// Whether `word`, made upper-case, is `verb`.
fn verb_is(word: &[u8], verb: &[u8]) -> (r: bool)
    ensures
        r == (ascii_upper(word@) == verb@),
{
    if word.len() != verb.len() {
        assert(ascii_upper(word@).len() != verb@.len());
        return false;
    }
    let mut i: usize = 0;
    while i < word.len()
        invariant
            word@.len() == verb@.len(),
            i <= word@.len(),
            forall|j: int| 0 <= j < i ==> upper_byte(#[trigger] word@[j]) == verb@[j],
        decreases word@.len() - i,
    {
        let c = word[i];
        let u = if 97u8 <= c && c <= 122u8 {
            c - 32u8
        } else {
            c
        };
        if u != verb[i] {
            assert(ascii_upper(word@)[i as int] != verb@[i as int]);
            return false;
        }
        i = i + 1;
    }
    assert(ascii_upper(word@) =~= verb@);
    true
}

/// The bytes of a text.
pub(crate) fn text(s: &str) -> (r: Vec<u8>)
    ensures
        r@ == s.spec_bytes(),
{
    let b = s.as_bytes();
    let r = copy_range(b, 0, b.len());
    assert(b@.subrange(0, b@.len() as int) =~= b@);
    r
}

fn error_reply(s: &str) -> (r: RespValue)
    ensures
        r@ == RespModel::Error(s.spec_bytes()),
{
    RespValue::Error(text(s))
}

/// A copy of a byte string.
fn dup(b: &Vec<u8>) -> (r: Vec<u8>)
    ensures
        r@ == b@,
{
    let r = copy_range(b.as_slice(), 0, b.len());
    assert(b@.subrange(0, b@.len() as int) =~= b@);
    r
}

/// Runs one command against the store and returns its reply.
pub fn handle_redis_command(store: &mut Store, args: &[RespValue]) -> (r: RespValue)
    requires
        old(store).wf(),
    ensures
        final(store).wf(),
        (r@, final(store)@) == command_reply(old(store)@, models(args@)),
        r !is Array,
{
    let ghost ms = models(args@);
    assert(ms.len() == args@.len());
    assert(forall|i: int| 0 <= i < args@.len() ==> #[trigger] ms[i] == args@[i]@);
    if args.len() == 0 {
        return error_reply("ERR unknown command");
    }
    let word = match &args[0] {
        RespValue::BulkString(w) => w,
        _ => {
            return error_reply("ERR invalid command format");
        },
    };
    assert(ms[0] == RespModel::Bulk(word@));
    let ping: [u8; 4] = [80u8, 73u8, 78u8, 71u8];
    let echo: [u8; 4] = [69u8, 67u8, 72u8, 79u8];
    let set: [u8; 3] = [83u8, 69u8, 84u8];
    let get: [u8; 3] = [71u8, 69u8, 84u8];
    assert(ping@ =~= ping_verb());
    assert(echo@ =~= echo_verb());
    assert(set@ =~= set_verb());
    assert(get@ =~= get_verb());
    if verb_is(word.as_slice(), ping.as_slice()) {
        let pong: [u8; 4] = [80u8, 79u8, 78u8, 71u8];
        assert(pong@.subrange(0, 4) =~= pong_text());
        RespValue::SimpleString(copy_range(pong.as_slice(), 0, 4))
    } else if verb_is(word.as_slice(), echo.as_slice()) {
        if args.len() != 2 {
            return error_reply("ERR wrong number of arguments for 'echo' command");
        }
        match &args[1] {
            RespValue::BulkString(msg) => RespValue::BulkString(dup(msg)),
            _ => error_reply("ERR invalid argument type"),
        }
    } else if verb_is(word.as_slice(), set.as_slice()) {
        if args.len() != 3 {
            return error_reply("ERR wrong number of arguments for 'set' command");
        }
        match (&args[1], &args[2]) {
            (RespValue::BulkString(key), RespValue::BulkString(value)) => {
                store.set(dup(key), dup(value));
                let ok: [u8; 2] = [79u8, 75u8];
                assert(ok@.subrange(0, 2) =~= ok_text());
                RespValue::SimpleString(copy_range(ok.as_slice(), 0, 2))
            },
            _ => error_reply("ERR invalid argument type"),
        }
    } else if verb_is(word.as_slice(), get.as_slice()) {
        if args.len() != 2 {
            return error_reply("ERR wrong number of arguments for 'get' command");
        }
        match &args[1] {
            RespValue::BulkString(key) => match store.get(key.as_slice()) {
                Some(value) => RespValue::BulkString(value),
                None => RespValue::NullBulkString,
            },
            _ => error_reply("ERR invalid argument type"),
        }
    } else {
        error_reply("ERR unknown command")
    }
}

} // verus!
