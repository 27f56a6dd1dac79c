//! Properties that relate the decoder, encoder, dispatcher and store.
use vstd::prelude::*;
use crate::command::{
    ascii_upper, command_reply, echo_arity, echo_verb, get_verb, ok_text, ping_verb, set_verb,
};
use crate::decode::{bulk_at, decode, elements_at, starts_with};
use crate::encode::{bulk_bytes, bulks_bytes, encoding, null_bytes};
use crate::lines::{crlf_at, crlf_from, crlf_bytes, lines, lemma_lines_first, no_crlf};
use crate::number::{decimal, lemma_decimal_digits, lemma_length_of_decimal, MAX_LENGTH};
use crate::value::RespModel;

verus! {

/// A marker byte followed by a decimal number holds no line terminator.
proof fn lemma_header_line(marker: u8, n: nat)
    requires
        marker != 13u8,
    ensures
        no_crlf(seq![marker] + decimal(n)),
{
    lemma_decimal_digits(n);
    let a = seq![marker] + decimal(n);
    assert forall|i: int| !crlf_at(a, i) by {
        if 0 < i < a.len() {
            assert(a[i] == decimal(n)[i - 1]);
        }
    }
}

/// The segments that the wire forms of bulk strings split into.
pub open spec fn bulk_lines(items: Seq<Seq<u8>>) -> Seq<Seq<u8>>
    decreases items.len(),
{
    if items.len() == 0 {
        seq![Seq::empty()]
    } else {
        seq![seq![36u8] + decimal(items[0].len()), items[0]] + bulk_lines(items.drop_first())
    }
}

proof fn lemma_bulks_lines(items: Seq<Seq<u8>>)
    requires
        forall|i: int| 0 <= i < items.len() ==> no_crlf(#[trigger] items[i]),
    ensures
        lines(bulks_bytes(items)) == bulk_lines(items),
    decreases items.len(),
{
    if items.len() == 0 {
        let e = Seq::<u8>::empty();
        assert(crlf_from(e, 0) == 0);
        assert(e.subrange(0, 0) =~= e);
        assert(lines(e) =~= seq![e]);
    } else {
        let b = items[0];
        let rest = items.drop_first();
        let h = seq![36u8] + decimal(b.len());
        let tail = bulks_bytes(rest);
        lemma_header_line(36u8, b.len());
        lemma_bulks_lines(rest);
        assert(bulks_bytes(items) =~= h + crlf_bytes() + (b + crlf_bytes() + tail));
        lemma_lines_first(h, b + crlf_bytes() + tail);
        lemma_lines_first(b, tail);
        assert(lines(bulks_bytes(items)) =~= bulk_lines(items));
    }
}

proof fn lemma_elements(pre: Seq<Seq<u8>>, items: Seq<Seq<u8>>)
    requires
        forall|i: int| 0 <= i < items.len() ==> (#[trigger] items[i]).len() <= MAX_LENGTH,
    ensures
        elements_at(pre + bulk_lines(items), pre.len() as int, items.len()) == Ok::<
            Seq<Seq<u8>>,
            crate::value::ParseError,
        >(items),
    decreases items.len(),
{
    if items.len() == 0 {
        assert(items =~= Seq::<Seq<u8>>::empty());
    } else {
        let ls = pre + bulk_lines(items);
        let k = pre.len() as int;
        let b = items[0];
        let rest = items.drop_first();
        let h = seq![36u8] + decimal(b.len());
        assert(ls[k] == h);
        assert(ls[k + 1] == b);
        assert(starts_with(ls, k, 36u8));
        assert(h.drop_first() =~= decimal(b.len()));
        lemma_length_of_decimal(b.len());
        assert(bulk_at(ls, k) == Ok::<(Seq<u8>, int), crate::value::ParseError>((b, k + 2)));
        let pre2 = pre + seq![h, b];
        assert(pre2 + bulk_lines(rest) =~= ls);
        assert(forall|i: int| 0 <= i < rest.len() ==> rest[i] == items[i + 1]);
        lemma_elements(pre2, rest);
        assert(seq![b] + rest =~= items);
    }
}

/// Round trip: an array of bulk strings, each shorter than 2^31 bytes and
/// free of `\r\n`, decodes from its wire form to the same strings in order.
pub proof fn lemma_round_trip(items: Seq<Seq<u8>>)
    requires
        items.len() <= MAX_LENGTH,
        forall|i: int|
            0 <= i < items.len() ==> (#[trigger] items[i]).len() <= MAX_LENGTH && no_crlf(
                items[i],
            ),
    ensures
        decode(encoding(RespModel::Array(items))) == Ok::<RespModel, crate::value::ParseError>(
            RespModel::Array(items),
        ),
{
    let a = seq![42u8] + decimal(items.len());
    lemma_header_line(42u8, items.len());
    lemma_bulks_lines(items);
    assert(encoding(RespModel::Array(items)) =~= a + crlf_bytes() + bulks_bytes(items));
    lemma_lines_first(a, bulks_bytes(items));
    let ls = lines(encoding(RespModel::Array(items)));
    assert(ls == seq![a] + bulk_lines(items));
    assert(a.drop_first() =~= decimal(items.len()));
    lemma_length_of_decimal(items.len());
    lemma_elements(seq![a], items);
}

proof fn lemma_verbs_distinct()
    ensures
        ascii_upper(set_verb()) == set_verb(),
        ascii_upper(get_verb()) == get_verb(),
        echo_verb() != ping_verb(),
        set_verb() != ping_verb(),
        set_verb() != echo_verb(),
        get_verb() != ping_verb(),
        get_verb() != echo_verb(),
        get_verb() != set_verb(),
{
    assert(ascii_upper(set_verb()) =~= set_verb());
    assert(ascii_upper(get_verb()) =~= get_verb());
    assert(echo_verb()[0] != ping_verb()[0]);
    assert(set_verb().len() != ping_verb().len());
    assert(set_verb().len() != echo_verb().len());
    assert(get_verb().len() != ping_verb().len());
    assert(get_verb().len() != echo_verb().len());
    assert(get_verb()[0] != set_verb()[0]);
}

/// A `SET` command with the given key and value.
pub open spec fn set_command(k: Seq<u8>, v: Seq<u8>) -> Seq<RespModel> {
    seq![RespModel::Bulk(set_verb()), RespModel::Bulk(k), RespModel::Bulk(v)]
}

/// A `GET` command with the given key.
pub open spec fn get_command(k: Seq<u8>) -> Seq<RespModel> {
    seq![RespModel::Bulk(get_verb()), RespModel::Bulk(k)]
}

/// `ECHO` with any number of elements but two (the verb and one message)
/// replies with its arity error and leaves the store as it was.
pub proof fn lemma_echo_arity(m: Map<Seq<u8>, Seq<u8>>, args: Seq<RespModel>, word: Seq<u8>)
    requires
        args.len() > 0,
        args.len() != 2,
        args[0] == RespModel::Bulk(word),
        ascii_upper(word) == echo_verb(),
    ensures
        command_reply(m, args) == (RespModel::Error(echo_arity()), m),
{
    lemma_verbs_distinct();
}

/// A `GET` after a `SET` of the same key reads the value just written.
pub proof fn lemma_read_own_write(m: Map<Seq<u8>, Seq<u8>>, k: Seq<u8>, v: Seq<u8>)
    ensures
        command_reply(m, set_command(k, v)) == (RespModel::Simple(ok_text()), m.insert(k, v)),
        command_reply(m.insert(k, v), get_command(k)).0 == RespModel::Bulk(v),
{
    lemma_verbs_distinct();
}

/// Of two `SET`s of one key, a later `GET` observes the second value.
pub proof fn lemma_last_write_wins(
    m: Map<Seq<u8>, Seq<u8>>,
    k: Seq<u8>,
    v1: Seq<u8>,
    v2: Seq<u8>,
)
    ensures
        ({
            let m1 = command_reply(m, set_command(k, v1)).1;
            let m2 = command_reply(m1, set_command(k, v2)).1;
            command_reply(m2, get_command(k)).0 == RespModel::Bulk(v2)
        }),
{
    lemma_verbs_distinct();
    lemma_read_own_write(m, k, v1);
    lemma_read_own_write(m.insert(k, v1), k, v2);
}

/// A `GET` of an absent key replies with the null bulk string, `$-1\r\n`;
/// after a `SET` of the empty value it replies with the empty bulk string,
/// `$0\r\n\r\n`.
pub proof fn lemma_absent_vs_empty(m: Map<Seq<u8>, Seq<u8>>, k: Seq<u8>)
    requires
        !m.contains_key(k),
    ensures
        encoding(command_reply(m, get_command(k)).0) == null_bytes(),
        encoding(
            command_reply(command_reply(m, set_command(k, Seq::empty())).1, get_command(k)).0,
        ) == seq![36u8, 48u8, 13u8, 10u8, 13u8, 10u8],
{
    lemma_verbs_distinct();
    lemma_read_own_write(m, k, Seq::empty());
    assert(decimal(0) == seq![48u8]);
    assert(bulk_bytes(Seq::empty()) =~= seq![36u8, 48u8, 13u8, 10u8, 13u8, 10u8]);
}

} // verus!
