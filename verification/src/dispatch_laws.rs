//! What the arguments of the methods are, said of the parameters themselves.

use crate::codec::{hex_bytes, hex_digit, hex_text, hex_value};
use crate::dispatch::{args_for, bytes_in, ArgsView, Method};
use crate::error::ErrorView;
use crate::json::{JsonView, Number};
use crate::json_laws::{
    a_field_is_the_first_of_its_name, a_missing_field_is_none, first_of_its_name, gives, nowhere,
    what_stands_under_a_name_is_read,
};
use vstd::prelude::*;

verus! {

// ---------------------------------------------------------------------------
// Bytes
// ---------------------------------------------------------------------------

/// Whether a value is an integer that is not negative.
pub open spec fn is_unsigned(v: JsonView) -> bool {
    v matches JsonView::Number(Number::PosInt(_))
}

/// The low eight bits of such an integer.
pub open spec fn low_byte(v: JsonView) -> u8 {
    match v {
        JsonView::Number(Number::PosInt(n)) => (n % 256) as u8,
        _ => 0,
    }
}

/// Bytes written as numbers.
pub open spec fn numbers(bytes: Seq<u8>) -> Seq<JsonView> {
    bytes.map_values(|b: u8| JsonView::Number(Number::PosInt(b as u64)))
}

/// The k-th integer that is not negative gives the k-th byte, and there are as many bytes as
/// such integers.
pub proof fn each_integer_gives_its_byte(list: Seq<JsonView>)
    ensures
        bytes_in(list) == list.filter(|v: JsonView| is_unsigned(v)).map_values(
            |v: JsonView| low_byte(v),
        ),
    decreases list.len(),
{
    reveal(Seq::filter);
    let keep = |v: JsonView| is_unsigned(v);
    let low = |v: JsonView| low_byte(v);
    if list.len() > 0 {
        each_integer_gives_its_byte(list.drop_last());
        let kept = list.drop_last().filter(keep);
        if is_unsigned(list.last()) {
            assert(list.filter(keep) == kept.push(list.last()));
            assert(kept.push(list.last()).map_values(low) =~= kept.map_values(low).push(
                low_byte(list.last()),
            ));
        } else {
            assert(list.filter(keep) == kept);
        }
        assert(bytes_in(list) =~= list.filter(keep).map_values(low));
    } else {
        assert(bytes_in(list) =~= list.filter(keep).map_values(low));
    }
}

/// Bytes that are written as numbers are read as they were.
pub proof fn numbers_give_back_their_bytes(bytes: Seq<u8>)
    ensures
        bytes_in(numbers(bytes)) == bytes,
    decreases bytes.len(),
{
    let list = numbers(bytes);
    if bytes.len() > 0 {
        numbers_give_back_their_bytes(bytes.drop_last());
        assert(list.drop_last() =~= numbers(bytes.drop_last()));
        let b = bytes.last();
        assert(list.last() == JsonView::Number(Number::PosInt(b as u64)));
        assert((b as u64) % 256 == b as u64);
        assert(bytes_in(list) =~= bytes.drop_last().push(b));
        assert(bytes.drop_last().push(b) =~= bytes);
    } else {
        assert(bytes_in(list) =~= bytes);
    }
}

/// A digit, or a letter up to `f` in lower case.
pub open spec fn is_lower_digit(c: char) -> bool {
    '0' <= c <= '9' || 'a' <= c <= 'f'
}

proof fn digit_has_its_value(d: int)
    requires
        0 <= d < 16,
    ensures
        hex_digit(d).len() == 1,
        hex_value(hex_digit(d)[0]) == Some(d),
        is_lower_digit(hex_digit(d)[0]),
{
    reveal_strlit("0");
    reveal_strlit("1");
    reveal_strlit("2");
    reveal_strlit("3");
    reveal_strlit("4");
    reveal_strlit("5");
    reveal_strlit("6");
    reveal_strlit("7");
    reveal_strlit("8");
    reveal_strlit("9");
    reveal_strlit("a");
    reveal_strlit("b");
    reveal_strlit("c");
    reveal_strlit("d");
    reveal_strlit("e");
    reveal_strlit("f");
}

proof fn digits_at(bytes: Seq<u8>, i: int)
    requires
        0 <= i < bytes.len(),
    ensures
        hex_text(bytes).len() == 2 * bytes.len(),
        hex_value(hex_text(bytes)[2 * i]) == Some(bytes[i] as int / 16),
        hex_value(hex_text(bytes)[2 * i + 1]) == Some(bytes[i] as int % 16),
        is_lower_digit(hex_text(bytes)[2 * i]),
        is_lower_digit(hex_text(bytes)[2 * i + 1]),
    decreases bytes.len(),
{
    let n = bytes.len() - 1;
    let rest = bytes.drop_last();
    digit_has_its_value(bytes.last() as int / 16);
    digit_has_its_value(bytes.last() as int % 16);
    if n > 0 {
        let j = if i < n {
            i
        } else {
            0
        };
        digits_at(rest, j);
        assert(rest[j] == bytes[j]);
    } else {
        assert(hex_text(rest).len() == 0);
    }
}

/// Bytes that are written in hexadecimal are read as they were; the digits are in lower case.
pub proof fn hexadecimal_gives_back_its_bytes(bytes: Seq<u8>)
    ensures
        hex_text(bytes).len() == 2 * bytes.len(),
        hex_bytes(hex_text(bytes)) == Some(bytes),
        forall|k: int|
            0 <= k < hex_text(bytes).len() ==> is_lower_digit(#[trigger] hex_text(bytes)[k]),
{
    let text = hex_text(bytes);
    if bytes.len() > 0 {
        digits_at(bytes, 0);
    }
    assert forall|k: int| 0 <= k < text.len() implies hex_value(#[trigger] text[k]) is Some
        && is_lower_digit(text[k]) by {
        digits_at(bytes, k / 2);
        assert(k == 2 * (k / 2) || k == 2 * (k / 2) + 1);
    }
    let read = hex_bytes(text)->0;
    assert forall|i: int| 0 <= i < bytes.len() implies #[trigger] read[i] == bytes[i] by {
        digits_at(bytes, i);
        assert(16 * (bytes[i] as int / 16) + bytes[i] as int % 16 == bytes[i] as int);
    }
    assert(read =~= bytes);
}

// ---------------------------------------------------------------------------
// Internalizing
// ---------------------------------------------------------------------------

/// The parameters that an authenticated method is called with: the arguments alone, or in a
/// list by themselves or behind the identity.
pub open spec fn carries(params: JsonView, args: JsonView) -> bool {
    ||| params == args && !(args is Array)
    ||| params == JsonView::Array(seq![args])
    ||| params matches JsonView::Array(list) && list.len() >= 2 && list[1] == args
}

/// A transaction that comes as a list of bytes reaches the wallet as text that decodes to
/// those bytes; every other field stays as it is.
pub proof fn a_transaction_keeps_its_bytes(
    params: JsonView,
    list: Seq<(Seq<char>, JsonView)>,
    k: int,
    bytes: Seq<u8>,
    identity_key: Seq<char>,
)
    requires
        carries(params, JsonView::Object(list)),
        first_of_its_name(list, "tx"@, k),
        list[k].1 == JsonView::Array(numbers(bytes)),
    ensures
        exists|text: Seq<char>|
            args_for(Method::InternalizeAction, params, identity_key) == Ok::<ArgsView, ErrorView>(
                ArgsView::Value {
                    args: JsonView::Object(list.update(k, ("tx"@, JsonView::Str(text)))),
                },
            ) && #[trigger] hex_bytes(text) == Some(bytes),
{
    let text = hex_text(bytes);
    numbers_give_back_their_bytes(bytes);
    hexadecimal_gives_back_its_bytes(bytes);
    a_field_is_the_first_of_its_name(list, "tx"@, k, JsonView::Str(text));
    assert(hex_bytes(text) == Some(bytes));
}

/// Of any list in the place of the transaction the text has the bytes of the integers that
/// are not negative, each one and in their order.
pub proof fn a_list_becomes_the_bytes_of_its_integers(
    params: JsonView,
    list: Seq<(Seq<char>, JsonView)>,
    k: int,
    values: Seq<JsonView>,
    identity_key: Seq<char>,
)
    requires
        carries(params, JsonView::Object(list)),
        first_of_its_name(list, "tx"@, k),
        list[k].1 == JsonView::Array(values),
    ensures
        exists|text: Seq<char>|
            args_for(Method::InternalizeAction, params, identity_key) == Ok::<ArgsView, ErrorView>(
                ArgsView::Value {
                    args: JsonView::Object(list.update(k, ("tx"@, JsonView::Str(text)))),
                },
            ) && #[trigger] hex_bytes(text) == Some(
                values.filter(|v: JsonView| is_unsigned(v)).map_values(|v: JsonView| low_byte(v)),
            ),
{
    let bytes = bytes_in(values);
    let text = hex_text(bytes);
    each_integer_gives_its_byte(values);
    hexadecimal_gives_back_its_bytes(bytes);
    a_field_is_the_first_of_its_name(list, "tx"@, k, JsonView::Str(text));
    assert(hex_bytes(text) == Some(bytes));
}

/// Arguments whose transaction is no list reach the wallet as they are.
pub proof fn other_transactions_stay_as_they_are(
    params: JsonView,
    args: JsonView,
    identity_key: Seq<char>,
)
    requires
        carries(params, args),
        args matches JsonView::Object(list) ==> nowhere(list, "tx"@) || exists|k: int|
            first_of_its_name(list, "tx"@, k) && !((#[trigger] list[k]).1 is Array),
    ensures
        args_for(Method::InternalizeAction, params, identity_key) == Ok::<ArgsView, ErrorView>(
            ArgsView::Value { args },
        ),
{
    if let JsonView::Object(list) = args {
        if nowhere(list, "tx"@) {
            a_missing_field_is_none(args, "tx"@, JsonView::Null);
        } else {
            let k = choose|k: int|
                first_of_its_name(list, "tx"@, k) && !((#[trigger] list[k]).1 is Array);
            a_field_is_the_first_of_its_name(list, "tx"@, k, JsonView::Null);
        }
    }
}

// ---------------------------------------------------------------------------
// The outcome of a broadcast
// ---------------------------------------------------------------------------

/// The outcome of a broadcast, in a list or an object: the flag that is given is the flag
/// that is taken, and a flag that is missing or is no boolean counts as unset.
pub proof fn an_outcome_is_taken_as_given(
    params: JsonView,
    txid: Seq<char>,
    flag: Option<JsonView>,
    identity_key: Seq<char>,
)
    requires
        gives(params, 0, "txid"@, Some(JsonView::Str(txid))),
        gives(params, 1, "success"@, flag),
    ensures
        ({
            let args = args_for(
                Method::UpdateTransactionStatusAfterBroadcast,
                params,
                identity_key,
            );
            &&& flag == Some(JsonView::Bool(true)) ==> args == Ok::<ArgsView, ErrorView>(
                ArgsView::Broadcast { txid, success: true },
            )
            &&& flag != Some(JsonView::Bool(true)) ==> args == Ok::<ArgsView, ErrorView>(
                ArgsView::Broadcast { txid, success: false },
            )
        }),
{
    if let JsonView::Object(list) = params {
        what_stands_under_a_name_is_read(list, "txid"@, Some(JsonView::Str(txid)));
        what_stands_under_a_name_is_read(list, "success"@, flag);
    }
}

/// An outcome without the text of a transaction id is refused, and no other.
pub proof fn an_outcome_needs_a_txid(
    params: JsonView,
    txid: Option<JsonView>,
    identity_key: Seq<char>,
)
    requires
        gives(params, 0, "txid"@, txid),
        !(txid matches Some(JsonView::Str(_))),
    ensures
        args_for(Method::UpdateTransactionStatusAfterBroadcast, params, identity_key) == Err::<
            ArgsView,
            ErrorView,
        >(ErrorView::ValidationError("missing txid"@)),
{
    if let JsonView::Object(list) = params {
        what_stands_under_a_name_is_read(list, "txid"@, txid);
    }
}

// ---------------------------------------------------------------------------
// A chunk, and plain arguments
// ---------------------------------------------------------------------------

/// A sync is called with the request and the chunk that are given, each in its place.
pub proof fn a_chunk_is_taken_as_given(
    params: JsonView,
    args: JsonView,
    chunk: JsonView,
    identity_key: Seq<char>,
)
    requires
        gives(params, 0, "args"@, Some(args)),
        gives(params, 1, "chunk"@, Some(chunk)),
    ensures
        args_for(Method::ProcessSyncChunk, params, identity_key) == Ok::<ArgsView, ErrorView>(
            ArgsView::Chunk { args, chunk },
        ),
{
    if let JsonView::Object(list) = params {
        what_stands_under_a_name_is_read(list, "args"@, Some(args));
        what_stands_under_a_name_is_read(list, "chunk"@, Some(chunk));
    }
}

/// A sync without the request or without the chunk is refused, and says which is missing.
pub proof fn a_sync_needs_both(
    params: JsonView,
    args: Option<JsonView>,
    chunk: Option<JsonView>,
    identity_key: Seq<char>,
)
    requires
        gives(params, 0, "args"@, args),
        gives(params, 1, "chunk"@, chunk),
        args is None || chunk is None,
    ensures
        args_for(Method::ProcessSyncChunk, params, identity_key) == Err::<ArgsView, ErrorView>(
            ErrorView::ValidationError(
                if !(params is Array) && !(params is Object) {
                    "processSyncChunk: expected [args, chunk] or {args, chunk}"@
                } else if args is None {
                    "processSyncChunk: missing args"@
                } else {
                    "processSyncChunk: missing chunk"@
                },
            ),
        ),
{
    if let JsonView::Object(list) = params {
        what_stands_under_a_name_is_read(list, "args"@, args);
        what_stands_under_a_name_is_read(list, "chunk"@, chunk);
    }
}

/// Whether a method takes its arguments as they come.
pub open spec fn takes_plain_arguments(method: Method) -> bool {
    !(method == Method::InternalizeAction || method
        == Method::UpdateTransactionStatusAfterBroadcast || method == Method::ProcessSyncChunk
        || method == Method::PutBackup || method == Method::GetBackup || method
        == Method::ListBackups || method == Method::StatBackups)
}

/// Every other method is called with exactly the arguments that its parameters carry, and
/// with `null` where they are an empty list.
pub proof fn arguments_are_passed_on(
    method: Method,
    params: JsonView,
    args: JsonView,
    identity_key: Seq<char>,
)
    requires
        takes_plain_arguments(method),
    ensures
        carries(params, args) ==> args_for(method, params, identity_key) == Ok::<
            ArgsView,
            ErrorView,
        >(ArgsView::Value { args }),
        params == JsonView::Array(Seq::empty()) ==> args_for(method, params, identity_key) == Ok::<
            ArgsView,
            ErrorView,
        >(ArgsView::Value { args: JsonView::Null }),
{
}

} // verus!
