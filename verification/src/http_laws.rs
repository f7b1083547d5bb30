//! Routes, keys, levels and reports, said of the requests and of what was counted.

use crate::http::{
    byte_value, digits_value, error_body, first_value, key_matches, one_text, probe_body, routed,
    run_body, run_line, shown, shown_from, MonitorRun, PREVIEW_BYTES, Route, Verb,
};
use crate::json::{JsonView, Number};
use crate::text::{decimal_nat, digit};
use vstd::prelude::*;
use vstd::utf8::encode_utf8;

verus! {

// ---------------------------------------------------------------------------
// Routes
// ---------------------------------------------------------------------------

proof fn paths_differ()
    ensures
        "/"@.len() == 1,
        "/monitor/status"@.len() == 15,
        "/monitor/run"@.len() == 12,
        "/monitor/probe-woc"@.len() == 18,
        "/monitor/audit"@.len() == 14,
        "/monitor/status"@[9] != "/monitor/audit"@[9],
        "/monitor/probe-woc"@[9] != "/monitor/audit"@[9],
{
    reveal_strlit("/");
    reveal_strlit("/monitor/status");
    reveal_strlit("/monitor/run");
    reveal_strlit("/monitor/probe-woc");
    reveal_strlit("/monitor/audit");
}

/// Each route is taken for its verb and its path, and for no others; what no other route
/// takes goes to authentication.
pub proof fn each_route_has_its_requests(verb: Verb, path: Seq<char>)
    ensures
        routed(verb, path) == Route::Preflight <==> verb == Verb::Options,
        routed(verb, path) == Route::Health <==> verb == Verb::Get && path == "/"@,
        routed(verb, path) == Route::MonitorStatus <==> verb == Verb::Get && path
            == "/monitor/status"@,
        routed(verb, path) == Route::MonitorRun <==> verb == Verb::Post && path
            == "/monitor/run"@,
        routed(verb, path) == Route::ProbeWoc <==> verb == Verb::Get && path
            == "/monitor/probe-woc"@,
        routed(verb, path) == Route::Audit <==> verb == Verb::Get && path.len()
            >= "/monitor/audit"@.len() && path.take("/monitor/audit"@.len() as int)
            == "/monitor/audit"@,
        verb == Verb::Post && path != "/monitor/run"@ ==> routed(verb, path)
            == Route::Authenticated,
        verb == Verb::Other ==> routed(verb, path) == Route::Authenticated,
{
    paths_differ();
    let audit = "/monitor/audit"@;
    if path.len() >= audit.len() {
        assert(path.take(audit.len() as int) =~= path.subrange(0, audit.len() as int));
        if path.take(audit.len() as int) == audit {
            assert(path[9] == audit[9]);
        }
    }
}

// ---------------------------------------------------------------------------
// Keys and levels
// ---------------------------------------------------------------------------

/// A parameter of a query is the value of the first pair with its name; without one there is
/// none.
pub proof fn the_first_pair_counts(pairs: Seq<(String, String)>, name: Seq<char>, k: int)
    ensures
        0 <= k < pairs.len() && pairs[k].0@ == name && (forall|j: int|
            0 <= j < k ==> (#[trigger] pairs[j]).0@ != name) ==> first_value(pairs, name) == Some(
            pairs[k].1@,
        ),
        (forall|j: int| 0 <= j < pairs.len() ==> (#[trigger] pairs[j]).0@ != name) ==> first_value(
            pairs,
            name,
        ) is None,
    decreases pairs.len(),
{
    if pairs.len() > 0 && pairs[0].0@ != name {
        let rest = pairs.skip(1);
        the_first_pair_counts(rest, name, k - 1);
        assert(forall|j: int| 0 <= j < rest.len() ==> rest[j] == #[trigger] pairs[j + 1]);
        if 0 <= k < pairs.len() && forall|j: int|
            0 <= j < k ==> (#[trigger] pairs[j]).0@ != name {
            assert forall|j: int| 0 <= j < k - 1 implies (#[trigger] rest[j]).0@ != name by {
                assert(rest[j] == pairs[j + 1]);
            }
        }
        if forall|j: int| 0 <= j < pairs.len() ==> (#[trigger] pairs[j]).0@ != name {
            assert forall|j: int| 0 <= j < rest.len() implies (#[trigger] rest[j]).0@ != name by {
                assert(rest[j] == pairs[j + 1]);
            }
        }
    }
}

/// A run is allowed with the key that is set, provided that it is not empty, and with nothing
/// else.
pub proof fn only_the_key_opens(expected: Option<Seq<char>>, provided: Option<Seq<char>>)
    ensures
        key_matches(expected, provided) <==> expected is Some && provided is Some && expected->0
            == provided->0 && expected->0.len() > 0,
{
}

proof fn digit_is_read(d: int)
    requires
        0 <= d < 10,
    ensures
        digit(d).len() == 1,
        '0' <= digit(d)[0] <= '9',
        digit(d)[0] as int - '0' as int == d,
{
    reveal_strlit("0");
    reveal_strlit("1");
    reveal_strlit("2");
    reveal_strlit("3");
    reveal_strlit("4");
    reveal_strlit("5");
    reveal_strlit("6");
    reveal_strlit("7");
    reveal_strlit("8");
    reveal_strlit("9");
}

/// A number that is written in decimal is read as it was, and is written without a zero in
/// front.
pub proof fn decimal_is_read_back(n: nat)
    ensures
        decimal_nat(n).len() > 0,
        digits_value(decimal_nat(n)) == Some(n),
        n > 0 ==> decimal_nat(n)[0] != '0',
        forall|i: int|
            0 <= i < decimal_nat(n).len() ==> '0' <= #[trigger] decimal_nat(n)[i] <= '9',
    decreases n,
{
    digit_is_read((n % 10) as int);
    let text = decimal_nat(n);
    if n >= 10 {
        decimal_is_read_back(n / 10);
        assert(text.drop_last() =~= decimal_nat(n / 10));
        assert(text.last() == digit((n % 10) as int)[0]);
    } else {
        assert(text =~= digit(n as int));
        digit_is_read(n as int);
        assert(text.drop_last() =~= Seq::empty());
        reveal_with_fuel(digits_value, 2);
    }
}

/// A zero in front of a number changes nothing.
pub proof fn a_zero_in_front_counts_nothing(text: Seq<char>)
    ensures
        digits_value(seq!['0'] + text) == digits_value(text),
    decreases text.len(),
{
    let longer = seq!['0'] + text;
    if text.len() > 0 {
        a_zero_in_front_counts_nothing(text.drop_last());
        assert(longer.drop_last() =~= seq!['0'] + text.drop_last());
    } else {
        assert(longer.drop_last() =~= Seq::empty());
        reveal_with_fuel(digits_value, 2);
    }
}

proof fn a_letter_is_no_number(text: Seq<char>, i: int)
    requires
        0 <= i < text.len(),
        !('0' <= text[i] <= '9'),
    ensures
        digits_value(text) is None,
    decreases text.len(),
{
    if i < text.len() - 1 {
        a_letter_is_no_number(text.drop_last(), i);
    }
}

/// A level is read from its decimal digits, with or without a plus in front, up to the largest
/// byte; a larger number, an empty text and a text with anything else are no level.
pub proof fn a_level_is_read(n: nat, text: Seq<char>, i: int)
    ensures
        n <= 255 ==> byte_value(decimal_nat(n)) == Some(n as u8),
        n <= 255 ==> byte_value(seq!['+'] + decimal_nat(n)) == Some(n as u8),
        n > 255 ==> byte_value(decimal_nat(n)) is None,
        n > 255 ==> byte_value(seq!['+'] + decimal_nat(n)) is None,
        byte_value(Seq::empty()) is None,
        byte_value(seq!['+']) is None,
        0 <= i < text.len() && !('0' <= text[i] <= '9') && (i > 0 || text[i] != '+')
            ==> byte_value(text) is None,
{
    decimal_is_read_back(n);
    let d = decimal_nat(n);
    assert('0' <= d[0] <= '9');
    assert((seq!['+'] + d).skip(1) =~= d);
    assert(seq!['+'].skip(1) =~= Seq::empty());
    if 0 <= i < text.len() && !('0' <= text[i] <= '9') && (i > 0 || text[i] != '+') {
        if text[0] == '+' {
            assert(text.skip(1)[i - 1] == text[i]);
            a_letter_is_no_number(text.skip(1), i - 1);
        } else {
            a_letter_is_no_number(text, i);
        }
    }
}

// ---------------------------------------------------------------------------
// Reports
// ---------------------------------------------------------------------------

/// A count under its name.
pub open spec fn count_under(name: Seq<char>, n: u64) -> (Seq<char>, JsonView) {
    (name, JsonView::Number(Number::PosInt(n)))
}

/// The report of a run has each count under its name, whether the chain was reorganized, and
/// each error in its place.
pub proof fn a_run_is_reported_in_full(run: MonitorRun)
    ensures
        run_body(run) matches JsonView::Object(list) && {
            &&& list.len() == 14
            &&& list[0] == count_under("sent"@, run.sent)
            &&& list[1] == count_under("send_errors"@, run.send_errors)
            &&& list[2] == count_under("proofs_found"@, run.proofs_found)
            &&& list[3] == count_under("proofs_checked"@, run.proofs_checked)
            &&& list[4] == count_under("abandoned_failed"@, run.abandoned_failed)
            &&& list[5] == count_under("status_synced"@, run.status_synced)
            &&& list[6] == count_under("beef_compacted"@, run.beef_compacted)
            &&& list[7] == count_under("unfail_recovered"@, run.unfail_recovered)
            &&& list[8] == count_under("purged"@, run.purged)
            &&& list[9] == count_under("nosend_found"@, run.nosend_found)
            &&& list[10] == ("reorg_detected"@, JsonView::Bool(run.reorg_detected))
            &&& list[11] == count_under("reorg_depth"@, run.reorg_depth)
            &&& list[12] == count_under("proofs_reverified"@, run.proofs_reverified)
            &&& list[13].0 == "errors"@
            &&& list[13].1 matches JsonView::Array(errors) && errors.len() == run.errors@.len()
                && forall|i: int|
                0 <= i < errors.len() ==> #[trigger] errors[i] == JsonView::Str(run.errors@[i]@)
        },
{
}

/// The line of a run has each count before its name.
pub proof fn a_run_is_logged_in_full(run: MonitorRun)
    ensures
        run_line(run) == "Monitor: "@ + decimal_nat(run.sent as nat) + " sent, "@ + decimal_nat(
            run.send_errors as nat,
        ) + " send errors, "@ + decimal_nat(run.proofs_found as nat) + " proofs found, "@
            + decimal_nat(run.proofs_checked as nat) + " checked, "@ + decimal_nat(
            run.abandoned_failed as nat,
        ) + " abandoned failed, "@ + decimal_nat(run.status_synced as nat) + " status synced, "@
            + decimal_nat(run.beef_compacted as nat) + " beef compacted, "@ + decimal_nat(
            run.unfail_recovered as nat,
        ) + " unfail recovered, "@ + decimal_nat(run.purged as nat) + " purged, "@ + decimal_nat(
            run.nosend_found as nat,
        ) + " nosend found, reorg="@ + (if run.reorg_detected {
            "true"@
        } else {
            "false"@
        }) + " depth="@ + decimal_nat(run.reorg_depth as nat) + " reverified="@ + decimal_nat(
            run.proofs_reverified as nat,
        ) + ", "@ + decimal_nat(run.errors@.len()) + " errors"@,
{
}

proof fn shown_to_the_end(body: Seq<char>, n: int)
    requires
        0 <= n <= body.len(),
        encode_utf8(body.take(n)).len() <= PREVIEW_BYTES,
    ensures
        n <= shown_from(body, n) <= body.len(),
        encode_utf8(body.take(shown_from(body, n))).len() <= PREVIEW_BYTES,
        shown_from(body, n) < body.len() ==> encode_utf8(
            body.take(shown_from(body, n) + 1),
        ).len() > PREVIEW_BYTES,
    decreases body.len() - n,
{
    if n < body.len() && encode_utf8(body.take(n + 1)).len() <= PREVIEW_BYTES {
        shown_to_the_end(body, n + 1);
    }
}

/// A preview is a beginning of the body that has at most five hundred bytes, and one
/// character more would have more; a body that fits is shown whole.
pub proof fn a_preview_is_as_long_as_fits(body: Seq<char>)
    ensures
        ({
            let n = shown(body).len() as int;
            &&& n <= body.len()
            &&& shown(body) == body.take(n)
            &&& encode_utf8(shown(body)).len() <= 500
            &&& n < body.len() ==> encode_utf8(body.take(n + 1)).len() > 500
        }),
{
    assert(body.take(0) =~= Seq::empty());
    shown_to_the_end(body, 0);
}

/// The answer to a probe tells what was asked for, whether and how long a key was used but not
/// the key, and the status, the length and the beginning of what came back.
pub proof fn a_probe_is_reported(
    url: Seq<char>,
    key: Option<Seq<char>>,
    status: u16,
    body: Seq<char>,
)
    ensures
        probe_body(url, key, status, body) matches JsonView::Object(list) && {
            &&& list.len() == 6
            &&& list[0] == ("url"@, JsonView::Str(url))
            &&& list[1] == ("has_api_key"@, JsonView::Bool(key is Some))
            &&& key matches Some(k) ==> list[2] == count_under(
                "api_key_len"@,
                encode_utf8(k).len() as u64,
            )
            &&& key is None ==> list[2] == ("api_key_len"@, JsonView::Null)
            &&& list[3] == count_under("status"@, status as u64)
            &&& list[4] == count_under("body_len"@, encode_utf8(body).len() as u64)
            &&& list[5] == ("body_preview"@, JsonView::Str(shown(body)))
        },
{
}

/// An error is sent with its code and its description.
pub proof fn an_error_is_described(code: Seq<char>, description: Seq<char>)
    ensures
        error_body(code, description) == JsonView::Object(
            seq![
                ("status"@, JsonView::Str("error"@)),
                ("code"@, JsonView::Str(code)),
                ("description"@, JsonView::Str(description)),
            ],
        ),
        one_text(code, description) == JsonView::Object(seq![(code, JsonView::Str(description))]),
{
}

} // verus!
