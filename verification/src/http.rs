//! The endpoints of the server: where a request goes, and the fixed answers.

use crate::json::{fields, items, Json, JsonView, Number};
use crate::text::{decimal_nat, natural, same_text, text_view};
use vstd::prelude::*;
use vstd::utf8::encode_utf8;

verus! {

/// How many seconds the authentication of a request, and its dispatch, may each take.
pub const REQUEST_DEADLINE_SECS: u64 = 12;

/// The verb of a request, as far as it matters.
#[derive(Clone, Copy, Debug, PartialEq, Eq, Structural)]
pub enum Verb {
    Options,
    Get,
    Post,
    Other,
}

/// Where a request goes.
#[derive(Clone, Copy, Debug, PartialEq, Eq, Structural)]
pub enum Route {
    Preflight,
    Health,
    MonitorStatus,
    MonitorRun,
    ProbeWoc,
    Audit,
    /// To authentication, and from there to the methods of the server.
    Authenticated,
}

/// Where a request goes.
pub open spec fn routed(verb: Verb, path: Seq<char>) -> Route {
    if verb == Verb::Options {
        Route::Preflight
    } else if path == "/"@ && verb == Verb::Get {
        Route::Health
    } else if path == "/monitor/status"@ && verb == Verb::Get {
        Route::MonitorStatus
    } else if path == "/monitor/run"@ && verb == Verb::Post {
        Route::MonitorRun
    } else if path == "/monitor/probe-woc"@ && verb == Verb::Get {
        Route::ProbeWoc
    } else if "/monitor/audit"@.is_prefix_of(path) && verb == Verb::Get {
        Route::Audit
    } else {
        Route::Authenticated
    }
}

fn starts_with(text: &str, prefix: &str) -> (starts: bool)
    ensures
        starts == prefix@.is_prefix_of(text@),
{
    let n = prefix.unicode_len();
    if text.unicode_len() < n {
        return false;
    }
    let head = text.substring_char(0, n);
    assert(head@ =~= text@.subrange(0, n as int));
    same_text(head, prefix)
}

/// Where a request goes.
pub fn route(verb: Verb, path: &str) -> (route: Route)
    ensures
        route == routed(verb, path@),
{
    if verb == Verb::Options {
        Route::Preflight
    } else if same_text(path, "/") && verb == Verb::Get {
        Route::Health
    } else if same_text(path, "/monitor/status") && verb == Verb::Get {
        Route::MonitorStatus
    } else if same_text(path, "/monitor/run") && verb == Verb::Post {
        Route::MonitorRun
    } else if same_text(path, "/monitor/probe-woc") && verb == Verb::Get {
        Route::ProbeWoc
    } else if starts_with(path, "/monitor/audit") && verb == Verb::Get {
        Route::Audit
    } else {
        Route::Authenticated
    }
}

// ---------------------------------------------------------------------------
// Fixed answers
// ---------------------------------------------------------------------------

/// An answer with its status.
#[verifier::ext_equal]
pub struct HttpReplyView {
    pub status: u16,
    pub body: JsonView,
}

#[derive(Debug, PartialEq, Eq)]
pub struct HttpReply {
    pub status: u16,
    pub body: Json,
}

impl View for HttpReply {
    type V = HttpReplyView;

    open spec fn view(&self) -> HttpReplyView {
        HttpReplyView { status: self.status, body: self.body@ }
    }
}

/// An object with one text.
pub open spec fn one_text(a: Seq<char>, x: Seq<char>) -> JsonView {
    JsonView::Object(seq![(a, JsonView::Str(x))])
}

fn one_text_json(a: &str, x: &str) -> (body: Json)
    ensures
        body@ == one_text(a@, x@),
{
    let list = vec![(a.to_owned(), Json::string(x))];
    assert(fields(list@) =~= one_text(a@, x@)->Object_0);
    Json::object(list)
}

/// The body of an error: its code and what it means.
pub open spec fn error_body(code: Seq<char>, description: Seq<char>) -> JsonView {
    JsonView::Object(
        seq![
            ("status"@, JsonView::Str("error"@)),
            ("code"@, JsonView::Str(code)),
            ("description"@, JsonView::Str(description)),
        ],
    )
}

fn error_json(code: &str, description: &str) -> (body: Json)
    ensures
        body@ == error_body(code@, description@),
{
    let list = vec![
        ("status".to_owned(), Json::string("error")),
        ("code".to_owned(), Json::string(code)),
        ("description".to_owned(), Json::string(description)),
    ];
    assert(fields(list@) =~= error_body(code@, description@)->Object_0);
    Json::object(list)
}

/// The answer to a health check.
pub fn health() -> (reply: HttpReply)
    ensures
        reply@ == (HttpReplyView {
            status: 200,
            body: JsonView::Object(
                seq![
                    ("status"@, JsonView::Str("ok"@)),
                    ("service"@, JsonView::Str("wallet-infra"@)),
                ],
            ),
        }),
{
    let list = vec![
        ("status".to_owned(), Json::string("ok")),
        ("service".to_owned(), Json::string("wallet-infra")),
    ];
    assert(fields(list@) =~= seq![
        ("status"@, JsonView::Str("ok"@)),
        ("service"@, JsonView::Str("wallet-infra"@)),
    ]);
    HttpReply { status: 200, body: Json::object(list) }
}

/// The answer to a request that took too long. It may be sent again.
pub fn timeout_response() -> (reply: HttpReply)
    ensures
        reply@ == (HttpReplyView {
            status: 503,
            body: error_body("ERR_TIMEOUT"@, "Storage request timed out; please retry."@),
        }),
{
    HttpReply {
        status: 503,
        body: error_json("ERR_TIMEOUT", "Storage request timed out; please retry."),
    }
}

// ---------------------------------------------------------------------------
// Monitoring
// ---------------------------------------------------------------------------

/// The value of the first pair with the given name.
pub open spec fn first_value(pairs: Seq<(String, String)>, name: Seq<char>) -> Option<Seq<char>>
    decreases pairs.len(),
{
    if pairs.len() == 0 {
        None
    } else if pairs[0].0@ == name {
        Some(pairs[0].1@)
    } else {
        first_value(pairs.skip(1), name)
    }
}

/// The value of the first pair of a query with the given name.
pub fn query_value(pairs: &Vec<(String, String)>, name: &str) -> (value: Option<String>)
    ensures
        text_view(value) == first_value(pairs@, name@),
{
    let mut i: usize = 0;
    assert(pairs@.skip(0) =~= pairs@);
    while i < pairs.len()
        invariant
            i <= pairs@.len(),
            first_value(pairs@.skip(i as int), name@) == first_value(pairs@, name@),
        decreases pairs@.len() - i,
    {
        if same_text(pairs[i].0.as_str(), name) {
            return Some(pairs[i].1.clone());
        }
        i = i + 1;
        assert(pairs@.skip(i - 1).skip(1) =~= pairs@.skip(i as int));
    }
    None
}

/// Whether a trigger key is set and given.
pub open spec fn key_matches(expected: Option<Seq<char>>, provided: Option<Seq<char>>) -> bool {
    match expected {
        Some(e) => e.len() > 0 && provided == Some(e),
        None => false,
    }
}

/// Whether a request may trigger the monitor: the key has to be set, and the request has to
/// give it.
pub fn may_trigger(expected: &Option<String>, provided: &Option<String>) -> (allowed: bool)
    ensures
        allowed == key_matches(text_view(*expected), text_view(*provided)),
{
    match expected {
        Some(e) => match provided {
            Some(p) => !e.as_str().is_empty() && same_text(p.as_str(), e.as_str()),
            None => false,
        },
        None => false,
    }
}

pub open spec fn run_refused() -> HttpReplyView {
    HttpReplyView {
        status: 401,
        body: one_text(
            "error"@,
            "unauthorized — set MONITOR_TRIGGER_KEY secret and pass ?key=<value>"@,
        ),
    }
}

/// Whether a run of the monitor is refused, and how.
pub fn refuse_run(expected: &Option<String>, pairs: &Vec<(String, String)>) -> (refusal: Option<
    HttpReply,
>)
    ensures
        refusal is None <==> key_matches(text_view(*expected), first_value(pairs@, "key"@)),
        refusal matches Some(r) ==> r@ == run_refused(),
{
    if may_trigger(expected, &query_value(pairs, "key")) {
        None
    } else {
        Some(
            HttpReply {
                status: 401,
                body: one_text_json(
                    "error",
                    "unauthorized — set MONITOR_TRIGGER_KEY secret and pass ?key=<value>",
                ),
            },
        )
    }
}

/// The txid that a probe is for, where the request may probe and gives a txid of the right
/// length; else how it is refused.
pub fn probe(expected: &Option<String>, pairs: &Vec<(String, String)>) -> (txid: Result<
    String,
    HttpReply,
>)
    ensures
        ({
            let allowed = key_matches(text_view(*expected), first_value(pairs@, "key"@));
            match txid {
                Ok(t) => allowed && encode_utf8(t@).len() == 64 && first_value(pairs@, "txid"@)
                    == Some(t@),
                Err(r) => if allowed {
                    (match first_value(pairs@, "txid"@) {
                        Some(t) => encode_utf8(t).len() != 64,
                        None => true,
                    }) && r@ == (HttpReplyView {
                        status: 400,
                        body: one_text("error"@, "txid must be 64-char hex"@),
                    })
                } else {
                    r@ == (HttpReplyView { status: 401, body: one_text("error"@, "unauthorized"@) })
                },
            }
        }),
{
    if !may_trigger(expected, &query_value(pairs, "key")) {
        return Err(HttpReply { status: 401, body: one_text_json("error", "unauthorized") });
    }
    match query_value(pairs, "txid") {
        Some(t) => {
            if t.as_str().as_bytes().len() == 64 {
                return Ok(t);
            }
        },
        None => {},
    }
    Err(HttpReply { status: 400, body: one_text_json("error", "txid must be 64-char hex") })
}

/// The value of a text of decimal digits.
pub open spec fn digits_value(text: Seq<char>) -> Option<nat>
    decreases text.len(),
{
    if text.len() == 0 {
        Some(0)
    } else if '0' <= text.last() <= '9' {
        match digits_value(text.drop_last()) {
            Some(v) => Some(10 * v + (text.last() as nat - '0' as nat) as nat),
            None => None,
        }
    } else {
        None
    }
}

/// The value of a text that is a number of one byte in decimal, with or without a plus
/// sign.
pub open spec fn byte_value(text: Seq<char>) -> Option<u8> {
    let digits = if text.len() > 0 && text[0] == '+' {
        text.skip(1)
    } else {
        text
    };
    match digits_value(digits) {
        Some(v) => if digits.len() > 0 && v <= 255 {
            Some(v as u8)
        } else {
            None
        },
        None => None,
    }
}

fn parse_byte(text: &str) -> (value: Option<u8>)
    ensures
        value == byte_value(text@),
{
    let n = text.unicode_len();
    let from: usize = if n > 0 && text.get_char(0) == '+' {
        1
    } else {
        0
    };
    let ghost digits = if text@.len() > 0 && text@[0] == '+' {
        text@.skip(1)
    } else {
        text@
    };
    if from == n {
        return None;
    }
    let mut value: u32 = 0;
    let mut i: usize = from;
    assert(digits.take(0) =~= Seq::empty());
    while i < n
        invariant
            n == text@.len(),
            from <= i <= n,
            digits == (if text@.len() > 0 && text@[0] == '+' {
                text@.skip(1)
            } else {
                text@
            }),
            digits.len() == n - from,
            forall|k: int| 0 <= k < digits.len() ==> digits[k] == text@[from + k],
            value <= 256,
            digits_value(digits.take(i - from)) matches Some(v) && (if v <= 255 {
                value == v
            } else {
                value == 256
            }),
        decreases n - i,
    {
        let c = text.get_char(i);
        proof {
            let longer = digits.take(i + 1 - from);
            assert(longer.drop_last() =~= digits.take(i - from));
            assert(longer.last() == c);
        }
        if c < '0' || c > '9' {
            proof {
                no_value_with(digits, i - from);
            }
            return None;
        }
        let d: u32 = c as u32 - '0' as u32;
        value = value * 10 + d;
        if value > 255 {
            value = 256;
        }
        i = i + 1;
    }
    assert(digits.take(n - from) =~= digits);
    if value <= 255 {
        Some(value as u8)
    } else {
        None
    }
}

proof fn no_value_with(text: Seq<char>, i: int)
    requires
        0 <= i < text.len(),
        !('0' <= text[i] <= '9'),
    ensures
        digits_value(text) is None,
    decreases text.len(),
{
    if i < text.len() - 1 {
        no_value_with(text.drop_last(), i);
    }
}

/// How deep an audit goes: the level of the query, two where it gives none.
pub fn audit_level(pairs: &Vec<(String, String)>) -> (level: u8)
    ensures
        level == (match first_value(pairs@, "level"@) {
            Some(text) => match byte_value(text) {
                Some(v) => v,
                None => 2,
            },
            None => 2,
        }),
{
    match query_value(pairs, "level") {
        Some(text) => match parse_byte(text.as_str()) {
            Some(v) => v,
            None => 2,
        },
        None => 2,
    }
}

// ---------------------------------------------------------------------------
// Reports
// ---------------------------------------------------------------------------

/// What a run of the monitor did.
#[derive(Debug, PartialEq, Eq)]
pub struct MonitorRun {
    pub sent: u64,
    pub send_errors: u64,
    pub proofs_found: u64,
    pub proofs_checked: u64,
    pub abandoned_failed: u64,
    pub status_synced: u64,
    pub beef_compacted: u64,
    pub unfail_recovered: u64,
    pub purged: u64,
    pub nosend_found: u64,
    pub reorg_detected: bool,
    pub reorg_depth: u64,
    pub proofs_reverified: u64,
    pub errors: Vec<String>,
}

/// Texts as values.
pub open spec fn strings(list: Seq<String>) -> Seq<JsonView> {
    Seq::new(list.len(), |i: int| JsonView::Str(list[i]@))
}

fn string_list(list: &Vec<String>) -> (values: Vec<Json>)
    ensures
        items(values@) == strings(list@),
{
    let mut values: Vec<Json> = Vec::new();
    let mut i: usize = 0;
    while i < list.len()
        invariant
            i <= list@.len(),
            values@.len() == i,
            forall|k: int| 0 <= k < i ==> (#[trigger] values@[k])@ == JsonView::Str(list@[k]@),
        decreases list@.len() - i,
    {
        values.push(Json::string(list[i].as_str()));
        i = i + 1;
    }
    assert(items(values@) =~= strings(list@));
    values
}

/// The answer to a request for a run of the monitor.
pub open spec fn run_body(run: MonitorRun) -> JsonView {
    JsonView::Object(
        seq![
            ("sent"@, JsonView::Number(Number::PosInt(run.sent))),
            ("send_errors"@, JsonView::Number(Number::PosInt(run.send_errors))),
            ("proofs_found"@, JsonView::Number(Number::PosInt(run.proofs_found))),
            ("proofs_checked"@, JsonView::Number(Number::PosInt(run.proofs_checked))),
            ("abandoned_failed"@, JsonView::Number(Number::PosInt(run.abandoned_failed))),
            ("status_synced"@, JsonView::Number(Number::PosInt(run.status_synced))),
            ("beef_compacted"@, JsonView::Number(Number::PosInt(run.beef_compacted))),
            ("unfail_recovered"@, JsonView::Number(Number::PosInt(run.unfail_recovered))),
            ("purged"@, JsonView::Number(Number::PosInt(run.purged))),
            ("nosend_found"@, JsonView::Number(Number::PosInt(run.nosend_found))),
            ("reorg_detected"@, JsonView::Bool(run.reorg_detected)),
            ("reorg_depth"@, JsonView::Number(Number::PosInt(run.reorg_depth))),
            ("proofs_reverified"@, JsonView::Number(Number::PosInt(run.proofs_reverified))),
            ("errors"@, JsonView::Array(strings(run.errors@))),
        ],
    )
}

/// The answer to a request for a run of the monitor.
pub fn monitor_report(run: &MonitorRun) -> (body: Json)
    ensures
        body@ == run_body(*run),
{
    let list = vec![
        ("sent".to_owned(), Json::Number(Number::PosInt(run.sent))),
        ("send_errors".to_owned(), Json::Number(Number::PosInt(run.send_errors))),
        ("proofs_found".to_owned(), Json::Number(Number::PosInt(run.proofs_found))),
        ("proofs_checked".to_owned(), Json::Number(Number::PosInt(run.proofs_checked))),
        ("abandoned_failed".to_owned(), Json::Number(Number::PosInt(run.abandoned_failed))),
        ("status_synced".to_owned(), Json::Number(Number::PosInt(run.status_synced))),
        ("beef_compacted".to_owned(), Json::Number(Number::PosInt(run.beef_compacted))),
        ("unfail_recovered".to_owned(), Json::Number(Number::PosInt(run.unfail_recovered))),
        ("purged".to_owned(), Json::Number(Number::PosInt(run.purged))),
        ("nosend_found".to_owned(), Json::Number(Number::PosInt(run.nosend_found))),
        ("reorg_detected".to_owned(), Json::Bool(run.reorg_detected)),
        ("reorg_depth".to_owned(), Json::Number(Number::PosInt(run.reorg_depth))),
        ("proofs_reverified".to_owned(), Json::Number(Number::PosInt(run.proofs_reverified))),
        ("errors".to_owned(), Json::array(string_list(&run.errors))),
    ];
    assert(fields(list@) =~= run_body(*run)->Object_0);
    Json::object(list)
}

pub open spec fn flag_text(flag: bool) -> Seq<char> {
    if flag {
        "true"@
    } else {
        "false"@
    }
}

fn flag_name(flag: bool) -> (text: &'static str)
    ensures
        text@ == flag_text(flag),
{
    if flag {
        "true"
    } else {
        "false"
    }
}

/// The line that a scheduled run of the monitor writes.
pub open spec fn run_line(run: MonitorRun) -> Seq<char> {
    "Monitor: "@
        + decimal_nat(run.sent as nat) + " sent, "@
        + decimal_nat(run.send_errors as nat) + " send errors, "@
        + decimal_nat(run.proofs_found as nat) + " proofs found, "@
        + decimal_nat(run.proofs_checked as nat) + " checked, "@
        + decimal_nat(run.abandoned_failed as nat) + " abandoned failed, "@
        + decimal_nat(run.status_synced as nat) + " status synced, "@
        + decimal_nat(run.beef_compacted as nat) + " beef compacted, "@
        + decimal_nat(run.unfail_recovered as nat) + " unfail recovered, "@
        + decimal_nat(run.purged as nat) + " purged, "@
        + decimal_nat(run.nosend_found as nat) + " nosend found, reorg="@
        + flag_text(run.reorg_detected) + " depth="@
        + decimal_nat(run.reorg_depth as nat) + " reverified="@
        + decimal_nat(run.proofs_reverified as nat) + ", "@
        + decimal_nat(run.errors@.len()) + " errors"@
}

/// The line that a scheduled run of the monitor writes.
pub fn monitor_line(run: &MonitorRun) -> (text: String)
    ensures
        text@ == run_line(*run),
{
    let mut text = "Monitor: ".to_owned();
    text.append(natural(run.sent).as_str());
    text.append(" sent, ");
    text.append(natural(run.send_errors).as_str());
    text.append(" send errors, ");
    text.append(natural(run.proofs_found).as_str());
    text.append(" proofs found, ");
    text.append(natural(run.proofs_checked).as_str());
    text.append(" checked, ");
    text.append(natural(run.abandoned_failed).as_str());
    text.append(" abandoned failed, ");
    text.append(natural(run.status_synced).as_str());
    text.append(" status synced, ");
    text.append(natural(run.beef_compacted).as_str());
    text.append(" beef compacted, ");
    text.append(natural(run.unfail_recovered).as_str());
    text.append(" unfail recovered, ");
    text.append(natural(run.purged).as_str());
    text.append(" purged, ");
    text.append(natural(run.nosend_found).as_str());
    text.append(" nosend found, reorg=");
    text.append(flag_name(run.reorg_detected));
    text.append(" depth=");
    text.append(natural(run.reorg_depth).as_str());
    text.append(" reverified=");
    text.append(natural(run.proofs_reverified).as_str());
    text.append(", ");
    text.append(natural(run.errors.len() as u64).as_str());
    text.append(" errors");
    text
}

/// How many bytes of a body a probe shows at most.
pub const PREVIEW_BYTES: usize = 500;

/// How many characters of a body a probe shows, of which it shows the first `n` at least: as
/// many as fit.
pub open spec fn shown_from(body: Seq<char>, n: int) -> int
    decreases body.len() - n,
{
    if 0 <= n < body.len() && encode_utf8(body.take(n + 1)).len() <= PREVIEW_BYTES {
        shown_from(body, n + 1)
    } else {
        n
    }
}

/// The beginning of a body that a probe shows.
pub open spec fn shown(body: Seq<char>) -> Seq<char> {
    body.take(shown_from(body, 0))
}

/// The beginning of a body that a probe shows: as many characters as fit.
pub fn preview(body: &str) -> (preview: String)
    ensures
        preview@ == shown(body@),
{
    let n = body.unicode_len();
    let mut i: usize = 0;
    while i < n
        invariant
            n == body@.len(),
            i <= n,
            shown_from(body@, i as int) == shown_from(body@, 0),
        decreases n - i,
    {
        let longer = body.substring_char(0, i + 1);
        assert(longer@ =~= body@.take(i + 1));
        if longer.as_bytes().len() > PREVIEW_BYTES {
            let head = body.substring_char(0, i);
            assert(head@ =~= body@.take(i as int));
            return head.to_owned();
        }
        i = i + 1;
    }
    assert(body@.take(n as int) =~= body@);
    body.to_owned()
}

/// Where the proof of a transaction is asked for.
pub fn probe_url(txid: &str) -> (url: String)
    ensures
        url@ == "https://api.whatsonchain.com/v1/bsv/main/tx/"@ + txid@ + "/proof/tsc"@,
{
    let mut url = "https://api.whatsonchain.com/v1/bsv/main/tx/".to_owned();
    url.append(txid);
    url.append("/proof/tsc");
    url
}

/// The answer to a probe.
pub open spec fn probe_body(
    url: Seq<char>,
    key: Option<Seq<char>>,
    status: u16,
    body: Seq<char>,
) -> JsonView {
    JsonView::Object(
        seq![
            ("url"@, JsonView::Str(url)),
            ("has_api_key"@, JsonView::Bool(key is Some)),
            (
                "api_key_len"@,
                match key {
                    Some(k) => JsonView::Number(Number::PosInt(encode_utf8(k).len() as u64)),
                    None => JsonView::Null,
                },
            ),
            ("status"@, JsonView::Number(Number::PosInt(status as u64))),
            ("body_len"@, JsonView::Number(Number::PosInt(encode_utf8(body).len() as u64))),
            ("body_preview"@, JsonView::Str(shown(body))),
        ],
    )
}

/// The answer to a probe: what was asked for, with how long a key, and what came back. The
/// key itself is not shown.
pub fn probe_report(url: &str, key: &Option<String>, status: u16, body: &str) -> (report: Json)
    ensures
        report@ == probe_body(url@, text_view(*key), status, body@),
{
    let key_len = match key {
        Some(k) => Json::Number(Number::PosInt(k.as_str().as_bytes().len() as u64)),
        None => Json::Null,
    };
    let list = vec![
        ("url".to_owned(), Json::string(url)),
        ("has_api_key".to_owned(), Json::Bool(key.is_some())),
        ("api_key_len".to_owned(), key_len),
        ("status".to_owned(), Json::Number(Number::PosInt(status as u64))),
        (
            "body_len".to_owned(),
            Json::Number(Number::PosInt(body.as_bytes().len() as u64)),
        ),
        ("body_preview".to_owned(), Json::string(preview(body).as_str())),
    ];
    assert(fields(list@) =~= probe_body(url@, text_view(*key), status, body@)->Object_0);
    Json::object(list)
}

// ---------------------------------------------------------------------------
// Authenticated requests
// ---------------------------------------------------------------------------

/// What becomes of an authenticated request.
#[verifier::ext_equal]
pub enum GateView {
    /// Refused without a signature: there is no session to sign with.
    Unsigned { reply: HttpReplyView },
    /// Refused with a signature.
    Signed { reply: HttpReplyView },
    /// A call of a method.
    Rpc,
}

#[derive(Debug, PartialEq, Eq)]
pub enum Gate {
    Unsigned { reply: HttpReply },
    Signed { reply: HttpReply },
    Rpc,
}

impl View for Gate {
    type V = GateView;

    open spec fn view(&self) -> GateView {
        match self {
            Gate::Unsigned { reply } => GateView::Unsigned { reply: reply@ },
            Gate::Signed { reply } => GateView::Signed { reply: reply@ },
            Gate::Rpc => GateView::Rpc,
        }
    }
}

/// Lets an authenticated request through to the methods: it needs a session, and only
/// `POST /` calls methods.
pub fn gate(has_session: bool, verb: Verb, path: &str) -> (gate: Gate)
    ensures
        gate@ == (if !has_session {
            GateView::Unsigned {
                reply: HttpReplyView {
                    status: 401,
                    body: error_body("ERR_NO_SESSION"@, "Authentication required"@),
                },
            }
        } else if path@ != "/"@ || verb != Verb::Post {
            GateView::Signed {
                reply: HttpReplyView {
                    status: 404,
                    body: error_body(
                        "NOT_FOUND"@,
                        "Unknown endpoint. Use POST / for JSON-RPC."@,
                    ),
                },
            }
        } else {
            GateView::Rpc
        }),
{
    if !has_session {
        Gate::Unsigned {
            reply: HttpReply {
                status: 401,
                body: error_json("ERR_NO_SESSION", "Authentication required"),
            },
        }
    } else if !same_text(path, "/") || verb != Verb::Post {
        Gate::Signed {
            reply: HttpReply {
                status: 404,
                body: error_json("NOT_FOUND", "Unknown endpoint. Use POST / for JSON-RPC."),
            },
        }
    } else {
        Gate::Rpc
    }
}

/// A setting: the secret where it is set, else the variable.
pub fn secret_or_var(secret: Option<String>, var: Option<String>) -> (value: Option<String>)
    ensures
        value == (if secret is Some {
            secret
        } else {
            var
        }),
{
    match secret {
        Some(s) => Some(s),
        None => var,
    }
}

/// A setting that counts only where it is not empty.
pub fn non_empty(var: Option<String>) -> (value: Option<String>)
    ensures
        value == (if var is Some && var->0@.len() > 0 {
            var
        } else {
            None
        }),
{
    match var {
        Some(v) => {
            if v.as_str().is_empty() {
                None
            } else {
                Some(v)
            }
        },
        None => None,
    }
}

/// A call of a method goes to authentication first, whatever it carries.
pub proof fn calls_go_to_authentication(verb: Verb, path: Seq<char>)
    ensures
        path == "/"@ && verb == Verb::Post ==> routed(verb, path) == Route::Authenticated,
{
    reveal_strlit("/");
    reveal_strlit("/monitor/run");
    reveal_strlit("/monitor/status");
    reveal_strlit("/monitor/probe-woc");
    assert("/"@.len() == 1);
    assert("/monitor/run"@.len() == 12);
}

} // verus!
