//! Texts, instants, values and routes.

use wallet_infra::codec::hex_encode;
use wallet_infra::error::{invalid, Error};
use wallet_infra::http::{
    audit_level, gate, health, may_trigger, monitor_line, monitor_report, non_empty, preview,
    probe, probe_report, probe_url, query_value, refuse_run, route, secret_or_var,
    timeout_response, Gate, HttpReply, MonitorRun, Route, Verb, REQUEST_DEADLINE_SECS,
};
use wallet_infra::json::{Json, Number};
use wallet_infra::text::{decimal, is_before, join, same_text, sorted_distinct, TextMap};
use wallet_infra::time::{update_max, update_max_updated_at, Timestamp};

fn at(seconds: i64, nanos: u32) -> Timestamp {
    Timestamp { seconds, nanos }
}

fn string(s: &str) -> Json {
    Json::Str(s.to_string())
}

fn object(fields: Vec<(&str, Json)>) -> Json {
    Json::Object(fields.into_iter().map(|(k, v)| (k.to_string(), v)).collect())
}

fn pairs(list: &[(&str, &str)]) -> Vec<(String, String)> {
    list.iter().map(|(k, v)| (k.to_string(), v.to_string())).collect()
}

#[test]
fn instants_are_ordered() {
    assert!(at(2, 0).is_after(&at(1, 999_999_999)));
    assert!(at(1, 2).is_after(&at(1, 1)));
    assert!(!at(1, 1).is_after(&at(1, 1)));
    assert!(!at(-1, 5).is_after(&at(0, 0)));
}

#[test]
fn the_latest_instant_is_kept() {
    for update in [update_max, update_max_updated_at] {
        let mut max = None;
        for (t, expected) in [(3, 3), (1, 3), (3, 3), (7, 7)] {
            update(&mut max, at(t, 0));
            assert_eq!(max, Some(at(expected, 0)));
        }
    }
}

#[test]
fn texts_are_compared_and_joined() {
    assert!(same_text("añb", "añb"));
    assert!(!same_text("a", "ab"));
    assert!(is_before("a", "ab"));
    assert!(is_before("ab", "b"));
    assert!(!is_before("b", "b"));
    assert!(is_before("z", "é"));
    let list = |l: &[&str]| l.iter().map(|s| s.to_string()).collect::<Vec<String>>();
    assert_eq!(sorted_distinct(&list(&["b", "", "a", "b", "ab", "a"])), list(&["", "a", "ab", "b"]));
    assert_eq!(join(&list(&["a", "b", "c"]), ", "), "a, b, c");
    assert_eq!(join(&list(&["a"]), ", "), "a");
    assert_eq!(join(&vec![], ", "), "");
}

#[test]
fn numbers_are_written_in_decimal() {
    for n in [0, 1, 9, 10, 4096, -1, -907, i64::MAX, i64::MIN] {
        assert_eq!(decimal(n), n.to_string());
    }
}

#[test]
fn bytes_are_written_in_hexadecimal() {
    assert_eq!(hex_encode(&vec![]), "");
    assert_eq!(hex_encode(&vec![0, 9, 10, 0xf0, 255]), "00090af0ff");
}

#[test]
fn a_map_keeps_the_last_value() {
    let mut map: TextMap<u32> = TextMap::new();
    assert!(map.is_empty());
    map.insert("a".to_string(), 1);
    map.insert("b".to_string(), 2);
    map.insert("a".to_string(), 3);
    assert!(!map.is_empty());
    assert_eq!(map.get("a"), Some(3));
    assert_eq!(map.get("b"), Some(2));
    assert_eq!(map.get("c"), None);
}

#[test]
fn values_are_read_by_name_and_place() {
    let value = object(vec![("a", Json::Bool(true)), ("b", string("x"))]);
    assert_eq!(value.get("b"), Some(&string("x")));
    assert_eq!(value.get("c"), None);
    assert_eq!(value.at(0), None);
    assert_eq!(string("x").get("a"), None);
    let list = Json::Array(vec![Json::Null, string("y")]);
    assert_eq!(list.at(1), Some(&string("y")));
    assert_eq!(list.at(2), None);
    assert_eq!(list.get("a"), None);
    assert_eq!(string("y").as_str(), Some("y"));
    assert_eq!(Json::Null.as_str(), None);
    assert_eq!(Json::Bool(false).as_bool(), Some(false));
    assert_eq!(string("true").as_bool(), None);
    assert_eq!(Json::Number(Number::PosInt(7)).as_u64(), Some(7));
    assert_eq!(Json::Number(Number::NegInt(-7)).as_u64(), None);
    assert_eq!(Json::Number(Number::FloatBits(7f64.to_bits())).as_u64(), None);
    assert_eq!(value.copy(), value);
    assert_eq!(
        object(vec![("a", Json::Null), ("b", Json::Null)]).replace("a", string("z")),
        object(vec![("a", string("z")), ("b", Json::Null)])
    );
}

#[test]
fn errors_carry_their_message() {
    assert_eq!(invalid("why"), Error::ValidationError("why".to_string()));
}

#[test]
fn requests_are_routed() {
    for verb in [Verb::Get, Verb::Post, Verb::Other] {
        assert_eq!(route(verb, "/.well-known/auth"), Route::Authenticated);
    }
    assert_eq!(route(Verb::Options, "/monitor/run"), Route::Preflight);
    assert_eq!(route(Verb::Get, "/"), Route::Health);
    assert_eq!(route(Verb::Post, "/"), Route::Authenticated);
    assert_eq!(route(Verb::Get, "/monitor/status"), Route::MonitorStatus);
    assert_eq!(route(Verb::Post, "/monitor/status"), Route::Authenticated);
    assert_eq!(route(Verb::Post, "/monitor/run"), Route::MonitorRun);
    assert_eq!(route(Verb::Get, "/monitor/run"), Route::Authenticated);
    assert_eq!(route(Verb::Get, "/monitor/probe-woc"), Route::ProbeWoc);
    assert_eq!(route(Verb::Get, "/monitor/audit"), Route::Audit);
    assert_eq!(route(Verb::Get, "/monitor/audit/deep"), Route::Audit);
    assert_eq!(route(Verb::Get, "/monitor/audi"), Route::Authenticated);
    assert_eq!(route(Verb::Post, "/monitor/audit"), Route::Authenticated);
}

#[test]
fn fixed_answers() {
    assert_eq!(
        health(),
        HttpReply {
            status: 200,
            body: object(vec![("status", string("ok")), ("service", string("wallet-infra"))])
        }
    );
    assert_eq!(
        timeout_response(),
        HttpReply {
            status: 503,
            body: object(vec![
                ("status", string("error")),
                ("code", string("ERR_TIMEOUT")),
                ("description", string("Storage request timed out; please retry.")),
            ])
        }
    );
    assert_eq!(REQUEST_DEADLINE_SECS, 12);
}

#[test]
fn the_first_pair_of_a_query_counts() {
    let q = pairs(&[("a", "1"), ("b", "2"), ("a", "3")]);
    assert_eq!(query_value(&q, "a"), Some("1".to_string()));
    assert_eq!(query_value(&q, "c"), None);
}

#[test]
fn the_monitor_needs_its_key() {
    let key = |k: &str| Some(k.to_string());
    assert!(may_trigger(&key("k"), &key("k")));
    assert!(!may_trigger(&key("k"), &key("x")));
    assert!(!may_trigger(&key("k"), &None));
    assert!(!may_trigger(&key(""), &key("")));
    assert!(!may_trigger(&None, &key("")));
    assert!(!may_trigger(&None, &None));
    assert_eq!(refuse_run(&key("k"), &pairs(&[("key", "k")])), None);
    let refusal = refuse_run(&key("k"), &pairs(&[("Key", "k")])).unwrap();
    assert_eq!(refusal.status, 401);
    assert_eq!(
        refusal.body,
        object(vec![(
            "error",
            string("unauthorized — set MONITOR_TRIGGER_KEY secret and pass ?key=<value>")
        )])
    );
}

#[test]
fn a_probe_needs_a_txid() {
    let key = Some("k".to_string());
    let txid = "a".repeat(64);
    assert_eq!(probe(&key, &pairs(&[("key", "k"), ("txid", &txid)])), Ok(txid.clone()));
    assert_eq!(
        probe(&key, &pairs(&[("key", "no"), ("txid", &txid)])),
        Err(HttpReply { status: 401, body: object(vec![("error", string("unauthorized"))]) })
    );
    let bad = Err(HttpReply {
        status: 400,
        body: object(vec![("error", string("txid must be 64-char hex"))]),
    });
    assert_eq!(probe(&key, &pairs(&[("key", "k"), ("txid", "aa")])), bad);
    assert_eq!(probe(&key, &pairs(&[("key", "k")])), bad);
    assert_eq!(probe(&key, &pairs(&[("key", "k"), ("txid", &"é".repeat(32))])).is_ok(), true);
}

#[test]
fn an_audit_has_a_level() {
    let level = |text: &str| audit_level(&pairs(&[("level", text)]));
    for n in [0u8, 1, 9, 10, 99, 255] {
        assert_eq!(level(&n.to_string()), n);
    }
    assert_eq!(level("+3"), 3);
    assert_eq!(level("007"), 7);
    for text in ["", "+", "-1", "256", "1000", " 1", "x"] {
        assert_eq!(text.parse::<u8>().ok(), None);
        assert_eq!(level(text), 2);
    }
    assert_eq!(audit_level(&vec![]), 2);
}

#[test]
fn only_calls_pass_the_gate() {
    assert_eq!(gate(true, Verb::Post, "/"), Gate::Rpc);
    match gate(false, Verb::Post, "/") {
        Gate::Unsigned { reply } => {
            assert_eq!(reply.status, 401);
            assert_eq!(reply.body.get("code"), Some(&string("ERR_NO_SESSION")));
            assert_eq!(reply.body.get("description"), Some(&string("Authentication required")));
        }
        other => panic!("unexpected gate {other:?}"),
    }
    for (verb, path) in [(Verb::Get, "/"), (Verb::Post, "/x")] {
        match gate(true, verb, path) {
            Gate::Signed { reply } => {
                assert_eq!(reply.status, 404);
                assert_eq!(
                    reply.body,
                    object(vec![
                        ("status", string("error")),
                        ("code", string("NOT_FOUND")),
                        ("description", string("Unknown endpoint. Use POST / for JSON-RPC.")),
                    ])
                );
            }
            other => panic!("unexpected gate {other:?}"),
        }
    }
}

#[test]
fn settings_fall_back() {
    let v = |s: &str| Some(s.to_string());
    assert_eq!(secret_or_var(v("s"), v("v")), v("s"));
    assert_eq!(secret_or_var(None, v("v")), v("v"));
    assert_eq!(secret_or_var(None, None), None);
    assert_eq!(non_empty(v("u")), v("u"));
    assert_eq!(non_empty(v("")), None);
    assert_eq!(non_empty(None), None);
}

fn count(n: u64) -> Json {
    Json::Number(Number::PosInt(n))
}

fn monitor_run() -> MonitorRun {
    MonitorRun {
        sent: 1,
        send_errors: 2,
        proofs_found: 3,
        proofs_checked: 4,
        abandoned_failed: 5,
        status_synced: 6,
        beef_compacted: 7,
        unfail_recovered: 8,
        purged: 9,
        nosend_found: 10,
        reorg_detected: true,
        reorg_depth: 11,
        proofs_reverified: 12,
        errors: vec!["first".to_string(), "second".to_string()],
    }
}

#[test]
fn a_run_of_the_monitor_is_reported() {
    assert_eq!(
        monitor_report(&monitor_run()),
        object(vec![
            ("sent", count(1)),
            ("send_errors", count(2)),
            ("proofs_found", count(3)),
            ("proofs_checked", count(4)),
            ("abandoned_failed", count(5)),
            ("status_synced", count(6)),
            ("beef_compacted", count(7)),
            ("unfail_recovered", count(8)),
            ("purged", count(9)),
            ("nosend_found", count(10)),
            ("reorg_detected", Json::Bool(true)),
            ("reorg_depth", count(11)),
            ("proofs_reverified", count(12)),
            ("errors", Json::Array(vec![string("first"), string("second")])),
        ])
    );
    assert_eq!(
        monitor_line(&monitor_run()),
        "Monitor: 1 sent, 2 send errors, 3 proofs found, 4 checked, 5 abandoned failed, 6 status \
         synced, 7 beef compacted, 8 unfail recovered, 9 purged, 10 nosend found, reorg=true \
         depth=11 reverified=12, 2 errors"
    );
}

#[test]
fn a_probe_tells_what_came_back() {
    let url = probe_url("ab");
    assert_eq!(url, "https://api.whatsonchain.com/v1/bsv/main/tx/ab/proof/tsc");
    assert_eq!(
        probe_report(&url, &Some("key".to_string()), 200, "[]"),
        object(vec![
            ("url", string(&url)),
            ("has_api_key", Json::Bool(true)),
            ("api_key_len", count(3)),
            ("status", count(200)),
            ("body_len", count(2)),
            ("body_preview", string("[]")),
        ])
    );
    assert_eq!(
        probe_report("u", &None, 404, ""),
        object(vec![
            ("url", string("u")),
            ("has_api_key", Json::Bool(false)),
            ("api_key_len", Json::Null),
            ("status", count(404)),
            ("body_len", count(0)),
            ("body_preview", string("")),
        ])
    );
}

#[test]
fn a_preview_is_cut_between_characters() {
    assert_eq!(preview(&"a".repeat(500)), "a".repeat(500));
    assert_eq!(preview(&"a".repeat(501)), "a".repeat(500));
    let wide = format!("{}\u{20ac}b", "a".repeat(499));
    assert_eq!(preview(&wide), "a".repeat(499));
    let fits = format!("{}\u{20ac}b", "a".repeat(497));
    assert_eq!(preview(&fits), format!("{}\u{20ac}", "a".repeat(497)));
}
