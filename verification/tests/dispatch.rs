//! Routing of requests and their answers.

use wallet_infra::backup::{BackupPut, ListStep, StatStep};
use wallet_infra::dispatch::{
    dispatch, find_method, find_or_insert_user_result, parse_error, plan_args, respond, Args,
    Method, Reply, Step,
};
use wallet_infra::error::Error;
use wallet_infra::json::{Json, Number};
use wallet_infra::types::AuthId;

const NAMES: [(&str, Method); 26] = [
    ("makeAvailable", Method::MakeAvailable),
    ("migrate", Method::Migrate),
    ("findOrInsertUser", Method::FindOrInsertUser),
    ("internalizeAction", Method::InternalizeAction),
    ("listOutputs", Method::ListOutputs),
    ("listActions", Method::ListActions),
    ("getBalance", Method::GetBalance),
    ("getAnalyticsSummary", Method::GetAnalyticsSummary),
    ("abortAction", Method::AbortAction),
    ("createAction", Method::CreateAction),
    ("processAction", Method::ProcessAction),
    (
        "updateTransactionStatusAfterBroadcast",
        Method::UpdateTransactionStatusAfterBroadcast,
    ),
    ("listCertificates", Method::ListCertificates),
    ("insertCertificate", Method::InsertCertificate),
    ("relinquishCertificate", Method::RelinquishCertificate),
    ("relinquishOutput", Method::RelinquishOutput),
    ("getSyncChunk", Method::GetSyncChunk),
    ("processSyncChunk", Method::ProcessSyncChunk),
    ("putBackup", Method::PutBackup),
    ("getBackup", Method::GetBackup),
    ("listBackups", Method::ListBackups),
    ("statBackups", Method::StatBackups),
    ("reviewStatus", Method::ReviewStatus),
    ("beginStorageTransaction", Method::BeginStorageTransaction),
    ("commitStorageTransaction", Method::CommitStorageTransaction),
    ("rollbackStorageTransaction", Method::RollbackStorageTransaction),
];

fn string(s: &str) -> Json {
    Json::Str(s.to_string())
}

fn number(n: u64) -> Json {
    Json::Number(Number::PosInt(n))
}

fn object(fields: Vec<(&str, Json)>) -> Json {
    Json::Object(fields.into_iter().map(|(k, v)| (k.to_string(), v)).collect())
}

fn id() -> Json {
    number(7)
}

fn who() -> AuthId {
    AuthId { identity_key: "02ab".to_string() }
}

fn start(method: &str, params: Json) -> Step {
    dispatch(method, params, id(), Some(&who()))
}

fn refused(step: Step, message: &str) {
    assert_eq!(
        step,
        Step::Answer {
            reply: Reply::Failure { id: id(), code: -32602, message: message.to_string() }
        }
    );
}

fn call(method: &str, params: Json) -> Step {
    match start(method, params) {
        Step::ResolveAuth { pending } => pending.after_auth(Ok((5, who()))),
        other => panic!("unexpected step {other:?}"),
    }
}

fn called(step: Step) -> Args {
    match step {
        Step::Call { user_id, args, id: i, .. } => {
            assert_eq!(user_id, Some(5));
            assert_eq!(i, id());
            args
        }
        other => panic!("unexpected step {other:?}"),
    }
}

#[test]
fn every_method_is_found_by_its_name() {
    for (name, method) in NAMES {
        assert_eq!(find_method(name), Some(method));
        assert_eq!(method.name(), name);
    }
    assert_eq!(find_method("MakeAvailable"), None);
    assert_eq!(find_method(""), None);
}

#[test]
fn an_unknown_method_is_answered_so() {
    assert_eq!(
        dispatch("noSuchMethod", Json::Null, id(), None),
        Step::Answer {
            reply: Reply::MethodNotFound { id: id(), method: "noSuchMethod".to_string() }
        }
    );
}

#[test]
fn methods_of_a_user_need_authentication() {
    let open = [
        Method::MakeAvailable,
        Method::Migrate,
        Method::FindOrInsertUser,
        Method::BeginStorageTransaction,
        Method::CommitStorageTransaction,
        Method::RollbackStorageTransaction,
    ];
    for (name, method) in NAMES {
        if !open.contains(&method) {
            refused(
                dispatch(name, Json::Null, id(), None),
                &format!("{name} requires authentication"),
            );
        }
    }
}

#[test]
fn methods_of_a_user_resolve_the_user_first() {
    let open = [
        Method::MakeAvailable,
        Method::Migrate,
        Method::FindOrInsertUser,
        Method::ReviewStatus,
        Method::BeginStorageTransaction,
        Method::CommitStorageTransaction,
        Method::RollbackStorageTransaction,
    ];
    for (name, method) in NAMES {
        if !open.contains(&method) {
            assert!(matches!(start(name, Json::Null), Step::ResolveAuth { .. }));
        }
    }
}

#[test]
fn transaction_tokens_are_answered_at_once() {
    assert_eq!(
        dispatch("beginStorageTransaction", Json::Null, id(), None),
        Step::Answer {
            reply: Reply::Success { id: id(), result: object(vec![("token", number(0))]) }
        }
    );
    for name in ["commitStorageTransaction", "rollbackStorageTransaction"] {
        assert_eq!(
            dispatch(name, Json::Null, id(), None),
            Step::Answer { reply: Reply::Success { id: id(), result: Json::Null } }
        );
    }
}

#[test]
fn a_user_that_is_not_found_is_answered() {
    match start("listOutputs", Json::Null) {
        Step::ResolveAuth { pending } => assert_eq!(
            pending.after_auth(Err(Error::NotFound("no user".to_string()))),
            Step::Answer {
                reply: Reply::Failure {
                    id: id(),
                    code: -32001,
                    message: "no user".to_string()
                }
            }
        ),
        other => panic!("unexpected step {other:?}"),
    }
}

#[test]
fn make_available_and_review_status_take_nothing() {
    assert_eq!(
        dispatch("makeAvailable", string("x"), id(), None),
        Step::Call { method: Method::MakeAvailable, user_id: None, args: Args::Nothing, id: id() }
    );
    assert_eq!(
        start("reviewStatus", Json::Null),
        Step::Call { method: Method::ReviewStatus, user_id: None, args: Args::Nothing, id: id() }
    );
}

fn names(params: Json) -> (String, String) {
    match dispatch("migrate", params, id(), None) {
        Step::Call { args: Args::Names { storage_name, storage_identity_key }, .. } => {
            (storage_name, storage_identity_key)
        }
        other => panic!("unexpected step {other:?}"),
    }
}

#[test]
fn migrate_takes_a_name_or_an_object() {
    let pair = |a: &str, b: &str| (a.to_string(), b.to_string());
    assert_eq!(names(Json::Array(vec![string("store")])), pair("store", ""));
    assert_eq!(names(Json::Null), pair("wallet-infra", ""));
    assert_eq!(names(Json::Array(vec![])), pair("wallet-infra", ""));
    assert_eq!(
        names(object(vec![("storageName", string("s")), ("storageIdentityKey", string("k"))])),
        pair("s", "k")
    );
    assert_eq!(names(object(vec![("storageName", number(1))])), pair("wallet-infra", ""));
}

#[test]
fn find_or_insert_user_needs_an_identity() {
    assert_eq!(
        dispatch("findOrInsertUser", Json::Array(vec![string("02cd")]), id(), None),
        Step::Call {
            method: Method::FindOrInsertUser,
            user_id: None,
            args: Args::Identity { identity_key: "02cd".to_string() },
            id: id()
        }
    );
    assert_eq!(
        dispatch("findOrInsertUser", object(vec![("identityKey", string("02ef"))]), id(), None),
        Step::Call {
            method: Method::FindOrInsertUser,
            user_id: None,
            args: Args::Identity { identity_key: "02ef".to_string() },
            id: id()
        }
    );
    refused(dispatch("findOrInsertUser", Json::Null, id(), None), "missing identityKey");
}

#[test]
fn internalize_action_writes_bytes_in_hexadecimal() {
    let tx = Json::Array(vec![
        number(1),
        number(0xab),
        string("skipped"),
        number(0x1ff),
        Json::Number(Number::NegInt(-1)),
    ]);
    let args = called(call(
        "internalizeAction",
        object(vec![("tx", tx), ("description", string("d"))]),
    ));
    assert_eq!(
        args,
        Args::Value {
            args: object(vec![("tx", string("01abff")), ("description", string("d"))])
        }
    );
}

#[test]
fn internalize_action_keeps_a_hexadecimal_text() {
    let params = || object(vec![("tx", string("beef"))]);
    assert_eq!(called(call("internalizeAction", params())), Args::Value { args: params() });
    assert_eq!(
        called(call("internalizeAction", Json::Array(vec![Json::Null, string("x")]))),
        Args::Value { args: string("x") }
    );
}

#[test]
fn plain_methods_take_their_arguments_after_the_authentication() {
    for name in ["listOutputs", "listActions", "getBalance", "createAction", "getSyncChunk"] {
        let args = called(call(name, Json::Array(vec![Json::Null, string("args")])));
        assert_eq!(args, Args::Value { args: string("args") });
    }
}

#[test]
fn a_broadcast_takes_a_list_or_an_object() {
    let method = "updateTransactionStatusAfterBroadcast";
    assert_eq!(
        called(call(method, Json::Array(vec![string("tx"), Json::Bool(true)]))),
        Args::Broadcast { txid: "tx".to_string(), success: true }
    );
    assert_eq!(
        called(call(method, Json::Array(vec![string("tx")]))),
        Args::Broadcast { txid: "tx".to_string(), success: false }
    );
    assert_eq!(
        called(call(method, object(vec![("success", Json::Bool(true)), ("txid", string("t"))]))),
        Args::Broadcast { txid: "t".to_string(), success: true }
    );
    refused(call(method, Json::Array(vec![])), "missing txid");
    refused(call(method, Json::Null), "missing txid");
}

#[test]
fn process_sync_chunk_takes_args_and_chunk() {
    let method = "processSyncChunk";
    let both = Args::Chunk { args: string("a"), chunk: string("c") };
    assert_eq!(called(call(method, Json::Array(vec![string("a"), string("c")]))), both);
    assert_eq!(
        called(call(method, object(vec![("chunk", string("c")), ("args", string("a"))]))),
        both
    );
    refused(call(method, Json::Array(vec![])), "processSyncChunk: missing args");
    refused(call(method, Json::Array(vec![string("a")])), "processSyncChunk: missing chunk");
    refused(
        call(method, object(vec![("chunk", string("c"))])),
        "processSyncChunk: missing args",
    );
    refused(
        call(method, object(vec![("args", string("a"))])),
        "processSyncChunk: missing chunk",
    );
    refused(
        call(method, string("x")),
        "processSyncChunk: expected [args, chunk] or {args, chunk}",
    );
}

#[test]
fn put_backup_goes_to_the_key_of_the_caller() {
    assert_eq!(
        called(call("putBackup", Json::Array(vec![string("AQID")]))),
        Args::Put { put: BackupPut { key: "backup/02ab".to_string(), bytes: vec![1, 2, 3] } }
    );
    assert_eq!(
        called(call("putBackup", Json::Array(vec![string("AQI="), string("device-1")]))),
        Args::Put {
            put: BackupPut { key: "backup/02ab/device-1".to_string(), bytes: vec![1, 2] }
        }
    );
    assert_eq!(
        called(call(
            "putBackup",
            object(vec![("blob", string("AQ==")), ("deviceId", string("device_22"))])
        )),
        Args::Put { put: BackupPut { key: "backup/02ab/device_22".to_string(), bytes: vec![1] } }
    );
}

#[test]
fn put_backup_refuses_what_it_cannot_store() {
    refused(call("putBackup", Json::Null), "putBackup: missing 'blob' (base64 string)");
    refused(
        call("putBackup", Json::Array(vec![number(1)])),
        "putBackup: missing 'blob' (base64 string)",
    );
    refused(
        call("putBackup", Json::Array(vec![string("A")])),
        "putBackup: bad base64 blob: Invalid input length: 1",
    );
    refused(
        call("putBackup", Json::Array(vec![string("AQID"), string("../etc")])),
        "putBackup: invalid deviceId (want 8-64 chars of [A-Za-z0-9_-])",
    );
}

#[test]
fn backups_are_read_and_listed_under_the_caller() {
    assert_eq!(
        called(call("getBackup", string("02ff"))),
        Args::Get { key: "backup/02ab".to_string() }
    );
    match called(call("listBackups", string("02ff"))) {
        Args::List { listing: ListStep::Page { listing, cursor } } => {
            assert_eq!(listing.prefix, "backup/02ab/");
            assert_eq!(listing.legacy_key, "backup/02ab");
            assert_eq!(cursor, None);
        }
        other => panic!("unexpected arguments {other:?}"),
    }
    match called(call("statBackups", string("02ff"))) {
        Args::Stat { report: StatStep::Page { report, cursor } } => {
            assert_eq!(report.prefix, "backup/02ab/");
            assert_eq!(report.legacy_key, "backup/02ab");
            assert_eq!(cursor, None);
        }
        other => panic!("unexpected arguments {other:?}"),
    }
}

#[test]
fn arguments_can_be_planned_for_a_method() {
    assert_eq!(
        plan_args(Method::GetBackup, &Json::Null, "02cd"),
        Ok(Args::Get { key: "backup/02cd".to_string() })
    );
}

#[test]
fn failures_have_codes() {
    let m = || "why".to_string();
    for (error, code) in [
        (Error::ValidationError(m()), -32602),
        (Error::NotFound(m()), -32001),
        (Error::DatabaseError(m()), -32603),
        (Error::InternalError(m()), -32603),
    ] {
        assert_eq!(
            respond(id(), Method::ListOutputs, Err(error)),
            Reply::Failure { id: id(), code, message: m() }
        );
    }
}

#[test]
fn results_have_their_shape() {
    let ok = |method: Method, value: Json| match respond(id(), method, Ok(value)) {
        Reply::Success { id: i, result } => {
            assert_eq!(i, id());
            result
        }
        other => panic!("unexpected reply {other:?}"),
    };
    assert_eq!(
        ok(Method::AbortAction, Json::Bool(true)),
        object(vec![("aborted", Json::Bool(true))])
    );
    assert_eq!(
        ok(Method::RelinquishCertificate, number(1)),
        object(vec![("relinquished", number(1))])
    );
    assert_eq!(
        ok(Method::RelinquishOutput, number(2)),
        object(vec![("relinquished", number(2))])
    );
    assert_eq!(
        ok(Method::ReviewStatus, number(3)),
        object(vec![("status_synced", number(3))])
    );
    assert_eq!(
        ok(Method::UpdateTransactionStatusAfterBroadcast, string("ignored")),
        Json::Null
    );
    assert_eq!(ok(Method::ListOutputs, string("as it is")), string("as it is"));
    assert_eq!(
        find_or_insert_user_result(string("u"), true),
        object(vec![("user", string("u")), ("isNew", Json::Bool(true))])
    );
}

fn error(code: i64, message: &str) -> Json {
    object(vec![("code", Json::Number(Number::NegInt(code))), ("message", string(message))])
}

#[test]
fn answers_are_sent_in_an_envelope() {
    assert_eq!(
        Reply::Success { id: id(), result: number(3) }.envelope(),
        object(vec![("jsonrpc", string("2.0")), ("id", id()), ("result", number(3))])
    );
    assert_eq!(
        Reply::Failure { id: id(), code: -32603, message: "boom".to_string() }.envelope(),
        object(vec![("jsonrpc", string("2.0")), ("id", id()), ("error", error(-32603, "boom"))])
    );
    assert_eq!(
        Reply::Failure { id: id(), code: 7, message: "".to_string() }.envelope(),
        object(vec![
            ("jsonrpc", string("2.0")),
            ("id", id()),
            ("error", object(vec![("code", number(7)), ("message", string(""))])),
        ])
    );
}

#[test]
fn an_unknown_method_has_its_own_code() {
    match start("noSuchMethod", Json::Null) {
        Step::Answer { reply } => assert_eq!(
            reply.envelope(),
            object(vec![
                ("jsonrpc", string("2.0")),
                ("id", id()),
                ("error", error(-32601, "Method not found: noSuchMethod")),
            ])
        ),
        other => panic!("unexpected step {other:?}"),
    }
}

#[test]
fn a_body_that_is_no_request_has_no_id() {
    assert_eq!(
        parse_error(),
        object(vec![
            ("jsonrpc", string("2.0")),
            ("id", Json::Null),
            ("error", error(-32700, "Parse error")),
        ])
    );
}
