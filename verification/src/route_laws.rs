//! Where requests go and how they are answered, said of the names of the methods and of the
//! fields of what is sent.

use crate::dispatch::{
    a_method_is_reached_by_its_name, calling, envelope_of, error_envelope, failure, method_named,
    number_of, result_of, routed, user_answer, ArgsView, Method, ReplyView, StepView,
};
use crate::error::ErrorView;
use crate::json::{JsonView, Number};
use crate::json_laws::{
    a_field_is_the_first_of_its_name, a_missing_field_is_none, first_of_its_name, nowhere,
    stands_under, what_stands_under_a_name_is_read,
};
use vstd::prelude::*;

verus! {

// ---------------------------------------------------------------------------
// Routes
// ---------------------------------------------------------------------------

/// A method is reached by no other name than its own.
pub proof fn no_other_name_reaches_a_method(name: Seq<char>, method: Method)
    ensures
        method_named(name) == Some(method) ==> name == method.text(),
{
}

/// The methods have these names.
pub proof fn methods_have_their_names()
    ensures
        Method::MakeAvailable.text() == "makeAvailable"@,
        Method::Migrate.text() == "migrate"@,
        Method::FindOrInsertUser.text() == "findOrInsertUser"@,
        Method::InternalizeAction.text() == "internalizeAction"@,
        Method::ListOutputs.text() == "listOutputs"@,
        Method::ListActions.text() == "listActions"@,
        Method::GetBalance.text() == "getBalance"@,
        Method::GetAnalyticsSummary.text() == "getAnalyticsSummary"@,
        Method::AbortAction.text() == "abortAction"@,
        Method::CreateAction.text() == "createAction"@,
        Method::ProcessAction.text() == "processAction"@,
        Method::UpdateTransactionStatusAfterBroadcast.text()
            == "updateTransactionStatusAfterBroadcast"@,
        Method::ListCertificates.text() == "listCertificates"@,
        Method::InsertCertificate.text() == "insertCertificate"@,
        Method::RelinquishCertificate.text() == "relinquishCertificate"@,
        Method::RelinquishOutput.text() == "relinquishOutput"@,
        Method::GetSyncChunk.text() == "getSyncChunk"@,
        Method::ProcessSyncChunk.text() == "processSyncChunk"@,
        Method::PutBackup.text() == "putBackup"@,
        Method::GetBackup.text() == "getBackup"@,
        Method::ListBackups.text() == "listBackups"@,
        Method::StatBackups.text() == "statBackups"@,
        Method::ReviewStatus.text() == "reviewStatus"@,
        Method::BeginStorageTransaction.text() == "beginStorageTransaction"@,
        Method::CommitStorageTransaction.text() == "commitStorageTransaction"@,
        Method::RollbackStorageTransaction.text() == "rollbackStorageTransaction"@,
{
}

/// Whether a method is called for the user that a request is authenticated as.
pub open spec fn is_for_a_user(method: Method) -> bool {
    !(method == Method::MakeAvailable || method == Method::Migrate || method
        == Method::FindOrInsertUser || method == Method::ReviewStatus || method
        == Method::BeginStorageTransaction || method == Method::CommitStorageTransaction || method
        == Method::RollbackStorageTransaction)
}

/// With authentication every method for a user goes on to find that user, with the
/// parameters and the id of the request.
pub proof fn a_user_is_found_first(method: Method, params: JsonView, id: JsonView)
    requires
        is_for_a_user(method),
    ensures
        routed(method.text(), params, id, true) == (StepView::ResolveAuth { method, params, id }),
{
    a_method_is_reached_by_its_name(method);
}

/// Without authentication every method for a user, and the review of statuses, is refused
/// with its name.
pub proof fn an_unknown_caller_is_refused(method: Method, params: JsonView, id: JsonView)
    requires
        is_for_a_user(method) || method == Method::ReviewStatus,
    ensures
        routed(method.text(), params, id, false) == (StepView::Answer {
            reply: ReplyView::Failure {
                id,
                code: -32602,
                message: method.text() + " requires authentication"@,
            },
        }),
{
    a_method_is_reached_by_its_name(method);
}

/// The methods without a user that take nothing are called at once, and the tokens of
/// transactions are answered at once.
pub proof fn methods_without_a_user(params: JsonView, id: JsonView, authenticated: bool)
    ensures
        routed(Method::MakeAvailable.text(), params, id, authenticated) == (StepView::Call {
            method: Method::MakeAvailable,
            user_id: None,
            args: ArgsView::Nothing,
            id,
        }),
        routed(Method::ReviewStatus.text(), params, id, true) == (StepView::Call {
            method: Method::ReviewStatus,
            user_id: None,
            args: ArgsView::Nothing,
            id,
        }),
        routed(Method::BeginStorageTransaction.text(), params, id, authenticated) == (
        StepView::Answer {
            reply: ReplyView::Success {
                id,
                result: JsonView::Object(
                    seq![("token"@, JsonView::Number(Number::PosInt(0)))],
                ),
            },
        }),
        routed(Method::CommitStorageTransaction.text(), params, id, authenticated) == (
        StepView::Answer { reply: ReplyView::Success { id, result: JsonView::Null } }),
        routed(Method::RollbackStorageTransaction.text(), params, id, authenticated) == (
        StepView::Answer { reply: ReplyView::Success { id, result: JsonView::Null } }),
{
    a_method_is_reached_by_its_name(Method::MakeAvailable);
    a_method_is_reached_by_its_name(Method::ReviewStatus);
    a_method_is_reached_by_its_name(Method::BeginStorageTransaction);
    a_method_is_reached_by_its_name(Method::CommitStorageTransaction);
    a_method_is_reached_by_its_name(Method::RollbackStorageTransaction);
}

/// Whether parameters have arguments in front: by themselves, or first in a list.
pub open spec fn leads_with(params: JsonView, args: JsonView) -> bool {
    match params {
        JsonView::Array(list) => list.len() > 0 && list[0] == args,
        _ => params == args,
    }
}

/// The text that stands under a name, else another.
pub open spec fn text_else(value: Option<JsonView>, other: Seq<char>) -> Seq<char> {
    match value {
        Some(JsonView::Str(text)) => text,
        _ => other,
    }
}

/// A migration is called with the name that leads its parameters and no key, or with the name
/// and the key of an object, each of which has a default.
pub proof fn a_migration_is_called_with_its_names(
    params: JsonView,
    args: JsonView,
    name: Option<JsonView>,
    key: Option<JsonView>,
    id: JsonView,
    authenticated: bool,
)
    requires
        leads_with(params, args),
        match args {
            JsonView::Object(list) => stands_under(list, "storageName"@, name) && stands_under(
                list,
                "storageIdentityKey"@,
                key,
            ),
            _ => name is None && key is None,
        },
    ensures
        routed(Method::Migrate.text(), params, id, authenticated) == (StepView::Call {
            method: Method::Migrate,
            user_id: None,
            args: match args {
                JsonView::Str(text) => ArgsView::Names {
                    storage_name: text,
                    storage_identity_key: ""@,
                },
                _ => ArgsView::Names {
                    storage_name: text_else(name, "wallet-infra"@),
                    storage_identity_key: text_else(key, ""@),
                },
            },
            id,
        }),
{
    a_method_is_reached_by_its_name(Method::Migrate);
    if let JsonView::Object(list) = args {
        what_stands_under_a_name_is_read(list, "storageName"@, name);
        what_stands_under_a_name_is_read(list, "storageIdentityKey"@, key);
    }
}

/// A user is looked for by the text that leads the parameters, or by that under
/// `identityKey`; without either the request is refused.
pub proof fn a_user_is_looked_for_by_the_key(
    params: JsonView,
    args: JsonView,
    key: Option<JsonView>,
    id: JsonView,
    authenticated: bool,
)
    requires
        leads_with(params, args),
        match args {
            JsonView::Object(list) => stands_under(list, "identityKey"@, key),
            _ => key is None,
        },
    ensures
        ({
            let step = routed(Method::FindOrInsertUser.text(), params, id, authenticated);
            match (args, key) {
                (JsonView::Str(text), _) | (_, Some(JsonView::Str(text))) => step == (
                StepView::Call {
                    method: Method::FindOrInsertUser,
                    user_id: None,
                    args: ArgsView::Identity { identity_key: text },
                    id,
                }),
                _ => step == (StepView::Answer {
                    reply: ReplyView::Failure {
                        id,
                        code: -32602,
                        message: "missing identityKey"@,
                    },
                }),
            }
        }),
{
    a_method_is_reached_by_its_name(Method::FindOrInsertUser);
    if let JsonView::Object(list) = args {
        what_stands_under_a_name_is_read(list, "identityKey"@, key);
    }
}

/// A method is called with exactly the arguments that were accepted, for the user that was
/// found; arguments that were refused are answered with the reason.
pub proof fn accepted_arguments_reach_the_method(
    method: Method,
    user_id: Option<i64>,
    args: ArgsView,
    error: ErrorView,
    id: JsonView,
)
    ensures
        calling(method, user_id, Ok(args), id) == (StepView::Call { method, user_id, args, id }),
        calling(method, user_id, Err(error), id) == (StepView::Answer {
            reply: failure(id, error),
        }),
{
}

// ---------------------------------------------------------------------------
// Answers
// ---------------------------------------------------------------------------

/// Each kind of failure has its code, and every one keeps its message.
pub proof fn a_failure_keeps_its_message(id: JsonView, message: Seq<char>)
    ensures
        failure(id, ErrorView::ValidationError(message)) == (ReplyView::Failure {
            id,
            code: -32602,
            message,
        }),
        failure(id, ErrorView::NotFound(message)) == (ReplyView::Failure {
            id,
            code: -32001,
            message,
        }),
        failure(id, ErrorView::DatabaseError(message)) == (ReplyView::Failure {
            id,
            code: -32603,
            message,
        }),
        failure(id, ErrorView::InternalError(message)) == (ReplyView::Failure {
            id,
            code: -32603,
            message,
        }),
{
}

/// An answer of the store is passed on as it is, or as the one field of an object; nothing of
/// it is passed on for the outcome of a broadcast and the tokens of transactions.
pub proof fn an_answer_is_passed_on(method: Method, value: JsonView)
    ensures
        method == Method::AbortAction ==> result_of(method, value) == JsonView::Object(
            seq![("aborted"@, value)],
        ),
        method == Method::RelinquishCertificate || method == Method::RelinquishOutput ==> result_of(
            method,
            value,
        ) == JsonView::Object(seq![("relinquished"@, value)]),
        method == Method::ReviewStatus ==> result_of(method, value) == JsonView::Object(
            seq![("status_synced"@, value)],
        ),
        method == Method::UpdateTransactionStatusAfterBroadcast ==> result_of(method, value)
            == JsonView::Null,
        method == Method::MakeAvailable || method == Method::Migrate || method
            == Method::FindOrInsertUser || method == Method::InternalizeAction || method
            == Method::ListOutputs || method == Method::ListActions || method == Method::GetBalance
            || method == Method::GetAnalyticsSummary || method == Method::CreateAction || method
            == Method::ProcessAction || method == Method::ListCertificates || method
            == Method::InsertCertificate || method == Method::GetSyncChunk || method
            == Method::ProcessSyncChunk || method == Method::PutBackup || method
            == Method::GetBackup || method == Method::ListBackups || method == Method::StatBackups
            ==> result_of(method, value) == value,
{
}

/// A whole number is sent as itself.
pub proof fn a_number_is_sent_as_itself(n: i64)
    ensures
        match number_of(n) {
            Number::PosInt(m) => m as int == n as int,
            Number::NegInt(m) => m == n && n < 0,
            Number::FloatBits(_) => false,
        },
{
}

/// What is sent for an answer has the version, the id of the request and the result, and no
/// error.
pub proof fn a_result_is_sent(id: JsonView, result: JsonView)
    ensures
        ({
            let sent = envelope_of(ReplyView::Success { id, result });
            &&& sent.field("jsonrpc"@) == Some(JsonView::Str("2.0"@))
            &&& sent.field("id"@) == Some(id)
            &&& sent.field("result"@) == Some(result)
            &&& sent.field("error"@) is None
        }),
{
    let sent = envelope_of(ReplyView::Success { id, result });
    let list = sent->Object_0;
    names_differ();
    assert(first_of_its_name(list, "jsonrpc"@, 0));
    assert(first_of_its_name(list, "id"@, 1));
    assert(first_of_its_name(list, "result"@, 2));
    assert(nowhere(list, "error"@));
    a_field_is_the_first_of_its_name(list, "jsonrpc"@, 0, JsonView::Null);
    a_field_is_the_first_of_its_name(list, "id"@, 1, JsonView::Null);
    a_field_is_the_first_of_its_name(list, "result"@, 2, JsonView::Null);
    a_missing_field_is_none(sent, "error"@, JsonView::Null);
}

proof fn names_differ()
    ensures
        "jsonrpc"@.len() == 7,
        "id"@.len() == 2,
        "result"@.len() == 6,
        "error"@.len() == 5,
        "code"@.len() == 4,
        "message"@.len() == 7,
        "user"@.len() == 4,
        "isNew"@.len() == 5,
{
    reveal_strlit("jsonrpc");
    reveal_strlit("id");
    reveal_strlit("result");
    reveal_strlit("error");
    reveal_strlit("code");
    reveal_strlit("message");
    reveal_strlit("user");
    reveal_strlit("isNew");
}

/// Whether an object is that of an error with a code and a message, and of no result.
pub open spec fn is_error_object(
    sent: JsonView,
    id: JsonView,
    code: i64,
    message: Seq<char>,
) -> bool {
    &&& sent.field("jsonrpc"@) == Some(JsonView::Str("2.0"@))
    &&& sent.field("id"@) == Some(id)
    &&& sent.field("result"@) is None
    &&& sent.field("error"@) matches Some(error) && error.field("code"@) == Some(
        JsonView::Number(number_of(code)),
    ) && error.field("message"@) == Some(JsonView::Str(message))
}

proof fn an_error_object(id: JsonView, code: i64, message: Seq<char>)
    ensures
        is_error_object(error_envelope(id, code, message), id, code, message),
{
    let sent = error_envelope(id, code, message);
    let list = sent->Object_0;
    let error = list[2].1->Object_0;
    names_differ();
    assert(first_of_its_name(list, "jsonrpc"@, 0));
    assert(first_of_its_name(list, "id"@, 1));
    assert(first_of_its_name(list, "error"@, 2));
    assert(nowhere(list, "result"@));
    assert(first_of_its_name(error, "code"@, 0));
    assert(first_of_its_name(error, "message"@, 1));
    a_field_is_the_first_of_its_name(list, "jsonrpc"@, 0, JsonView::Null);
    a_field_is_the_first_of_its_name(list, "id"@, 1, JsonView::Null);
    a_field_is_the_first_of_its_name(list, "error"@, 2, JsonView::Null);
    a_missing_field_is_none(sent, "result"@, JsonView::Null);
    a_field_is_the_first_of_its_name(error, "code"@, 0, JsonView::Null);
    a_field_is_the_first_of_its_name(error, "message"@, 1, JsonView::Null);
}

/// What is sent for a failure has its code and its message, and what is sent for a method
/// that nobody knows has the code for that and the name of the method.
pub proof fn an_error_is_sent(id: JsonView, code: i64, message: Seq<char>, method: Seq<char>)
    ensures
        is_error_object(
            envelope_of(ReplyView::Failure { id, code: code as int, message }),
            id,
            code,
            message,
        ),
        is_error_object(
            envelope_of(ReplyView::MethodNotFound { id, method }),
            id,
            -32601i64,
            "Method not found: "@ + method,
        ),
        is_error_object(
            error_envelope(JsonView::Null, -32700i64, "Parse error"@),
            JsonView::Null,
            -32700i64,
            "Parse error"@,
        ),
{
    an_error_object(id, code, message);
    an_error_object(id, -32601i64, "Method not found: "@ + method);
    an_error_object(JsonView::Null, -32700i64, "Parse error"@);
}

/// The answer that tells a user has the user and whether it is new.
pub proof fn a_user_is_told(user: JsonView, inserted: bool)
    ensures
        user_answer(user, inserted).field("user"@) == Some(user),
        user_answer(user, inserted).field("isNew"@) == Some(JsonView::Bool(inserted)),
{
    let list = user_answer(user, inserted)->Object_0;
    names_differ();
    assert(first_of_its_name(list, "user"@, 0));
    assert(first_of_its_name(list, "isNew"@, 1));
    a_field_is_the_first_of_its_name(list, "user"@, 0, JsonView::Null);
    a_field_is_the_first_of_its_name(list, "isNew"@, 1, JsonView::Null);
}

} // verus!
