//! Routing of requests: which method a request calls, whether it may, with which arguments,
//! and how it is answered.
//!
//! Clients send their parameters as a list, with or without the authentication first, or as
//! an object. Handlers accept both.

use crate::backup::{
    backup_object_key, list_backups, object_key, put_backup, requested_put, stat_backups,
    BackupPut, BackupPutView, ListStep, ListStepView, StatStep, StatStepView,
};
use crate::codec::{hex_encode, hex_text};
use crate::error::{invalid, Error, ErrorView};
use crate::json::{fields, flag_of, items, text_of, Json, JsonView, Number};
use crate::text::same_text;
use crate::types::AuthId;
use vstd::prelude::*;

verus! {

// ---------------------------------------------------------------------------
// Parameters
// ---------------------------------------------------------------------------

/// The arguments among the parameters of a request: the second of a list for a method with
/// authentication, the first where there is no second or no authentication, nothing of an
/// empty list, and anything that is no list as it is.
pub open spec fn extracted(params: JsonView, auth_method: bool) -> JsonView {
    match params {
        JsonView::Array(list) => if auth_method && list.len() >= 2 {
            list[1]
        } else if list.len() > 0 {
            list[0]
        } else {
            JsonView::Null
        },
        _ => params,
    }
}

/// The arguments among the parameters of a request.
pub fn extract_args(params: &Json, auth_method: bool) -> (args: Json)
    ensures
        args@ == extracted(params@, auth_method),
{
    match params.elements() {
        Some(list) => {
            if auth_method && list.len() >= 2 {
                assert(items(list@)[1] == list@[1]@);
                list[1].copy()
            } else if list.len() > 0 {
                assert(items(list@)[0] == list@[0]@);
                list[0].copy()
            } else {
                Json::Null
            }
        },
        None => params.copy(),
    }
}

/// For a list of two or more the arguments depend on whether the method has
/// authentication; for any other parameters they do not.
pub proof fn authentication_shifts_the_arguments(params: JsonView)
    ensures
        params is Array && params->Array_0.len() >= 2 ==> extracted(params, true)
            == params->Array_0[1] && extracted(params, false) == params->Array_0[0],
        !(params is Array && params->Array_0.len() >= 2) ==> extracted(params, true)
            == extracted(params, false),
        !(params is Array) ==> extracted(params, true) == params,
{
}

fn optional_text<'a>(value: Option<&'a Json>) -> (text: Option<&'a str>)
    ensures
        crate::json::seen_text(text) == text_of(crate::json::seen(value)),
{
    match value {
        Some(v) => v.as_str(),
        None => None,
    }
}

fn optional_flag(value: Option<&Json>) -> (flag: Option<bool>)
    ensures
        flag == flag_of(crate::json::seen(value)),
{
    match value {
        Some(v) => v.as_bool(),
        None => None,
    }
}

// ---------------------------------------------------------------------------
// Methods
// ---------------------------------------------------------------------------

/// The methods of the server.
#[derive(Clone, Copy, Debug, PartialEq, Eq, Structural)]
pub enum Method {
    MakeAvailable,
    Migrate,
    FindOrInsertUser,
    InternalizeAction,
    ListOutputs,
    ListActions,
    GetBalance,
    GetAnalyticsSummary,
    AbortAction,
    CreateAction,
    ProcessAction,
    UpdateTransactionStatusAfterBroadcast,
    ListCertificates,
    InsertCertificate,
    RelinquishCertificate,
    RelinquishOutput,
    GetSyncChunk,
    ProcessSyncChunk,
    PutBackup,
    GetBackup,
    ListBackups,
    StatBackups,
    ReviewStatus,
    BeginStorageTransaction,
    CommitStorageTransaction,
    RollbackStorageTransaction,
}

impl Method {
    /// The name of the method in a request.
    pub open spec fn text(self) -> Seq<char> {
        match self {
            Method::MakeAvailable => "makeAvailable"@,
            Method::Migrate => "migrate"@,
            Method::FindOrInsertUser => "findOrInsertUser"@,
            Method::InternalizeAction => "internalizeAction"@,
            Method::ListOutputs => "listOutputs"@,
            Method::ListActions => "listActions"@,
            Method::GetBalance => "getBalance"@,
            Method::GetAnalyticsSummary => "getAnalyticsSummary"@,
            Method::AbortAction => "abortAction"@,
            Method::CreateAction => "createAction"@,
            Method::ProcessAction => "processAction"@,
            Method::UpdateTransactionStatusAfterBroadcast => "updateTransactionStatusAfterBroadcast"@,
            Method::ListCertificates => "listCertificates"@,
            Method::InsertCertificate => "insertCertificate"@,
            Method::RelinquishCertificate => "relinquishCertificate"@,
            Method::RelinquishOutput => "relinquishOutput"@,
            Method::GetSyncChunk => "getSyncChunk"@,
            Method::ProcessSyncChunk => "processSyncChunk"@,
            Method::PutBackup => "putBackup"@,
            Method::GetBackup => "getBackup"@,
            Method::ListBackups => "listBackups"@,
            Method::StatBackups => "statBackups"@,
            Method::ReviewStatus => "reviewStatus"@,
            Method::BeginStorageTransaction => "beginStorageTransaction"@,
            Method::CommitStorageTransaction => "commitStorageTransaction"@,
            Method::RollbackStorageTransaction => "rollbackStorageTransaction"@,
        }
    }

    /// The name of the method in a request.
    pub fn name(&self) -> (name: &'static str)
        ensures
            name@ == self.text(),
    {
        match self {
            Method::MakeAvailable => "makeAvailable",
            Method::Migrate => "migrate",
            Method::FindOrInsertUser => "findOrInsertUser",
            Method::InternalizeAction => "internalizeAction",
            Method::ListOutputs => "listOutputs",
            Method::ListActions => "listActions",
            Method::GetBalance => "getBalance",
            Method::GetAnalyticsSummary => "getAnalyticsSummary",
            Method::AbortAction => "abortAction",
            Method::CreateAction => "createAction",
            Method::ProcessAction => "processAction",
            Method::UpdateTransactionStatusAfterBroadcast => "updateTransactionStatusAfterBroadcast",
            Method::ListCertificates => "listCertificates",
            Method::InsertCertificate => "insertCertificate",
            Method::RelinquishCertificate => "relinquishCertificate",
            Method::RelinquishOutput => "relinquishOutput",
            Method::GetSyncChunk => "getSyncChunk",
            Method::ProcessSyncChunk => "processSyncChunk",
            Method::PutBackup => "putBackup",
            Method::GetBackup => "getBackup",
            Method::ListBackups => "listBackups",
            Method::StatBackups => "statBackups",
            Method::ReviewStatus => "reviewStatus",
            Method::BeginStorageTransaction => "beginStorageTransaction",
            Method::CommitStorageTransaction => "commitStorageTransaction",
            Method::RollbackStorageTransaction => "rollbackStorageTransaction",
        }
    }

    /// Whether the method answers without anyone being authenticated.
    pub open spec fn is_open(self) -> bool {
        match self {
            Method::MakeAvailable
            | Method::Migrate
            | Method::FindOrInsertUser
            | Method::BeginStorageTransaction
            | Method::CommitStorageTransaction
            | Method::RollbackStorageTransaction => true,
            _ => false,
        }
    }

    fn open(&self) -> (open: bool)
        ensures
            open == self.is_open(),
    {
        match self {
            Method::MakeAvailable
            | Method::Migrate
            | Method::FindOrInsertUser
            | Method::BeginStorageTransaction
            | Method::CommitStorageTransaction
            | Method::RollbackStorageTransaction => true,
            _ => false,
        }
    }
}

/// The method with the given name.
pub open spec fn method_named(name: Seq<char>) -> Option<Method> {
    if name == "makeAvailable"@ {
        Some(Method::MakeAvailable)
    } else if name == "migrate"@ {
        Some(Method::Migrate)
    } else if name == "findOrInsertUser"@ {
        Some(Method::FindOrInsertUser)
    } else if name == "internalizeAction"@ {
        Some(Method::InternalizeAction)
    } else if name == "listOutputs"@ {
        Some(Method::ListOutputs)
    } else if name == "listActions"@ {
        Some(Method::ListActions)
    } else if name == "getBalance"@ {
        Some(Method::GetBalance)
    } else if name == "getAnalyticsSummary"@ {
        Some(Method::GetAnalyticsSummary)
    } else if name == "abortAction"@ {
        Some(Method::AbortAction)
    } else if name == "createAction"@ {
        Some(Method::CreateAction)
    } else if name == "processAction"@ {
        Some(Method::ProcessAction)
    } else if name == "updateTransactionStatusAfterBroadcast"@ {
        Some(Method::UpdateTransactionStatusAfterBroadcast)
    } else if name == "listCertificates"@ {
        Some(Method::ListCertificates)
    } else if name == "insertCertificate"@ {
        Some(Method::InsertCertificate)
    } else if name == "relinquishCertificate"@ {
        Some(Method::RelinquishCertificate)
    } else if name == "relinquishOutput"@ {
        Some(Method::RelinquishOutput)
    } else if name == "getSyncChunk"@ {
        Some(Method::GetSyncChunk)
    } else if name == "processSyncChunk"@ {
        Some(Method::ProcessSyncChunk)
    } else if name == "putBackup"@ {
        Some(Method::PutBackup)
    } else if name == "getBackup"@ {
        Some(Method::GetBackup)
    } else if name == "listBackups"@ {
        Some(Method::ListBackups)
    } else if name == "statBackups"@ {
        Some(Method::StatBackups)
    } else if name == "reviewStatus"@ {
        Some(Method::ReviewStatus)
    } else if name == "beginStorageTransaction"@ {
        Some(Method::BeginStorageTransaction)
    } else if name == "commitStorageTransaction"@ {
        Some(Method::CommitStorageTransaction)
    } else if name == "rollbackStorageTransaction"@ {
        Some(Method::RollbackStorageTransaction)
    } else {
        None
    }
}

/// The method with the given name.
pub fn find_method(name: &str) -> (method: Option<Method>)
    ensures
        method == method_named(name@),
{
    if same_text(name, "makeAvailable") {
        Some(Method::MakeAvailable)
    } else if same_text(name, "migrate") {
        Some(Method::Migrate)
    } else if same_text(name, "findOrInsertUser") {
        Some(Method::FindOrInsertUser)
    } else if same_text(name, "internalizeAction") {
        Some(Method::InternalizeAction)
    } else if same_text(name, "listOutputs") {
        Some(Method::ListOutputs)
    } else if same_text(name, "listActions") {
        Some(Method::ListActions)
    } else if same_text(name, "getBalance") {
        Some(Method::GetBalance)
    } else if same_text(name, "getAnalyticsSummary") {
        Some(Method::GetAnalyticsSummary)
    } else if same_text(name, "abortAction") {
        Some(Method::AbortAction)
    } else if same_text(name, "createAction") {
        Some(Method::CreateAction)
    } else if same_text(name, "processAction") {
        Some(Method::ProcessAction)
    } else if same_text(name, "updateTransactionStatusAfterBroadcast") {
        Some(Method::UpdateTransactionStatusAfterBroadcast)
    } else if same_text(name, "listCertificates") {
        Some(Method::ListCertificates)
    } else if same_text(name, "insertCertificate") {
        Some(Method::InsertCertificate)
    } else if same_text(name, "relinquishCertificate") {
        Some(Method::RelinquishCertificate)
    } else if same_text(name, "relinquishOutput") {
        Some(Method::RelinquishOutput)
    } else if same_text(name, "getSyncChunk") {
        Some(Method::GetSyncChunk)
    } else if same_text(name, "processSyncChunk") {
        Some(Method::ProcessSyncChunk)
    } else if same_text(name, "putBackup") {
        Some(Method::PutBackup)
    } else if same_text(name, "getBackup") {
        Some(Method::GetBackup)
    } else if same_text(name, "listBackups") {
        Some(Method::ListBackups)
    } else if same_text(name, "statBackups") {
        Some(Method::StatBackups)
    } else if same_text(name, "reviewStatus") {
        Some(Method::ReviewStatus)
    } else if same_text(name, "beginStorageTransaction") {
        Some(Method::BeginStorageTransaction)
    } else if same_text(name, "commitStorageTransaction") {
        Some(Method::CommitStorageTransaction)
    } else if same_text(name, "rollbackStorageTransaction") {
        Some(Method::RollbackStorageTransaction)
    } else {
        None
    }
}

// ---------------------------------------------------------------------------
// Arguments
// ---------------------------------------------------------------------------

/// What a method is called with.
#[verifier::ext_equal]
pub enum ArgsView {
    Nothing,
    Names { storage_name: Seq<char>, storage_identity_key: Seq<char> },
    Identity { identity_key: Seq<char> },
    Value { args: JsonView },
    Chunk { args: JsonView, chunk: JsonView },
    Broadcast { txid: Seq<char>, success: bool },
    Put { put: BackupPutView },
    Get { key: Seq<char> },
    List { listing: ListStepView },
    Stat { report: StatStepView },
}

/// What a method is called with.
#[derive(Debug, PartialEq, Eq)]
pub enum Args {
    Nothing,
    Names { storage_name: String, storage_identity_key: String },
    Identity { identity_key: String },
    Value { args: Json },
    Chunk { args: Json, chunk: Json },
    Broadcast { txid: String, success: bool },
    Put { put: BackupPut },
    Get { key: String },
    List { listing: ListStep },
    Stat { report: StatStep },
}

impl View for Args {
    type V = ArgsView;

    open spec fn view(&self) -> ArgsView {
        match self {
            Args::Nothing => ArgsView::Nothing,
            Args::Names { storage_name, storage_identity_key } => ArgsView::Names {
                storage_name: storage_name@,
                storage_identity_key: storage_identity_key@,
            },
            Args::Identity { identity_key } => ArgsView::Identity { identity_key: identity_key@ },
            Args::Value { args } => ArgsView::Value { args: args@ },
            Args::Chunk { args, chunk } => ArgsView::Chunk { args: args@, chunk: chunk@ },
            Args::Broadcast { txid, success } => ArgsView::Broadcast {
                txid: txid@,
                success: *success,
            },
            Args::Put { put } => ArgsView::Put { put: put@ },
            Args::Get { key } => ArgsView::Get { key: key@ },
            Args::List { listing } => ArgsView::List { listing: listing@ },
            Args::Stat { report } => ArgsView::Stat { report: report@ },
        }
    }
}

/// What a result stands for.
pub open spec fn args_view(args: Result<Args, Error>) -> Result<ArgsView, ErrorView> {
    match args {
        Ok(a) => Ok(a@),
        Err(e) => Err(e@),
    }
}

/// The names that a migration is called with: a text is the name of the store, and an
/// object may give it together with the identity of the store.
pub open spec fn migrate_args(params: JsonView) -> ArgsView {
    let args = extracted(params, false);
    match args.text() {
        Some(name) => ArgsView::Names { storage_name: name, storage_identity_key: ""@ },
        None => ArgsView::Names {
            storage_name: match text_of(args.field("storageName"@)) {
                Some(name) => name,
                None => "wallet-infra"@,
            },
            storage_identity_key: match text_of(args.field("storageIdentityKey"@)) {
                Some(key) => key,
                None => ""@,
            },
        },
    }
}

fn handle_migrate(params: &Json) -> (args: Args)
    ensures
        args@ == migrate_args(params@),
{
    let args = extract_args(params, false);
    match args.as_str() {
        Some(name) => Args::Names {
            storage_name: name.to_owned(),
            storage_identity_key: "".to_owned(),
        },
        None => {
            let storage_name = match optional_text(args.get("storageName")) {
                Some(name) => name.to_owned(),
                None => "wallet-infra".to_owned(),
            };
            let storage_identity_key = match optional_text(args.get("storageIdentityKey")) {
                Some(key) => key.to_owned(),
                None => "".to_owned(),
            };
            Args::Names { storage_name, storage_identity_key }
        },
    }
}

/// The identity that a user is looked up by: a text, or the field `identityKey`.
pub open spec fn user_args(params: JsonView) -> Result<ArgsView, ErrorView> {
    let args = extracted(params, false);
    match args.text() {
        Some(key) => Ok(ArgsView::Identity { identity_key: key }),
        None => match text_of(args.field("identityKey"@)) {
            Some(key) => Ok(ArgsView::Identity { identity_key: key }),
            None => Err(ErrorView::ValidationError("missing identityKey"@)),
        },
    }
}

fn handle_find_or_insert_user(params: &Json) -> (args: Result<Args, Error>)
    ensures
        args_view(args) == user_args(params@),
{
    let args = extract_args(params, false);
    match args.as_str() {
        Some(key) => Ok(Args::Identity { identity_key: key.to_owned() }),
        None => match optional_text(args.get("identityKey")) {
            Some(key) => Ok(Args::Identity { identity_key: key.to_owned() }),
            None => Err(invalid("missing identityKey")),
        },
    }
}

/// The bytes of a list of numbers: the low eight bits of each integer that is not negative,
/// and nothing for any other value.
pub open spec fn bytes_in(list: Seq<JsonView>) -> Seq<u8>
    decreases list.len(),
{
    if list.len() == 0 {
        Seq::empty()
    } else {
        match list.last().unsigned() {
            Some(n) => bytes_in(list.drop_last()).push((n % 256) as u8),
            None => bytes_in(list.drop_last()),
        }
    }
}

fn collect_bytes(list: &Vec<Json>) -> (bytes: Vec<u8>)
    ensures
        bytes@ == bytes_in(items(list@)),
{
    let ghost all = items(list@);
    let mut bytes: Vec<u8> = Vec::new();
    let mut i: usize = 0;
    while i < list.len()
        invariant
            i <= list@.len(),
            all == items(list@),
            bytes@ == bytes_in(all.take(i as int)),
        decreases list@.len() - i,
    {
        proof {
            assert(all.take(i + 1).drop_last() =~= all.take(i as int));
            assert(all.take(i + 1).last() == list@[i as int]@);
        }
        if let Some(n) = list[i].as_u64() {
            bytes.push((n % 256) as u8);
        }
        i = i + 1;
    }
    assert(all.take(i as int) =~= all);
    bytes
}

/// The arguments of an internalized action: a transaction that comes as a list of bytes is
/// written in hexadecimal.
pub open spec fn internalize_args(params: JsonView) -> JsonView {
    let args = extracted(params, true);
    match args.field("tx"@) {
        Some(JsonView::Array(list)) => args.with_field(
            "tx"@,
            JsonView::Str(hex_text(bytes_in(list))),
        ),
        _ => args,
    }
}

fn handle_internalize_action(params: &Json) -> (args: Json)
    ensures
        args@ == internalize_args(params@),
{
    let args = extract_args(params, true);
    let hex: Option<String> = match args.get("tx") {
        Some(tx) => match tx.elements() {
            Some(list) => Some(hex_encode(&collect_bytes(list))),
            None => None,
        },
        None => None,
    };
    match hex {
        Some(text) => args.replace("tx", Json::Str(text)),
        None => args,
    }
}

/// The outcome of a broadcast: a list of a txid and a flag, or an object with both. A flag
/// that is missing counts as unset.
pub open spec fn broadcast_args(params: JsonView) -> Result<ArgsView, ErrorView> {
    let (txid, success) = if params is Array {
        (params.element(0), params.element(1))
    } else {
        (params.field("txid"@), params.field("success"@))
    };
    match text_of(txid) {
        Some(txid) => Ok(
            ArgsView::Broadcast {
                txid,
                success: match flag_of(success) {
                    Some(b) => b,
                    None => false,
                },
            },
        ),
        None => Err(ErrorView::ValidationError("missing txid"@)),
    }
}

fn handle_update_tx_status(params: &Json) -> (args: Result<Args, Error>)
    ensures
        args_view(args) == broadcast_args(params@),
{
    let is_list = params.elements().is_some();
    let txid = if is_list {
        params.at(0)
    } else {
        params.get("txid")
    };
    let success = if is_list {
        params.at(1)
    } else {
        params.get("success")
    };
    match optional_text(txid) {
        Some(text) => {
            let success = match optional_flag(success) {
                Some(b) => b,
                None => false,
            };
            Ok(Args::Broadcast { txid: text.to_owned(), success })
        },
        None => Err(invalid("missing txid")),
    }
}

/// The request and the chunk of a sync: a list of both, or an object with both.
pub open spec fn chunk_args(params: JsonView) -> Result<ArgsView, ErrorView> {
    if params is Array || params is Object {
        let (args, chunk) = if params is Array {
            (params.element(0), params.element(1))
        } else {
            (params.field("args"@), params.field("chunk"@))
        };
        match args {
            None => Err(ErrorView::ValidationError("processSyncChunk: missing args"@)),
            Some(args) => match chunk {
                None => Err(ErrorView::ValidationError("processSyncChunk: missing chunk"@)),
                Some(chunk) => Ok(ArgsView::Chunk { args, chunk }),
            },
        }
    } else {
        Err(
            ErrorView::ValidationError(
                "processSyncChunk: expected [args, chunk] or {args, chunk}"@,
            ),
        )
    }
}

fn handle_process_sync_chunk(params: &Json) -> (args: Result<Args, Error>)
    ensures
        args_view(args) == chunk_args(params@),
{
    let (args, chunk) = match params {
        Json::Array(_) => (params.at(0), params.at(1)),
        Json::Object(_) => (params.get("args"), params.get("chunk")),
        _ => {
            return Err(invalid("processSyncChunk: expected [args, chunk] or {args, chunk}"));
        },
    };
    match args {
        None => Err(invalid("processSyncChunk: missing args")),
        Some(args) => match chunk {
            None => Err(invalid("processSyncChunk: missing chunk")),
            Some(chunk) => Ok(Args::Chunk { args: args.copy(), chunk: chunk.copy() }),
        },
    }
}

/// What a method of an authenticated user is called with.
pub open spec fn args_for(method: Method, params: JsonView, identity_key: Seq<char>) -> Result<
    ArgsView,
    ErrorView,
> {
    match method {
        Method::InternalizeAction => Ok(ArgsView::Value { args: internalize_args(params) }),
        Method::UpdateTransactionStatusAfterBroadcast => broadcast_args(params),
        Method::ProcessSyncChunk => chunk_args(params),
        Method::PutBackup => match requested_put(params, identity_key) {
            Ok(put) => Ok(ArgsView::Put { put }),
            Err(e) => Err(e),
        },
        Method::GetBackup => Ok(ArgsView::Get { key: object_key(identity_key) }),
        Method::ListBackups => Ok(
            ArgsView::List { listing: crate::backup::first_page(identity_key) },
        ),
        Method::StatBackups => Ok(
            ArgsView::Stat { report: crate::backup::first_stat_page(identity_key) },
        ),
        _ => Ok(ArgsView::Value { args: extracted(params, true) }),
    }
}

/// What a method of an authenticated user is called with.
pub fn plan_args(method: Method, params: &Json, identity_key: &str) -> (args: Result<Args, Error>)
    ensures
        args_view(args) == args_for(method, params@, identity_key@),
{
    match method {
        Method::InternalizeAction => Ok(Args::Value { args: handle_internalize_action(params) }),
        Method::UpdateTransactionStatusAfterBroadcast => handle_update_tx_status(params),
        Method::ProcessSyncChunk => handle_process_sync_chunk(params),
        Method::PutBackup => match put_backup(params, identity_key) {
            Ok(put) => Ok(Args::Put { put }),
            Err(e) => Err(e),
        },
        Method::GetBackup => Ok(Args::Get { key: backup_object_key(identity_key) }),
        Method::ListBackups => Ok(Args::List { listing: list_backups(identity_key) }),
        Method::StatBackups => Ok(Args::Stat { report: stat_backups(identity_key) }),
        _ => Ok(Args::Value { args: extract_args(params, true) }),
    }
}

// ---------------------------------------------------------------------------
// Answers
// ---------------------------------------------------------------------------

/// The answer to a request.
#[verifier::ext_equal]
pub enum ReplyView {
    Success { id: JsonView, result: JsonView },
    Failure { id: JsonView, code: int, message: Seq<char> },
    MethodNotFound { id: JsonView, method: Seq<char> },
}

/// The answer to a request.
#[derive(Debug, PartialEq, Eq)]
pub enum Reply {
    Success { id: Json, result: Json },
    Failure { id: Json, code: i64, message: String },
    MethodNotFound { id: Json, method: String },
}

impl View for Reply {
    type V = ReplyView;

    open spec fn view(&self) -> ReplyView {
        match self {
            Reply::Success { id, result } => ReplyView::Success { id: id@, result: result@ },
            Reply::Failure { id, code, message } => ReplyView::Failure {
                id: id@,
                code: *code as int,
                message: message@,
            },
            Reply::MethodNotFound { id, method } => ReplyView::MethodNotFound {
                id: id@,
                method: method@,
            },
        }
    }
}

/// The answer to a request that failed: a code for the kind of failure, and its message.
pub open spec fn failure(id: JsonView, error: ErrorView) -> ReplyView {
    match error {
        ErrorView::ValidationError(m) => ReplyView::Failure { id, code: -32602, message: m },
        ErrorView::NotFound(m) => ReplyView::Failure { id, code: -32001, message: m },
        ErrorView::DatabaseError(m) => ReplyView::Failure { id, code: -32603, message: m },
        ErrorView::InternalError(m) => ReplyView::Failure { id, code: -32603, message: m },
    }
}

/// Answers a request that failed.
pub fn fail(id: Json, error: Error) -> (reply: Reply)
    ensures
        reply@ == failure(id@, error@),
{
    match error {
        Error::ValidationError(message) => Reply::Failure { id, code: -32602, message },
        Error::NotFound(message) => Reply::Failure { id, code: -32001, message },
        Error::DatabaseError(message) => Reply::Failure { id, code: -32603, message },
        Error::InternalError(message) => Reply::Failure { id, code: -32603, message },
    }
}

/// The code and the message of an answer that is an error.
pub open spec fn error_of(reply: ReplyView) -> Option<(int, Seq<char>)> {
    match reply {
        ReplyView::Success { .. } => None,
        ReplyView::Failure { code, message, .. } => Some((code, message)),
        ReplyView::MethodNotFound { method, .. } => Some(
            (-32601, "Method not found: "@ + method),
        ),
    }
}

/// The object that is sent for an error.
pub open spec fn error_envelope(id: JsonView, code: i64, message: Seq<char>) -> JsonView {
    JsonView::Object(
        seq![
            ("jsonrpc"@, JsonView::Str("2.0"@)),
            ("id"@, id),
            (
                "error"@,
                JsonView::Object(
                    seq![
                        ("code"@, JsonView::Number(number_of(code))),
                        ("message"@, JsonView::Str(message)),
                    ],
                ),
            ),
        ],
    )
}

/// The id that a reply carries.
pub open spec fn reply_id(reply: ReplyView) -> JsonView {
    match reply {
        ReplyView::Success { id, .. } => id,
        ReplyView::Failure { id, .. } => id,
        ReplyView::MethodNotFound { id, .. } => id,
    }
}

/// The object that is sent for an answer.
pub open spec fn envelope_of(reply: ReplyView) -> JsonView {
    match error_of(reply) {
        None => JsonView::Object(
            seq![
                ("jsonrpc"@, JsonView::Str("2.0"@)),
                ("id"@, reply_id(reply)),
                ("result"@, reply->Success_result),
            ],
        ),
        Some((code, message)) => error_envelope(reply_id(reply), code as i64, message),
    }
}

/// A whole number as a value.
pub open spec fn number_of(n: i64) -> Number {
    if n >= 0 {
        Number::PosInt(n as u64)
    } else {
        Number::NegInt(n)
    }
}

fn number(n: i64) -> (number: Number)
    ensures
        number == number_of(n),
{
    if n >= 0 {
        Number::PosInt(n as u64)
    } else {
        Number::NegInt(n)
    }
}

fn enclose_error(id: Json, code: i64, message: String) -> (object: Json)
    ensures
        object@ == error_envelope(id@, code, message@),
{
    let inner = vec![
        ("code".to_owned(), Json::Number(number(code))),
        ("message".to_owned(), Json::string(message.as_str())),
    ];
    assert(fields(inner@) =~= seq![
        ("code"@, JsonView::Number(number_of(code))),
        ("message"@, JsonView::Str(message@)),
    ]);
    let list = vec![
        ("jsonrpc".to_owned(), Json::string("2.0")),
        ("id".to_owned(), id),
        ("error".to_owned(), Json::object(inner)),
    ];
    assert(fields(list@) =~= error_envelope(id@, code, message@)->Object_0);
    Json::object(list)
}

impl Reply {
    /// The object that is sent for an answer.
    pub fn envelope(self) -> (object: Json)
        ensures
            object@ == envelope_of(self@),
    {
        match self {
            Reply::Success { id, result } => {
                let list = vec![
                    ("jsonrpc".to_owned(), Json::string("2.0")),
                    ("id".to_owned(), id),
                    ("result".to_owned(), result),
                ];
                assert(fields(list@) =~= envelope_of(self@)->Object_0);
                Json::object(list)
            },
            Reply::Failure { id, code, message } => enclose_error(id, code, message),
            Reply::MethodNotFound { id, method } => {
                let mut message = "Method not found: ".to_owned();
                message.append(method.as_str());
                enclose_error(id, -32601, message)
            },
        }
    }
}

/// The object that is sent for a body that is no request.
pub fn parse_error() -> (object: Json)
    ensures
        object@ == error_envelope(JsonView::Null, -32700i64, "Parse error"@),
{
    enclose_error(Json::Null, -32700, "Parse error".to_owned())
}

/// An object with one field.
pub open spec fn single(name: Seq<char>, value: JsonView) -> JsonView {
    JsonView::Object(seq![(name, value)])
}

fn single_field(name: &str, value: Json) -> (object: Json)
    ensures
        object@ == single(name@, value@),
{
    let list = vec![(name.to_owned(), value)];
    assert(fields(list@) =~= seq![(name@, value@)]);
    Json::object(list)
}

/// The result of a method, from what the store answered: most answers are passed on, some
/// are named, and that of a broadcast is empty.
pub open spec fn result_of(method: Method, value: JsonView) -> JsonView {
    match method {
        Method::AbortAction => single("aborted"@, value),
        Method::RelinquishCertificate => single("relinquished"@, value),
        Method::RelinquishOutput => single("relinquished"@, value),
        Method::ReviewStatus => single("status_synced"@, value),
        Method::UpdateTransactionStatusAfterBroadcast => JsonView::Null,
        Method::CommitStorageTransaction => JsonView::Null,
        Method::RollbackStorageTransaction => JsonView::Null,
        Method::BeginStorageTransaction => single(
            "token"@,
            JsonView::Number(Number::PosInt(0)),
        ),
        _ => value,
    }
}

fn shape(method: Method, value: Json) -> (result: Json)
    ensures
        result@ == result_of(method, value@),
{
    match method {
        Method::AbortAction => single_field("aborted", value),
        Method::RelinquishCertificate => single_field("relinquished", value),
        Method::RelinquishOutput => single_field("relinquished", value),
        Method::ReviewStatus => single_field("status_synced", value),
        Method::UpdateTransactionStatusAfterBroadcast => Json::Null,
        Method::CommitStorageTransaction => Json::Null,
        Method::RollbackStorageTransaction => Json::Null,
        Method::BeginStorageTransaction => single_field(
            "token",
            Json::Number(Number::PosInt(0)),
        ),
        _ => value,
    }
}

/// Answers a request with what the store answered or with its failure.
pub fn respond(id: Json, method: Method, outcome: Result<Json, Error>) -> (reply: Reply)
    ensures
        reply@ == (match outcome {
            Ok(value) => ReplyView::Success { id: id@, result: result_of(method, value@) },
            Err(e) => failure(id@, e@),
        }),
{
    match outcome {
        Ok(value) => Reply::Success { id, result: shape(method, value) },
        Err(e) => fail(id, e),
    }
}

/// The answer that tells a user, and whether the user is new.
pub open spec fn user_answer(user: JsonView, inserted: bool) -> JsonView {
    JsonView::Object(seq![("user"@, user), ("isNew"@, JsonView::Bool(inserted))])
}

pub fn find_or_insert_user_result(user: Json, inserted: bool) -> (answer: Json)
    ensures
        answer@ == user_answer(user@, inserted),
{
    let list = vec![("user".to_owned(), user), ("isNew".to_owned(), Json::Bool(inserted))];
    assert(fields(list@) =~= user_answer(user@, inserted)->Object_0);
    Json::object(list)
}

// ---------------------------------------------------------------------------
// Steps
// ---------------------------------------------------------------------------

/// What a request takes next.
#[verifier::ext_equal]
pub enum StepView {
    Answer { reply: ReplyView },
    ResolveAuth { method: Method, params: JsonView, id: JsonView },
    Call { method: Method, user_id: Option<i64>, args: ArgsView, id: JsonView },
}

/// What a request takes next.
#[derive(Debug, PartialEq, Eq)]
pub enum Step {
    /// Answer.
    Answer { reply: Reply },
    /// Find the user of the authenticated identity.
    ResolveAuth { pending: Pending },
    /// Call the method, and respond with its outcome.
    Call { method: Method, user_id: Option<i64>, args: Args, id: Json },
}

/// A request whose user is to be found.
#[derive(Debug, PartialEq, Eq)]
pub struct Pending {
    pub method: Method,
    pub params: Json,
    pub id: Json,
}

impl View for Step {
    type V = StepView;

    open spec fn view(&self) -> StepView {
        match self {
            Step::Answer { reply } => StepView::Answer { reply: reply@ },
            Step::ResolveAuth { pending } => StepView::ResolveAuth {
                method: pending.method,
                params: pending.params@,
                id: pending.id@,
            },
            Step::Call { method, user_id, args, id } => StepView::Call {
                method: *method,
                user_id: *user_id,
                args: args@,
                id: id@,
            },
        }
    }
}

/// The call of a method, or the answer to a request whose arguments are refused.
pub open spec fn calling(
    method: Method,
    user_id: Option<i64>,
    args: Result<ArgsView, ErrorView>,
    id: JsonView,
) -> StepView {
    match args {
        Ok(args) => StepView::Call { method, user_id, args, id },
        Err(e) => StepView::Answer { reply: failure(id, e) },
    }
}

/// The first step of a request. A method that nobody knows is answered so; one that needs
/// authentication is refused without it before its parameters are looked at.
pub open spec fn routed(
    name: Seq<char>,
    params: JsonView,
    id: JsonView,
    authenticated: bool,
) -> StepView {
    match method_named(name) {
        None => StepView::Answer { reply: ReplyView::MethodNotFound { id, method: name } },
        Some(method) => if !method.is_open() && !authenticated {
            StepView::Answer {
                reply: failure(
                    id,
                    ErrorView::ValidationError(method.text() + " requires authentication"@),
                ),
            }
        } else {
            match method {
                Method::MakeAvailable => calling(method, None, Ok(ArgsView::Nothing), id),
                Method::Migrate => calling(method, None, Ok(migrate_args(params)), id),
                Method::FindOrInsertUser => calling(method, None, user_args(params), id),
                Method::ReviewStatus => calling(method, None, Ok(ArgsView::Nothing), id),
                Method::BeginStorageTransaction
                | Method::CommitStorageTransaction
                | Method::RollbackStorageTransaction => StepView::Answer {
                    reply: ReplyView::Success { id, result: result_of(method, JsonView::Null) },
                },
                _ => StepView::ResolveAuth { method, params, id },
            }
        },
    }
}

fn call(method: Method, user_id: Option<i64>, args: Result<Args, Error>, id: Json) -> (step: Step)
    ensures
        step@ == calling(method, user_id, args_view(args), id@),
{
    match args {
        Ok(args) => Step::Call { method, user_id, args, id },
        Err(e) => Step::Answer { reply: fail(id, e) },
    }
}

/// Starts a request.
pub fn dispatch(method: &str, params: Json, id: Json, auth: Option<&AuthId>) -> (step: Step)
    ensures
        step@ == routed(method@, params@, id@, auth is Some),
{
    let found = match find_method(method) {
        None => {
            return Step::Answer {
                reply: Reply::MethodNotFound { id, method: method.to_owned() },
            };
        },
        Some(m) => m,
    };
    if !found.open() && auth.is_none() {
        let mut message = found.name().to_owned();
        message.append(" requires authentication");
        return Step::Answer { reply: fail(id, Error::ValidationError(message)) };
    }
    match found {
        Method::MakeAvailable => call(found, None, Ok(Args::Nothing), id),
        Method::Migrate => {
            let args = handle_migrate(&params);
            call(found, None, Ok(args), id)
        },
        Method::FindOrInsertUser => {
            let args = handle_find_or_insert_user(&params);
            call(found, None, args, id)
        },
        Method::ReviewStatus => call(found, None, Ok(Args::Nothing), id),
        Method::BeginStorageTransaction
        | Method::CommitStorageTransaction
        | Method::RollbackStorageTransaction => {
            let result = shape(found, Json::Null);
            Step::Answer { reply: Reply::Success { id, result } }
        },
        _ => Step::ResolveAuth { pending: Pending { method: found, params, id } },
    }
}

impl Pending {
    /// Goes on with the user of the authenticated identity, or with the failure to find
    /// one.
    pub fn after_auth(self, resolved: Result<(i64, AuthId), Error>) -> (step: Step)
        ensures
            step@ == (match resolved {
                Ok((user_id, auth)) => calling(
                    self.method,
                    Some(user_id),
                    args_for(self.method, self.params@, auth.identity_key@),
                    self.id@,
                ),
                Err(e) => StepView::Answer { reply: failure(self.id@, e@) },
            }),
    {
        match resolved {
            Err(e) => Step::Answer { reply: fail(self.id, e) },
            Ok((user_id, auth)) => {
                let args = plan_args(self.method, &self.params, auth.identity_key.as_str());
                call(self.method, Some(user_id), args, self.id)
            },
        }
    }
}

// ---------------------------------------------------------------------------
// Laws
// ---------------------------------------------------------------------------

/// Without authentication no request reaches a user's data: it is answered at once, or
/// calls one of the methods that are open to all.
pub proof fn nothing_is_reached_without_authentication(
    name: Seq<char>,
    params: JsonView,
    id: JsonView,
)
    ensures
        match routed(name, params, id, false) {
            StepView::Answer { reply } => true,
            StepView::ResolveAuth { .. } => false,
            StepView::Call { method, user_id, .. } => user_id is None && method.is_open(),
        },
{
}

/// The id that a step carries.
pub open spec fn step_id(step: StepView) -> JsonView {
    match step {
        StepView::Answer { reply } => reply_id(reply),
        StepView::ResolveAuth { id, .. } => id,
        StepView::Call { id, .. } => id,
    }
}

/// An answer carries the id of its request: the first step, the step after authentication
/// and a failure all keep it.
pub proof fn an_answer_carries_its_id(
    name: Seq<char>,
    params: JsonView,
    id: JsonView,
    authenticated: bool,
    method: Method,
    user_id: Option<i64>,
    args: Result<ArgsView, ErrorView>,
    error: ErrorView,
)
    ensures
        step_id(routed(name, params, id, authenticated)) == id,
        step_id(calling(method, user_id, args, id)) == id,
        reply_id(failure(id, error)) == id,
{
}

/// The code of a step that answers with an error.
pub open spec fn code_of(step: StepView) -> Option<int> {
    match step {
        StepView::Answer { reply } => match error_of(reply) {
            Some((code, _)) => Some(code),
            None => None,
        },
        _ => None,
    }
}

/// The code for a method that is not found, with the name of the method, is the answer to a
/// request exactly where nobody knows the method: a known one is never answered so, neither
/// at once nor after authentication, nor for its outcome.
pub proof fn only_an_unknown_method_is_not_found(
    name: Seq<char>,
    params: JsonView,
    id: JsonView,
    authenticated: bool,
    method: Method,
    user_id: Option<i64>,
    args: Result<ArgsView, ErrorView>,
    error: ErrorView,
)
    ensures
        method_named(name) is None ==> routed(name, params, id, authenticated) == (
        StepView::Answer { reply: ReplyView::MethodNotFound { id, method: name } }),
        error_of(ReplyView::MethodNotFound { id, method: name }) == Some(
            (-32601int, "Method not found: "@ + name),
        ),
        method_named(name) is None <==> code_of(routed(name, params, id, authenticated)) == Some(
            -32601int,
        ),
        code_of(calling(method, user_id, args, id)) != Some(-32601int),
        error_of(failure(id, error)) matches Some(e) && e.0 != -32601,
{
}

/// Where a backup is put, read or listed depends on the authenticated identity alone: no
/// parameter of a request names another identity.
pub proof fn backups_belong_to_the_caller(method: Method, params: JsonView, identity_key: Seq<char>)
    ensures
        method == Method::GetBackup ==> args_for(method, params, identity_key) == Ok::<
            ArgsView,
            ErrorView,
        >(ArgsView::Get { key: object_key(identity_key) }),
        method == Method::PutBackup ==> (args_for(method, params, identity_key) matches Ok(
            ArgsView::Put { put },
        ) ==> put.key == crate::backup::key_for(
            identity_key,
            crate::backup::device_param(params),
        )),
        method == Method::ListBackups ==> args_for(method, params, identity_key) == args_for(
            method,
            JsonView::Null,
            identity_key,
        ),
        method == Method::StatBackups ==> args_for(method, params, identity_key) == args_for(
            method,
            JsonView::Null,
            identity_key,
        ),
{
}

/// Every method is reached by its name.
pub proof fn a_method_is_reached_by_its_name(method: Method)
    ensures
        method_named(method.text()) == Some(method),
{
    reveal_strlit("makeAvailable");
    reveal_strlit("migrate");
    reveal_strlit("findOrInsertUser");
    reveal_strlit("internalizeAction");
    reveal_strlit("listOutputs");
    reveal_strlit("listActions");
    reveal_strlit("getBalance");
    reveal_strlit("getAnalyticsSummary");
    reveal_strlit("abortAction");
    reveal_strlit("createAction");
    reveal_strlit("processAction");
    reveal_strlit("updateTransactionStatusAfterBroadcast");
    reveal_strlit("listCertificates");
    reveal_strlit("insertCertificate");
    reveal_strlit("relinquishCertificate");
    reveal_strlit("relinquishOutput");
    reveal_strlit("getSyncChunk");
    reveal_strlit("processSyncChunk");
    reveal_strlit("putBackup");
    reveal_strlit("getBackup");
    reveal_strlit("listBackups");
    reveal_strlit("statBackups");
    reveal_strlit("reviewStatus");
    reveal_strlit("beginStorageTransaction");
    reveal_strlit("commitStorageTransaction");
    reveal_strlit("rollbackStorageTransaction");
    assert("makeAvailable"@.len() == 13);
    assert("migrate"@.len() == 7);
    assert("findOrInsertUser"@.len() == 16);
    assert("internalizeAction"@.len() == 17);
    assert("listOutputs"@.len() == 11);
    assert("listActions"@.len() == 11);
    assert("getBalance"@.len() == 10);
    assert("getAnalyticsSummary"@.len() == 19);
    assert("abortAction"@.len() == 11);
    assert("createAction"@.len() == 12);
    assert("processAction"@.len() == 13);
    assert("updateTransactionStatusAfterBroadcast"@.len() == 37);
    assert("listCertificates"@.len() == 16);
    assert("insertCertificate"@.len() == 17);
    assert("relinquishCertificate"@.len() == 21);
    assert("relinquishOutput"@.len() == 16);
    assert("getSyncChunk"@.len() == 12);
    assert("processSyncChunk"@.len() == 16);
    assert("putBackup"@.len() == 9);
    assert("getBackup"@.len() == 9);
    assert("listBackups"@.len() == 11);
    assert("statBackups"@.len() == 11);
    assert("reviewStatus"@.len() == 12);
    assert("beginStorageTransaction"@.len() == 23);
    assert("commitStorageTransaction"@.len() == 24);
    assert("rollbackStorageTransaction"@.len() == 26);
    assert("makeAvailable"@[0] != "processAction"@[0]);
    assert("findOrInsertUser"@[0] != "listCertificates"@[0]);
    assert("findOrInsertUser"@[0] != "relinquishOutput"@[0]);
    assert("findOrInsertUser"@[0] != "processSyncChunk"@[0]);
    assert("internalizeAction"@[2] != "insertCertificate"@[2]);
    assert("listOutputs"@[4] != "listActions"@[4]);
    assert("listOutputs"@[0] != "abortAction"@[0]);
    assert("listOutputs"@[4] != "listBackups"@[4]);
    assert("listOutputs"@[0] != "statBackups"@[0]);
    assert("listActions"@[0] != "abortAction"@[0]);
    assert("listActions"@[4] != "listBackups"@[4]);
    assert("listActions"@[0] != "statBackups"@[0]);
    assert("abortAction"@[0] != "listBackups"@[0]);
    assert("abortAction"@[0] != "statBackups"@[0]);
    assert("createAction"@[0] != "getSyncChunk"@[0]);
    assert("createAction"@[0] != "reviewStatus"@[0]);
    assert("listCertificates"@[0] != "relinquishOutput"@[0]);
    assert("listCertificates"@[0] != "processSyncChunk"@[0]);
    assert("relinquishOutput"@[0] != "processSyncChunk"@[0]);
    assert("getSyncChunk"@[0] != "reviewStatus"@[0]);
    assert("putBackup"@[0] != "getBackup"@[0]);
    assert("listBackups"@[0] != "statBackups"@[0]);
}

} // verus!
