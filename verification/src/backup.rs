//! Encrypted backups in the object store: one object for each device of an identity, and
//! one object from before devices were told apart.

use crate::codec::{
    base64_decode, base64_encode, base64_error_text, base64_is_injective, base64_text, encodable,
};
use crate::error::{invalid, Error, ErrorView};
use crate::json::{fields, items, text_of, Json, JsonView, Number};
use crate::text::{text_view, texts};
use vstd::prelude::*;

verus! {

// ---------------------------------------------------------------------------
// Keys
// ---------------------------------------------------------------------------

/// The key of the object without a device.
pub open spec fn object_key(identity_key: Seq<char>) -> Seq<char> {
    "backup/"@ + identity_key
}

/// The key of the object of a device.
pub open spec fn device_object_key(identity_key: Seq<char>, device_id: Seq<char>) -> Seq<char> {
    "backup/"@ + identity_key + "/"@ + device_id
}

/// What the keys of all device objects of an identity start with.
pub open spec fn device_prefix(identity_key: Seq<char>) -> Seq<char> {
    "backup/"@ + identity_key + "/"@
}

/// The key of the object without a device.
pub fn backup_object_key(identity_key: &str) -> (key: String)
    ensures
        key@ == object_key(identity_key@),
{
    let mut key = "backup/".to_owned();
    key.append(identity_key);
    key
}

/// The key of the object of a device.
pub fn backup_device_object_key(identity_key: &str, device_id: &str) -> (key: String)
    ensures
        key@ == device_object_key(identity_key@, device_id@),
{
    let mut key = "backup/".to_owned();
    key.append(identity_key);
    key.append("/");
    key.append(device_id);
    key
}

/// What the keys of all device objects of an identity start with.
pub fn backup_device_prefix(identity_key: &str) -> (prefix: String)
    ensures
        prefix@ == device_prefix(identity_key@),
{
    let mut prefix = "backup/".to_owned();
    prefix.append(identity_key);
    prefix.append("/");
    prefix
}

/// A letter or digit of ASCII, a hyphen or an underscore.
pub open spec fn device_char(c: char) -> bool {
    ('a' <= c <= 'z') || ('A' <= c <= 'Z') || ('0' <= c <= '9') || c == '-' || c == '_'
}

/// Eight to sixty-four such characters.
pub open spec fn is_device_id(id: Seq<char>) -> bool {
    8 <= id.len() <= 64 && forall|i: int| 0 <= i < id.len() ==> device_char(#[trigger] id[i])
}

pub open spec fn bad_device_text() -> Seq<char> {
    "putBackup: invalid deviceId (want 8-64 chars of [A-Za-z0-9_-])"@
}

/// Refuses a device id that is not a short token safe in a key.
pub fn validate_device_id(device_id: &str) -> (valid: Result<(), Error>)
    ensures
        valid is Ok <==> is_device_id(device_id@),
        valid matches Err(e) ==> e@ == ErrorView::ValidationError(bad_device_text()),
{
    let n = device_id.unicode_len();
    let mut ok = 8 <= n && n <= 64;
    if ok {
        let mut i: usize = 0;
        while i < n
            invariant
                n == device_id@.len(),
                8 <= n <= 64,
                i <= n,
                ok <==> forall|k: int| 0 <= k < i ==> device_char(#[trigger] device_id@[k]),
            decreases n - i,
        {
            let c = device_id.get_char(i);
            let allowed = ('a' <= c && c <= 'z') || ('A' <= c && c <= 'Z') || ('0' <= c && c
                <= '9') || c == '-' || c == '_';
            assert(allowed == device_char(device_id@[i as int]));
            ok = ok && allowed;
            i = i + 1;
        }
    }
    if ok {
        Ok(())
    } else {
        Err(invalid("putBackup: invalid deviceId (want 8-64 chars of [A-Za-z0-9_-])"))
    }
}

/// Whether a text has no slash.
pub open spec fn no_slash(s: Seq<char>) -> bool {
    forall|i: int| 0 <= i < s.len() ==> #[trigger] s[i] != '/'
}

/// The key that a backup goes to: that of the device where one is named.
pub open spec fn key_for(identity_key: Seq<char>, device_id: Option<Seq<char>>) -> Seq<char> {
    match device_id {
        Some(d) => device_object_key(identity_key, d),
        None => object_key(identity_key),
    }
}

/// A device id that passes has no slash, so it cannot leave the keys of its identity.
pub proof fn a_device_id_stays_in_its_prefix(identity_key: Seq<char>, device_id: Seq<char>)
    requires
        is_device_id(device_id),
    ensures
        no_slash(device_id),
        device_prefix(identity_key).is_prefix_of(device_object_key(identity_key, device_id)),
        device_object_key(identity_key, device_id).subrange(
            device_prefix(identity_key).len() as int,
            device_object_key(identity_key, device_id).len() as int,
        ) == device_id,
{
    let key = device_object_key(identity_key, device_id);
    let prefix = device_prefix(identity_key);
    assert(key =~= prefix + device_id);
    assert(key.subrange(prefix.len() as int, key.len() as int) =~= device_id);
    assert(prefix =~= key.subrange(0, prefix.len() as int));
}

/// Two devices never share an object: a backup of one cannot replace that of another.
pub proof fn devices_do_not_share_objects(identity_key: Seq<char>, a: Seq<char>, b: Seq<char>)
    requires
        device_object_key(identity_key, a) == device_object_key(identity_key, b),
    ensures
        a == b,
{
    let prefix = device_prefix(identity_key);
    let key = device_object_key(identity_key, a);
    assert(key =~= prefix + a);
    assert(key =~= prefix + b);
    assert(a =~= key.subrange(prefix.len() as int, key.len() as int));
    assert(b =~= key.subrange(prefix.len() as int, key.len() as int));
}

/// The object without a device is not among the device objects.
pub proof fn the_prefix_leaves_out_the_object_without_a_device(identity_key: Seq<char>)
    ensures
        !device_prefix(identity_key).is_prefix_of(object_key(identity_key)),
{
    reveal_strlit("/");
    assert(device_prefix(identity_key).len() > object_key(identity_key).len());
}

proof fn slash_position(identity_key: Seq<char>, device_id: Option<Seq<char>>)
    ensures
        ({
            let key = key_for(identity_key, device_id);
            let n = identity_key.len() as int;
            &&& key.len() >= 7 + n
            &&& device_id is Some ==> key.len() > 7 + n && key[7 + n] == '/'
            &&& device_id is None ==> key.len() == 7 + n
            &&& key.subrange(7, 7 + n) == identity_key
        }),
{
    reveal_strlit("backup/");
    reveal_strlit("/");
    let key = key_for(identity_key, device_id);
    assert(key.subrange(7, 7 + identity_key.len() as int) =~= identity_key);
}

/// Two identities never share an object.
pub proof fn identities_do_not_share_objects(
    a: Seq<char>,
    a_device: Option<Seq<char>>,
    b: Seq<char>,
    b_device: Option<Seq<char>>,
)
    requires
        no_slash(a),
        no_slash(b),
        key_for(a, a_device) == key_for(b, b_device),
    ensures
        a == b,
{
    slash_position(a, a_device);
    slash_position(b, b_device);
    let key = key_for(a, a_device);
    if a.len() < b.len() {
        assert(a_device is Some);
        assert(key.subrange(7, 7 + b.len() as int)[a.len() as int] == '/');
    } else if b.len() < a.len() {
        assert(b_device is Some);
        assert(key.subrange(7, 7 + a.len() as int)[b.len() as int] == '/');
    }
}

// ---------------------------------------------------------------------------
// Putting
// ---------------------------------------------------------------------------

/// The bytes that a base64 text stands for, where it is one.
pub open spec fn base64_bytes(text: Seq<char>) -> Option<Seq<u8>> {
    if exists|b: Seq<u8>| #[trigger] base64_text(b) == text {
        Some(choose|b: Seq<u8>| #[trigger] base64_text(b) == text)
    } else {
        None
    }
}

/// The encoding of bytes stands for those bytes.
pub proof fn base64_round_trip(bytes: Seq<u8>)
    ensures
        base64_bytes(base64_text(bytes)) == Some(bytes),
{
    let text = base64_text(bytes);
    let b = choose|b: Seq<u8>| #[trigger] base64_text(b) == text;
    base64_is_injective(b, bytes);
}

/// The encoded blob of a request: the first of a list, or the field `blob`.
pub open spec fn blob_param(params: JsonView) -> Option<Seq<char>> {
    match params {
        JsonView::Array(_) => text_of(params.element(0)),
        JsonView::Object(_) => text_of(params.field("blob"@)),
        _ => None,
    }
}

/// The device of a request: the second of a list, or the field `deviceId`.
pub open spec fn device_param(params: JsonView) -> Option<Seq<char>> {
    match params {
        JsonView::Array(_) => text_of(params.element(1)),
        JsonView::Object(_) => text_of(params.field("deviceId"@)),
        _ => None,
    }
}

/// A backup that is to be put in the object store.
#[verifier::ext_equal]
pub struct BackupPutView {
    pub key: Seq<char>,
    pub bytes: Seq<u8>,
}

/// A backup that is to be put in the object store.
#[derive(Debug, PartialEq, Eq)]
pub struct BackupPut {
    pub key: String,
    pub bytes: Vec<u8>,
}

impl View for BackupPut {
    type V = BackupPutView;

    open spec fn view(&self) -> BackupPutView {
        BackupPutView { key: self.key@, bytes: self.bytes@ }
    }
}

/// What a result stands for.
pub open spec fn put_view(put: Result<BackupPut, Error>) -> Result<BackupPutView, ErrorView> {
    match put {
        Ok(p) => Ok(p@),
        Err(e) => Err(e@),
    }
}

/// The put of decoded bytes: refused where a device is named by something that is no id.
pub open spec fn put_of(params: JsonView, identity_key: Seq<char>, bytes: Seq<u8>) -> Result<
    BackupPutView,
    ErrorView,
> {
    match device_param(params) {
        Some(d) => if is_device_id(d) {
            Ok(BackupPutView { key: device_object_key(identity_key, d), bytes })
        } else {
            Err(ErrorView::ValidationError(bad_device_text()))
        },
        None => Ok(BackupPutView { key: object_key(identity_key), bytes }),
    }
}

/// The put that a request asks for.
pub open spec fn requested_put(params: JsonView, identity_key: Seq<char>) -> Result<
    BackupPutView,
    ErrorView,
> {
    match blob_param(params) {
        None => Err(ErrorView::ValidationError("putBackup: missing 'blob' (base64 string)"@)),
        Some(text) => match base64_bytes(text) {
            None => Err(
                ErrorView::ValidationError(
                    "putBackup: bad base64 blob: "@ + base64_error_text(text),
                ),
            ),
            Some(bytes) => put_of(params, identity_key, bytes),
        },
    }
}

fn param<'a>(params: &'a Json, index: usize, name: &str) -> (text: Option<&'a str>)
    ensures
        match (text, match params@ {
            JsonView::Array(_) => text_of(params@.element(index as int)),
            JsonView::Object(_) => text_of(params@.field(name@)),
            _ => None,
        }) {
            (Some(t), Some(want)) => t@ == want,
            (None, None) => true,
            _ => false,
        },
{
    let value: Option<&Json> = match params {
        Json::Array(_) => params.at(index),
        Json::Object(_) => params.get(name),
        _ => None,
    };
    match value {
        Some(v) => v.as_str(),
        None => None,
    }
}

/// Goes on with what the blob of a request decodes to.
pub fn put_decoded(params: &Json, identity_key: &str, decoded: Result<Vec<u8>, String>) -> (put: Result<
    BackupPut,
    Error,
>)
    ensures
        put_view(put) == (match decoded {
            Ok(bytes) => put_of(params@, identity_key@, bytes@),
            Err(why) => Err(
                ErrorView::ValidationError("putBackup: bad base64 blob: "@ + why@),
            ),
        }),
{
    match decoded {
        Err(why) => {
            let mut message = "putBackup: bad base64 blob: ".to_owned();
            message.append(why.as_str());
            Err(Error::ValidationError(message))
        },
        Ok(bytes) => match param(params, 1, "deviceId") {
            Some(d) => match validate_device_id(d) {
                Ok(_) => Ok(BackupPut { key: backup_device_object_key(identity_key, d), bytes }),
                Err(e) => Err(e),
            },
            None => Ok(BackupPut { key: backup_object_key(identity_key), bytes }),
        },
    }
}

/// What a request to put a backup asks for. The key comes from the authenticated identity;
/// the request can only name a device of it.
pub fn put_backup(params: &Json, identity_key: &str) -> (put: Result<BackupPut, Error>)
    ensures
        put_view(put) == requested_put(params@, identity_key@),
{
    match param(params, 0, "blob") {
        None => Err(invalid("putBackup: missing 'blob' (base64 string)")),
        Some(text) => {
            let decoded = base64_decode(text);
            proof {
                if decoded is Ok {
                    base64_round_trip(decoded->Ok_0@);
                }
            }
            put_decoded(params, identity_key, decoded)
        },
    }
}

/// The answer to a put.
pub open spec fn put_answer(len: nat) -> JsonView {
    JsonView::Object(
        seq![
            ("ok"@, JsonView::Bool(true)),
            ("bytes"@, JsonView::Number(Number::PosInt(len as u64))),
        ],
    )
}

pub fn put_backup_result(len: usize) -> (answer: Json)
    ensures
        answer@ == put_answer(len as nat),
{
    let list = vec![
        ("ok".to_owned(), Json::Bool(true)),
        ("bytes".to_owned(), Json::Number(Number::PosInt(len as u64))),
    ];
    assert(fields(list@) =~= put_answer(len as nat)->Object_0);
    Json::object(list)
}

// ---------------------------------------------------------------------------
// Getting
// ---------------------------------------------------------------------------

/// The answer to a get: the encoded object, `null` where there is none.
pub open spec fn get_answer(body: Option<Vec<u8>>) -> JsonView {
    JsonView::Object(
        seq![
            (
                "blob"@,
                match body {
                    Some(bytes) => JsonView::Str(base64_text(bytes@)),
                    None => JsonView::Null,
                },
            ),
        ],
    )
}

/// The answer to a get.
pub fn get_backup_result(body: Option<Vec<u8>>) -> (answer: Json)
    requires
        body matches Some(bytes) ==> encodable(bytes@.len()),
    ensures
        answer@ == get_answer(body),
{
    let blob = match &body {
        Some(bytes) => Json::Str(base64_encode(bytes)),
        None => Json::Null,
    };
    let list = vec![("blob".to_owned(), blob)];
    assert(fields(list@) =~= get_answer(body)->Object_0);
    Json::object(list)
}

/// What is put is what is got: a text that a put accepts is the text that a get of the same
/// object answers with.
pub proof fn a_get_gives_back_what_was_put(
    params: JsonView,
    identity_key: Seq<char>,
    text: Seq<char>,
    stored: Vec<u8>,
)
    requires
        blob_param(params) == Some(text),
        requested_put(params, identity_key) matches Ok(put) && put.bytes == stored@,
    ensures
        get_answer(Some(stored)).field("blob"@) == Some(JsonView::Str(text)),
{
    let list = get_answer(Some(stored))->Object_0;
    assert(list[0].0 == "blob"@);
    assert(crate::json::field_index(list, "blob"@, 0) == Some(0int));
}

// ---------------------------------------------------------------------------
// Listing
// ---------------------------------------------------------------------------

/// A listing under way: the blobs of the pages that were read.
#[verifier::ext_equal]
pub struct ListingView {
    pub prefix: Seq<char>,
    pub legacy_key: Seq<char>,
    pub blobs: Seq<Seq<char>>,
}

#[derive(Debug, PartialEq, Eq)]
pub struct Listing {
    pub prefix: String,
    pub legacy_key: String,
    pub blobs: Vec<String>,
}

impl View for Listing {
    type V = ListingView;

    open spec fn view(&self) -> ListingView {
        ListingView {
            prefix: self.prefix@,
            legacy_key: self.legacy_key@,
            blobs: texts(self.blobs@),
        }
    }
}

/// What a listing takes next.
#[verifier::ext_equal]
pub enum ListStepView {
    Page { listing: ListingView, cursor: Option<Seq<char>> },
    Legacy { listing: ListingView },
    Done { blobs: Seq<Seq<char>> },
}

/// What a listing takes next.
#[derive(Debug, PartialEq, Eq)]
pub enum ListStep {
    /// List a page of objects under the prefix, and read each of them.
    Page { listing: Listing, cursor: Option<String> },
    /// Read the object without a device.
    Legacy { listing: Listing },
    /// All blobs.
    Done { blobs: Vec<String> },
}

impl View for ListStep {
    type V = ListStepView;

    open spec fn view(&self) -> ListStepView {
        match self {
            ListStep::Page { listing, cursor } => ListStepView::Page {
                listing: listing@,
                cursor: text_view(*cursor),
            },
            ListStep::Legacy { listing } => ListStepView::Legacy { listing: listing@ },
            ListStep::Done { blobs } => ListStepView::Done { blobs: texts(blobs@) },
        }
    }
}

/// The encodings of the objects that have a body.
pub open spec fn encoded(bodies: Seq<Option<Vec<u8>>>) -> Seq<Seq<char>>
    decreases bodies.len(),
{
    if bodies.len() == 0 {
        Seq::empty()
    } else {
        match bodies.last() {
            Some(bytes) => encoded(bodies.drop_last()).push(base64_text(bytes@)),
            None => encoded(bodies.drop_last()),
        }
    }
}

/// Whether all objects can be encoded.
pub open spec fn all_encodable(bodies: Seq<Option<Vec<u8>>>) -> bool {
    forall|i: int|
        0 <= i < bodies.len() ==> ((#[trigger] bodies[i]) matches Some(bytes) ==> encodable(
            bytes@.len(),
        ))
}

impl ListingView {
    /// The listing with the objects of a page.
    pub open spec fn with(self, bodies: Seq<Option<Vec<u8>>>) -> ListingView {
        ListingView { blobs: self.blobs + encoded(bodies), ..self }
    }

    /// The step after a page: the next page where the list goes on and says where, else the
    /// object without a device.
    pub open spec fn after_page(
        self,
        bodies: Seq<Option<Vec<u8>>>,
        truncated: bool,
        cursor: Option<Seq<char>>,
    ) -> ListStepView {
        if truncated && cursor is Some {
            ListStepView::Page { listing: self.with(bodies), cursor }
        } else {
            ListStepView::Legacy { listing: self.with(bodies) }
        }
    }
}

fn encode_into(blobs: &mut Vec<String>, bodies: &Vec<Option<Vec<u8>>>)
    requires
        all_encodable(bodies@),
    ensures
        texts(final(blobs)@) == texts(old(blobs)@) + encoded(bodies@),
{
    let mut i: usize = 0;
    assert(texts(blobs@) =~= texts(old(blobs)@) + encoded(bodies@.take(0)));
    while i < bodies.len()
        invariant
            i <= bodies@.len(),
            all_encodable(bodies@),
            texts(blobs@) == texts(old(blobs)@) + encoded(bodies@.take(i as int)),
        decreases bodies@.len() - i,
    {
        proof {
            assert(bodies@.take(i + 1).drop_last() =~= bodies@.take(i as int));
            assert(bodies@[i as int] matches Some(bytes) ==> encodable(bytes@.len()));
        }
        if let Some(bytes) = &bodies[i] {
            let ghost before = blobs@;
            blobs.push(base64_encode(bytes));
            assert(texts(blobs@) =~= texts(before).push(base64_text(bytes@)));
        }
        i = i + 1;
        assert(texts(blobs@) =~= texts(old(blobs)@) + encoded(bodies@.take(i as int)));
    }
    assert(bodies@.take(i as int) =~= bodies@);
}

/// The first step of a listing.
pub open spec fn first_page(identity_key: Seq<char>) -> ListStepView {
    ListStepView::Page {
        listing: ListingView {
            prefix: device_prefix(identity_key),
            legacy_key: object_key(identity_key),
            blobs: Seq::empty(),
        },
        cursor: None,
    }
}

/// Starts to list all backups of an identity.
pub fn list_backups(identity_key: &str) -> (step: ListStep)
    ensures
        step@ == first_page(identity_key@),
{
    let listing = Listing {
        prefix: backup_device_prefix(identity_key),
        legacy_key: backup_object_key(identity_key),
        blobs: Vec::new(),
    };
    assert(listing@.blobs =~= Seq::empty());
    ListStep::Page { listing, cursor: None }
}

impl Listing {
    /// Goes on with the objects of a page, in their order.
    pub fn after_page(
        self,
        bodies: Vec<Option<Vec<u8>>>,
        truncated: bool,
        cursor: Option<String>,
    ) -> (step: ListStep)
        requires
            all_encodable(bodies@),
        ensures
            step@ == self@.after_page(bodies@, truncated, text_view(cursor)),
    {
        let mut listing = self;
        encode_into(&mut listing.blobs, &bodies);
        assert(listing@ =~= self@.with(bodies@));
        if truncated && cursor.is_some() {
            ListStep::Page { listing, cursor }
        } else {
            ListStep::Legacy { listing }
        }
    }

    /// Goes on with the object without a device, where it is there.
    pub fn after_legacy(self, body: Option<Vec<u8>>) -> (step: ListStep)
        requires
            all_encodable(seq![body]),
        ensures
            step@ == (ListStepView::Done { blobs: self@.with(seq![body]).blobs }),
    {
        let mut listing = self;
        let bodies = vec![body];
        assert(bodies@ =~= seq![body]);
        encode_into(&mut listing.blobs, &bodies);
        ListStep::Done { blobs: listing.blobs }
    }
}

/// What the object store answers to a page: the bodies of the objects, in their order,
/// whether the list goes on, and from where.
pub struct PageReply {
    pub bodies: Seq<Option<Vec<u8>>>,
    pub truncated: bool,
    pub cursor: Option<Seq<char>>,
}

impl PageReply {
    pub open spec fn goes_on(self) -> bool {
        self.truncated && self.cursor is Some
    }
}

/// The step of a listing after the given answers, one for each page.
pub open spec fn listed(identity_key: Seq<char>, replies: Seq<PageReply>) -> ListStepView
    decreases replies.len(),
{
    if replies.len() == 0 {
        first_page(identity_key)
    } else {
        match listed(identity_key, replies.drop_last()) {
            ListStepView::Page { listing, cursor } => listing.after_page(
                replies.last().bodies,
                replies.last().truncated,
                replies.last().cursor,
            ),
            other => other,
        }
    }
}

/// The encodings of all objects of the pages.
pub open spec fn all_encoded(replies: Seq<PageReply>) -> Seq<Seq<char>>
    decreases replies.len(),
{
    if replies.len() == 0 {
        Seq::empty()
    } else {
        all_encoded(replies.drop_last()) + encoded(replies.last().bodies)
    }
}

/// Whether the pages are those of a whole list: each but the last goes on.
pub open spec fn whole_list(replies: Seq<PageReply>) -> bool {
    &&& replies.len() > 0
    &&& !replies.last().goes_on()
    &&& forall|i: int| 0 <= i < replies.len() - 1 ==> (#[trigger] replies[i]).goes_on()
}

/// While the pages go on, the listing asks for the page that the last one points to.
pub proof fn a_list_is_followed(identity_key: Seq<char>, replies: Seq<PageReply>)
    requires
        forall|i: int| 0 <= i < replies.len() ==> (#[trigger] replies[i]).goes_on(),
    ensures
        listed(identity_key, replies) == (ListStepView::Page {
            listing: ListingView {
                prefix: device_prefix(identity_key),
                legacy_key: object_key(identity_key),
                blobs: all_encoded(replies),
            },
            cursor: if replies.len() == 0 {
                None
            } else {
                replies.last().cursor
            },
        }),
    decreases replies.len(),
{
    if replies.len() > 0 {
        let rest = replies.drop_last();
        assert forall|i: int| 0 <= i < rest.len() implies (#[trigger] rest[i]).goes_on() by {
            assert(rest[i] == replies[i]);
        }
        a_list_is_followed(identity_key, rest);
        assert(replies[replies.len() - 1].goes_on());
    }
}

proof fn encoded_has(bodies: Seq<Option<Vec<u8>>>, i: int)
    requires
        0 <= i < bodies.len(),
        bodies[i] is Some,
    ensures
        encoded(bodies).contains(base64_text(bodies[i]->0@)),
    decreases bodies.len(),
{
    let rest = bodies.drop_last();
    let want = base64_text(bodies[i]->0@);
    if i < bodies.len() - 1 {
        encoded_has(rest, i);
        let k = choose|k: int| 0 <= k < encoded(rest).len() && encoded(rest)[k] == want;
        assert(encoded(bodies)[k] == want);
    } else {
        assert(encoded(bodies)[encoded(bodies).len() - 1] == want);
    }
}

proof fn all_encoded_has(replies: Seq<PageReply>, p: int, i: int)
    requires
        0 <= p < replies.len(),
        0 <= i < replies[p].bodies.len(),
        replies[p].bodies[i] is Some,
    ensures
        all_encoded(replies).contains(base64_text(replies[p].bodies[i]->0@)),
    decreases replies.len(),
{
    let rest = replies.drop_last();
    let want = base64_text(replies[p].bodies[i]->0@);
    if p < replies.len() - 1 {
        all_encoded_has(rest, p, i);
        let k = choose|k: int| 0 <= k < all_encoded(rest).len() && all_encoded(rest)[k] == want;
        assert(all_encoded(replies)[k] == want);
    } else {
        let bodies = replies[p].bodies;
        encoded_has(bodies, i);
        let k = choose|k: int| 0 <= k < encoded(bodies).len() && encoded(bodies)[k] == want;
        assert(all_encoded(replies)[all_encoded(rest).len() + k] == want);
    }
}

/// No backup is left out. After the pages of a whole list, however many, the object without
/// a device is read, and the blobs are those of all pages and of that object: each object
/// with a body is among them.
pub proof fn every_backup_is_listed(
    identity_key: Seq<char>,
    replies: Seq<PageReply>,
    legacy: Option<Vec<u8>>,
    p: int,
    i: int,
)
    requires
        whole_list(replies),
    ensures
        listed(identity_key, replies) matches ListStepView::Legacy { listing } && {
            let blobs = listing.with(seq![legacy]).blobs;
            &&& listing.legacy_key == object_key(identity_key)
            &&& blobs == all_encoded(replies) + encoded(seq![legacy])
            &&& 0 <= p < replies.len() && 0 <= i < replies[p].bodies.len()
                && replies[p].bodies[i] is Some ==> blobs.contains(
                base64_text(replies[p].bodies[i]->0@),
            )
            &&& legacy is Some ==> blobs.contains(base64_text(legacy->0@))
        },
{
    let rest = replies.drop_last();
    assert forall|k: int| 0 <= k < rest.len() implies (#[trigger] rest[k]).goes_on() by {
        assert(rest[k] == replies[k]);
    }
    a_list_is_followed(identity_key, rest);
    let pages = all_encoded(replies);
    let all = pages + encoded(seq![legacy]);
    if 0 <= p < replies.len() && 0 <= i < replies[p].bodies.len() && replies[p].bodies[i] is Some {
        all_encoded_has(replies, p, i);
        let want = base64_text(replies[p].bodies[i]->0@);
        let k = choose|k: int| 0 <= k < pages.len() && pages[k] == want;
        assert(all[k] == want);
    }
    if legacy is Some {
        encoded_has(seq![legacy], 0);
        let want = base64_text(legacy->0@);
        let k = choose|k: int|
            0 <= k < encoded(seq![legacy]).len() && encoded(seq![legacy])[k] == want;
        assert(all[pages.len() + k] == want);
    }
}

/// What is put is what is listed: a put goes to an object that a listing reads, and the
/// text that the put accepts is the text that the listing has for that object.
pub proof fn a_listing_gives_back_what_was_put(
    params: JsonView,
    identity_key: Seq<char>,
    text: Seq<char>,
    stored: Vec<u8>,
)
    requires
        blob_param(params) == Some(text),
        requested_put(params, identity_key) matches Ok(put) && put.bytes == stored@,
    ensures
        requested_put(params, identity_key) matches Ok(put) && (put.key == object_key(identity_key)
            || device_prefix(identity_key).is_prefix_of(put.key)),
        encoded(seq![Some(stored)]) == seq![text],
{
    if let Some(d) = device_param(params) {
        a_device_id_stays_in_its_prefix(identity_key, d);
    }
    reveal_with_fuel(encoded, 2);
    assert(seq![Some(stored)].drop_last() =~= Seq::empty());
    assert(encoded(seq![Some(stored)]) =~= seq![text]);
}

/// The answer to a listing.
pub open spec fn list_answer(blobs: Seq<Seq<char>>) -> JsonView {
    JsonView::Object(
        seq![("blobs"@, JsonView::Array(Seq::new(blobs.len(), |i: int| JsonView::Str(blobs[i]))))],
    )
}

pub fn list_backups_result(blobs: &Vec<String>) -> (answer: Json)
    ensures
        answer@ == list_answer(texts(blobs@)),
{
    let mut list: Vec<Json> = Vec::new();
    let mut i: usize = 0;
    while i < blobs.len()
        invariant
            i <= blobs@.len(),
            list@.len() == i,
            forall|k: int| 0 <= k < i ==> (#[trigger] list@[k])@ == JsonView::Str(blobs@[k]@),
        decreases blobs@.len() - i,
    {
        list.push(Json::Str(blobs[i].clone()));
        i = i + 1;
    }
    let ghost all = texts(blobs@);
    assert(items(list@) =~= Seq::new(all.len(), |k: int| JsonView::Str(all[k])));
    let object = vec![("blobs".to_owned(), Json::array(list))];
    assert(fields(object@) =~= list_answer(all)->Object_0);
    Json::object(object)
}

// ---------------------------------------------------------------------------
// Proof that backups are there
// ---------------------------------------------------------------------------

/// What the object store says of an object without reading it.
#[derive(Debug, PartialEq, Eq)]
pub struct ObjectInfo {
    pub key: String,
    pub size: u64,
    pub uploaded: u64,
    pub etag: String,
}

/// What is reported of a backup. One without a device cannot stand for any.
#[verifier::ext_equal]
pub struct StatView {
    pub device_id: Option<Seq<char>>,
    pub size: u64,
    pub uploaded: u64,
    pub etag: Seq<char>,
}

#[derive(Debug, PartialEq, Eq)]
pub struct Stat {
    pub device_id: Option<String>,
    pub size: u64,
    pub uploaded: u64,
    pub etag: String,
}

impl View for Stat {
    type V = StatView;

    open spec fn view(&self) -> StatView {
        StatView {
            device_id: text_view(self.device_id),
            size: self.size,
            uploaded: self.uploaded,
            etag: self.etag@,
        }
    }
}

pub open spec fn stats(list: Seq<Stat>) -> Seq<StatView> {
    Seq::new(list.len(), |i: int| list[i]@)
}

/// What follows the last slash of a key, the whole key where there is none.
pub open spec fn last_segment(key: Seq<char>) -> Seq<char>
    decreases key.len(),
{
    if key.len() == 0 || key.last() == '/' {
        Seq::empty()
    } else {
        last_segment(key.drop_last()).push(key.last())
    }
}

/// What stands behind the last slash is the last segment.
pub proof fn last_segment_from(key: Seq<char>, from: int)
    requires
        0 <= from <= key.len(),
        from > 0 ==> key[from - 1] == '/',
        forall|i: int| from <= i < key.len() ==> #[trigger] key[i] != '/',
    ensures
        last_segment(key) == key.subrange(from, key.len() as int),
    decreases key.len(),
{
    if from == key.len() {
        assert(last_segment(key) =~= key.subrange(from, key.len() as int));
    } else {
        let rest = key.drop_last();
        assert forall|i: int| from <= i < rest.len() implies #[trigger] rest[i] != '/' by {
            assert(rest[i] == key[i]);
        }
        last_segment_from(rest, from);
        assert(key.subrange(from, key.len() as int) =~= rest.subrange(from, rest.len() as int).push(
            key.last(),
        ));
    }
}

fn device_of(key: &str) -> (device: &str)
    ensures
        device@ == last_segment(key@),
{
    let n = key.unicode_len();
    let mut from: usize = n;
    while from > 0 && key.get_char(from - 1) != '/'
        invariant
            n == key@.len(),
            from <= n,
            forall|i: int| from <= i < n ==> #[trigger] key@[i] != '/',
        decreases from,
    {
        from = from - 1;
    }
    proof {
        last_segment_from(key@, from as int);
    }
    key.substring_char(from, n)
}

/// The last segment of the key of a device object is the device.
pub proof fn a_device_object_tells_its_device(identity_key: Seq<char>, device_id: Seq<char>)
    requires
        is_device_id(device_id),
    ensures
        last_segment(device_object_key(identity_key, device_id)) == device_id,
{
    reveal_strlit("/");
    let key = device_object_key(identity_key, device_id);
    let prefix = device_prefix(identity_key);
    assert(key =~= prefix + device_id);
    assert(prefix[prefix.len() - 1] == '/');
    assert forall|i: int| prefix.len() <= i < key.len() implies #[trigger] key[i] != '/' by {
        assert(device_char(device_id[i - prefix.len()]));
    }
    last_segment_from(key, prefix.len() as int);
    assert(key.subrange(prefix.len() as int, key.len() as int) =~= device_id);
}

/// What is reported of a device object; nothing of one whose key does not end in a device.
pub open spec fn device_stat(info: ObjectInfo) -> Option<StatView> {
    if last_segment(info.key@).len() == 0 {
        None
    } else {
        Some(
            StatView {
                device_id: Some(last_segment(info.key@)),
                size: info.size,
                uploaded: info.uploaded,
                etag: info.etag@,
            },
        )
    }
}

/// What is reported of a page of device objects.
pub open spec fn device_stats(page: Seq<ObjectInfo>) -> Seq<StatView>
    decreases page.len(),
{
    if page.len() == 0 {
        Seq::empty()
    } else {
        match device_stat(page.last()) {
            Some(stat) => device_stats(page.drop_last()).push(stat),
            None => device_stats(page.drop_last()),
        }
    }
}

/// What is reported of the object without a device.
pub open spec fn legacy_stats(info: Option<ObjectInfo>) -> Seq<StatView> {
    match info {
        Some(info) => seq![
            StatView {
                device_id: None,
                size: info.size,
                uploaded: info.uploaded,
                etag: info.etag@,
            },
        ],
        None => Seq::empty(),
    }
}

/// A report under way: what was learnt of the pages that were listed.
#[verifier::ext_equal]
pub struct ReportView {
    pub prefix: Seq<char>,
    pub legacy_key: Seq<char>,
    pub objects: Seq<StatView>,
}

#[derive(Debug, PartialEq, Eq)]
pub struct Report {
    pub prefix: String,
    pub legacy_key: String,
    pub objects: Vec<Stat>,
}

impl View for Report {
    type V = ReportView;

    open spec fn view(&self) -> ReportView {
        ReportView {
            prefix: self.prefix@,
            legacy_key: self.legacy_key@,
            objects: stats(self.objects@),
        }
    }
}

/// What a report takes next.
#[verifier::ext_equal]
pub enum StatStepView {
    Page { report: ReportView, cursor: Option<Seq<char>> },
    Legacy { report: ReportView },
    Done { objects: Seq<StatView> },
}

/// What a report takes next.
#[derive(Debug, PartialEq, Eq)]
pub enum StatStep {
    /// List a page of objects under the prefix.
    Page { report: Report, cursor: Option<String> },
    /// Ask for the object without a device.
    Legacy { report: Report },
    /// What is reported.
    Done { objects: Vec<Stat> },
}

impl View for StatStep {
    type V = StatStepView;

    open spec fn view(&self) -> StatStepView {
        match self {
            StatStep::Page { report, cursor } => StatStepView::Page {
                report: report@,
                cursor: text_view(*cursor),
            },
            StatStep::Legacy { report } => StatStepView::Legacy { report: report@ },
            StatStep::Done { objects } => StatStepView::Done { objects: stats(objects@) },
        }
    }
}

impl ReportView {
    pub open spec fn with(self, page: Seq<ObjectInfo>) -> ReportView {
        ReportView { objects: self.objects + device_stats(page), ..self }
    }

    /// The step after a page: the next page where the list goes on and says where, else the
    /// object without a device.
    pub open spec fn after_page(
        self,
        page: Seq<ObjectInfo>,
        truncated: bool,
        cursor: Option<Seq<char>>,
    ) -> StatStepView {
        if truncated && cursor is Some {
            StatStepView::Page { report: self.with(page), cursor }
        } else {
            StatStepView::Legacy { report: self.with(page) }
        }
    }
}

/// The first step of a report.
pub open spec fn first_stat_page(identity_key: Seq<char>) -> StatStepView {
    StatStepView::Page {
        report: ReportView {
            prefix: device_prefix(identity_key),
            legacy_key: object_key(identity_key),
            objects: Seq::empty(),
        },
        cursor: None,
    }
}

/// Starts to report which backups of an identity are there.
pub fn stat_backups(identity_key: &str) -> (step: StatStep)
    ensures
        step@ == first_stat_page(identity_key@),
{
    let report = Report {
        prefix: backup_device_prefix(identity_key),
        legacy_key: backup_object_key(identity_key),
        objects: Vec::new(),
    };
    assert(report@.objects =~= Seq::empty());
    StatStep::Page { report, cursor: None }
}

impl Report {
    /// Goes on with the objects of a page.
    pub fn after_page(self, page: Vec<ObjectInfo>, truncated: bool, cursor: Option<String>) -> (step:
        StatStep)
        ensures
            step@ == self@.after_page(page@, truncated, text_view(cursor)),
    {
        let mut report = self;
        let mut i: usize = 0;
        assert(stats(report.objects@) =~= self@.objects + device_stats(page@.take(0)));
        while i < page.len()
            invariant
                i <= page@.len(),
                report.prefix == self.prefix,
                report.legacy_key == self.legacy_key,
                stats(report.objects@) == self@.objects + device_stats(page@.take(i as int)),
            decreases page@.len() - i,
        {
            let info = &page[i];
            proof {
                assert(page@.take(i + 1).drop_last() =~= page@.take(i as int));
                assert(page@.take(i + 1).last() == *info);
            }
            let device = device_of(info.key.as_str());
            if !device.is_empty() {
                let stat = Stat {
                    device_id: Some(device.to_owned()),
                    size: info.size,
                    uploaded: info.uploaded,
                    etag: info.etag.clone(),
                };
                assert(Some(stat@) =~= device_stat(*info));
                let ghost before = report.objects@;
                report.objects.push(stat);
                assert(stats(report.objects@) =~= stats(before).push(stat@));
            }
            i = i + 1;
            assert(stats(report.objects@) =~= self@.objects + device_stats(page@.take(i as int)));
        }
        assert(page@.take(i as int) =~= page@);
        assert(report@ =~= self@.with(page@));
        if truncated && cursor.is_some() {
            StatStep::Page { report, cursor }
        } else {
            StatStep::Legacy { report }
        }
    }

    /// Goes on with the object without a device, where it is there.
    pub fn after_legacy(self, info: Option<ObjectInfo>) -> (step: StatStep)
        ensures
            step@ == (StatStepView::Done { objects: self@.objects + legacy_stats(info) }),
    {
        let mut objects = self.objects;
        if let Some(info) = &info {
            objects.push(
                Stat {
                    device_id: None,
                    size: info.size,
                    uploaded: info.uploaded,
                    etag: info.etag.clone(),
                },
            );
        }
        assert(stats(objects@) =~= self@.objects + legacy_stats(info));
        StatStep::Done { objects }
    }
}

/// What is reported without a device never stands for one, and what is reported of a page
/// always does.
pub proof fn only_device_objects_prove_a_device(page: Seq<ObjectInfo>, info: Option<ObjectInfo>)
    ensures
        forall|i: int|
            0 <= i < device_stats(page).len() ==> (#[trigger] device_stats(page)[i]).device_id
                is Some,
        forall|i: int|
            0 <= i < legacy_stats(info).len() ==> (#[trigger] legacy_stats(info)[i]).device_id
                is None,
    decreases page.len(),
{
    if page.len() > 0 {
        only_device_objects_prove_a_device(page.drop_last(), info);
    }
}

/// What the object store answers to a page of a report.
pub struct StatReply {
    pub page: Seq<ObjectInfo>,
    pub truncated: bool,
    pub cursor: Option<Seq<char>>,
}

/// The step of a report after the given answers, one for each page.
pub open spec fn reported(identity_key: Seq<char>, replies: Seq<StatReply>) -> StatStepView
    decreases replies.len(),
{
    if replies.len() == 0 {
        first_stat_page(identity_key)
    } else {
        match reported(identity_key, replies.drop_last()) {
            StatStepView::Page { report, cursor } => report.after_page(
                replies.last().page,
                replies.last().truncated,
                replies.last().cursor,
            ),
            other => other,
        }
    }
}

/// What is reported of all pages.
pub open spec fn all_stats(replies: Seq<StatReply>) -> Seq<StatView>
    decreases replies.len(),
{
    if replies.len() == 0 {
        Seq::empty()
    } else {
        all_stats(replies.drop_last()) + device_stats(replies.last().page)
    }
}

/// A report walks the pages as a listing does, so that it sees what a restore sees: on the
/// same answers of the store both ask for the same page, or both have all pages and turn to
/// the object without a device. The report then has all pages.
pub proof fn a_report_follows_what_a_listing_follows(
    identity_key: Seq<char>,
    reports: Seq<StatReply>,
    lists: Seq<PageReply>,
)
    requires
        reports.len() == lists.len(),
        forall|i: int|
            0 <= i < reports.len() ==> (#[trigger] reports[i]).truncated == lists[i].truncated
                && reports[i].cursor == lists[i].cursor,
    ensures
        match (reported(identity_key, reports), listed(identity_key, lists)) {
            (
                StatStepView::Page { report, cursor: a },
                ListStepView::Page { listing, cursor: b },
            ) => {
                &&& a == b
                &&& report.prefix == listing.prefix
                &&& report.legacy_key == listing.legacy_key
                &&& report.objects == all_stats(reports)
            },
            (StatStepView::Legacy { report }, ListStepView::Legacy { listing }) => {
                report.legacy_key == listing.legacy_key && (whole_list(lists) ==> report.objects
                    == all_stats(reports))
            },
            _ => false,
        },
    decreases reports.len(),
{
    if reports.len() > 0 {
        let n = reports.len() - 1;
        let fewer = reports.drop_last();
        let rest = lists.drop_last();
        assert forall|i: int| 0 <= i < fewer.len() implies (#[trigger] fewer[i]).truncated
            == rest[i].truncated && fewer[i].cursor == rest[i].cursor by {
            assert(fewer[i] == reports[i]);
        }
        a_report_follows_what_a_listing_follows(identity_key, fewer, rest);
        assert(reports[n].truncated == lists[n].truncated && reports[n].cursor == lists[n].cursor);
        if whole_list(lists) {
            assert forall|i: int| 0 <= i < rest.len() implies (#[trigger] rest[i]).goes_on() by {
                assert(rest[i] == lists[i]);
            }
            a_list_is_followed(identity_key, rest);
        }
    }
}

/// What the answer says of a backup.
pub open spec fn stat_answer(stat: StatView) -> JsonView {
    JsonView::Object(
        seq![
            (
                "deviceId"@,
                match stat.device_id {
                    Some(d) => JsonView::Str(d),
                    None => JsonView::Null,
                },
            ),
            ("deviceScoped"@, JsonView::Bool(stat.device_id is Some)),
            ("size"@, JsonView::Number(Number::PosInt(stat.size))),
            ("uploaded"@, JsonView::Number(Number::PosInt(stat.uploaded))),
            ("etag"@, JsonView::Str(stat.etag)),
        ],
    )
}

/// The answer to a report.
pub open spec fn report_answer(objects: Seq<StatView>) -> JsonView {
    JsonView::Object(
        seq![("objects"@, JsonView::Array(Seq::new(objects.len(), |i: int| stat_answer(objects[i]))))],
    )
}

fn stat_json(stat: &Stat) -> (value: Json)
    ensures
        value@ == stat_answer(stat@),
{
    let device = match &stat.device_id {
        Some(d) => Json::Str(d.clone()),
        None => Json::Null,
    };
    let list = vec![
        ("deviceId".to_owned(), device),
        ("deviceScoped".to_owned(), Json::Bool(stat.device_id.is_some())),
        ("size".to_owned(), Json::Number(Number::PosInt(stat.size))),
        ("uploaded".to_owned(), Json::Number(Number::PosInt(stat.uploaded))),
        ("etag".to_owned(), Json::Str(stat.etag.clone())),
    ];
    assert(fields(list@) =~= stat_answer(stat@)->Object_0);
    Json::object(list)
}

pub fn stat_backups_result(objects: &Vec<Stat>) -> (answer: Json)
    ensures
        answer@ == report_answer(stats(objects@)),
{
    let mut list: Vec<Json> = Vec::new();
    let mut i: usize = 0;
    while i < objects.len()
        invariant
            i <= objects@.len(),
            list@.len() == i,
            forall|k: int| 0 <= k < i ==> (#[trigger] list@[k])@ == stat_answer(objects@[k]@),
        decreases objects@.len() - i,
    {
        list.push(stat_json(&objects[i]));
        i = i + 1;
    }
    let ghost all = stats(objects@);
    assert(items(list@) =~= Seq::new(all.len(), |k: int| stat_answer(all[k])));
    let object = vec![("objects".to_owned(), Json::array(list))];
    assert(fields(object@) =~= report_answer(all)->Object_0);
    Json::object(object)
}

} // verus!
