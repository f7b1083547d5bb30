//! What is put, listed and reported, said of the requests and of the objects themselves.

use crate::backup::{
    a_list_is_followed, a_report_follows_what_a_listing_follows, all_encoded, all_stats,
    base64_round_trip, device_object_key, device_stats, encoded, get_answer, is_device_id,
    last_segment, last_segment_from, legacy_stats, list_answer, listed, put_answer, report_answer,
    reported, whole_list, BackupPutView, ListStepView, ObjectInfo, PageReply, StatReply,
    StatStepView, StatView,
};
use crate::codec::{base64_error_text, base64_text};
use crate::dispatch::{args_for, ArgsView, Method};
use crate::error::ErrorView;
use crate::json::{JsonView, Number};
use crate::json_laws::{
    a_field_is_the_first_of_its_name, first_of_its_name, gives, what_stands_under_a_name_is_read,
};
use vstd::prelude::*;

verus! {

// ---------------------------------------------------------------------------
// Putting and getting
// ---------------------------------------------------------------------------

/// The bytes that are put are the bytes that the blob encodes, all of them, and they go to
/// the object of the device that is named, or to the one without a device where the request
/// has no text for one.
pub proof fn a_put_keeps_its_bytes(
    params: JsonView,
    bytes: Seq<u8>,
    device: Option<JsonView>,
    identity_key: Seq<char>,
)
    requires
        gives(params, 0, "blob"@, Some(JsonView::Str(base64_text(bytes)))),
        gives(params, 1, "deviceId"@, device),
    ensures
        ({
            let args = args_for(Method::PutBackup, params, identity_key);
            match device {
                Some(JsonView::Str(d)) => if is_device_id(d) {
                    args == Ok::<ArgsView, ErrorView>(
                        ArgsView::Put {
                            put: BackupPutView {
                                key: "backup/"@ + identity_key + "/"@ + d,
                                bytes,
                            },
                        },
                    )
                } else {
                    args == Err::<ArgsView, ErrorView>(
                        ErrorView::ValidationError(
                            "putBackup: invalid deviceId (want 8-64 chars of [A-Za-z0-9_-])"@,
                        ),
                    )
                },
                _ => args == Ok::<ArgsView, ErrorView>(
                    ArgsView::Put {
                        put: BackupPutView { key: "backup/"@ + identity_key, bytes },
                    },
                ),
            }
        }),
{
    base64_round_trip(bytes);
    if let JsonView::Object(list) = params {
        what_stands_under_a_name_is_read(
            list,
            "blob"@,
            Some(JsonView::Str(base64_text(bytes))),
        );
        what_stands_under_a_name_is_read(list, "deviceId"@, device);
    }
}

/// A put without the text of a blob is refused, and so is a text that encodes no bytes.
pub proof fn a_put_needs_a_blob(params: JsonView, blob: Option<JsonView>, identity_key: Seq<char>)
    requires
        gives(params, 0, "blob"@, blob),
        blob matches Some(JsonView::Str(text)) ==> forall|b: Seq<u8>| #[trigger]
            base64_text(b) != text,
    ensures
        args_for(Method::PutBackup, params, identity_key) == Err::<ArgsView, ErrorView>(
            ErrorView::ValidationError(
                match blob {
                    Some(JsonView::Str(text)) => "putBackup: bad base64 blob: "@
                        + base64_error_text(text),
                    _ => "putBackup: missing 'blob' (base64 string)"@,
                },
            ),
        ),
{
    if let JsonView::Object(list) = params {
        what_stands_under_a_name_is_read(list, "blob"@, blob);
    }
}

/// A device is named by eight to sixty-four letters, digits, hyphens and underscores, and by
/// nothing else.
pub proof fn a_device_id_is_a_short_token(id: Seq<char>)
    ensures
        is_device_id(id) <==> 8 <= id.len() && id.len() <= 64 && forall|i: int|
            0 <= i < id.len() ==> {
                let c = #[trigger] id[i];
                (c >= 'a' && c <= 'z') || (c >= 'A' && c <= 'Z') || (c >= '0' && c <= '9') || c
                    == '-' || c == '_'
            },
{
    assert(forall|i: int|
        0 <= i < id.len() ==> crate::backup::device_char(#[trigger] id[i]) == {
            let c = id[i];
            (c >= 'a' && c <= 'z') || (c >= 'A' && c <= 'Z') || (c >= '0' && c <= '9') || c == '-'
                || c == '_'
        });
}

/// The answer to a put says that it is done and how many bytes were put.
pub proof fn a_put_answers_its_length(len: nat)
    requires
        len <= u64::MAX,
    ensures
        put_answer(len).field("ok"@) == Some(JsonView::Bool(true)),
        put_answer(len).field("bytes"@) == Some(
            JsonView::Number(Number::PosInt(len as u64)),
        ),
{
    reveal_strlit("ok");
    reveal_strlit("bytes");
    let list = put_answer(len)->Object_0;
    assert(first_of_its_name(list, "ok"@, 0));
    assert(list[0].0.len() != "bytes"@.len());
    assert(first_of_its_name(list, "bytes"@, 1));
    a_field_is_the_first_of_its_name(list, "ok"@, 0, JsonView::Null);
    a_field_is_the_first_of_its_name(list, "bytes"@, 1, JsonView::Null);
}

/// The answer to a get has the encoding of exactly the bytes that are stored, and `null`
/// where nothing is.
pub proof fn a_get_answers_the_stored_bytes(body: Option<Vec<u8>>)
    ensures
        body matches Some(bytes) ==> get_answer(body).field("blob"@) == Some(
            JsonView::Str(base64_text(bytes@)),
        ),
        body is None ==> get_answer(body).field("blob"@) == Some(JsonView::Null),
{
    let list = get_answer(body)->Object_0;
    assert(first_of_its_name(list, "blob"@, 0));
    a_field_is_the_first_of_its_name(list, "blob"@, 0, JsonView::Null);
}

/// A get, a listing and a report are of the objects of the caller, whatever is asked.
pub proof fn reads_are_of_the_caller(params: JsonView, identity_key: Seq<char>)
    ensures
        args_for(Method::GetBackup, params, identity_key) == Ok::<ArgsView, ErrorView>(
            ArgsView::Get { key: "backup/"@ + identity_key },
        ),
        args_for(Method::ListBackups, params, identity_key) matches Ok(
            ArgsView::List { listing: ListStepView::Page { listing, cursor } },
        ) && listing.prefix == "backup/"@ + identity_key + "/"@ && listing.legacy_key
            == "backup/"@ + identity_key && listing.blobs.len() == 0 && cursor is None,
        args_for(Method::StatBackups, params, identity_key) matches Ok(
            ArgsView::Stat { report: StatStepView::Page { report, cursor } },
        ) && report.prefix == "backup/"@ + identity_key + "/"@ && report.legacy_key
            == "backup/"@ + identity_key && report.objects.len() == 0 && cursor is None,
{
}

// ---------------------------------------------------------------------------
// Listing
// ---------------------------------------------------------------------------

/// The bodies of all pages, one after the other.
pub open spec fn all_bodies(replies: Seq<PageReply>) -> Seq<Option<Vec<u8>>> {
    replies.map_values(|r: PageReply| r.bodies).flatten_alt()
}

/// The blobs of the objects that have a body, in their order.
pub open spec fn blobs_of(bodies: Seq<Option<Vec<u8>>>) -> Seq<Seq<char>> {
    bodies.filter(|b: Option<Vec<u8>>| b is Some).map_values(
        |b: Option<Vec<u8>>| base64_text(b->0@),
    )
}

proof fn encoded_in_order(bodies: Seq<Option<Vec<u8>>>)
    ensures
        encoded(bodies) == blobs_of(bodies),
    decreases bodies.len(),
{
    reveal(Seq::filter);
    let keep = |b: Option<Vec<u8>>| b is Some;
    let text = |b: Option<Vec<u8>>| base64_text(b->0@);
    if bodies.len() > 0 {
        encoded_in_order(bodies.drop_last());
        let kept = bodies.drop_last().filter(keep);
        if bodies.last() is Some {
            assert(kept.push(bodies.last()).map_values(text) =~= kept.map_values(text).push(
                base64_text(bodies.last()->0@),
            ));
        }
    }
    assert(encoded(bodies) =~= blobs_of(bodies));
}

proof fn blobs_add(a: Seq<Option<Vec<u8>>>, b: Seq<Option<Vec<u8>>>)
    ensures
        blobs_of(a + b) == blobs_of(a) + blobs_of(b),
{
    Seq::filter_distributes_over_add(a, b, |b: Option<Vec<u8>>| b is Some);
    assert(blobs_of(a + b) =~= blobs_of(a) + blobs_of(b));
}

proof fn all_encoded_in_order(replies: Seq<PageReply>)
    ensures
        all_encoded(replies) == blobs_of(all_bodies(replies)),
    decreases replies.len(),
{
    let pages = replies.map_values(|r: PageReply| r.bodies);
    if replies.len() > 0 {
        let rest = replies.drop_last();
        all_encoded_in_order(rest);
        assert(pages.drop_last() =~= rest.map_values(|r: PageReply| r.bodies));
        assert(all_bodies(replies) == all_bodies(rest) + replies.last().bodies);
        encoded_in_order(replies.last().bodies);
        blobs_add(all_bodies(rest), replies.last().bodies);
    } else {
        encoded_in_order(Seq::empty());
        assert(all_bodies(replies) =~= Seq::empty());
    }
}

/// Whether each of some pages goes on and says from where.
pub open spec fn all_go_on(replies: Seq<PageReply>) -> bool {
    forall|i: int|
        0 <= i < replies.len() ==> (#[trigger] replies[i]).truncated && replies[i].cursor is Some
}

/// While the pages go on, a listing has the blobs of all of them so far and asks for the page
/// that the last one points to.
pub proof fn a_listing_goes_on(identity_key: Seq<char>, replies: Seq<PageReply>)
    requires
        all_go_on(replies),
    ensures
        listed(identity_key, replies) matches ListStepView::Page { listing, cursor } && {
            &&& listing.prefix == "backup/"@ + identity_key + "/"@
            &&& listing.legacy_key == "backup/"@ + identity_key
            &&& listing.blobs == blobs_of(all_bodies(replies))
            &&& cursor == if replies.len() == 0 {
                None
            } else {
                replies[replies.len() - 1].cursor
            }
        },
{
    a_list_is_followed(identity_key, replies);
    all_encoded_in_order(replies);
}

/// After the pages of a whole list the blobs are those of all objects of all pages that have
/// a body, each once and in the order of the pages, then that of the object without a device.
pub proof fn a_listing_is_in_order(
    identity_key: Seq<char>,
    replies: Seq<PageReply>,
    legacy: Option<Vec<u8>>,
)
    requires
        replies.len() > 0,
        all_go_on(replies.drop_last()),
        !(replies.last().truncated && replies.last().cursor is Some),
    ensures
        listed(identity_key, replies) matches ListStepView::Legacy { listing } && {
            &&& listing.legacy_key == "backup/"@ + identity_key
            &&& listing.blobs == blobs_of(all_bodies(replies))
            &&& listing.with(seq![legacy]).blobs == match legacy {
                Some(bytes) => blobs_of(all_bodies(replies)).push(base64_text(bytes@)),
                None => blobs_of(all_bodies(replies)),
            }
        },
{
    let rest = replies.drop_last();
    a_list_is_followed(identity_key, rest);
    all_encoded_in_order(replies);
    reveal_with_fuel(encoded, 2);
    assert(seq![legacy].drop_last() =~= Seq::empty());
    let blobs = all_encoded(replies);
    match legacy {
        Some(bytes) => {
            assert(blobs + encoded(seq![legacy]) =~= blobs.push(base64_text(bytes@)));
        },
        None => {
            assert(blobs + encoded(seq![legacy]) =~= blobs);
        },
    }
}

/// The answer to a listing has each blob as a text, in its place, and nothing more.
pub proof fn a_listing_answers_each_blob(blobs: Seq<Seq<char>>)
    ensures
        list_answer(blobs).field("blobs"@) matches Some(JsonView::Array(list)) && list.len()
            == blobs.len() && forall|i: int|
            0 <= i < blobs.len() ==> #[trigger] list[i] == JsonView::Str(blobs[i]),
{
    let list = list_answer(blobs)->Object_0;
    assert(first_of_its_name(list, "blobs"@, 0));
    a_field_is_the_first_of_its_name(list, "blobs"@, 0, JsonView::Null);
}

// ---------------------------------------------------------------------------
// Reporting
// ---------------------------------------------------------------------------

/// Whether the last segment of a key starts at a place.
pub open spec fn segment_starts(key: Seq<char>, from: int) -> bool {
    &&& 0 <= from <= key.len()
    &&& from > 0 ==> key[from - 1] == '/'
    &&& forall|i: int| from <= i < key.len() ==> #[trigger] key[i] != '/'
}

/// What stands behind the last slash of a key.
pub open spec fn ending(key: Seq<char>) -> Seq<char> {
    key.subrange(choose|from: int| segment_starts(key, from), key.len() as int)
}

proof fn a_segment_starts_somewhere(key: Seq<char>, to: int)
    requires
        0 <= to <= key.len(),
        forall|i: int| to <= i < key.len() ==> #[trigger] key[i] != '/',
    ensures
        exists|from: int| segment_starts(key, from),
    decreases to,
{
    if to == 0 || key[to - 1] == '/' {
        assert(segment_starts(key, to));
    } else {
        a_segment_starts_somewhere(key, to - 1);
    }
}

proof fn segments_agree(key: Seq<char>)
    ensures
        last_segment(key) == ending(key),
{
    a_segment_starts_somewhere(key, key.len() as int);
    let from = choose|from: int| segment_starts(key, from);
    last_segment_from(key, from);
}

/// The objects of all pages, one after the other.
pub open spec fn all_objects(replies: Seq<StatReply>) -> Seq<ObjectInfo> {
    replies.map_values(|r: StatReply| r.page).flatten_alt()
}

/// Whether the key of an object ends in a device.
pub open spec fn names_a_device(info: ObjectInfo) -> bool {
    ending(info.key@).len() > 0
}

/// What a report has to say of an object with a device.
pub open spec fn entry_of(info: ObjectInfo) -> StatView {
    StatView {
        device_id: Some(ending(info.key@)),
        size: info.size,
        uploaded: info.uploaded,
        etag: info.etag@,
    }
}

/// What a report has to say of objects.
pub open spec fn entries_of(objects: Seq<ObjectInfo>) -> Seq<StatView> {
    objects.filter(|o: ObjectInfo| names_a_device(o)).map_values(|o: ObjectInfo| entry_of(o))
}

/// Whether the pages of a report are those of a whole list: each but the last goes on and
/// says from where.
pub open spec fn whole_report(replies: Seq<StatReply>) -> bool {
    &&& replies.len() > 0
    &&& !(replies.last().truncated && replies.last().cursor is Some)
    &&& forall|i: int|
        0 <= i < replies.len() - 1 ==> (#[trigger] replies[i]).truncated && replies[i].cursor
            is Some
}

proof fn stats_in_order(page: Seq<ObjectInfo>)
    ensures
        device_stats(page) == entries_of(page),
    decreases page.len(),
{
    reveal(Seq::filter);
    let keep = |o: ObjectInfo| names_a_device(o);
    let entry = |o: ObjectInfo| entry_of(o);
    if page.len() > 0 {
        let last = page.last();
        segments_agree(last.key@);
        stats_in_order(page.drop_last());
        let kept = page.drop_last().filter(keep);
        if names_a_device(last) {
            assert(kept.push(last).map_values(entry) =~= kept.map_values(entry).push(
                entry_of(last),
            ));
        }
    }
    assert(device_stats(page) =~= entries_of(page));
}

proof fn entries_add(a: Seq<ObjectInfo>, b: Seq<ObjectInfo>)
    ensures
        entries_of(a + b) == entries_of(a) + entries_of(b),
{
    Seq::filter_distributes_over_add(a, b, |o: ObjectInfo| names_a_device(o));
    assert(entries_of(a + b) =~= entries_of(a) + entries_of(b));
}

proof fn all_stats_in_order(replies: Seq<StatReply>)
    ensures
        all_stats(replies) == entries_of(all_objects(replies)),
    decreases replies.len(),
{
    let pages = replies.map_values(|r: StatReply| r.page);
    if replies.len() > 0 {
        let rest = replies.drop_last();
        all_stats_in_order(rest);
        assert(pages.drop_last() =~= rest.map_values(|r: StatReply| r.page));
        assert(all_objects(replies) == all_objects(rest) + replies.last().page);
        stats_in_order(replies.last().page);
        entries_add(all_objects(rest), replies.last().page);
    } else {
        stats_in_order(Seq::empty());
        assert(all_objects(replies) =~= Seq::empty());
    }
}

/// While the pages go on, a report has the entries of all of them so far and asks for the page
/// that the last one points to.
pub proof fn a_report_goes_on(identity_key: Seq<char>, replies: Seq<StatReply>)
    requires
        forall|i: int|
            0 <= i < replies.len() ==> (#[trigger] replies[i]).truncated && replies[i].cursor
                is Some,
    ensures
        reported(identity_key, replies) matches StatStepView::Page { report, cursor } && {
            &&& report.prefix == "backup/"@ + identity_key + "/"@
            &&& report.legacy_key == "backup/"@ + identity_key
            &&& report.objects == entries_of(all_objects(replies))
            &&& cursor == if replies.len() == 0 {
                None
            } else {
                replies[replies.len() - 1].cursor
            }
        },
{
    let lists = replies.map_values(
        |r: StatReply|
            PageReply { bodies: Seq::empty(), truncated: r.truncated, cursor: r.cursor },
    );
    a_report_follows_what_a_listing_follows(identity_key, replies, lists);
    a_list_is_followed(identity_key, lists);
    all_stats_in_order(replies);
}

/// After the pages of a whole list the report has an entry for each object of each page whose
/// key ends in a device, each once and in the order of the pages, then one without a device
/// for the object without one.
pub proof fn a_report_is_in_order(
    identity_key: Seq<char>,
    replies: Seq<StatReply>,
    legacy: Option<ObjectInfo>,
)
    requires
        whole_report(replies),
    ensures
        reported(identity_key, replies) matches StatStepView::Legacy { report } && {
            &&& report.legacy_key == "backup/"@ + identity_key
            &&& report.objects == entries_of(all_objects(replies))
            &&& report.objects + legacy_stats(legacy) == match legacy {
                Some(info) => report.objects.push(
                    StatView {
                        device_id: None,
                        size: info.size,
                        uploaded: info.uploaded,
                        etag: info.etag@,
                    },
                ),
                None => report.objects,
            }
        },
{
    let lists = replies.map_values(
        |r: StatReply|
            PageReply { bodies: Seq::empty(), truncated: r.truncated, cursor: r.cursor },
    );
    assert(lists.last() == lists[lists.len() - 1]);
    assert(whole_list(lists));
    a_report_follows_what_a_listing_follows(identity_key, replies, lists);
    let rest = lists.drop_last();
    assert forall|k: int| 0 <= k < rest.len() implies (#[trigger] rest[k]).goes_on() by {
        assert(rest[k] == lists[k]);
    }
    a_list_is_followed(identity_key, rest);
    all_stats_in_order(replies);
    if let StatStepView::Legacy { report } = reported(identity_key, replies) {
        match legacy {
            Some(info) => {
                assert(report.objects + legacy_stats(legacy) =~= report.objects.push(
                    legacy_stats(legacy)[0],
                ));
            },
            None => {
                assert(report.objects + legacy_stats(legacy) =~= report.objects);
            },
        }
    }
}

proof fn all_objects_has(replies: Seq<StatReply>, p: int, i: int)
    requires
        0 <= p < replies.len(),
        0 <= i < replies[p].page.len(),
    ensures
        all_objects(replies).contains(replies[p].page[i]),
    decreases replies.len(),
{
    let pages = replies.map_values(|r: StatReply| r.page);
    let rest = replies.drop_last();
    let want = replies[p].page[i];
    assert(pages.drop_last() =~= rest.map_values(|r: StatReply| r.page));
    assert(all_objects(replies) == all_objects(rest) + replies.last().page);
    if p < replies.len() - 1 {
        all_objects_has(rest, p, i);
        let k = choose|k: int| 0 <= k < all_objects(rest).len() && all_objects(rest)[k] == want;
        assert(all_objects(replies)[k] == want);
    } else {
        assert(all_objects(replies)[all_objects(rest).len() + i] == want);
    }
}

/// No backup is left out of a report: each object of each page whose key ends in a device is
/// reported with that device and with its own size, time and tag, and there are as many
/// entries as such objects.
pub proof fn every_backup_is_reported(
    identity_key: Seq<char>,
    replies: Seq<StatReply>,
    p: int,
    i: int,
)
    requires
        whole_report(replies),
        0 <= p < replies.len(),
        0 <= i < replies[p].page.len(),
    ensures
        reported(identity_key, replies) matches StatStepView::Legacy { report } && {
            let info = replies[p].page[i];
            &&& ending(info.key@).len() > 0 ==> report.objects.contains(
                StatView {
                    device_id: Some(ending(info.key@)),
                    size: info.size,
                    uploaded: info.uploaded,
                    etag: info.etag@,
                },
            )
            &&& report.objects.len() == all_objects(replies).filter(
                |o: ObjectInfo| ending(o.key@).len() > 0,
            ).len()
        },
{
    a_report_is_in_order(identity_key, replies, None);
    all_objects_has(replies, p, i);
    let info = replies[p].page[i];
    let all = all_objects(replies);
    let keep = |o: ObjectInfo| names_a_device(o);
    assert(keep =~= |o: ObjectInfo| ending(o.key@).len() > 0);
    if names_a_device(info) {
        let j = choose|j: int| 0 <= j < all.len() && all[j] == info;
        all.lemma_filter_contains(keep, j);
        let kept = all.filter(keep);
        let k = choose|k: int| 0 <= k < kept.len() && kept[k] == info;
        assert(entries_of(all)[k] == entry_of(info));
    }
}

/// The object of a device is reported for that device.
pub proof fn a_device_is_found_in_its_key(identity_key: Seq<char>, device_id: Seq<char>)
    requires
        is_device_id(device_id),
    ensures
        ending("backup/"@ + identity_key + "/"@ + device_id) == device_id,
{
    crate::backup::a_device_object_tells_its_device(identity_key, device_id);
    segments_agree(device_object_key(identity_key, device_id));
}

/// The answer to a report has an object for each entry, in its place, with the device or
/// `null`, whether it has one, and its size, time and tag.
pub proof fn a_report_answers_each_entry(objects: Seq<StatView>, i: int)
    requires
        0 <= i < objects.len(),
    ensures
        report_answer(objects).field("objects"@) matches Some(JsonView::Array(list)) && {
            &&& list.len() == objects.len()
            &&& list[i].field("deviceId"@) == Some(
                match objects[i].device_id {
                    Some(d) => JsonView::Str(d),
                    None => JsonView::Null,
                },
            )
            &&& list[i].field("deviceScoped"@) == Some(
                JsonView::Bool(objects[i].device_id is Some),
            )
            &&& list[i].field("size"@) == Some(
                JsonView::Number(Number::PosInt(objects[i].size)),
            )
            &&& list[i].field("uploaded"@) == Some(
                JsonView::Number(Number::PosInt(objects[i].uploaded)),
            )
            &&& list[i].field("etag"@) == Some(JsonView::Str(objects[i].etag))
        },
{
    let outer = report_answer(objects)->Object_0;
    assert(first_of_its_name(outer, "objects"@, 0));
    a_field_is_the_first_of_its_name(outer, "objects"@, 0, JsonView::Null);
    reveal_strlit("deviceId");
    reveal_strlit("deviceScoped");
    reveal_strlit("size");
    reveal_strlit("uploaded");
    reveal_strlit("etag");
    let list = crate::backup::stat_answer(objects[i])->Object_0;
    assert("deviceId"@.len() == 8 && "deviceScoped"@.len() == 12 && "size"@.len() == 4
        && "uploaded"@.len() == 8 && "etag"@.len() == 4);
    assert("deviceId"@[0] == 'd' && "uploaded"@[0] == 'u' && "size"@[0] == 's' && "etag"@[0]
        == 'e');
    assert(first_of_its_name(list, "deviceId"@, 0));
    assert(first_of_its_name(list, "deviceScoped"@, 1));
    assert(first_of_its_name(list, "size"@, 2));
    assert(first_of_its_name(list, "uploaded"@, 3));
    assert(first_of_its_name(list, "etag"@, 4));
    a_field_is_the_first_of_its_name(list, "deviceId"@, 0, JsonView::Null);
    a_field_is_the_first_of_its_name(list, "deviceScoped"@, 1, JsonView::Null);
    a_field_is_the_first_of_its_name(list, "size"@, 2, JsonView::Null);
    a_field_is_the_first_of_its_name(list, "uploaded"@, 3, JsonView::Null);
    a_field_is_the_first_of_its_name(list, "etag"@, 4, JsonView::Null);
}

} // verus!
