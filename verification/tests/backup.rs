//! Backups in the object store.

use wallet_infra::backup::{
    backup_device_object_key, backup_device_prefix, backup_object_key, get_backup_result,
    list_backups, list_backups_result, put_backup, put_backup_result, put_decoded, stat_backups,
    stat_backups_result, validate_device_id, BackupPut, ListStep, Listing, ObjectInfo, Report,
    StatStep,
};
use wallet_infra::error::Error;
use wallet_infra::json::{Json, Number};

fn string(s: &str) -> Json {
    Json::Str(s.to_string())
}

fn number(n: u64) -> Json {
    Json::Number(Number::PosInt(n))
}

fn object(fields: Vec<(&str, Json)>) -> Json {
    Json::Object(fields.into_iter().map(|(k, v)| (k.to_string(), v)).collect())
}

#[test]
fn keys_are_made_of_identity_and_device() {
    assert_eq!(backup_object_key("02ab"), "backup/02ab");
    assert_eq!(backup_device_object_key("02ab", "device-1"), "backup/02ab/device-1");
    assert_eq!(backup_device_prefix("02ab"), "backup/02ab/");
    assert!(backup_device_object_key("02ab", "device-1").starts_with("backup/02ab/"));
    assert!(!backup_object_key("02ab").starts_with(&backup_device_prefix("02ab")));
    assert_ne!(
        backup_device_object_key("02ab", "device-1"),
        backup_device_object_key("02ab", "device-2")
    );
}

#[test]
fn device_ids_are_short_tokens() {
    let long = "a".repeat(64);
    for id in ["abcdefgh", "ABC-123_z", long.as_str()] {
        assert_eq!(validate_device_id(id), Ok(()));
    }
    let too_long = "a".repeat(65);
    for id in ["", "abcdefg", "abcdefg/", "abcdefg.", "abcdefgé", "éééé", too_long.as_str()] {
        assert_eq!(
            validate_device_id(id),
            Err(Error::ValidationError(
                "putBackup: invalid deviceId (want 8-64 chars of [A-Za-z0-9_-])".to_string()
            ))
        );
    }
}

#[test]
fn what_is_put_is_what_is_got() {
    for text in ["", "AA==", "AAE=", "AAEC", "SGVsbG8sIHdvcmxkIQ==", "/+7dzLuqmQ=="] {
        let put = put_backup(&Json::Array(vec![string(text)]), "02ab").unwrap();
        assert_eq!(
            get_backup_result(Some(put.bytes)),
            object(vec![("blob", string(text))])
        );
    }
    assert_eq!(get_backup_result(None), object(vec![("blob", Json::Null)]));
}

#[test]
fn only_the_standard_encoding_is_accepted() {
    let bad = |text: &str| match put_backup(&Json::Array(vec![string(text)]), "02ab") {
        Err(Error::ValidationError(message)) => message,
        other => panic!("unexpected outcome {other:?}"),
    };
    assert_eq!(bad("AA"), "putBackup: bad base64 blob: Invalid padding");
    assert_eq!(bad("A*=="), "putBackup: bad base64 blob: Invalid symbol 42, offset 1.");
    assert_eq!(bad("AB=="), "putBackup: bad base64 blob: Invalid last symbol 66, offset 1.");
}

#[test]
fn a_put_goes_on_with_what_was_decoded() {
    let params = Json::Array(vec![Json::Null, string("device-1")]);
    assert_eq!(
        put_decoded(&params, "02ab", Ok(vec![9])),
        Ok(BackupPut { key: "backup/02ab/device-1".to_string(), bytes: vec![9] })
    );
    assert_eq!(
        put_decoded(&params, "02ab", Err("why".to_string())),
        Err(Error::ValidationError("putBackup: bad base64 blob: why".to_string()))
    );
    assert_eq!(
        put_backup_result(3),
        object(vec![("ok", Json::Bool(true)), ("bytes", number(3))])
    );
}

fn listing(step: ListStep) -> (Listing, Option<String>) {
    match step {
        ListStep::Page { listing, cursor } => (listing, cursor),
        other => panic!("unexpected step {other:?}"),
    }
}

#[test]
fn a_listing_follows_every_page() {
    let (first, cursor) = listing(list_backups("02ab"));
    assert_eq!(cursor, None);
    let (second, cursor) = listing(first.after_page(
        vec![Some(vec![1]), None, Some(vec![2])],
        true,
        Some("next".to_string()),
    ));
    assert_eq!(cursor, Some("next".to_string()));
    let last = match second.after_page(vec![Some(vec![3])], false, Some("unused".to_string())) {
        ListStep::Legacy { listing } => listing,
        other => panic!("unexpected step {other:?}"),
    };
    match last.after_legacy(Some(vec![4])) {
        ListStep::Done { blobs } => {
            assert_eq!(blobs, vec!["AQ==", "Ag==", "Aw==", "BA=="]);
            assert_eq!(
                list_backups_result(&blobs),
                object(vec![(
                    "blobs",
                    Json::Array(vec![
                        string("AQ=="),
                        string("Ag=="),
                        string("Aw=="),
                        string("BA==")
                    ])
                )])
            );
        }
        other => panic!("unexpected step {other:?}"),
    }
}

#[test]
fn a_listing_without_a_cursor_stops() {
    let (first, _) = listing(list_backups("02ab"));
    match first.after_page(vec![], true, None) {
        ListStep::Legacy { listing } => {
            assert_eq!(listing.after_legacy(None), ListStep::Done { blobs: vec![] });
        }
        other => panic!("unexpected step {other:?}"),
    }
}

fn info(key: &str, size: u64) -> ObjectInfo {
    ObjectInfo { key: key.to_string(), size, uploaded: 1000 + size, etag: format!("e{size}") }
}

fn report(step: StatStep) -> (Report, Option<String>) {
    match step {
        StatStep::Page { report, cursor } => (report, cursor),
        other => panic!("unexpected step {other:?}"),
    }
}

#[test]
fn a_report_tells_devices_from_the_object_without_one() {
    let (first, _) = report(stat_backups("02ab"));
    let (second, cursor) = report(first.after_page(
        vec![info("backup/02ab/device-1", 1), info("backup/02ab/", 2)],
        true,
        Some("c".to_string()),
    ));
    assert_eq!(cursor, Some("c".to_string()));
    let last = match second.after_page(vec![info("bare", 3)], true, None) {
        StatStep::Legacy { report } => report,
        other => panic!("unexpected step {other:?}"),
    };
    let objects = match last.after_legacy(Some(info("backup/02ab", 4))) {
        StatStep::Done { objects } => objects,
        other => panic!("unexpected step {other:?}"),
    };
    let entry = |device: Json, scoped: bool, size: u64| {
        object(vec![
            ("deviceId", device),
            ("deviceScoped", Json::Bool(scoped)),
            ("size", number(size)),
            ("uploaded", number(1000 + size)),
            ("etag", string(&format!("e{size}"))),
        ])
    };
    assert_eq!(
        stat_backups_result(&objects),
        object(vec![(
            "objects",
            Json::Array(vec![
                entry(string("device-1"), true, 1),
                entry(string("bare"), true, 3),
                entry(Json::Null, false, 4),
            ])
        )])
    );
}

#[test]
fn a_report_of_nothing_is_empty() {
    let (first, _) = report(stat_backups("02ab"));
    match first.after_page(vec![], false, None) {
        StatStep::Legacy { report } => {
            assert_eq!(report.after_legacy(None), StatStep::Done { objects: vec![] });
        }
        other => panic!("unexpected step {other:?}"),
    }
}
