use student_registrator::json::Json;
use student_registrator::operations::{
    config_path, device_limit, is_already_exists, normalize_gender, parse_usize, photo_full_url,
    presence_status, to_device_time, DeviceTime,
};
use student_registrator::webhook::{
    extract_host_id, extract_primary_http_host_notification, extract_webhook_urls_from_json,
    extract_xml_tag_values, is_valid_webhook_candidate, is_write_applied, normalize_direction,
    pick_primary_webhook_url, replace_url_fields, response_status_ok, sanitize_webhook_candidate,
    decode_markup_entities, normalize_http_hosts_put_path, clean_webhook_candidates,
    write_attempts, sync_failure,
};

fn obj(members: Vec<(&str, Json)>) -> Json {
    Json::Object(members.into_iter().map(|(k, v)| (k.to_string(), v)).collect())
}

fn s(v: &str) -> Json {
    Json::Str(v.to_string())
}

#[test]
fn sanitize_rejects_schema_decoys_and_decodes_entities() {
    assert!(sanitize_webhook_candidate("http://www.isapi.org/ver20/XMLSchema").is_none());
    assert_eq!(
        sanitize_webhook_candidate("\"https:\\/\\/h.test\\/webhook\\/in?a=1&amp;secret=2\"").as_deref(),
        Some("https://h.test/webhook/in?a=1&secret=2")
    );
    assert_eq!(sanitize_webhook_candidate("http://h/x>> ").as_deref(), Some("http://h/x"));
    assert_eq!(sanitize_webhook_candidate(" '/hook' ").as_deref(), Some("/hook"));
    assert_eq!(decode_markup_entities("&lt;a&gt;"), "<a>");
}

#[test]
fn primary_url_prefers_direction_then_secret() {
    let urls = vec![
        "/isapi/x".to_string(),
        "http://h/a".to_string(),
        "http://h/webhook/out?secret=1".to_string(),
        "http://h/webhook/in".to_string(),
    ];
    assert_eq!(pick_primary_webhook_url(&urls, "IN").as_deref(), Some("http://h/webhook/out?secret=1"));
    let plain = vec!["/isapi/x".to_string(), "http://h/a".to_string()];
    assert_eq!(pick_primary_webhook_url(&plain, "in").as_deref(), Some("http://h/a"));
    assert!(!is_valid_webhook_candidate("/ISAPI/Event"));
    assert!(pick_primary_webhook_url(&vec!["ftp://x".to_string()], "in").is_none());
}

#[test]
fn cleaning_sorts_and_dedups() {
    let out = clean_webhook_candidates(vec![
        "http://b".to_string(),
        " http://a ".to_string(),
        "http://b".to_string(),
        "junk".to_string(),
    ]);
    assert_eq!(out, vec!["http://a".to_string(), "http://b".to_string()]);
}

#[test]
fn xml_tag_values_ignore_prefix_and_case() {
    let xml = "<?xml version=\"1.0\"?><ns:HttpHostNotification><ns:URL> /webhook/in </ns:URL><id>1</id><hostUrl></hostUrl><callbackURL>http://c</callbackURL></ns:HttpHostNotification>";
    assert_eq!(extract_xml_tag_values(xml), vec!["/webhook/in".to_string(), "http://c".to_string()]);
}

#[test]
fn put_path_normalization_is_idempotent_on_normalized_form() {
    let once = normalize_http_hosts_put_path("  ISAPI/Event/notification/httpHosts/1?format=json ");
    assert_eq!(once, "ISAPI/Event/notification/httpHosts?format=json");
    assert_eq!(normalize_http_hosts_put_path(&once), once);
}

#[test]
fn primary_notification_shapes() {
    let single = obj(vec![("HttpHostNotification", obj(vec![("id", Json::Int(3)), ("url", s("/h"))]))]);
    let (entry, id) = extract_primary_http_host_notification(&single).unwrap();
    assert_eq!(id, "3");
    assert!(matches!(entry, Json::Object(_)));
    let list = obj(vec![(
        "HttpHostNotificationList",
        obj(vec![(
            "HttpHostNotification",
            Json::Array(vec![obj(vec![("id", s("2")), ("url", s("/two"))]), obj(vec![("id", s(" 1 ")), ("url", s("/one"))])]),
        )]),
    )]);
    let (_, id) = extract_primary_http_host_notification(&list).unwrap();
    assert_eq!(id, "1");
    assert_eq!(extract_webhook_urls_from_json(&list), vec!["/one".to_string()]);
    let empty = obj(vec![("HttpHostNotificationList", obj(vec![("HttpHostNotification", Json::Array(vec![]))]))]);
    assert!(extract_primary_http_host_notification(&empty).is_none());
    assert_eq!(extract_host_id(&obj(vec![("id", Json::Int(-4))])).as_deref(), Some("-4"));
    assert_eq!(extract_host_id(&obj(vec![])), None);
}

#[test]
fn url_fields_are_rewritten_at_any_depth() {
    let doc = obj(vec![
        ("url", s("/old")),
        ("HttpURL", Json::Int(5)),
        ("nested", Json::Array(vec![obj(vec![("callbackUrl", s("x")), ("name", s("keep"))])])),
    ]);
    let (out, n) = replace_url_fields(doc, "/new");
    assert_eq!(n, 2);
    match out {
        Json::Object(m) => {
            assert!(matches!(&m[0].1, Json::Str(v) if v == "/new"));
            assert!(matches!(&m[1].1, Json::Int(5)));
            match &m[2].1 {
                Json::Array(a) => match &a[0] {
                    Json::Object(inner) => {
                        assert!(matches!(&inner[0].1, Json::Str(v) if v == "/new"));
                        assert!(matches!(&inner[1].1, Json::Str(v) if v == "keep"));
                    }
                    _ => panic!("object expected"),
                },
                _ => panic!("array expected"),
            }
        }
        _ => panic!("object expected"),
    }
}

#[test]
fn write_status_and_verification() {
    assert!(response_status_ok(&obj(vec![("statusCode", Json::Int(1))])));
    assert!(!response_status_ok(&obj(vec![("statusCode", Json::Int(4)), ("statusString", s("OK"))])));
    assert!(response_status_ok(&obj(vec![("statusString", s("ok"))])));
    assert!(response_status_ok(&obj(vec![])));
    let after = vec!["http://dev/hook?x=1".to_string()];
    assert!(is_write_applied(&after, "/hook?x=1"));
    assert!(!is_write_applied(&after, "/other"));
    let attempts = write_attempts("7");
    assert_eq!(attempts[0].path, "ISAPI/Event/notification/httpHosts/7?format=json");
    assert!(attempts[1].list_payload);
    assert_eq!(
        sync_failure("7", "/h", &vec!["a => x".to_string(), "b => y".to_string()]),
        "Qurilma URLni saqlamadi. hostId=7, kutilgan=/h, urinishlar=a => x || b => y"
    );
    assert_eq!(normalize_direction(" IN "), Ok("in"));
    assert!(normalize_direction("sideways").is_err());
}

#[test]
fn operations_helpers() {
    assert_eq!(normalize_gender(&None), "male");
    assert_eq!(normalize_gender(&Some(" Ayol ".to_string())), "female");
    assert_eq!(normalize_gender(&Some("2".to_string())), "female");
    assert_eq!(normalize_gender(&Some("unknown-female".to_string())), "female");
    assert_eq!(normalize_gender(&Some("x".to_string())), "male");
    assert!(is_already_exists("Employee already EXISTS"));
    assert!(!is_already_exists("timeout"));
    assert_eq!(photo_full_url("http://b", "/p/1.jpg"), "http://b/p/1.jpg");
    assert_eq!(photo_full_url("http://b", "https://c/1.jpg"), "https://c/1.jpg");
    assert_eq!(presence_status(false, true, false), "ABSENT");
    assert_eq!(presence_status(true, true, true), "EXPIRED");
    assert_eq!(config_path("time"), Some("ISAPI/System/time?format=json"));
    assert_eq!(config_path("other"), None);
    assert_eq!(parse_usize("+42"), Some(42));
    assert_eq!(parse_usize("4x"), None);
    assert_eq!(parse_usize("99999999999999999999999"), None);
    assert_eq!(device_limit(&Some(" 3 ".to_string())), 3);
    assert_eq!(device_limit(&Some("0".to_string())), 10);
    assert_eq!(device_limit(&None), 10);
    let t = DeviceTime { year: 2026, month: 3, day: 7, hour: 9, minute: 5, second: 0 };
    assert_eq!(to_device_time(&t), "2026-03-07T09:05:00");
}

use student_registrator::cloning::{
    after_create, after_face_fetch, after_look_up, after_upload, clone_student_start,
    clone_user_start, CloneOutcome, CloneStep, CloneTally,
};
use student_registrator::model::DeviceActionResult;

fn refused(msg: Option<&str>) -> DeviceActionResult {
    DeviceActionResult { ok: false, status_code: None, status_string: None, error_msg: msg.map(|m| m.to_string()) }
}

#[test]
fn cloning_steps_and_tally() {
    assert!(matches!(clone_user_start("1", "Ali", "/pic"), CloneStep::FetchFace));
    assert!(matches!(clone_user_start(" ", "Ali", "/pic"), CloneStep::Done(CloneOutcome::Skipped(Some(_)))));
    assert!(matches!(clone_student_start("1", "Ali", ""), CloneStep::Done(CloneOutcome::Skipped(Some(_)))));
    assert!(matches!(after_face_fetch(true, true, "x"), CloneStep::LookUp));
    assert!(matches!(after_face_fetch(true, false, "x"), CloneStep::CreateUser));
    assert!(matches!(after_face_fetch(false, true, "x"), CloneStep::Done(CloneOutcome::Failed(r)) if r == "x"));
    assert!(matches!(after_look_up(true), CloneStep::UploadFace));
    assert!(matches!(after_create(&refused(Some("Employee already exist")), true), CloneStep::Done(CloneOutcome::Skipped(None))));
    assert!(matches!(after_create(&refused(Some("Employee already exist")), false), CloneStep::Done(CloneOutcome::Failed(_))));
    assert!(matches!(after_create(&refused(None), true), CloneStep::Done(CloneOutcome::Failed(r)) if r == "Create failed"));
    assert!(matches!(after_upload(&refused(None)), CloneStep::Done(CloneOutcome::Failed(r)) if r == "Upload failed"));
    let mut t = CloneTally::new();
    assert!(t.take(2));
    t.record("1", "Ali", CloneOutcome::Copied);
    assert!(t.take(2));
    t.record("2", "Vali", CloneOutcome::Failed("boom".to_string()));
    assert!(!t.take(2));
    assert_eq!((t.processed, t.success, t.failed, t.skipped), (2, 1, 1, 0));
    assert_eq!(t.errors, vec![("2".to_string(), "Vali".to_string(), "boom".to_string())]);
}
