use student_registrator::auth_flow::{auth_next, AuthStage, AuthStep, Reply};
use student_registrator::device_api::parse_action_result;
use student_registrator::digest::{build_digest_authorization, DigestChallenge};
use student_registrator::json::Json;
use student_registrator::model::{DeviceActionResult, DeviceConfig, DeviceConnectionResult, UserInfoEntry};
use student_registrator::operations::{
    already_exists_in_lowered, existing_face_url, gender_from_lowered, recreate_connection,
    recreate_face_plan, recreate_step_ok, FacePlan,
};
use student_registrator::registration::{
    choose_employee_no, employee_no_from_draws, rollback_order, RegistrationSaga, RetryCheck, RetryTally,
    SagaAction, TargetSelection,
};
use student_registrator::uri::request_target_from;
use student_registrator::webhook::{
    device_relative_parsed, direction_from_lowered, is_preferred_lowered, is_url_tag_name,
    is_valid_lowered, pick_primary_lowered_direction, sanitize_lowered, webhook_candidate_paths,
};
use student_registrator::webhook_sync::{SyncAction, SyncEvent, WebhookRead, WebhookSync};

fn obj(members: Vec<(&str, Json)>) -> Json {
    Json::Object(members.into_iter().map(|(k, v)| (k.to_string(), v)).collect())
}

fn s(v: &str) -> Json {
    Json::Str(v.to_string())
}

fn md5_hex(x: &str) -> String {
    format!("{:x}", md5::compute(x))
}

#[test]
fn status_code_one_is_checked_before_narrowing() {
    let doc = obj(vec![("statusCode", Json::Int(4294967297))]);
    let r = parse_action_result(&Some(doc), "");
    assert!(!r.ok);
    assert_eq!(r.status_code, Some(1));
    let doc = obj(vec![("statusCode", Json::Int(1))]);
    assert!(parse_action_result(&Some(doc), "").ok);
}

#[test]
fn empty_backend_student_id_is_not_numeric() {
    assert_eq!(choose_employee_no("0123456789".to_string(), ""), "0123456789");
    assert_eq!(choose_employee_no("0123456789".to_string(), "77"), "77");
}

#[test]
fn employee_number_digits_come_from_draws() {
    let draws: Vec<u8> = vec![0, 1, 19, 255, 42, 7, 10, 99, 3, 128];
    assert_eq!(employee_no_from_draws(&draws), "0195270938");
}

#[test]
fn challenge_without_algorithm_is_md5() {
    let c = DigestChallenge { realm: "r".to_string(), nonce: "n".to_string(), qop: None, opaque: None, algorithm: None };
    let h = build_digest_authorization("u", "p", "GET", "http://h/x", &c, "cn").unwrap();
    let resp = md5_hex(&format!("{}:n:{}", md5_hex("u:r:p"), md5_hex("GET:/x")));
    assert_eq!(
        h,
        format!("Digest username=\"u\", realm=\"r\", nonce=\"n\", uri=\"/x\", response=\"{}\", algorithm=MD5", resp)
    );
}

#[test]
fn basic_attempt_answers_a_challenge_only_on_401() {
    let r = Reply {
        status: 403,
        reason: Some("Forbidden".to_string()),
        www_authenticate: "Digest realm=\"r\", nonce=\"n\"".to_string(),
        body: String::new(),
    };
    let (_, step) = auth_next(AuthStage::Basic, &r, "u", "p", "GET", "http://h/x", "cn");
    match step {
        AuthStep::Reject(m) => assert_eq!(m, "HTTP 403 Forbidden: Forbidden"),
        _ => panic!("expected a rejection"),
    }
    let r401 = Reply { status: 401, reason: Some("Unauthorized".to_string()), ..r };
    let (stage, _) = auth_next(AuthStage::Basic, &r401, "u", "p", "GET", "http://h/x", "cn");
    assert_eq!(stage, AuthStage::BasicThenDigest);
}

#[test]
fn singular_path_is_read_first() {
    assert_eq!(webhook_candidate_paths(), vec!["ISAPI/Event/notification/httpHosts/1?format=json", "ISAPI/Event/notification/httpHosts?format=json"]);
}

fn entry(url: &str) -> Json {
    obj(vec![("HttpHostNotification", obj(vec![("id", s("1")), ("url", s(url))]))])
}

#[test]
fn sync_writes_and_confirms_by_read_back() {
    let (mut sync, action) = WebhookSync::start("in", "https://x.test/hook?k=1").unwrap();
    assert!(matches!(action, SyncAction::ReadJson(p) if p == "ISAPI/Event/notification/httpHosts/1?format=json"));
    let action = sync.next(SyncEvent::JsonRead(Ok(entry("/old"))));
    match &action {
        SyncAction::Put { path, payload } => {
            assert_eq!(path, "ISAPI/Event/notification/httpHosts/1?format=json");
            match payload {
                Json::Object(top) => match &top[0].1 {
                    Json::Object(e) => assert!(matches!(&e[1].1, Json::Str(u) if u == "/hook?k=1")),
                    _ => panic!("entry object"),
                },
                _ => panic!("payload object"),
            }
        }
        _ => panic!("expected a write"),
    }
    let action = sync.next(SyncEvent::PutReply(Ok((obj(vec![("statusCode", Json::Int(1))]), "{}".to_string()))));
    assert!(matches!(action, SyncAction::ReadJson(p) if p == "ISAPI/Event/notification/httpHosts/1?format=json"));
    let action = sync.next(SyncEvent::JsonRead(Ok(entry("/hook?k=1"))));
    assert!(matches!(action, SyncAction::Done(Ok(_))));
}

#[test]
fn sync_tries_every_shape_then_fails() {
    let (mut sync, _) = WebhookSync::start("out", "/hook").unwrap();
    let mut action = sync.next(SyncEvent::JsonRead(Ok(entry("/old"))));
    for _ in 0..3 {
        assert!(matches!(action, SyncAction::Put { .. }));
        action = sync.next(SyncEvent::PutReply(Err("refused".to_string())));
    }
    match action {
        SyncAction::Done(Err(e)) => assert_eq!(
            e,
            "Qurilma URLni saqlamadi. hostId=1, kutilgan=/hook, urinishlar=single-path/single-payload => refused || list-path/list-payload => refused || list-path/single-payload => refused"
        ),
        _ => panic!("expected the composed error"),
    }
}

#[test]
fn sync_counts_a_write_that_did_not_stick_as_failed() {
    let (mut sync, _) = WebhookSync::start("in", "/new").unwrap();
    sync.next(SyncEvent::JsonRead(Ok(entry("/old"))));
    sync.next(SyncEvent::PutReply(Ok((obj(vec![]), "{}".to_string()))));
    let a = sync.next(SyncEvent::JsonRead(Ok(entry("/old"))));
    assert!(matches!(a, SyncAction::Put { .. }));
    assert_eq!(sync.errors, vec!["single-path/single-payload => applied=false, after=/old".to_string()]);
}

#[test]
fn sync_falls_back_to_raw_text() {
    let (mut sync, _) = WebhookSync::start("in", "https://n.test/h").unwrap();
    let a = sync.next(SyncEvent::JsonRead(Err("404".to_string())));
    assert!(matches!(a, SyncAction::ReadJson(_)));
    let a = sync.next(SyncEvent::JsonRead(Err("404".to_string())));
    assert!(matches!(a, SyncAction::ReadRaw("ISAPI/Event/notification/httpHosts")));
    let a = sync.next(SyncEvent::RawRead(Ok("<x>no urls</x>".to_string())));
    assert!(matches!(a, SyncAction::ReadRaw("ISAPI/Event/notification/httpHosts/1")));
    let a = sync.next(SyncEvent::RawRead(Ok("<HttpHostNotification><url>http://old/x</url></HttpHostNotification>".to_string())));
    match a {
        SyncAction::PutRaw { path, body } => {
            assert_eq!(path, "ISAPI/Event/notification/httpHosts");
            assert!(body.contains("<url>/h</url>"));
        }
        _ => panic!("expected a raw write"),
    }
    let a = sync.next(SyncEvent::RawPutReply(Ok("ok".to_string())));
    assert!(matches!(a, SyncAction::ReadRaw("ISAPI/Event/notification/httpHosts/1")));
    let a = sync.next(SyncEvent::RawRead(Ok("<HttpHostNotification><url>/h</url></HttpHostNotification>".to_string())));
    assert!(matches!(a, SyncAction::Done(Ok(_))));
}

#[test]
fn raw_write_that_did_not_stick_fails() {
    let (mut sync, _) = WebhookSync::start("in", "https://n.test/h").unwrap();
    sync.next(SyncEvent::JsonRead(Err("404".to_string())));
    sync.next(SyncEvent::JsonRead(Err("404".to_string())));
    sync.next(SyncEvent::RawRead(Ok("<url>http://old/x</url>".to_string())));
    sync.next(SyncEvent::RawPutReply(Ok("ok".to_string())));
    match sync.next(SyncEvent::RawRead(Ok("<url>http://old/x</url>".to_string()))) {
        SyncAction::Done(Err(e)) => assert_eq!(
            e,
            "Webhook sync qilib bo'lmadi: ISAPI/Event/notification/httpHosts => applied=false, after=http://old/x"
        ),
        _ => panic!("expected a failure"),
    }
}

#[test]
fn three_device_run_without_backend() {
    let dev = |id: &str| DeviceConfig {
        id: id.to_string(),
        backend_id: None,
        host: format!("{}.local", id),
        port: 80,
        username: "admin".to_string(),
        password: "pw".to_string(),
        credentials_updated_at: None,
        credentials_expires_at: None,
        device_id: None,
    };
    let ok = || DeviceActionResult { ok: true, status_code: Some(1), status_string: None, error_msg: None };
    let up = || DeviceConnectionResult { ok: true, message: None, device_id: None };
    let mut devices = vec![dev("d1"), dev("d2"), dev("d3")];
    let sel = TargetSelection { explicit_db_only: false, requested: None, provisioned: vec![], backend_device_map: vec![] };
    let mut saga = RegistrationSaga::new(false);
    let mut deletes = Vec::new();
    let mut action = saga.advance(&devices, &sel, (0, 0));
    let mut contacted = Vec::new();
    loop {
        action = match action {
            SagaAction::TestConnection(i) => {
                contacted.push(i);
                saga.on_connection(&mut devices, &sel, up())
            }
            SagaAction::CreateUser(_) => saga.on_user_create(&devices, ok()),
            SagaAction::UploadFace(i) => {
                let r = if i == 1 {
                    DeviceActionResult { ok: false, status_code: None, status_string: None, error_msg: None }
                } else {
                    ok()
                };
                saga.on_face_upload(&devices, r)
            }
            SagaAction::DeleteUser(i) => {
                deletes.push(i);
                saga.on_deleted()
            }
            SagaAction::NextDevice => saga.advance(&devices, &sel, (0, 0)),
            SagaAction::Report { .. } => panic!("no backend"),
            SagaAction::Finished => break,
        };
    }
    assert_eq!(contacted, vec![0, 1]);
    assert_eq!(deletes, vec![1]);
    assert_eq!(rollback_order(&saga.committed), vec![0]);
    assert_eq!(saga.results.iter().map(|r| r.device_id.clone()).collect::<Vec<_>>(), vec!["d1", "d2"]);
    assert_eq!(saga.abort_error.as_deref(), Some("Qurilma d2.local:80: Qurilmaga rasm yuklashda xato"));
}

#[test]
fn read_returns_the_primary_url() {
    let (mut read, _) = WebhookRead::start("IN").unwrap();
    let a = read.read_next(SyncEvent::JsonRead(Ok(entry("http://h/webhook/in"))));
    assert!(matches!(a, SyncAction::Done(Ok(_))));
    assert_eq!(read.primary.as_deref(), Some("http://h/webhook/in"));
    let (mut read, _) = WebhookRead::start("out").unwrap();
    read.read_next(SyncEvent::JsonRead(Err("x".to_string())));
    read.read_next(SyncEvent::JsonRead(Err("x".to_string())));
    read.read_next(SyncEvent::RawRead(Err("down".to_string())));
    let a = read.read_next(SyncEvent::RawRead(Err("down".to_string())));
    match a {
        SyncAction::Done(Err(e)) => assert_eq!(
            e,
            "Webhookni qurilmadan o'qib bo'lmadi: ISAPI/Event/notification/httpHosts => down | ISAPI/Event/notification/httpHosts/1 => down"
        ),
        _ => panic!("expected the read error"),
    }
}

#[test]
fn steps_after_outside_calls() {
    assert!(sanitize_lowered("http://A/xmlSchema".to_string(), "http://a/xmlschema").is_none());
    assert_eq!(sanitize_lowered("HTTP://A".to_string(), "http://a").as_deref(), Some("HTTP://A"));
    assert!(is_valid_lowered("/hook"));
    assert!(!is_valid_lowered("/isapi/x"));
    assert!(is_preferred_lowered("http://h/in?x", "in"));
    let urls = vec!["http://h/a".to_string(), "http://h/out".to_string()];
    assert_eq!(pick_primary_lowered_direction(&urls, "out").as_deref(), Some("http://h/out"));
    assert!(is_url_tag_name("callbackurl"));
    assert_eq!(device_relative_parsed("x", Ok(String::new())), "/");
    assert_eq!(device_relative_parsed("x", Err("bad".to_string())), "x");
    assert_eq!(request_target_from(Ok(("/p".to_string(), Some("q=1".to_string())))), Ok("/p?q=1".to_string()));
    assert_eq!(direction_from_lowered("out"), Ok("out"));
    assert_eq!(gender_from_lowered("erkak"), "male");
    assert!(already_exists_in_lowered("duplicate user"));
}

#[test]
fn recreate_steps_and_retry_tally() {
    let down = DeviceConnectionResult { ok: false, message: None, device_id: None };
    assert_eq!(recreate_connection(&down).unwrap_err(), "Device offline");
    assert!(matches!(recreate_face_plan(true, None), Ok(FacePlan::FromDevice)));
    assert!(matches!(recreate_face_plan(true, Some("b".to_string())), Ok(FacePlan::Provided(b)) if b == "b"));
    assert_eq!(recreate_face_plan(false, None).err().unwrap(), "Face image is required");
    assert_eq!(existing_face_url(None).unwrap_err(), "User not found on device");
    let u = UserInfoEntry { employee_no: "1".to_string(), name: "A".to_string(), gender: None, num_of_face: None, face_url: None };
    assert_eq!(existing_face_url(Some(u)).unwrap_err(), "Existing user has no face to reuse");
    let failed = DeviceActionResult { ok: false, status_code: None, status_string: None, error_msg: Some("busy".to_string()) };
    assert_eq!(recreate_step_ok(&failed, "Delete failed").unwrap_err(), "Delete failed: busy");
    let mut t = RetryTally::new();
    t.record(&RetryCheck::MissingCredentials, false);
    t.record(&RetryCheck::Expired(0), false);
    t.record(&RetryCheck::Test(1), true);
    t.record(&RetryCheck::Test(2), false);
    assert_eq!((t.checked, t.failed, t.missing_credentials), (2, 3, 1));
}
