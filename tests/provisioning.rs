use student_registrator::device_api::{delete_condition, face_record, search_condition, user_record};
use student_registrator::json::Json;
use student_registrator::provisioning::{
    device_result_request, find_link, link_device_text, per_device_summary, provisioning_request,
    record_employee_no, retry_target_ids, StudentFields,
};

fn obj(members: Vec<(&str, Json)>) -> Json {
    Json::Object(members.into_iter().map(|(k, v)| (k.to_string(), v)).collect())
}

fn s(v: &str) -> Json {
    Json::Str(v.to_string())
}

fn member<'a>(j: &'a Json, key: &str) -> &'a Json {
    match j {
        Json::Object(m) => &m.iter().find(|(k, _)| k == key).expect("member").1,
        _ => panic!("object expected"),
    }
}

fn record() -> Json {
    obj(vec![
        ("student", obj(vec![("deviceStudentId", s("777"))])),
        (
            "devices",
            Json::Array(vec![
                obj(vec![
                    ("deviceId", s("b-1")),
                    ("status", s("SUCCESS")),
                    ("device", obj(vec![("deviceId", s("HW-1")), ("name", s("Gate"))])),
                ]),
                obj(vec![("deviceId", s("b-2")), ("lastError", s("offline"))]),
                obj(vec![("status", s("PENDING"))]),
            ]),
        ),
    ])
}

#[test]
fn retry_targets_fall_back_in_order() {
    let rec = record();
    let retry = obj(vec![("targetDeviceIds", Json::Array(vec![s("b-2"), Json::Int(3)]))]);
    assert_eq!(retry_target_ids(vec!["x".to_string()], &retry, &rec), vec!["x".to_string()]);
    assert_eq!(retry_target_ids(vec![], &retry, &rec), vec!["b-2".to_string()]);
    assert_eq!(retry_target_ids(vec![], &obj(vec![]), &rec), vec!["b-1".to_string(), "b-2".to_string()]);
    assert_eq!(record_employee_no(&rec), "777");
    assert_eq!(record_employee_no(&obj(vec![])), "");
}

#[test]
fn links_and_summaries() {
    let rec = record();
    let link = find_link(&rec, "b-1");
    assert_eq!(link_device_text(link, "name").as_deref(), Some("Gate"));
    assert!(find_link(&rec, "zz").is_none());
    let all = per_device_summary(&rec, &vec![]);
    assert_eq!(all.len(), 2);
    assert!(matches!(member(&all[0], "deviceExternalId"), Json::Str(v) if v == "HW-1"));
    assert!(matches!(member(&all[1], "status"), Json::Str(v) if v == "UNKNOWN"));
    assert!(matches!(member(&all[1], "deviceName"), Json::Str(v) if v.is_empty()));
    assert!(matches!(member(&all[1], "lastError"), Json::Str(v) if v == "offline"));
    let some = per_device_summary(&rec, &vec!["b-2".to_string()]);
    assert_eq!(some.len(), 1);
    assert!(matches!(member(&some[0], "backendDeviceId"), Json::Str(v) if v == "b-2"));
}

#[test]
fn backend_requests() {
    let student = StudentFields {
        name: "Ali".to_string(),
        gender: "male".to_string(),
        first_name: None,
        last_name: None,
        father_name: None,
        device_student_id: Some("1234567890".to_string()),
        class_id: None,
        parent_phone: None,
        face_image_base64: None,
    };
    let all = provisioning_request(student, "req-1", None);
    assert!(matches!(member(&all, "targetAllActive"), Json::Bool(true)));
    assert!(matches!(member(&all, "targetDeviceIds"), Json::Array(a) if a.is_empty()));
    let student = StudentFields {
        name: "Ali".to_string(),
        gender: "male".to_string(),
        first_name: None,
        last_name: None,
        father_name: None,
        device_student_id: None,
        class_id: None,
        parent_phone: None,
        face_image_base64: None,
    };
    let none = provisioning_request(student, "req-2", Some(vec![]));
    assert!(matches!(member(&none, "targetAllActive"), Json::Bool(false)));
    let report = device_result_request(Some("b-1".to_string()), None, None, None, false, "42", Some("boom".to_string()));
    assert!(matches!(member(&report, "status"), Json::Str(v) if v == "FAILED"));
    assert!(matches!(member(&report, "deviceExternalId"), Json::Null));
}

#[test]
fn device_payloads() {
    let u = user_record("42", "Ali", "male", "2026-01-01T00:00:00", "2036-01-01T00:00:00");
    let info = member(&u, "UserInfo");
    assert!(matches!(member(info, "employeeNo"), Json::Str(v) if v == "42"));
    assert!(matches!(member(member(info, "Valid"), "timeType"), Json::Str(v) if v == "local"));
    let f = face_record("42", "Ali", "male");
    assert!(matches!(member(&f, "FPID"), Json::Str(v) if v == "42"));
    let d = delete_condition("42");
    assert!(matches!(member(member(&d, "UserInfoDelCond"), "EmployeeNoList"), Json::Array(a) if a.len() == 1));
    let q = search_condition("search-1", 30, 10, None);
    assert!(matches!(member(member(&q, "UserInfoSearchCond"), "searchResultPosition"), Json::Int(30)));
}
