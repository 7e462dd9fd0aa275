use student_registrator::devices::{
    dedupe_devices, dedupe_key, delete_device, device_label, device_match_label,
    find_local_device_index, get_device_by_id, register_device, update_device, CredentialStamp,
    DeviceInput,
};
use student_registrator::model::{DeviceActionResult, DeviceConfig, DeviceConnectionResult, ProvisioningTargetDevice};
use student_registrator::registration::{
    check_backend_pairing, check_face_payload, choose_employee_no, device_selected, final_error,
    finalize_reason, full_name, generate_employee_no, requested_targets, rollback_delete_error,
    retry_check, rollback_order, rollback_reason, rollback_status_error, selection_from,
    RegistrationSaga, RetryCheck, SagaAction, TargetSelection,
};

fn dev(id: &str, backend: Option<&str>, host: &str, hw: Option<&str>) -> DeviceConfig {
    DeviceConfig {
        id: id.to_string(),
        backend_id: backend.map(|b| b.to_string()),
        host: host.to_string(),
        port: 80,
        username: "admin".to_string(),
        password: "pw".to_string(),
        credentials_updated_at: None,
        credentials_expires_at: None,
        device_id: hw.map(|h| h.to_string()),
    }
}

fn ok_action() -> DeviceActionResult {
    DeviceActionResult { ok: true, status_code: Some(1), status_string: Some("OK".to_string()), error_msg: None }
}

fn failed_action(msg: &str) -> DeviceActionResult {
    DeviceActionResult { ok: false, status_code: None, status_string: Some("UploadFailed".to_string()), error_msg: Some(msg.to_string()) }
}

fn reachable() -> DeviceConnectionResult {
    DeviceConnectionResult { ok: true, message: None, device_id: None }
}

fn all_devices() -> TargetSelection {
    TargetSelection { explicit_db_only: false, requested: None, provisioned: Vec::new(), backend_device_map: Vec::new() }
}

const NOW: (i64, u32) = (1_700_000_000, 0);

#[test]
fn saga_stops_at_first_failed_upload_and_unwinds_only_committed_devices() {
    let mut devices = vec![
        dev("d1", None, "10.0.0.1", None),
        dev("d2", None, "10.0.0.2", None),
        dev("d3", None, "10.0.0.3", None),
    ];
    let sel = all_devices();
    let mut saga = RegistrationSaga::new(false);
    let mut a = saga.advance(&devices, &sel, NOW);
    assert!(matches!(a, SagaAction::TestConnection(0)));
    a = saga.on_connection(&mut devices, &sel, reachable());
    assert!(matches!(a, SagaAction::CreateUser(0)));
    a = saga.on_user_create(&devices, ok_action());
    assert!(matches!(a, SagaAction::UploadFace(0)));
    a = saga.on_face_upload(&devices, ok_action());
    assert!(matches!(a, SagaAction::NextDevice));
    a = saga.advance(&devices, &sel, NOW);
    assert!(matches!(a, SagaAction::TestConnection(1)));
    a = saga.on_connection(&mut devices, &sel, reachable());
    assert!(matches!(a, SagaAction::CreateUser(1)));
    a = saga.on_user_create(&devices, ok_action());
    assert!(matches!(a, SagaAction::UploadFace(1)));
    a = saga.on_face_upload(&devices, failed_action("too dark"));
    assert!(matches!(a, SagaAction::DeleteUser(1)));
    a = saga.on_deleted();
    assert!(matches!(a, SagaAction::Finished));
    a = saga.advance(&devices, &sel, NOW);
    assert!(matches!(a, SagaAction::Finished));

    assert_eq!(saga.results.len(), 2);
    let first = &saga.results[0];
    assert_eq!(first.device_id, "d1");
    assert!(first.connection.ok);
    assert!(first.user_create.as_ref().unwrap().ok);
    assert!(first.face_upload.as_ref().unwrap().ok);
    let second = &saga.results[1];
    assert_eq!(second.device_id, "d2");
    assert!(!second.face_upload.as_ref().unwrap().ok);
    assert!(saga.results.iter().all(|r| r.device_id != "d3"));
    assert_eq!(
        saga.abort_error.as_deref(),
        Some("Qurilma 10.0.0.2:80: Qurilmaga rasm yuklashda xato")
    );
    assert_eq!(rollback_order(&saga.committed), vec![0]);
}

#[test]
fn saga_reports_each_device_when_a_backend_record_exists() {
    let mut devices = vec![dev("d1", Some("b-1"), "h1", None)];
    let sel = all_devices();
    let mut saga = RegistrationSaga::new(true);
    saga.advance(&devices, &sel, NOW);
    let found = DeviceConnectionResult { ok: true, message: None, device_id: Some("HW-1".to_string()) };
    saga.on_connection(&mut devices, &sel, found);
    assert!(saga.devices_changed);
    assert_eq!(devices[0].device_id.as_deref(), Some("HW-1"));
    saga.on_user_create(&devices, ok_action());
    match saga.on_face_upload(&devices, ok_action()) {
        SagaAction::Report { device, backend_device_id, external_device_id, success, error } => {
            assert_eq!(device, 0);
            assert_eq!(backend_device_id.as_deref(), Some("b-1"));
            assert_eq!(external_device_id.as_deref(), Some("HW-1"));
            assert!(success);
            assert!(error.is_none());
        }
        _ => panic!("expected a report"),
    }
    let a = saga.on_reported(&devices, Err("502".to_string()));
    assert!(matches!(a, SagaAction::Finished));
    assert_eq!(saga.abort_error.as_deref(), Some("Backend report failed: 502"));
    assert_eq!(saga.committed, vec![0]);
}

#[test]
fn saga_marks_expired_credentials_without_contacting_the_device() {
    let mut d = dev("d1", None, "h1", Some("HW"));
    d.credentials_expires_at = Some("2020-01-01T00:00:00Z".to_string());
    let devices = vec![d];
    let mut saga = RegistrationSaga::new(false);
    let a = saga.advance(&devices, &all_devices(), NOW);
    assert!(matches!(a, SagaAction::Finished));
    assert_eq!(saga.results.len(), 1);
    assert_eq!(saga.results[0].connection.message.as_deref(), Some("Ulanish sozlamalari muddati tugagan"));
    assert_eq!(saga.abort_error.as_deref(), Some("Qurilma h1:80: Ulanish sozlamalari muddati tugagan"));
}

#[test]
fn selection_follows_request_then_provisioning() {
    let a = dev("d1", Some("b-1"), "h1", None);
    let b = dev("d2", None, "h2", Some("HW-2"));
    let c = dev("d3", None, "h3", None);
    let targets = Some(vec![ProvisioningTargetDevice { id: "b-2".to_string(), device_id: "HW-2".to_string() }]);
    let sel = selection_from(None, &targets);
    assert!(!device_selected(&a, &sel));
    assert!(device_selected(&b, &sel));
    assert!(!device_selected(&c, &sel));
    let sel = selection_from(requested_targets(&Some(vec![" b-1 ".to_string(), "  ".to_string()])), &targets);
    assert!(device_selected(&a, &sel));
    assert!(!device_selected(&b, &sel));
    let sel = selection_from(requested_targets(&Some(vec![])), &targets);
    assert!(sel.explicit_db_only);
    assert!(!device_selected(&a, &sel));
    assert!(device_selected(&c, &all_devices()));
}

#[test]
fn rollback_messages_keep_the_root_cause_first() {
    let d = dev("d1", None, "h1", None);
    let reason = rollback_reason("Qurilma X: boom");
    assert_eq!(reason, "Rolled back due to failure: Qurilma X: boom");
    let failed = DeviceActionResult { ok: false, status_code: None, status_string: None, error_msg: None };
    assert_eq!(rollback_delete_error(&d, &failed).as_deref(), Some("h1:80: Delete failed"));
    assert_eq!(rollback_delete_error(&d, &ok_action()), None);
    assert_eq!(
        rollback_status_error(&reason, &failed),
        "Rolled back due to failure: Qurilma X: boom. Rollback delete failed: Rollback delete failed"
    );
    let errs = vec!["a: x".to_string(), "b: y".to_string()];
    assert_eq!(finalize_reason("R", &errs), "R. Rollback errors: a: x; b: y");
    assert_eq!(finalize_reason("R", &vec![]), "R");
    assert_eq!(final_error("M", &errs, &Some("F".to_string())), "M. Rollback errors: a: x; b: y. Finalize failure xatosi: F");
    assert_eq!(final_error("M", &vec![], &Some("F".to_string())), "M. Finalize failure xatosi: F");
    assert_eq!(final_error("M", &vec![], &None), "M");
}

#[test]
fn preparation_rules() {
    assert_eq!(full_name("  plain ", &Some(" Ali ".to_string()), &Some(" Valiyev".to_string())), "Valiyev Ali");
    assert_eq!(full_name("  plain ", &None, &None), "plain");
    assert!(check_backend_pairing(&Some("http://b".to_string()), &Some(" ".to_string())).is_err());
    assert!(check_backend_pairing(&Some("http://b".to_string()), &Some("s1".to_string())).is_ok());
    assert!(check_backend_pairing(&None, &None).is_ok());
    assert_eq!(choose_employee_no("1234567890".to_string(), "42"), "42");
    assert_eq!(choose_employee_no("1234567890".to_string(), "S-42"), "1234567890");
    let e = generate_employee_no();
    assert_eq!(e.len(), 10);
    assert!(e.chars().all(|c| c.is_ascii_digit()));
    assert!(check_face_payload(&"A".repeat(273322)).is_ok());
    assert_eq!(check_face_payload(&"A".repeat(273323)).unwrap_err(), "Face image is too large. Max 200 KB.");
}

#[test]
fn dedupe_keeps_later_record_for_same_backend_id() {
    let mut first = dev("a", Some("B-7"), "h1", None);
    first.password = "old".to_string();
    let mut later = dev("b", Some("B-7"), "h2", None);
    later.password = "new".to_string();
    let other = dev("c", None, "H3", None);
    let out = dedupe_devices(vec![first, other, later]);
    assert_eq!(out.len(), 2);
    assert_eq!(out[0].id, "b");
    assert_eq!(out[0].password, "new");
    assert_eq!(out[1].id, "c");
}

#[test]
fn dedupe_key_precedence() {
    assert_eq!(dedupe_key(&dev("a", Some(" B-7 "), "h", Some("x"))), "backend:b-7");
    assert_eq!(dedupe_key(&dev("a", Some("  "), "h", Some(" HW "))), "device:hw");
    assert_eq!(dedupe_key(&dev("a", None, " Host ", None)), "endpoint:host:80:admin");
}

#[test]
fn labels_and_lookups() {
    let a = dev("a", Some("B-1"), "h1", Some("HW-1"));
    let b = dev("b", None, "h2", Some("HW-2"));
    let c = dev("c", Some(" "), "h3", None);
    assert_eq!(device_label(&a), "Backend B-1");
    assert_eq!(device_label(&c), "h3:80");
    assert_eq!(device_match_label(&a), "B-1");
    assert_eq!(device_match_label(&b), "HW-2");
    assert_eq!(device_match_label(&c), "h3:80");
    let all = vec![a, b, c];
    assert_eq!(find_local_device_index(&all, "B-1", None), Some(0));
    assert_eq!(find_local_device_index(&all, "B-9", Some("HW-2")), Some(1));
    assert_eq!(find_local_device_index(&all, "B-9", None), None);
    assert_eq!(get_device_by_id(&all, "b").map(|d| d.host), Some("h2".to_string()));
    assert!(get_device_by_id(&all, "zz").is_none());
}

fn input(backend: Option<&str>, host: &str) -> DeviceInput {
    DeviceInput {
        backend_id: backend.map(|b| b.to_string()),
        host: host.to_string(),
        port: 8000,
        username: " admin ".to_string(),
        password: "pw".to_string(),
        device_id: None,
    }
}

fn stamp() -> CredentialStamp {
    CredentialStamp { updated_at: "2026-01-01T00:00:00Z".to_string(), expires_at: "2026-01-31T00:00:00Z".to_string() }
}

#[test]
fn device_list_mutations() {
    let mut devices = vec![dev("a", Some("B-1"), "h1", None)];
    let updated = register_device(&mut devices, input(Some(" B-1 "), " h9 "), "new".to_string(), stamp(), 1).unwrap();
    assert_eq!(updated.id, "a");
    assert_eq!(updated.host, "h9");
    assert_eq!(updated.username, "admin");
    assert_eq!(devices.len(), 1);
    let refused = register_device(&mut devices, input(None, "h2"), "new".to_string(), stamp(), 1);
    assert_eq!(refused.unwrap_err(), "Maximum 1 devices allowed");
    let added = register_device(&mut devices, input(None, "h2"), "new".to_string(), stamp(), 5).unwrap();
    assert_eq!(added.id, "new");
    assert_eq!(devices.len(), 2);
    let changed = update_device(&mut devices, "new", input(None, "h3"), stamp()).unwrap();
    assert_eq!(changed.host, "h3");
    assert!(update_device(&mut devices, "zz", input(None, "h3"), stamp()).is_err());
    assert_eq!(delete_device(&mut devices, "a"), Ok(true));
    assert_eq!(devices.len(), 1);
    assert_eq!(delete_device(&mut devices, "a").unwrap_err(), "Device not found");
}

#[test]
fn retry_check_finds_local_credentials() {
    let mut expired = dev("e", Some("B-2"), "h2", None);
    expired.credentials_expires_at = Some("2001-01-01T00:00:00+05:00".to_string());
    let all = vec![dev("a", None, "h1", Some("HW-1")), expired];
    assert!(matches!(retry_check(&all, "B-1", Some("HW-1"), NOW), RetryCheck::Test(0)));
    assert!(matches!(retry_check(&all, "B-2", None, NOW), RetryCheck::Expired(1)));
    assert!(matches!(retry_check(&all, "B-9", None, NOW), RetryCheck::MissingCredentials));
}
