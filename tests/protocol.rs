use base64::Engine as _;
use student_registrator::auth_flow::{auth_next, auth_start, AuthStage, AuthStep, Credential, Reply};
use student_registrator::device_api::{
    base_url, capability_probes, capability_report, connection_result, face_image_url, isapi_url,
    parse_action_result, prepare_face_image, call_result,
};
use student_registrator::digest::{build_digest_authorization, digest_response, parse_digest_challenge, DigestChallenge};
use student_registrator::json::Json;
use student_registrator::model::DeviceConfig;

fn md5_hex(s: &str) -> String {
    format!("{:x}", md5::compute(s))
}

fn device(host: &str, port: u16) -> DeviceConfig {
    DeviceConfig {
        id: "local-1".to_string(),
        backend_id: None,
        host: host.to_string(),
        port,
        username: "admin".to_string(),
        password: "secret".to_string(),
        credentials_updated_at: None,
        credentials_expires_at: None,
        device_id: None,
    }
}

fn obj(members: Vec<(&str, Json)>) -> Json {
    Json::Object(members.into_iter().map(|(k, v)| (k.to_string(), v)).collect())
}

fn s(v: &str) -> Json {
    Json::Str(v.to_string())
}

#[test]
fn digest_response_with_qop_auth_follows_rfc_2617() {
    let ha1 = md5_hex("admin:realm1:secret");
    let ha2 = md5_hex("GET:/ISAPI/System/deviceInfo?format=json");
    let expected = md5_hex(&format!("{}:abc:00000001:c0ffee:auth:{}", ha1, ha2));
    let got = digest_response(
        "admin",
        "realm1",
        "secret",
        "GET",
        "/ISAPI/System/deviceInfo?format=json",
        "abc",
        Some(("00000001", "c0ffee")),
    );
    assert_eq!(got, expected);
}

#[test]
fn digest_response_without_qop_is_ha1_nonce_ha2() {
    let ha1 = md5_hex("u:r:p");
    let ha2 = md5_hex("PUT:/x");
    let expected = md5_hex(&format!("{}:n1:{}", ha1, ha2));
    assert_eq!(digest_response("u", "r", "p", "PUT", "/x", "n1", None), expected);
}

#[test]
fn parse_digest_challenge_reads_quoted_params() {
    let c = parse_digest_challenge(
        "  Digest realm=\"IP Camera\", qop=\"auth,auth-int\", nonce=\"abc,def\", opaque=\"xyz\"",
    )
    .expect("challenge");
    assert_eq!(c.realm, "IP Camera");
    assert_eq!(c.nonce, "abc,def");
    assert_eq!(c.qop.as_deref(), Some("auth,auth-int"));
    assert_eq!(c.opaque.as_deref(), Some("xyz"));
    assert_eq!(c.algorithm, None);
}

#[test]
fn parse_digest_challenge_rejects_basic_and_missing_nonce() {
    assert!(parse_digest_challenge("Basic realm=\"x\"").is_none());
    assert!(parse_digest_challenge("Digest realm=\"x\"").is_none());
    assert!(parse_digest_challenge("Digest realm=\"x\", junk, nonce=\"n\"").is_none());
}

#[test]
fn build_digest_authorization_with_qop() {
    let c = DigestChallenge {
        realm: "r".to_string(),
        nonce: "n".to_string(),
        qop: Some("auth".to_string()),
        opaque: Some("o".to_string()),
        algorithm: Some("md5".to_string()),
    };
    let h = build_digest_authorization("u", "p", "GET", "http://10.0.0.2:80/a/b?x=1", &c, "cn").unwrap();
    let ha1 = md5_hex("u:r:p");
    let ha2 = md5_hex("GET:/a/b?x=1");
    let resp = md5_hex(&format!("{}:n:00000001:cn:auth:{}", ha1, ha2));
    let expected = format!(
        "Digest username=\"u\", realm=\"r\", nonce=\"n\", uri=\"/a/b?x=1\", response=\"{}\", opaque=\"o\", algorithm=MD5, qop=auth, nc=00000001, cnonce=\"cn\"",
        resp
    );
    assert_eq!(h, expected);
}

#[test]
fn build_digest_authorization_rejects_other_algorithms() {
    let c = DigestChallenge {
        realm: "r".to_string(),
        nonce: "n".to_string(),
        qop: None,
        opaque: None,
        algorithm: Some("SHA-256".to_string()),
    };
    let e = build_digest_authorization("u", "p", "GET", "http://h/x", &c, "cn").unwrap_err();
    assert_eq!(e, "Unsupported digest algorithm: SHA-256");
}

fn reply(status: u16, reason: Option<&str>, www: &str, body: &str) -> Reply {
    Reply {
        status,
        reason: reason.map(|r| r.to_string()),
        www_authenticate: www.to_string(),
        body: body.to_string(),
    }
}

#[test]
fn auth_flow_answers_a_challenge_with_digest() {
    let (stage, step) = auth_start(false);
    assert_eq!(stage, AuthStage::Plain);
    assert!(matches!(step, AuthStep::Send(Credential::Anonymous)));
    let r = reply(401, Some("Unauthorized"), "Digest realm=\"r\", nonce=\"n\"", "");
    let (stage, step) = auth_next(stage, &r, "u", "p", "GET", "http://h/x", "cn");
    assert_eq!(stage, AuthStage::Digest);
    match step {
        AuthStep::Send(Credential::Digest(h)) => assert!(h.starts_with("Digest username=\"u\"")),
        _ => panic!("expected a digest attempt"),
    }
    let ok = reply(200, Some("OK"), "", "{}");
    let (_, step) = auth_next(stage, &ok, "u", "p", "GET", "http://h/x", "cn");
    assert!(matches!(step, AuthStep::Accept));
}

#[test]
fn auth_flow_falls_back_to_basic_then_reports_missing_challenge() {
    let r = reply(403, Some("Forbidden"), "", "");
    let (stage, step) = auth_next(AuthStage::Plain, &r, "u", "p", "POST", "http://h/x", "cn");
    assert_eq!(stage, AuthStage::Basic);
    assert!(matches!(step, AuthStep::Send(Credential::Basic)));
    let r2 = reply(401, Some("Unauthorized"), "Basic realm=\"x\"", "");
    let (_, step) = auth_next(stage, &r2, "u", "p", "POST", "http://h/x", "cn");
    match step {
        AuthStep::Reject(m) => assert_eq!(m, "Unauthorized (no digest challenge). WWW-Authenticate: Basic realm=\"x\""),
        _ => panic!("expected a rejection"),
    }
}

#[test]
fn auth_flow_reports_other_statuses_with_body() {
    let r = reply(500, Some("Internal Server Error"), "", "boom");
    let (_, step) = auth_next(AuthStage::Plain, &r, "u", "p", "GET", "http://h/x", "cn");
    match step {
        AuthStep::Reject(m) => assert_eq!(m, "HTTP 500 Internal Server Error: Internal Server Error: boom"),
        _ => panic!("expected a rejection"),
    }
}

#[test]
fn auth_flow_probes_before_a_form() {
    let (stage, step) = auth_start(true);
    assert_eq!(stage, AuthStage::Probe);
    assert!(matches!(step, AuthStep::Probe));
    let r = reply(200, Some("OK"), "", "");
    let (stage, step) = auth_next(stage, &r, "u", "p", "POST", "http://h/x", "cn");
    assert_eq!(stage, AuthStage::FormBasic);
    assert!(matches!(step, AuthStep::SendForm(Credential::Basic)));
    let bad = reply(400, Some("Bad Request"), "", "ignored");
    let (_, step) = auth_next(stage, &bad, "u", "p", "POST", "http://h/x", "cn");
    match step {
        AuthStep::Reject(m) => assert_eq!(m, "HTTP 400 Bad Request: Bad Request"),
        _ => panic!("expected a rejection"),
    }
}

#[test]
fn parse_action_result_reads_envelope() {
    let doc = obj(vec![("statusCode", Json::Int(1)), ("statusString", s("OK"))]);
    let r = parse_action_result(&Some(doc), "ignored");
    assert!(r.ok);
    assert_eq!(r.status_code, Some(1));
    let doc = obj(vec![("statusCode", Json::Int(4)), ("statusString", s("Invalid Content")), ("errorMsg", s("bad"))]);
    let r = parse_action_result(&Some(doc), "ignored");
    assert!(!r.ok);
    assert_eq!(r.error_msg.as_deref(), Some("bad"));
    let r = parse_action_result(&None, "<html>");
    assert!(!r.ok);
    assert_eq!(r.status_string.as_deref(), Some("ParseError"));
    assert_eq!(r.error_msg.as_deref(), Some("<html>"));
}

#[test]
fn call_result_folds_transport_errors() {
    let r = call_result(Err("timed out".to_string()), "DeleteFailed");
    assert!(!r.ok);
    assert_eq!(r.status_string.as_deref(), Some("DeleteFailed"));
    assert_eq!(r.error_msg.as_deref(), Some("timed out"));
}

#[test]
fn connection_result_reads_device_id_variants() {
    let doc = obj(vec![("DeviceInfo", obj(vec![("DeviceID", s("HW-9"))]))]);
    let c = connection_result(Ok(Some(doc)));
    assert!(c.ok);
    assert_eq!(c.device_id.as_deref(), Some("HW-9"));
    let c = connection_result(Err("refused".to_string()));
    assert!(!c.ok);
    assert_eq!(c.message.as_deref(), Some("refused"));
}

#[test]
fn face_image_guard_rejects_oversized_payload() {
    let big = vec![7u8; 204801];
    let b64 = base64::engine::general_purpose::STANDARD.encode(&big);
    let r = prepare_face_image(&b64).unwrap_err();
    assert!(!r.ok);
    assert_eq!(r.status_string.as_deref(), Some("ImageTooLarge"));
    assert_eq!(
        r.error_msg.as_deref(),
        Some("Face image too large: 204801 bytes (max 204800 bytes)")
    );
    let ok = base64::engine::general_purpose::STANDARD.encode(vec![1u8; 204800]);
    assert_eq!(prepare_face_image(&ok).unwrap().len(), 204800);
    let bad = prepare_face_image("***").unwrap_err();
    assert_eq!(bad.status_string.as_deref(), Some("InvalidImage"));
}

#[test]
fn unreachable_device_probes_are_stable_and_unsupported() {
    let probes = capability_probes();
    let keys: Vec<String> = probes.iter().map(|p| p.0.clone()).collect();
    let run = || capability_report(&keys, keys.iter().map(|_| Err("connection refused".to_string())).collect());
    let first = run();
    let second = run();
    let supported = |j: &Json| -> Vec<(String, bool)> {
        match j {
            Json::Object(top) => match &top[0].1 {
                Json::Object(m) => m.iter().map(|(k, v)| (k.clone(), matches!(v, Json::Bool(true)))).collect(),
                _ => panic!("supported is an object"),
            },
            _ => panic!("report is an object"),
        }
    };
    assert_eq!(supported(&first), supported(&second));
    assert_eq!(supported(&first).len(), 6);
    assert!(supported(&first).iter().all(|(_, b)| !b));
    match &first {
        Json::Object(top) => match &top[1].1 {
            Json::Object(d) => assert_eq!(d[0].0, "deviceInfo_error"),
            _ => panic!("details is an object"),
        },
        _ => panic!("report is an object"),
    }
}

#[test]
fn device_urls_are_built_from_host_and_port() {
    let d = device("10.0.0.5", 8080);
    assert_eq!(base_url(&d), "http://10.0.0.5:8080");
    assert_eq!(isapi_url(&d, " /ISAPI/System/time ", true), "http://10.0.0.5:8080/ISAPI/System/time?format=json");
    assert_eq!(isapi_url(&d, "ISAPI/x?format=json", true), "http://10.0.0.5:8080/ISAPI/x?format=json");
    assert_eq!(isapi_url(&d, "ISAPI/x", false), "http://10.0.0.5:8080/ISAPI/x");
    assert_eq!(face_image_url(&d, "/pic/1.jpg"), "http://10.0.0.5:8080/pic/1.jpg");
    assert_eq!(face_image_url(&d, "https://cdn/x.jpg"), "https://cdn/x.jpg");
}
