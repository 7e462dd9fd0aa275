//! The shapes of the device's access-control API: URLs, response envelopes, the face image
//! guard, and the capability report.
use vstd::prelude::*;

use base64::Engine as _;

use crate::json::{as_i64_of, as_str_of, get_i64, get_of, get_str, Json};
use crate::model::{DeviceActionResult, DeviceConfig, DeviceConnectionResult};
use crate::text::{
    chars_of, contains, contains_str, decimal, decimal_string, opt_view, same_text, starts_with,
    starts_with_str, strip, strip_start, trim, trim_ws, views, CharClass,
};

verus! {

/// `statusCode` as the model holds it: the low 32 bits.
pub open spec fn status_code_of(d: Json) -> Option<i32> {
    match as_i64_of(get_of(d, "statusCode"@)) {
        Some(c) => Some(c as i32),
        None => None,
    }
}

/// `r` is the reading of a device's status envelope: `parsed` is the response body as JSON,
/// where it parses, and `text` is the body. Success is `statusCode` 1 or `statusString` "OK".
pub open spec fn action_result_of(r: DeviceActionResult, parsed: Option<Json>, text: Seq<char>) -> bool {
    match parsed {
        Some(d) => {
            &&& r.status_code == status_code_of(d)
            &&& opt_view(r.status_string) == as_str_of(get_of(d, "statusString"@))
            &&& opt_view(r.error_msg) == as_str_of(get_of(d, "errorMsg"@))
            &&& r.ok == (as_i64_of(get_of(d, "statusCode"@)) == Some(1i64) || opt_view(r.status_string) == Some("OK"@))
        },
        None => {
            &&& !r.ok
            &&& r.status_code is None
            &&& opt_view(r.status_string) == Some("ParseError"@)
            &&& opt_view(r.error_msg) == Some(text)
        },
    }
}

#[verifier::truncate]
fn low_i32(c: i64) -> (r: i32)
    ensures
        r == c as i32,
{
    c as i32
}

pub fn parse_action_result(parsed: &Option<Json>, text: &str) -> (r: DeviceActionResult)
    ensures
        action_result_of(r, *parsed, text@),
{
    match parsed {
        Some(data) => {
            let code = get_i64(data, "statusCode");
            let status_code = match code {
                Some(c) => Some(low_i32(c)),
                None => None,
            };
            let status_string = get_str(data, "statusString");
            let error_msg = get_str(data, "errorMsg");
            let ok = match code {
                Some(c) => c == 1,
                None => false,
            } || match &status_string {
                Some(s) => same_text(s.as_str(), "OK"),
                None => false,
            };
            DeviceActionResult { ok, status_code, status_string, error_msg }
        },
        None => DeviceActionResult {
            ok: false,
            status_code: None,
            status_string: Some(String::from_str("ParseError")),
            error_msg: Some(String::from_str(text)),
        },
    }
}

/// The outcome of a state-changing device call: the reply's envelope, or, where the request
/// itself failed, `failure_status` with the error.
pub open spec fn call_result_of(r: DeviceActionResult, outcome: Result<(Option<Json>, String), String>, failure_status: Seq<char>) -> bool {
    match outcome {
        Ok((parsed, text)) => action_result_of(r, parsed, text@),
        Err(e) => !r.ok && r.status_code is None && opt_view(r.status_string) == Some(failure_status)
            && opt_view(r.error_msg) == Some(e@),
    }
}

pub fn call_result(outcome: Result<(Option<Json>, String), String>, failure_status: &str) -> (r: DeviceActionResult)
    ensures
        call_result_of(r, outcome, failure_status@),
{
    match outcome {
        Ok((parsed, text)) => parse_action_result(&parsed, text.as_str()),
        Err(e) => DeviceActionResult {
            ok: false,
            status_code: None,
            status_string: Some(String::from_str(failure_status)),
            error_msg: Some(e),
        },
    }
}

/// The hardware id in a device-information document: `DeviceInfo.deviceID` (or `DeviceID`,
/// `deviceId`), else a top-level `deviceID`.
pub open spec fn device_id_of(d: Json) -> Option<Seq<char>> {
    let top = as_str_of(get_of(d, "deviceID"@));
    match get_of(d, "DeviceInfo"@) {
        Some(info) => {
            if as_str_of(get_of(info, "deviceID"@)) is Some {
                as_str_of(get_of(info, "deviceID"@))
            } else if as_str_of(get_of(info, "DeviceID"@)) is Some {
                as_str_of(get_of(info, "DeviceID"@))
            } else if as_str_of(get_of(info, "deviceId"@)) is Some {
                as_str_of(get_of(info, "deviceId"@))
            } else {
                top
            }
        },
        None => top,
    }
}

pub fn extract_device_id(parsed: &Option<Json>) -> (r: Option<String>)
    ensures
        opt_view(r) == match *parsed {
            Some(d) => device_id_of(d),
            None => None,
        },
{
    let data = match parsed {
        Some(d) => d,
        None => {
            return None;
        },
    };
    match data.get("DeviceInfo") {
        Some(info) => {
            let a = get_str(info, "deviceID");
            if a.is_some() {
                return a;
            }
            let b = get_str(info, "DeviceID");
            if b.is_some() {
                return b;
            }
            let c = get_str(info, "deviceId");
            if c.is_some() {
                return c;
            }
        },
        None => {},
    }
    get_str(data, "deviceID")
}

/// The connection outcome: reachable, with the hardware id the device reports, or not, with
/// the error.
pub fn connection_result(outcome: Result<Option<Json>, String>) -> (r: DeviceConnectionResult)
    ensures
        match outcome {
            Ok(parsed) => r.ok && r.message is None && opt_view(r.device_id) == match parsed {
                Some(d) => device_id_of(d),
                None => None,
            },
            Err(e) => !r.ok && opt_view(r.message) == Some(e@) && r.device_id is None,
        },
{
    match outcome {
        Ok(parsed) => DeviceConnectionResult { ok: true, message: None, device_id: extract_device_id(&parsed) },
        Err(e) => DeviceConnectionResult { ok: false, message: Some(e), device_id: None },
    }
}

/// What the base64 decoder makes of `s`: the bytes, or its message.
pub uninterp spec fn base64_decoded(s: Seq<char>) -> Result<Seq<u8>, Seq<char>>;

/// Relies on `base64::engine::general_purpose::STANDARD.decode` and the `Display` text of its
/// `DecodeError`: the result depends on the text alone.
#[verifier::external_body]
fn decode_base64(s: &str) -> (r: Result<Vec<u8>, String>)
    ensures
        match r {
            Ok(b) => base64_decoded(s@) == Ok::<Seq<u8>, Seq<char>>(b@),
            Err(e) => base64_decoded(s@) == Err::<Seq<u8>, Seq<char>>(e@),
        },
{
    match base64::engine::general_purpose::STANDARD.decode(s) {
        Ok(b) => Ok(b),
        Err(e) => Err(e.to_string()),
    }
}

/// The largest face image a device takes, in bytes.
pub const MAX_FACE_IMAGE_BYTES: usize = 204800;

/// `r` rejects an upload with `status` and `message`, before any request.
pub open spec fn rejects_upload(r: DeviceActionResult, status: Seq<char>, message: Seq<char>) -> bool {
    !r.ok && r.status_code is None && opt_view(r.status_string) == Some(status) && opt_view(r.error_msg) == Some(message)
}

/// The face image to upload, decoded: text that is not base64 is rejected as `InvalidImage`,
/// and an image over 200 KiB as `ImageTooLarge`.
pub fn prepare_face_image(image_base64: &str) -> (r: Result<Vec<u8>, DeviceActionResult>)
    ensures
        match base64_decoded(image_base64@) {
            Err(e) => r matches Err(x) && rejects_upload(x, "InvalidImage"@, e),
            Ok(b) => if b.len() > MAX_FACE_IMAGE_BYTES {
                r matches Err(x) && rejects_upload(
                    x,
                    "ImageTooLarge"@,
                    "Face image too large: "@ + decimal(b.len()) + " bytes (max 204800 bytes)"@,
                )
            } else {
                r matches Ok(v) && v@ == b
            },
        },
{
    let bytes = match decode_base64(image_base64) {
        Ok(b) => b,
        Err(e) => {
            return Err(DeviceActionResult {
                ok: false,
                status_code: None,
                status_string: Some(String::from_str("InvalidImage")),
                error_msg: Some(e),
            });
        },
    };
    if bytes.len() > MAX_FACE_IMAGE_BYTES {
        let mut m = String::from_str("Face image too large: ");
        let n = decimal_string(bytes.len() as u64);
        m.append(n.as_str());
        m.append(" bytes (max 204800 bytes)");
        return Err(DeviceActionResult {
            ok: false,
            status_code: None,
            status_string: Some(String::from_str("ImageTooLarge")),
            error_msg: Some(m),
        });
    }
    Ok(bytes)
}

/// `http://host:port`.
pub open spec fn base_url_of(d: DeviceConfig) -> Seq<char> {
    "http://"@ + d.host@ + ":"@ + decimal(d.port as nat)
}

pub fn base_url(device: &DeviceConfig) -> (r: String)
    ensures
        r@ == base_url_of(*device),
{
    let mut s = String::from_str("http://");
    s.append(device.host.as_str());
    s.append(":");
    let p = decimal_string(device.port as u64);
    s.append(p.as_str());
    s
}

/// The URL of a configuration path on the device: the path is trimmed and loses its leading
/// slashes; a JSON request without a query asks for `format=json`.
pub open spec fn isapi_url_of(d: DeviceConfig, path: Seq<char>, json: bool) -> Seq<char> {
    let clean = strip_start(trim_ws(path), CharClass::Exactly('/'));
    let url = base_url_of(d) + "/"@ + clean;
    if json && !contains(clean, "?"@) {
        url + "?format=json"@
    } else {
        url
    }
}

pub fn isapi_url(device: &DeviceConfig, path: &str, json: bool) -> (r: String)
    ensures
        r@ == isapi_url_of(*device, path@, json),
{
    let clean = strip(trim(path), &CharClass::Exactly('/'), true, false);
    let mut url = base_url(device);
    url.append("/");
    url.append(clean);
    if json && !contains_str(clean, "?") {
        url.append("?format=json");
    }
    url
}

/// Where a face image stored on the device is fetched: absolute URLs as given, others
/// relative to the device.
pub open spec fn face_image_url_of(d: DeviceConfig, face_url: Seq<char>) -> Seq<char> {
    if starts_with(face_url, "http"@) {
        face_url
    } else {
        base_url_of(d) + "/"@ + strip_start(face_url, CharClass::Exactly('/'))
    }
}

pub fn face_image_url(device: &DeviceConfig, face_url: &str) -> (r: String)
    ensures
        r@ == face_image_url_of(*device, face_url@),
{
    if starts_with_str(face_url, "http") {
        return String::from_str(face_url);
    }
    let mut url = base_url(device);
    url.append("/");
    url.append(strip(face_url, &CharClass::Exactly('/'), true, false));
    url
}

/// The configuration endpoints whose support is probed, by name.
pub fn capability_probes() -> (r: Vec<(String, String)>)
    ensures
        r@.len() == 6,
        r@[0].0@ == "deviceInfo"@ && r@[0].1@ == "ISAPI/System/deviceInfo?format=json"@,
        r@[1].0@ == "status"@ && r@[1].1@ == "ISAPI/System/status?format=json"@,
        r@[2].0@ == "time"@ && r@[2].1@ == "ISAPI/System/time?format=json"@,
        r@[3].0@ == "ntpServers"@ && r@[3].1@ == "ISAPI/System/Network/ntpServers?format=json"@,
        r@[4].0@ == "networkInterfaces"@ && r@[4].1@ == "ISAPI/System/Network/interfaces?format=json"@,
        r@[5].0@ == "systemCapabilities"@ && r@[5].1@ == "ISAPI/System/capabilities?format=json"@,
{
    let mut v: Vec<(String, String)> = Vec::new();
    v.push((String::from_str("deviceInfo"), String::from_str("ISAPI/System/deviceInfo?format=json")));
    v.push((String::from_str("status"), String::from_str("ISAPI/System/status?format=json")));
    v.push((String::from_str("time"), String::from_str("ISAPI/System/time?format=json")));
    v.push((String::from_str("ntpServers"), String::from_str("ISAPI/System/Network/ntpServers?format=json")));
    v.push((String::from_str("networkInterfaces"), String::from_str("ISAPI/System/Network/interfaces?format=json")));
    v.push((String::from_str("systemCapabilities"), String::from_str("ISAPI/System/capabilities?format=json")));
    v
}

/// Which probes succeeded, by name.
pub open spec fn supported_of(keys: Seq<String>, outcomes: Seq<Result<Json, String>>) -> Seq<(Seq<char>, bool)> {
    Seq::new(keys.len(), |i: int| (keys[i]@, outcomes[i] is Ok))
}

/// The members of a `supported` object, as views.
pub open spec fn bool_members(m: Seq<(String, Json)>) -> Seq<(Seq<char>, bool)> {
    Seq::new(m.len(), |i: int| (m[i].0@, m[i].1 == Json::Bool(true)))
}

/// `r` is the capability report for the probes named `keys` with `outcomes`: `supported`
/// maps each name to whether its probe answered; `details` holds each answer, or the error
/// under `<name>_error`.
pub open spec fn capability_report_of(r: Json, keys: Seq<String>, outcomes: Seq<Result<Json, String>>) -> bool {
    match r {
        Json::Object(top) => top@.len() == 2 && top@[0].0@ == "supported"@ && top@[1].0@ == "details"@
            && match (top@[0].1, top@[1].1) {
            (Json::Object(sup), Json::Object(det)) => {
                &&& sup@.len() == keys.len()
                &&& det@.len() == keys.len()
                &&& forall|i: int| 0 <= i < keys.len() ==> (#[trigger] sup@[i]).0@ == keys[i]@ && sup@[i].1 == Json::Bool(outcomes[i] is Ok)
                &&& forall|i: int| 0 <= i < keys.len() ==> detail_entry(#[trigger] det@[i], keys[i], outcomes[i])
            },
            _ => false,
        },
        _ => false,
    }
}

/// A `details` member for the probe named `key` with `outcome`.
pub open spec fn detail_entry(m: (String, Json), key: String, outcome: Result<Json, String>) -> bool {
    match outcome {
        Ok(v) => m.0@ == key@ && m.1 == v,
        Err(e) => m.0@ == key@ + "_error"@ && (match m.1 {
            Json::Str(t) => t@ == e@,
            _ => false,
        }),
    }
}

/// Builds the capability report; no probe's failure fails the whole.
pub fn capability_report(keys: &Vec<String>, outcomes: Vec<Result<Json, String>>) -> (r: Json)
    requires
        keys@.len() == outcomes@.len(),
    ensures
        capability_report_of(r, keys@, outcomes@),
        match r {
            Json::Object(top) => match top@[0].1 {
                Json::Object(sup) => bool_members(sup@) == supported_of(keys@, outcomes@),
                _ => false,
            },
            _ => false,
        },
{
    let ghost all = outcomes@;
    let n = keys.len();
    let mut rest = outcomes;
    let mut sup: Vec<(String, Json)> = Vec::new();
    let mut det: Vec<(String, Json)> = Vec::new();
    let mut i: usize = 0;
    while i < n
        invariant
            n == keys@.len(),
            all.len() == n,
            i <= n,
            rest@ == all.subrange(i as int, n as int),
            sup@.len() == i,
            det@.len() == i,
            forall|j: int| 0 <= j < i ==> (#[trigger] sup@[j]).0@ == keys@[j]@ && sup@[j].1 == Json::Bool(all[j] is Ok),
            forall|j: int| 0 <= j < i ==> detail_entry(#[trigger] det@[j], keys@[j], all[j]),
        decreases n - i,
    {
        let o = rest.remove(0);
        assert(o == all[i as int]);
        assert(rest@ =~= all.subrange(i + 1, n as int));
        let key = keys[i].clone();
        match o {
            Ok(v) => {
                sup.push((key.clone(), Json::Bool(true)));
                det.push((key, v));
            },
            Err(e) => {
                sup.push((key.clone(), Json::Bool(false)));
                let mut k = key;
                k.append("_error");
                det.push((k, Json::Str(e)));
            },
        }
        i = i + 1;
    }
    let ghost sv = sup@;
    let mut top: Vec<(String, Json)> = Vec::new();
    top.push((String::from_str("supported"), Json::Object(sup)));
    top.push((String::from_str("details"), Json::Object(det)));
    proof {
        assert(bool_members(sv) =~= supported_of(keys@, all));
    }
    Json::Object(top)
}

/// Probing a device that answers no probe gives the same `supported` map every time, with
/// every capability unsupported.
pub proof fn lemma_unreachable_device_supported_stable(
    keys: Seq<String>,
    first: Seq<Result<Json, String>>,
    second: Seq<Result<Json, String>>,
)
    requires
        first.len() == keys.len(),
        second.len() == keys.len(),
        forall|i: int| 0 <= i < keys.len() ==> (#[trigger] first[i]) is Err,
        forall|i: int| 0 <= i < keys.len() ==> (#[trigger] second[i]) is Err,
    ensures
        supported_of(keys, first) == supported_of(keys, second),
        forall|i: int| 0 <= i < keys.len() ==> !(#[trigger] supported_of(keys, first)[i]).1,
{
    assert(supported_of(keys, first) =~= supported_of(keys, second)) by {
        assert forall|i: int| 0 <= i < keys.len() implies supported_of(keys, first)[i] == supported_of(keys, second)[i] by {
            assert(first[i] is Err);
            assert(second[i] is Err);
        }
    }
}

/// Whether the capability report marks `key` as supported.
pub open spec fn capability_supported_of(caps: Json, key: Seq<char>) -> bool {
    match get_of(caps, "supported"@) {
        Some(sup) => get_of(sup, key) == Some(Json::Bool(true)),
        None => false,
    }
}

pub fn capability_supported(caps: &Json, key: &str) -> (r: bool)
    ensures
        r == capability_supported_of(*caps, key@),
{
    match caps.get("supported") {
        Some(sup) => match sup.get(key) {
            Some(v) => match v {
                Json::Bool(b) => *b,
                _ => false,
            },
            None => false,
        },
        None => false,
    }
}

fn text(t: &str) -> (r: Json)
    ensures
        r matches Json::Str(x) && x@ == t@,
{
    Json::Str(String::from_str(t))
}

fn member(k: &str, v: Json) -> (r: (String, Json))
    ensures
        r.0@ == k@,
        r.1 == v,
{
    (String::from_str(k), v)
}

/// `v` is the text `t`.
pub open spec fn is_text(v: Json, t: Seq<char>) -> bool {
    v matches Json::Str(x) && x@ == t
}

/// `v` is an object with exactly these keys, in this order.
pub open spec fn has_keys(v: Json, keys: Seq<Seq<char>>) -> bool {
    match v {
        Json::Object(m) => m@.len() == keys.len() && forall|i: int| 0 <= i < keys.len() ==> (#[trigger] m@[i]).0@ == keys[i],
        _ => false,
    }
}

/// The member at position `i` of an object.
pub open spec fn member_at(v: Json, i: int) -> Json {
    match v {
        Json::Object(m) => m@[i].1,
        _ => Json::Null,
    }
}

/// The user record a registration creates: a normal user with door 1 rights, valid between
/// `begin_time` and `end_time` in device-local time.
pub fn user_record(employee_no: &str, name: &str, gender: &str, begin_time: &str, end_time: &str) -> (r: Json)
    ensures
        has_keys(r, seq!["UserInfo"@]),
        ({
            let u = member_at(r, 0);
            &&& has_keys(u, seq!["employeeNo"@, "name"@, "userType"@, "doorRight"@, "RightPlan"@, "Valid"@, "gender"@, "localUIRight"@, "maxOpenDoorTime"@, "userVerifyMode"@])
            &&& is_text(member_at(u, 0), employee_no@)
            &&& is_text(member_at(u, 1), name@)
            &&& is_text(member_at(u, 2), "normal"@)
            &&& is_text(member_at(u, 3), "1"@)
            &&& member_at(u, 4) matches Json::Array(plans) && plans@.len() == 1
                && has_keys(plans@[0], seq!["doorNo"@, "planTemplateNo"@])
                && member_at(plans@[0], 0) == Json::Int(1) && is_text(member_at(plans@[0], 1), "1"@)
            &&& is_text(member_at(u, 6), gender@)
            &&& member_at(u, 7) == Json::Bool(false)
            &&& member_at(u, 8) == Json::Int(0)
            &&& is_text(member_at(u, 9), ""@)
            &&& has_keys(member_at(u, 5), seq!["enable"@, "beginTime"@, "endTime"@, "timeType"@])
            &&& member_at(member_at(u, 5), 0) == Json::Bool(true)
            &&& is_text(member_at(member_at(u, 5), 1), begin_time@)
            &&& is_text(member_at(member_at(u, 5), 2), end_time@)
            &&& is_text(member_at(member_at(u, 5), 3), "local"@)
        }),
{
    let mut plan: Vec<(String, Json)> = Vec::new();
    plan.push(member("doorNo", Json::Int(1)));
    plan.push(member("planTemplateNo", text("1")));
    let mut plans: Vec<Json> = Vec::new();
    plans.push(Json::Object(plan));
    let mut valid: Vec<(String, Json)> = Vec::new();
    valid.push(member("enable", Json::Bool(true)));
    valid.push(member("beginTime", text(begin_time)));
    valid.push(member("endTime", text(end_time)));
    valid.push(member("timeType", text("local")));
    let mut u: Vec<(String, Json)> = Vec::new();
    u.push(member("employeeNo", text(employee_no)));
    u.push(member("name", text(name)));
    u.push(member("userType", text("normal")));
    u.push(member("doorRight", text("1")));
    u.push(member("RightPlan", Json::Array(plans)));
    u.push(member("Valid", Json::Object(valid)));
    u.push(member("gender", text(gender)));
    u.push(member("localUIRight", Json::Bool(false)));
    u.push(member("maxOpenDoorTime", Json::Int(0)));
    u.push(member("userVerifyMode", text("")));
    let mut top: Vec<(String, Json)> = Vec::new();
    top.push(member("UserInfo", Json::Object(u)));
    Json::Object(top)
}

/// The face record sent with the image: face library 1 of the blocklist type, keyed by the
/// employee number.
pub fn face_record(employee_no: &str, name: &str, gender: &str) -> (r: Json)
    ensures
        has_keys(r, seq!["faceLibType"@, "FDID"@, "FPID"@, "name"@, "gender"@]),
        is_text(member_at(r, 0), "blackFD"@),
        is_text(member_at(r, 1), "1"@),
        is_text(member_at(r, 2), employee_no@),
        is_text(member_at(r, 3), name@),
        is_text(member_at(r, 4), gender@),
{
    let mut m: Vec<(String, Json)> = Vec::new();
    m.push(member("faceLibType", text("blackFD")));
    m.push(member("FDID", text("1")));
    m.push(member("FPID", text(employee_no)));
    m.push(member("name", text(name)));
    m.push(member("gender", text(gender)));
    Json::Object(m)
}

/// `v` is the single employee number filter `[{ "employeeNo": e }]`.
pub open spec fn is_employee_filter(v: Json, e: Seq<char>) -> bool {
    v matches Json::Array(a) && a@.len() == 1 && has_keys(a@[0], seq!["employeeNo"@]) && is_text(member_at(a@[0], 0), e)
}

fn employee_filter(employee_no: &str) -> (r: Json)
    ensures
        is_employee_filter(r, employee_no@),
{
    let mut e: Vec<(String, Json)> = Vec::new();
    e.push(member("employeeNo", text(employee_no)));
    let mut a: Vec<Json> = Vec::new();
    a.push(Json::Object(e));
    Json::Array(a)
}

/// The condition that deletes one user.
pub fn delete_condition(employee_no: &str) -> (r: Json)
    ensures
        has_keys(r, seq!["UserInfoDelCond"@]),
        has_keys(member_at(r, 0), seq!["EmployeeNoList"@]),
        is_employee_filter(member_at(member_at(r, 0), 0), employee_no@),
{
    let mut c: Vec<(String, Json)> = Vec::new();
    c.push(member("EmployeeNoList", employee_filter(employee_no)));
    let mut top: Vec<(String, Json)> = Vec::new();
    top.push(member("UserInfoDelCond", Json::Object(c)));
    Json::Object(top)
}

/// A user search page: `limit` users from position `offset`, optionally only one employee.
pub fn search_condition(search_id: &str, offset: i32, limit: i32, employee_no: Option<&str>) -> (r: Json)
    ensures
        has_keys(r, seq!["UserInfoSearchCond"@]),
        ({
            let c = member_at(r, 0);
            &&& is_text(member_at(c, 0), search_id@)
            &&& member_at(c, 1) == Json::Int(limit as i64)
            &&& member_at(c, 2) == Json::Int(offset as i64)
            &&& match employee_no {
                Some(e) => has_keys(c, seq!["searchID"@, "maxResults"@, "searchResultPosition"@, "EmployeeNoList"@])
                    && is_employee_filter(member_at(c, 3), e@),
                None => has_keys(c, seq!["searchID"@, "maxResults"@, "searchResultPosition"@]),
            }
        }),
{
    let mut c: Vec<(String, Json)> = Vec::new();
    c.push(member("searchID", text(search_id)));
    c.push(member("maxResults", Json::Int(limit as i64)));
    c.push(member("searchResultPosition", Json::Int(offset as i64)));
    match employee_no {
        Some(e) => {
            c.push(member("EmployeeNoList", employee_filter(e)));
        },
        None => {},
    }
    let mut top: Vec<(String, Json)> = Vec::new();
    top.push(member("UserInfoSearchCond", Json::Object(c)));
    Json::Object(top)
}

} // verus!

