//! Reading the backend's provisioning records, and the requests sent to the backend.
use vstd::prelude::*;

use crate::device_api::{has_keys, is_text, member_at};
use crate::json::{as_str_of, get_of, get_str, Json};
use crate::text::{opt_view, same_text, views};

verus! {

/// The texts among the elements of `items`, in order.
pub open spec fn texts_of(items: Seq<Json>) -> Seq<Seq<char>>
    decreases items.len(),
{
    if items.len() == 0 {
        seq![]
    } else {
        match items.last() {
            Json::Str(s) => texts_of(items.drop_last()).push(s@),
            _ => texts_of(items.drop_last()),
        }
    }
}

/// The elements of `items` that are member `key` texts of objects, in order.
pub open spec fn member_texts_of(items: Seq<Json>, key: Seq<char>) -> Seq<Seq<char>>
    decreases items.len(),
{
    if items.len() == 0 {
        seq![]
    } else {
        match as_str_of(get_of(items.last(), key)) {
            Some(s) => member_texts_of(items.drop_last(), key).push(s),
            None => member_texts_of(items.drop_last(), key),
        }
    }
}

/// The elements of the array `v[key]`, where there is one.
pub open spec fn array_at(v: Json, key: Seq<char>) -> Seq<Json> {
    match get_of(v, key) {
        Some(Json::Array(a)) => a@,
        _ => seq![],
    }
}

fn array_member<'a>(v: &'a Json, key: &str) -> (r: Option<&'a Vec<Json>>)
    ensures
        match r {
            Some(a) => get_of(*v, key@) == Some(Json::Array(*a)),
            None => !(get_of(*v, key@) matches Some(Json::Array(_))),
        },
{
    match v.get(key) {
        Some(x) => match x {
            Json::Array(a) => Some(a),
            _ => None,
        },
        None => None,
    }
}

/// The texts in the array `v[key]`.
pub fn texts_at(v: &Json, key: &str) -> (r: Vec<String>)
    ensures
        views(r@) == texts_of(array_at(*v, key@)),
{
    let mut out: Vec<String> = Vec::new();
    match array_member(v, key) {
        Some(a) => {
            let mut i: usize = 0;
            assert(a@.subrange(0, 0) =~= Seq::<Json>::empty());
            while i < a.len()
                invariant
                    i <= a@.len(),
                    views(out@) == texts_of(a@.subrange(0, i as int)),
                decreases a@.len() - i,
            {
                let ghost pre = a@.subrange(0, i + 1);
                assert(pre.drop_last() =~= a@.subrange(0, i as int));
                let ghost before = views(out@);
                match &a[i] {
                    Json::Str(s) => {
                        out.push(s.clone());
                        assert(views(out@) =~= before.push(s@));
                    },
                    _ => {},
                }
                i = i + 1;
            }
            assert(a@.subrange(0, i as int) =~= a@);
        },
        None => {},
    }
    out
}

/// The texts under `key` of the objects in the array `v[array_key]`.
pub fn member_texts_at(v: &Json, array_key: &str, key: &str) -> (r: Vec<String>)
    ensures
        views(r@) == member_texts_of(array_at(*v, array_key@), key@),
{
    let mut out: Vec<String> = Vec::new();
    match array_member(v, array_key) {
        Some(a) => {
            let mut i: usize = 0;
            assert(a@.subrange(0, 0) =~= Seq::<Json>::empty());
            while i < a.len()
                invariant
                    i <= a@.len(),
                    views(out@) == member_texts_of(a@.subrange(0, i as int), key@),
                decreases a@.len() - i,
            {
                let ghost pre = a@.subrange(0, i + 1);
                assert(pre.drop_last() =~= a@.subrange(0, i as int));
                let ghost before = views(out@);
                match get_str(&a[i], key) {
                    Some(s) => {
                        out.push(s);
                        assert(views(out@) =~= before.push(as_str_of(get_of(a@[i as int], key@))->0));
                    },
                    None => {},
                }
                i = i + 1;
            }
            assert(a@.subrange(0, i as int) =~= a@);
        },
        None => {},
    }
    out
}

/// The devices whose connectivity a retry re-checks: those asked for, else those the backend
/// reset, else every device of the record.
pub open spec fn retry_targets_of(requested: Seq<Seq<char>>, retry_result: Json, provisioning: Json) -> Seq<Seq<char>> {
    if requested.len() > 0 {
        requested
    } else if texts_of(array_at(retry_result, "targetDeviceIds"@)).len() > 0 {
        texts_of(array_at(retry_result, "targetDeviceIds"@))
    } else {
        member_texts_of(array_at(provisioning, "devices"@), "deviceId"@)
    }
}

pub fn retry_target_ids(requested: Vec<String>, retry_result: &Json, provisioning: &Json) -> (r: Vec<String>)
    ensures
        views(r@) == retry_targets_of(views(requested@), *retry_result, *provisioning),
{
    if requested.len() > 0 {
        return requested;
    }
    let from_retry = texts_at(retry_result, "targetDeviceIds");
    if from_retry.len() > 0 {
        return from_retry;
    }
    member_texts_at(provisioning, "devices", "deviceId")
}

/// The employee number of the record's student (`student.deviceStudentId`), or empty.
pub open spec fn record_employee_no_of(provisioning: Json) -> Seq<char> {
    match get_of(provisioning, "student"@) {
        Some(s) => match as_str_of(get_of(s, "deviceStudentId"@)) {
            Some(x) => x,
            None => Seq::empty(),
        },
        None => Seq::empty(),
    }
}

pub fn record_employee_no(provisioning: &Json) -> (r: String)
    ensures
        r@ == record_employee_no_of(*provisioning),
{
    match provisioning.get("student") {
        Some(s) => match get_str(s, "deviceStudentId") {
            Some(x) => x,
            None => String::new(),
        },
        None => String::new(),
    }
}

/// The first link of the record for backend device `id`, from index `i` on.
pub open spec fn link_index(items: Seq<Json>, id: Seq<char>, i: int) -> Option<int>
    decreases items.len() - i,
{
    if i < 0 || i >= items.len() {
        None
    } else if as_str_of(get_of(items[i], "deviceId"@)) == Some(id) {
        Some(i)
    } else {
        link_index(items, id, i + 1)
    }
}

/// The record's link for backend device `id`.
pub fn find_link<'a>(provisioning: &'a Json, id: &str) -> (r: Option<&'a Json>)
    ensures
        match r {
            Some(l) => link_index(array_at(*provisioning, "devices"@), id@, 0) matches Some(k)
                && array_at(*provisioning, "devices"@)[k] == *l,
            None => link_index(array_at(*provisioning, "devices"@), id@, 0) is None,
        },
{
    let a = match array_member(provisioning, "devices") {
        Some(a) => a,
        None => {
            return None;
        },
    };
    let mut i: usize = 0;
    while i < a.len()
        invariant
            get_of(*provisioning, "devices"@) == Some(Json::Array(*a)),
            i <= a@.len(),
            link_index(a@, id@, 0) == link_index(a@, id@, i as int),
        decreases a@.len() - i,
    {
        let found = match get_str(&a[i], "deviceId") {
            Some(x) => same_text(x.as_str(), id),
            None => false,
        };
        if found {
            assert(link_index(a@, id@, i as int) == Some(i as int));
            return Some(&a[i]);
        }
        i = i + 1;
    }
    None
}

/// `link.device[key]` as text.
pub open spec fn link_device_text_of(link: Option<Json>, key: Seq<char>) -> Option<Seq<char>> {
    match link {
        Some(l) => match get_of(l, "device"@) {
            Some(d) => as_str_of(get_of(d, key)),
            None => None,
        },
        None => None,
    }
}

pub fn link_device_text(link: Option<&Json>, key: &str) -> (r: Option<String>)
    ensures
        opt_view(r) == link_device_text_of(match link {
            Some(l) => Some(*l),
            None => None,
        }, key@),
{
    match link {
        Some(l) => match l.get("device") {
            Some(d) => get_str(d, key),
            None => None,
        },
        None => None,
    }
}

/// An optional text as JSON: the text, or `null`.
pub open spec fn text_or_null(t: Option<Seq<char>>, v: Json) -> bool {
    match t {
        Some(s) => v matches Json::Str(x) && x@ == s,
        None => v == Json::Null,
    }
}

fn opt_json(t: Option<String>) -> (r: Json)
    ensures
        text_or_null(opt_view(t), r),
{
    match t {
        Some(s) => Json::Str(s),
        None => Json::Null,
    }
}

fn str_json(t: &str) -> (r: Json)
    ensures
        r matches Json::Str(x) && x@ == t@,
{
    Json::Str(String::from_str(t))
}

/// The body that reports a device's terminal status to the backend.
pub fn device_result_request(
    device_id: Option<String>,
    device_external_id: Option<String>,
    device_name: Option<String>,
    device_location: Option<String>,
    success: bool,
    employee_no: &str,
    error: Option<String>,
) -> (r: Json)
    ensures
        r matches Json::Object(m) && m@.len() == 8 && m@[0].0@ == "deviceId"@ && text_or_null(opt_view(device_id), m@[0].1)
            && m@[1].0@ == "deviceExternalId"@ && text_or_null(opt_view(device_external_id), m@[1].1)
            && m@[2].0@ == "deviceName"@ && text_or_null(opt_view(device_name), m@[2].1)
            && m@[3].0@ == "deviceType"@ && m@[3].1 == Json::Null
            && m@[4].0@ == "deviceLocation"@ && text_or_null(opt_view(device_location), m@[4].1)
            && m@[5].0@ == "status"@ && text_or_null(Some(if success { "SUCCESS"@ } else { "FAILED"@ }), m@[5].1)
            && m@[6].0@ == "employeeNoOnDevice"@ && text_or_null(Some(employee_no@), m@[6].1)
            && m@[7].0@ == "error"@ && text_or_null(opt_view(error), m@[7].1),
{
    let mut m: Vec<(String, Json)> = Vec::new();
    m.push((String::from_str("deviceId"), opt_json(device_id)));
    m.push((String::from_str("deviceExternalId"), opt_json(device_external_id)));
    m.push((String::from_str("deviceName"), opt_json(device_name)));
    m.push((String::from_str("deviceType"), Json::Null));
    m.push((String::from_str("deviceLocation"), opt_json(device_location)));
    m.push((String::from_str("status"), str_json(if success { "SUCCESS" } else { "FAILED" })));
    m.push((String::from_str("employeeNoOnDevice"), str_json(employee_no)));
    m.push((String::from_str("error"), opt_json(error)));
    Json::Object(m)
}

/// The student as the backend provisioning request carries it.
pub struct StudentFields {
    pub name: String,
    pub gender: String,
    pub first_name: Option<String>,
    pub last_name: Option<String>,
    pub father_name: Option<String>,
    pub device_student_id: Option<String>,
    pub class_id: Option<String>,
    pub parent_phone: Option<String>,
    pub face_image_base64: Option<String>,
}

/// `v` is the `student` object of a provisioning request for `s`.
pub open spec fn student_members(v: Json, s: StudentFields) -> bool {
    match v {
        Json::Object(st) => {
            &&& st@.len() == 9
            &&& st@[0].0@ == "name"@ && text_or_null(Some(s.name@), st@[0].1)
            &&& st@[1].0@ == "gender"@ && text_or_null(Some(s.gender@), st@[1].1)
            &&& st@[2].0@ == "firstName"@ && text_or_null(opt_view(s.first_name), st@[2].1)
            &&& st@[3].0@ == "lastName"@ && text_or_null(opt_view(s.last_name), st@[3].1)
            &&& st@[4].0@ == "fatherName"@ && text_or_null(opt_view(s.father_name), st@[4].1)
            &&& st@[5].0@ == "deviceStudentId"@ && text_or_null(opt_view(s.device_student_id), st@[5].1)
            &&& st@[6].0@ == "classId"@ && text_or_null(opt_view(s.class_id), st@[6].1)
            &&& st@[7].0@ == "parentPhone"@ && text_or_null(opt_view(s.parent_phone), st@[7].1)
            &&& st@[8].0@ == "faceImageBase64"@ && text_or_null(opt_view(s.face_image_base64), st@[8].1)
        },
        _ => false,
    }
}

/// The request that starts provisioning. Without an explicit device list every active device
/// is targeted; an explicit list, even an empty one, is sent as given.
pub fn provisioning_request(student: StudentFields, request_id: &str, target_device_ids: Option<Vec<String>>) -> (r: Json)
    ensures
        r matches Json::Object(m) && m@.len() == 4 && m@[0].0@ == "student"@ && m@[1].0@ == "requestId"@
            && text_or_null(Some(request_id@), m@[1].1) && m@[2].0@ == "targetAllActive"@
            && m@[2].1 == Json::Bool(target_device_ids is None) && m@[3].0@ == "targetDeviceIds"@
            && (m@[3].1 matches Json::Array(a) && a@.len() == match target_device_ids {
                Some(ids) => ids@.len(),
                None => 0,
            } && forall|i: int| 0 <= i < a@.len() ==> text_or_null(Some(target_device_ids->0@[i]@), #[trigger] a@[i])),
        r matches Json::Object(m) && m@.len() == 4 && student_members(m@[0].1, student),
{
    let ghost s0 = student;
    let mut st: Vec<(String, Json)> = Vec::new();
    st.push((String::from_str("name"), Json::Str(student.name)));
    st.push((String::from_str("gender"), Json::Str(student.gender)));
    st.push((String::from_str("firstName"), opt_json(student.first_name)));
    st.push((String::from_str("lastName"), opt_json(student.last_name)));
    st.push((String::from_str("fatherName"), opt_json(student.father_name)));
    st.push((String::from_str("deviceStudentId"), opt_json(student.device_student_id)));
    st.push((String::from_str("classId"), opt_json(student.class_id)));
    st.push((String::from_str("parentPhone"), opt_json(student.parent_phone)));
    st.push((String::from_str("faceImageBase64"), opt_json(student.face_image_base64)));
    let all_active = target_device_ids.is_none();
    let mut ids: Vec<Json> = Vec::new();
    match &target_device_ids {
        Some(list) => {
            let mut i: usize = 0;
            while i < list.len()
                invariant
                    target_device_ids == Some(*list),
                    i <= list@.len(),
                    ids@.len() == i,
                    forall|j: int| 0 <= j < i ==> text_or_null(Some(list@[j]@), #[trigger] ids@[j]),
                decreases list@.len() - i,
            {
                ids.push(Json::Str(list[i].clone()));
                i = i + 1;
            }
        },
        None => {},
    }
    let ghost sv = Json::Object(st);
    assert(student_members(sv, s0));
    let mut m: Vec<(String, Json)> = Vec::new();
    m.push((String::from_str("student"), Json::Object(st)));
    m.push((String::from_str("requestId"), str_json(request_id)));
    m.push((String::from_str("targetAllActive"), Json::Bool(all_active)));
    m.push((String::from_str("targetDeviceIds"), Json::Array(ids)));
    Json::Object(m)
}

/// The text `t`, or the default `d`.
pub open spec fn text_or(t: Option<Seq<char>>, d: Seq<char>) -> Seq<char> {
    match t {
        Some(x) => x,
        None => d,
    }
}

/// `out` summarizes the record link `item`: its backend device id, hardware id, name, status,
/// last error and update time.
pub open spec fn summarizes(out: Json, item: Json) -> bool {
    &&& has_keys(out, seq!["backendDeviceId"@, "deviceExternalId"@, "deviceName"@, "status"@, "lastError"@, "updatedAt"@])
    &&& is_text(member_at(out, 0), text_or(as_str_of(get_of(item, "deviceId"@)), Seq::empty()))
    &&& text_or_null(link_device_text_of(Some(item), "deviceId"@), member_at(out, 1))
    &&& is_text(member_at(out, 2), text_or(link_device_text_of(Some(item), "name"@), ""@))
    &&& is_text(member_at(out, 3), text_or(as_str_of(get_of(item, "status"@)), "UNKNOWN"@))
    &&& text_or_null(as_str_of(get_of(item, "lastError"@)), member_at(out, 4))
    &&& text_or_null(as_str_of(get_of(item, "updatedAt"@)), member_at(out, 5))
}

/// The link has a backend device id that is among `targets` (any, where `targets` is empty).
pub open spec fn in_summary(item: Json, targets: Seq<Seq<char>>) -> bool {
    match as_str_of(get_of(item, "deviceId"@)) {
        Some(id) => targets.len() == 0 || targets.contains(id),
        None => false,
    }
}

/// `out` summarizes, in order, the links of `items` that are in the summary.
pub open spec fn summaries(items: Seq<Json>, targets: Seq<Seq<char>>, out: Seq<Json>) -> bool
    decreases items.len(),
{
    if items.len() == 0 {
        out.len() == 0
    } else if in_summary(items.last(), targets) {
        out.len() > 0 && summarizes(out.last(), items.last()) && summaries(items.drop_last(), targets, out.drop_last())
    } else {
        summaries(items.drop_last(), targets, out)
    }
}

fn text_of(t: Option<String>, d: &str) -> (r: Json)
    ensures
        is_text(r, text_or(opt_view(t), d@)),
{
    match t {
        Some(x) => Json::Str(x),
        None => Json::Str(String::from_str(d)),
    }
}

fn contains_text(v: &Vec<String>, x: &str) -> (r: bool)
    ensures
        r == views(v@).contains(x@),
{
    let mut i: usize = 0;
    while i < v.len()
        invariant
            i <= v@.len(),
            forall|j: int| 0 <= j < i ==> (#[trigger] v@[j])@ != x@,
        decreases v@.len() - i,
    {
        if same_text(v[i].as_str(), x) {
            assert(views(v@)[i as int] == x@);
            return true;
        }
        i = i + 1;
    }
    assert forall|j: int| 0 <= j < views(v@).len() implies views(v@)[j] != x@ by {
        assert(views(v@)[j] == v@[j]@);
    }
    false
}

/// The per-device outcome of a provisioning record, for the devices in `targets` (every
/// device, where `targets` is empty).
pub fn per_device_summary(record: &Json, targets: &Vec<String>) -> (r: Vec<Json>)
    ensures
        summaries(array_at(*record, "devices"@), views(targets@), r@),
{
    let mut out: Vec<Json> = Vec::new();
    let ghost ts = views(targets@);
    match array_member(record, "devices") {
        Some(a) => {
            let mut i: usize = 0;
            assert(a@.subrange(0, 0) =~= Seq::<Json>::empty());
            while i < a.len()
                invariant
                    get_of(*record, "devices"@) == Some(Json::Array(*a)),
                    ts == views(targets@),
                    i <= a@.len(),
                    summaries(a@.subrange(0, i as int), ts, out@),
                decreases a@.len() - i,
            {
                let ghost pre = a@.subrange(0, i + 1);
                assert(pre.drop_last() =~= a@.subrange(0, i as int));
                let item = &a[i];
                let ghost before = out@;
                match get_str(item, "deviceId") {
                    Some(id) => {
                        if targets.len() == 0 || contains_text(targets, id.as_str()) {
                            let mut m: Vec<(String, Json)> = Vec::new();
                            m.push((String::from_str("backendDeviceId"), Json::Str(id)));
                            m.push((String::from_str("deviceExternalId"), opt_json(link_device_text(Some(item), "deviceId"))));
                            m.push((String::from_str("deviceName"), text_of(link_device_text(Some(item), "name"), "")));
                            m.push((String::from_str("status"), text_of(get_str(item, "status"), "UNKNOWN")));
                            m.push((String::from_str("lastError"), opt_json(get_str(item, "lastError"))));
                            m.push((String::from_str("updatedAt"), opt_json(get_str(item, "updatedAt"))));
                            out.push(Json::Object(m));
                            assert(out@.drop_last() =~= before);
                            assert(ts.len() == targets@.len());
                            assert(in_summary(*item, ts));
                            assert(summarizes(out@.last(), *item));
                        } else {
                            assert(ts.len() == targets@.len());
                            assert(!in_summary(*item, ts));
                        }
                    },
                    None => {
                        assert(!in_summary(*item, ts));
                    },
                }
                assert(pre.last() == *item);
                i = i + 1;
            }
            assert(a@.subrange(0, i as int) =~= a@);
        },
        None => {},
    }
    out
}

} // verus!

