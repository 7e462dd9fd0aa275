//! Decisions behind the operator's commands: cloning rosters, checking a student, device
//! configuration, and the local device list.
use vstd::prelude::*;

use crate::devices::{dedupe_key_of, has_text};
use crate::model::{DeviceActionResult, DeviceConfig, DeviceConnectionResult, UserInfoEntry};
use crate::text::{
    chars_of, contains, contains_str, decimal, decimal_string, is_ascii_digit, lower_of,
    lowercase, opt_view, same_text, starts_with, starts_with_str, trim, trim_ws,
};
use crate::webhook::signed_decimal;

verus! {

pub open spec fn in_words(g: Seq<char>, words: Seq<Seq<char>>) -> bool {
    exists|i: int| 0 <= i < words.len() && words[i] == g
}

/// A device's gender text read as `female` or `male` (the default).
pub open spec fn gender_of(raw: Option<Seq<char>>) -> Seq<char> {
    gender_lowered(lower_of(trim_ws(match raw {
        Some(r) => r,
        None => "male"@,
    })))
}

/// The gender named by a trimmed, lowercase text.
pub open spec fn gender_lowered(g: Seq<char>) -> Seq<char> {
    if in_words(g, seq!["female"@, "f"@, "ayol"@, "2"@]) {
        "female"@
    } else if in_words(g, seq!["male"@, "m"@, "erkak"@, "1"@, "ma"@, "male "@]) {
        "male"@
    } else if in_words(g, seq!["fa"@, "female "@]) || contains(g, "female"@) {
        "female"@
    } else {
        "male"@
    }
}

fn one_of(g: &str, words: &Vec<&str>) -> (r: bool)
    ensures
        r == exists|i: int| 0 <= i < words@.len() && (#[trigger] words@[i])@ == g@,
{
    let mut i: usize = 0;
    while i < words.len()
        invariant
            i <= words@.len(),
            forall|j: int| 0 <= j < i ==> (#[trigger] words@[j])@ != g@,
        decreases words@.len() - i,
    {
        if same_text(words[i], g) {
            return true;
        }
        i = i + 1;
    }
    false
}

pub fn normalize_gender(raw: &Option<String>) -> (r: &'static str)
    ensures
        r@ == gender_of(opt_view(*raw)),
{
    let base = match raw {
        Some(r) => r.clone(),
        None => String::from_str("male"),
    };
    let g = lowercase(trim(base.as_str()));
    gender_from_lowered(g.as_str())
}

/// The gender named by a trimmed, lowercase text: `female` or `male`.
pub fn gender_from_lowered(gs: &str) -> (r: &'static str)
    ensures
        r@ == gender_lowered(gs@),
{
    let mut female: Vec<&str> = Vec::new();
    female.push("female");
    female.push("f");
    female.push("ayol");
    female.push("2");
    let mut male: Vec<&str> = Vec::new();
    male.push("male");
    male.push("m");
    male.push("erkak");
    male.push("1");
    male.push("ma");
    male.push("male ");
    let mut other: Vec<&str> = Vec::new();
    other.push("fa");
    other.push("female ");
    let ghost fw = seq!["female"@, "f"@, "ayol"@, "2"@];
    let ghost mw = seq!["male"@, "m"@, "erkak"@, "1"@, "ma"@, "male "@];
    let ghost ow = seq!["fa"@, "female "@];
    assert(female@.map_values(|w: &str| w@) =~= fw);
    assert(male@.map_values(|w: &str| w@) =~= mw);
    assert(other@.map_values(|w: &str| w@) =~= ow);
    let is_f = one_of(gs, &female);
    let is_m = one_of(gs, &male);
    let is_o = one_of(gs, &other);
    proof {
        assert(is_f == in_words(gs@, fw)) by {
            if is_f {
                let i = choose|i: int| 0 <= i < female@.len() && (#[trigger] female@[i])@ == gs@;
                assert(fw[i] == female@[i]@);
            }
            if in_words(gs@, fw) {
                let i = choose|i: int| 0 <= i < fw.len() && fw[i] == gs@;
                assert(fw[i] == female@[i]@);
            }
        }
        assert(is_m == in_words(gs@, mw)) by {
            if is_m {
                let i = choose|i: int| 0 <= i < male@.len() && (#[trigger] male@[i])@ == gs@;
                assert(mw[i] == male@[i]@);
            }
            if in_words(gs@, mw) {
                let i = choose|i: int| 0 <= i < mw.len() && mw[i] == gs@;
                assert(mw[i] == male@[i]@);
            }
        }
        assert(is_o == in_words(gs@, ow)) by {
            if is_o {
                let i = choose|i: int| 0 <= i < other@.len() && (#[trigger] other@[i])@ == gs@;
                assert(ow[i] == other@[i]@);
            }
            if in_words(gs@, ow) {
                let i = choose|i: int| 0 <= i < ow.len() && ow[i] == gs@;
                assert(ow[i] == other@[i]@);
            }
        }
    }
    if is_f {
        "female"
    } else if is_m {
        "male"
    } else if is_o || contains_str(gs, "female") {
        "female"
    } else {
        "male"
    }
}

/// A refusal that means the user is already on the device.
pub open spec fn already_exists_of(reason: Seq<char>) -> bool {
    already_exists_lowered(lower_of(reason))
}

/// The test for an existing user on the lowercase form `l` of a refusal.
pub open spec fn already_exists_lowered(l: Seq<char>) -> bool {
    contains(l, "already exist"@) || contains(l, "duplicate"@) || contains(l, "exist"@) || contains(
        l,
        "already"@,
    )
}

pub fn is_already_exists(reason: &str) -> (r: bool)
    ensures
        r == already_exists_of(reason@),
{
    let l = lowercase(reason);
    already_exists_in_lowered(l.as_str())
}

/// Whether the lowercase form of a refusal says the user exists already.
pub fn already_exists_in_lowered(s: &str) -> (r: bool)
    ensures
        r == already_exists_lowered(s@),
{
    contains_str(s, "already exist") || contains_str(s, "duplicate") || contains_str(s, "exist")
        || contains_str(s, "already")
}

/// Where a student photo is fetched: absolute URLs as given, else relative to the backend.
pub open spec fn photo_url_of(backend_url: Seq<char>, photo_url: Seq<char>) -> Seq<char> {
    if starts_with(photo_url, "http://"@) || starts_with(photo_url, "https://"@) {
        photo_url
    } else {
        backend_url + photo_url
    }
}

pub fn photo_full_url(backend_url: &str, photo_url: &str) -> (r: String)
    ensures
        r@ == photo_url_of(backend_url@, photo_url@),
{
    if starts_with_str(photo_url, "http://") || starts_with_str(photo_url, "https://") {
        return String::from_str(photo_url);
    }
    let mut s = String::from_str(backend_url);
    s.append(photo_url);
    s
}

/// Whether a student is on a device: `EXPIRED` credentials, device `OFFLINE`, or `PRESENT` /
/// `ABSENT`.
pub fn presence_status(expired: bool, reachable: bool, present: bool) -> (r: &'static str)
    ensures
        r@ == if expired {
            "EXPIRED"@
        } else if !reachable {
            "OFFLINE"@
        } else if present {
            "PRESENT"@
        } else {
            "ABSENT"@
        },
{
    if expired {
        "EXPIRED"
    } else if !reachable {
        "OFFLINE"
    } else if present {
        "PRESENT"
    } else {
        "ABSENT"
    }
}

/// The configuration endpoint of a configuration kind that may be written.
pub fn config_path(config_type: &str) -> (r: Option<&'static str>)
    ensures
        match r {
            Some(p) => (config_type@ == "time"@ && p@ == "ISAPI/System/time?format=json"@) || (
            config_type@ == "ntpServers"@ && p@ == "ISAPI/System/Network/ntpServers?format=json"@)
                || (config_type@ == "networkInterfaces"@ && p@
                == "ISAPI/System/Network/interfaces?format=json"@),
            None => config_type@ != "time"@ && config_type@ != "ntpServers"@ && config_type@
                != "networkInterfaces"@,
        },
{
    if same_text(config_type, "time") {
        Some("ISAPI/System/time?format=json")
    } else if same_text(config_type, "ntpServers") {
        Some("ISAPI/System/Network/ntpServers?format=json")
    } else if same_text(config_type, "networkInterfaces") {
        Some("ISAPI/System/Network/interfaces?format=json")
    } else {
        None
    }
}

/// The value of a decimal numeral.
pub open spec fn numeral_value(s: Seq<char>) -> nat
    decreases s.len(),
{
    if s.len() == 0 {
        0
    } else {
        (numeral_value(s.drop_last()) * 10 + ((s.last() as u32) as int - 48)) as nat
    }
}

/// `s` without one leading `+`.
pub open spec fn unsigned_part(s: Seq<char>) -> Seq<char> {
    if s.len() > 0 && s[0] == '+' {
        s.drop_first()
    } else {
        s
    }
}

pub open spec fn all_digits(d: Seq<char>) -> bool {
    forall|i: int| 0 <= i < d.len() ==> is_ascii_digit(#[trigger] d[i])
}

/// The decimal numeral `s` as a `usize`: `None` where it is empty, holds a non-digit (an
/// optional leading `+` aside), or does not fit.
pub open spec fn parsed_usize(s: Seq<char>) -> Option<usize> {
    let d = unsigned_part(s);
    if d.len() > 0 && all_digits(d) && numeral_value(d) <= usize::MAX {
        Some(numeral_value(d) as usize)
    } else {
        None
    }
}

/// Reads a decimal numeral (`str::parse::<usize>`).
pub fn parse_usize(s: &str) -> (r: Option<usize>)
    ensures
        r == parsed_usize(s@),
{
    let cs = chars_of(s);
    let mut start: usize = 0;
    if cs.len() > 0 && cs[0] == '+' {
        start = 1;
    }
    let ghost d = unsigned_part(s@);
    assert(d =~= s@.subrange(start as int, s@.len() as int));
    if start >= cs.len() {
        return None;
    }
    let mut value: usize = 0;
    let mut i: usize = start;
    assert(s@.subrange(start as int, start as int) =~= Seq::<char>::empty());
    while i < cs.len()
        invariant
            cs@ == s@,
            start <= i <= cs@.len(),
            d == s@.subrange(start as int, s@.len() as int),
            d == unsigned_part(s@),
            value as nat == numeral_value(s@.subrange(start as int, i as int)),
            forall|j: int| start <= j < i ==> is_ascii_digit(#[trigger] s@[j]),
        decreases cs@.len() - i,
    {
        let c = cs[i];
        let ghost pre = s@.subrange(start as int, i + 1);
        assert(pre.drop_last() =~= s@.subrange(start as int, i as int));
        if !('0' <= c && c <= '9') {
            assert(d[i - start] == c);
            assert(!is_ascii_digit(d[i - start]));
            assert(!all_digits(d));
            return None;
        }
        let digit = (c as u32 - '0' as u32) as usize;
        if value > (usize::MAX - digit) / 10 {
            proof {
                assert(numeral_value(pre) == value * 10 + digit);
                assert(value * 10 + digit > usize::MAX) by (nonlinear_arith)
                    requires
                        value > (usize::MAX - digit) / 10,
                        digit <= 9,
                ;
                if all_digits(d) {
                    lemma_numeral_grows(d, i - start + 1);
                    assert(d.subrange(0, i - start + 1) =~= pre);
                    assert(numeral_value(d) > usize::MAX);
                }
            }
            return None;
        }
        value = value * 10 + digit;
        i = i + 1;
    }
    assert(s@.subrange(start as int, i as int) =~= d);
    Some(value)
}

proof fn lemma_numeral_grows(d: Seq<char>, k: int)
    requires
        0 <= k <= d.len(),
        all_digits(d),
    ensures
        numeral_value(d.subrange(0, k)) <= numeral_value(d),
    decreases d.len() - k,
{
    if k < d.len() {
        lemma_numeral_grows(d, k + 1);
        assert(d.subrange(0, k + 1).drop_last() =~= d.subrange(0, k));
    } else {
        assert(d.subrange(0, k) =~= d);
    }
}

/// The configured device limit: a positive number, else 10.
pub fn device_limit(raw: &Option<String>) -> (r: usize)
    ensures
        r == match *raw {
            Some(v) => match parsed_usize(trim_ws(v@)) {
                Some(n) if n > 0 => n,
                _ => 10,
            },
            None => 10,
        },
{
    match raw {
        Some(v) => match parse_usize(trim(v.as_str())) {
            Some(n) => if n > 0 {
                n
            } else {
                10
            },
            None => 10,
        },
        None => 10,
    }
}

/// A local date and time, as devices take it.
pub struct DeviceTime {
    pub year: i32,
    pub month: u32,
    pub day: u32,
    pub hour: u32,
    pub minute: u32,
    pub second: u32,
}

/// At least two digits.
pub open spec fn two_digits(n: nat) -> Seq<char> {
    if n < 10 {
        "0"@ + decimal(n)
    } else {
        decimal(n)
    }
}

fn two_digit_string(n: u32) -> (r: String)
    ensures
        r@ == two_digits(n as nat),
{
    let d = decimal_string(n as u64);
    if n < 10 {
        let mut s = String::from_str("0");
        s.append(d.as_str());
        s
    } else {
        d
    }
}

/// `YYYY-MM-DDTHH:MM:SS`.
pub open spec fn device_time_of(t: DeviceTime) -> Seq<char> {
    signed_decimal(t.year as int) + "-"@ + two_digits(t.month as nat) + "-"@ + two_digits(
        t.day as nat,
    ) + "T"@ + two_digits(t.hour as nat) + ":"@ + two_digits(t.minute as nat) + ":"@ + two_digits(
        t.second as nat,
    )
}

pub fn to_device_time(t: &DeviceTime) -> (r: String)
    ensures
        r@ == device_time_of(*t),
{
    let mut s = crate::webhook::signed_year(t.year);
    s.append("-");
    let a = two_digit_string(t.month);
    s.append(a.as_str());
    s.append("-");
    let b = two_digit_string(t.day);
    s.append(b.as_str());
    s.append("T");
    let c = two_digit_string(t.hour);
    s.append(c.as_str());
    s.append(":");
    let d = two_digit_string(t.minute);
    s.append(d.as_str());
    s.append(":");
    let e = two_digit_string(t.second);
    s.append(e.as_str());
    s
}

/// Where the face for a recreated user comes from.
pub enum FacePlan {
    /// The image the operator gave.
    Provided(String),
    /// The image the device holds for the existing user.
    FromDevice,
}

/// A recreated user needs a reachable device.
pub fn recreate_connection(c: &DeviceConnectionResult) -> (r: Result<(), String>)
    ensures
        r is Ok <==> c.ok,
        r matches Err(e) ==> e@ == match c.message {
            Some(m) => m@,
            None => "Device offline"@,
        },
{
    if c.ok {
        Ok(())
    } else {
        match &c.message {
            Some(m) => Err(m.clone()),
            None => Err(String::from_str("Device offline")),
        }
    }
}

/// The face of a recreated user: reused from the device when asked and none is given, else the
/// given one; without either, nothing can be done.
pub fn recreate_face_plan(reuse_existing: bool, provided: Option<String>) -> (r: Result<FacePlan, String>)
    ensures
        reuse_existing && provided is None ==> r matches Ok(FacePlan::FromDevice),
        !(reuse_existing && provided is None) && provided is Some ==> (r matches Ok(FacePlan::Provided(x)) && x == provided->0),
        !reuse_existing && provided is None ==> (r matches Err(e) && e@ == "Face image is required"@),
{
    if reuse_existing && provided.is_none() {
        return Ok(FacePlan::FromDevice);
    }
    match provided {
        Some(b) => Ok(FacePlan::Provided(b)),
        None => Err(String::from_str("Face image is required")),
    }
}

/// The face URL of the existing user whose face is reused.
pub fn existing_face_url(user: Option<UserInfoEntry>) -> (r: Result<String, String>)
    ensures
        match user {
            None => r matches Err(e) && e@ == "User not found on device"@,
            Some(u) => match u.face_url {
                Some(f) => r == Ok::<String, String>(f),
                None => r matches Err(e) && e@ == "Existing user has no face to reuse"@,
            },
        },
{
    match user {
        None => Err(String::from_str("User not found on device")),
        Some(u) => match u.face_url {
            Some(f) => Ok(f),
            None => Err(String::from_str("Existing user has no face to reuse")),
        },
    }
}

/// A step of recreating that must succeed: `<what>: <error>` where it did not.
pub fn recreate_step_ok(res: &DeviceActionResult, what: &str) -> (r: Result<(), String>)
    ensures
        r is Ok <==> res.ok,
        r matches Err(e) ==> e@ == what@ + ": "@ + match res.error_msg {
            Some(m) => m@,
            None => Seq::empty(),
        },
{
    if res.ok {
        return Ok(());
    }
    let mut e = String::from_str(what);
    e.append(": ");
    match &res.error_msg {
        Some(m) => e.append(m.as_str()),
        None => {},
    }
    Err(e)
}

} // verus!

