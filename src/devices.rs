//! Locally configured devices: how they are named, found and deduplicated.
use vstd::prelude::*;

use crate::model::DeviceConfig;
use crate::text::{
    decimal, decimal_string, lower_of, lowercase, opt_view, same_text, trim, trim_ws,
};

verus! {

/// `o` holds text that is not all whitespace.
pub open spec fn has_text(o: Option<String>) -> bool {
    match o {
        Some(s) => trim_ws(s@).len() > 0,
        None => false,
    }
}

fn has_text_exec(o: &Option<String>) -> (r: bool)
    ensures
        r == has_text(*o),
{
    match o {
        Some(s) => trim(s.as_str()).unicode_len() > 0,
        None => false,
    }
}

/// `host:port`.
pub open spec fn endpoint_of(d: DeviceConfig) -> Seq<char> {
    d.host@ + ":"@ + decimal(d.port as nat)
}

fn endpoint(d: &DeviceConfig) -> (r: String)
    ensures
        r@ == endpoint_of(*d),
{
    let mut s = d.host.clone();
    s.append(":");
    let p = decimal_string(d.port as u64);
    s.append(p.as_str());
    s
}

/// How a device is named to the operator: by its backend id, else by its endpoint.
pub open spec fn label_of(d: DeviceConfig) -> Seq<char> {
    if has_text(d.backend_id) {
        "Backend "@ + d.backend_id->0@
    } else {
        endpoint_of(d)
    }
}

pub fn device_label(device: &DeviceConfig) -> (r: String)
    ensures
        r@ == label_of(*device),
{
    if has_text_exec(&device.backend_id) {
        let mut s = String::from_str("Backend ");
        match &device.backend_id {
            Some(b) => s.append(b.as_str()),
            None => {},
        }
        return s;
    }
    endpoint(device)
}

/// How a device is named in summaries: backend id, else hardware id, else endpoint.
pub open spec fn match_label_of(d: DeviceConfig) -> Seq<char> {
    if has_text(d.backend_id) {
        d.backend_id->0@
    } else if has_text(d.device_id) {
        d.device_id->0@
    } else {
        endpoint_of(d)
    }
}

pub fn device_match_label(device: &DeviceConfig) -> (r: String)
    ensures
        r@ == match_label_of(*device),
{
    if has_text_exec(&device.backend_id) {
        match &device.backend_id {
            Some(b) => return b.clone(),
            None => {},
        }
    }
    if has_text_exec(&device.device_id) {
        match &device.device_id {
            Some(b) => return b.clone(),
            None => {},
        }
    }
    endpoint(device)
}

/// The first index from `i` on of a device whose backend id is `bid`.
pub open spec fn index_by_backend(ds: Seq<DeviceConfig>, bid: Seq<char>, i: int) -> Option<int>
    decreases ds.len() - i,
{
    if i < 0 || i >= ds.len() {
        None
    } else if opt_view(ds[i].backend_id) == Some(bid) {
        Some(i)
    } else {
        index_by_backend(ds, bid, i + 1)
    }
}

proof fn lemma_index_by_backend_bound(ds: Seq<DeviceConfig>, bid: Seq<char>, i: int)
    ensures
        index_by_backend(ds, bid, i) matches Some(k) ==> i <= k < ds.len(),
    decreases ds.len() - i,
{
    if 0 <= i < ds.len() && opt_view(ds[i].backend_id) != Some(bid) {
        lemma_index_by_backend_bound(ds, bid, i + 1);
    }
}

proof fn lemma_index_by_hardware_bound(ds: Seq<DeviceConfig>, ext: Seq<char>, i: int)
    ensures
        index_by_hardware(ds, ext, i) matches Some(k) ==> i <= k < ds.len(),
    decreases ds.len() - i,
{
    if 0 <= i < ds.len() && opt_view(ds[i].device_id) != Some(ext) {
        lemma_index_by_hardware_bound(ds, ext, i + 1);
    }
}

/// A local index is an index of the list.
pub proof fn lemma_local_index_bound(ds: Seq<DeviceConfig>, bid: Seq<char>, ext: Option<Seq<char>>)
    ensures
        local_index(ds, bid, ext) matches Some(k) ==> 0 <= k < ds.len(),
{
    lemma_index_by_backend_bound(ds, bid, 0);
    if let Some(e) = ext {
        lemma_index_by_hardware_bound(ds, e, 0);
    }
}

/// The first index from `i` on of a device whose hardware id is `ext`.
pub open spec fn index_by_hardware(ds: Seq<DeviceConfig>, ext: Seq<char>, i: int) -> Option<int>
    decreases ds.len() - i,
{
    if i < 0 || i >= ds.len() {
        None
    } else if opt_view(ds[i].device_id) == Some(ext) {
        Some(i)
    } else {
        index_by_hardware(ds, ext, i + 1)
    }
}

/// The local device for a backend device: matched by backend id, else by hardware id.
pub open spec fn local_index(ds: Seq<DeviceConfig>, bid: Seq<char>, ext: Option<Seq<char>>) -> Option<int> {
    match index_by_backend(ds, bid, 0) {
        Some(i) => Some(i),
        None => match ext {
            Some(e) => index_by_hardware(ds, e, 0),
            None => None,
        },
    }
}

fn opt_text_is(o: &Option<String>, t: &str) -> (r: bool)
    ensures
        r == (opt_view(*o) == Some(t@)),
{
    match o {
        Some(s) => same_text(s.as_str(), t),
        None => false,
    }
}

pub fn find_local_device_index(
    devices: &[DeviceConfig],
    backend_device_id: &str,
    external_device_id: Option<&str>,
) -> (r: Option<usize>)
    ensures
        match r {
            Some(i) => local_index(devices@, backend_device_id@, match external_device_id {
                Some(e) => Some(e@),
                None => None,
            }) == Some(i as int),
            None => local_index(devices@, backend_device_id@, match external_device_id {
                Some(e) => Some(e@),
                None => None,
            }) is None,
        },
{
    let n = devices.len();
    let mut i: usize = 0;
    while i < n
        invariant
            n == devices@.len(),
            i <= n,
            index_by_backend(devices@, backend_device_id@, 0) == index_by_backend(
                devices@,
                backend_device_id@,
                i as int,
            ),
        decreases n - i,
    {
        if opt_text_is(&devices[i].backend_id, backend_device_id) {
            return Some(i);
        }
        i = i + 1;
    }
    match external_device_id {
        None => None,
        Some(ext) => {
            let mut k: usize = 0;
            while k < n
                invariant
                    n == devices@.len(),
                    k <= n,
                    external_device_id == Some(ext),
                    index_by_backend(devices@, backend_device_id@, 0) is None,
                    index_by_hardware(devices@, ext@, 0) == index_by_hardware(
                        devices@,
                        ext@,
                        k as int,
                    ),
                decreases n - k,
            {
                if opt_text_is(&devices[k].device_id, ext) {
                    assert(index_by_hardware(devices@, ext@, k as int) == Some(k as int));
                    return Some(k);
                }
                k = k + 1;
            }
            None
        },
    }
}

/// The first index from `i` on of the device with local id `id`.
pub open spec fn index_by_id(ds: Seq<DeviceConfig>, id: Seq<char>, i: int) -> Option<int>
    decreases ds.len() - i,
{
    if i < 0 || i >= ds.len() {
        None
    } else if ds[i].id@ == id {
        Some(i)
    } else {
        index_by_id(ds, id, i + 1)
    }
}

/// The device with local id `device_id`, the first such where several share it.
pub fn get_device_by_id(devices: &[DeviceConfig], device_id: &str) -> (r: Option<DeviceConfig>)
    ensures
        match index_by_id(devices@, device_id@, 0) {
            Some(i) => r == Some(devices@[i]),
            None => r is None,
        },
{
    let n = devices.len();
    let mut i: usize = 0;
    while i < n
        invariant
            n == devices@.len(),
            i <= n,
            index_by_id(devices@, device_id@, 0) == index_by_id(devices@, device_id@, i as int),
        decreases n - i,
    {
        if same_text(devices[i].id.as_str(), device_id) {
            return Some(devices[i].duplicate());
        }
        i = i + 1;
    }
    None
}

/// Trimmed and lowercased.
pub open spec fn normalized(v: Seq<char>) -> Seq<char> {
    lower_of(trim_ws(v))
}

fn normalize(value: &str) -> (r: String)
    ensures
        r@ == normalized(value@),
{
    lowercase(trim(value))
}

/// The identity under which stored devices are merged: backend id, else hardware id, else
/// endpoint and user name, compared without case or surrounding whitespace.
pub open spec fn dedupe_key_of(d: DeviceConfig) -> Seq<char> {
    if has_text(d.backend_id) {
        "backend:"@ + normalized(d.backend_id->0@)
    } else if has_text(d.device_id) {
        "device:"@ + normalized(d.device_id->0@)
    } else {
        "endpoint:"@ + normalized(d.host@) + ":"@ + decimal(d.port as nat) + ":"@ + normalized(
            d.username@,
        )
    }
}

pub fn dedupe_key(device: &DeviceConfig) -> (r: String)
    ensures
        r@ == dedupe_key_of(*device),
{
    if has_text_exec(&device.backend_id) {
        let mut s = String::from_str("backend:");
        match &device.backend_id {
            Some(b) => {
                let n = normalize(b.as_str());
                s.append(n.as_str());
            },
            None => {},
        }
        return s;
    }
    if has_text_exec(&device.device_id) {
        let mut s = String::from_str("device:");
        match &device.device_id {
            Some(b) => {
                let n = normalize(b.as_str());
                s.append(n.as_str());
            },
            None => {},
        }
        return s;
    }
    let mut s = String::from_str("endpoint:");
    let h = normalize(device.host.as_str());
    s.append(h.as_str());
    s.append(":");
    let p = decimal_string(device.port as u64);
    s.append(p.as_str());
    s.append(":");
    let u = normalize(device.username.as_str());
    s.append(u.as_str());
    s
}

/// The first index from `j` on of a device in `ds` with dedupe key `k`.
pub open spec fn key_index(ds: Seq<DeviceConfig>, k: Seq<char>, j: int) -> Option<int>
    decreases ds.len() - j,
{
    if j < 0 || j >= ds.len() {
        None
    } else if dedupe_key_of(ds[j]) == k {
        Some(j)
    } else {
        key_index(ds, k, j + 1)
    }
}

/// The stored list after merging: one device per dedupe key, at the place where the key first
/// appeared, holding the fields of the last device with that key.
pub open spec fn deduped(ds: Seq<DeviceConfig>) -> Seq<DeviceConfig>
    decreases ds.len(),
{
    if ds.len() == 0 {
        seq![]
    } else {
        let prev = deduped(ds.drop_last());
        let d = ds.last();
        match key_index(prev, dedupe_key_of(d), 0) {
            Some(j) => prev.update(j, d),
            None => prev.push(d),
        }
    }
}

pub fn dedupe_devices(devices: Vec<DeviceConfig>) -> (r: Vec<DeviceConfig>)
    ensures
        r@ == deduped(devices@),
{
    let n = devices.len();
    let mut out: Vec<DeviceConfig> = Vec::new();
    let mut keys: Vec<String> = Vec::new();
    let mut i: usize = 0;
    assert(devices@.subrange(0, 0) =~= Seq::<DeviceConfig>::empty());
    while i < n
        invariant
            n == devices@.len(),
            i <= n,
            out@ == deduped(devices@.subrange(0, i as int)),
            keys@.len() == out@.len(),
            forall|j: int| 0 <= j < keys@.len() ==> #[trigger] keys@[j]@ == dedupe_key_of(out@[j]),
        decreases n - i,
    {
        let d = devices[i].duplicate();
        let key = dedupe_key(&d);
        proof {
            let s = devices@.subrange(0, i + 1);
            assert(s.drop_last() =~= devices@.subrange(0, i as int));
            assert(s.last() == devices@[i as int]);
        }
        let m = keys.len();
        let mut j: usize = 0;
        while j < m && !same_text(keys[j].as_str(), key.as_str())
            invariant
                m == keys@.len(),
                j <= m,
                keys@.len() == out@.len(),
                forall|t: int| 0 <= t < keys@.len() ==> #[trigger] keys@[t]@ == dedupe_key_of(out@[t]),
                key_index(out@, key@, 0) == key_index(out@, key@, j as int),
            decreases m - j,
        {
            j = j + 1;
        }
        if j < m {
            out.set(j, d);
            proof {
                assert forall|t: int| 0 <= t < keys@.len() implies #[trigger] keys@[t]@ == dedupe_key_of(out@[t]) by {
                    if t == j {
                        assert(keys@[t]@ == key@);
                    }
                }
            }
        } else {
            let ghost keys_before = keys@;
            out.push(d);
            keys.push(key);
            proof {
                assert forall|t: int| 0 <= t < keys@.len() implies #[trigger] keys@[t]@ == dedupe_key_of(out@[t]) by {
                    if t < m {
                        assert(keys@[t] == keys_before[t]);
                    }
                }
            }
        }
        i = i + 1;
    }
    assert(devices@.subrange(0, n as int) =~= devices@);
    out
}

/// Two stored records with the same non-empty backend id collapse into one record, which
/// holds the fields of the later.
pub proof fn lemma_same_backend_id_collapses(a: DeviceConfig, b: DeviceConfig)
    requires
        a.backend_id is Some,
        b.backend_id is Some,
        a.backend_id->0@ == b.backend_id->0@,
        trim_ws(a.backend_id->0@).len() > 0,
    ensures
        deduped(seq![a, b]) == seq![b],
{
    let s = seq![a, b];
    assert(s.drop_last() =~= seq![a]);
    assert(seq![a].drop_last() =~= Seq::<DeviceConfig>::empty());
    let e = Seq::<DeviceConfig>::empty();
    assert(deduped(e) == e);
    assert(key_index(e, dedupe_key_of(a), 0) is None);
    assert(e.push(a) =~= seq![a]);
    let prev = deduped(seq![a]);
    assert(prev =~= seq![a]);
    assert(dedupe_key_of(a) == dedupe_key_of(b));
    assert(key_index(prev, dedupe_key_of(b), 0) == Some(0int));
    assert(prev.update(0, b) =~= seq![b]);
}

} // verus!

verus! {

/// A point in time: seconds since the Unix epoch and the nanoseconds into that second.
pub type Instant = (i64, u32);

/// `a` is earlier than `b`.
pub open spec fn earlier(a: Instant, b: Instant) -> bool {
    a.0 < b.0 || (a.0 == b.0 && a.1 < b.1)
}

/// The instant an RFC 3339 timestamp denotes, where it parses.
pub uninterp spec fn rfc3339_instant_of(s: Seq<char>) -> Option<Instant>;

/// Relies on `chrono::DateTime::parse_from_rfc3339`, `timestamp` and
/// `timestamp_subsec_nanos`: the instant depends on the text alone.
#[verifier::external_body]
fn parse_rfc3339(s: &str) -> (r: Option<Instant>)
    ensures
        r == rfc3339_instant_of(s@),
{
    match chrono::DateTime::parse_from_rfc3339(s) {
        Ok(t) => Some((t.timestamp(), t.timestamp_subsec_nanos())),
        Err(_) => None,
    }
}

/// Relies on `chrono::Utc::now`: the current time. Nothing is promised of it.
#[verifier::external_body]
fn current_instant() -> (r: Instant) {
    let t = chrono::Utc::now();
    (t.timestamp(), t.timestamp_subsec_nanos())
}

/// The device's credentials have a parseable expiry that lies before `now`.
pub open spec fn expired_at(d: DeviceConfig, now: Instant) -> bool {
    match d.credentials_expires_at {
        Some(e) => match rfc3339_instant_of(e@) {
            Some(t) => earlier(t, now),
            None => false,
        },
        None => false,
    }
}

pub fn credentials_expired_at(device: &DeviceConfig, now: Instant) -> (r: bool)
    ensures
        r == expired_at(*device, now),
{
    match &device.credentials_expires_at {
        Some(e) => match parse_rfc3339(e.as_str()) {
            Some(t) => t.0 < now.0 || (t.0 == now.0 && t.1 < now.1),
            None => false,
        },
        None => false,
    }
}

/// Whether the device's credentials have expired by the current time.
pub fn is_credentials_expired(device: &DeviceConfig) -> (r: bool)
    ensures
        exists|now: Instant| r == expired_at(*device, now),
{
    let now = current_instant();
    credentials_expired_at(device, now)
}

} // verus!

verus! {

/// What the operator enters for a device.
pub struct DeviceInput {
    pub backend_id: Option<String>,
    pub host: String,
    pub port: u16,
    pub username: String,
    pub password: String,
    pub device_id: Option<String>,
}

/// When credentials were entered, and until when they hold (RFC 3339 texts).
pub struct CredentialStamp {
    pub updated_at: String,
    pub expires_at: String,
}

/// The backend id as entered: trimmed, and absent where blank.
pub open spec fn entered_backend_id(b: Option<String>) -> Option<Seq<char>> {
    match b {
        Some(x) => if trim_ws(x@).len() > 0 {
            Some(trim_ws(x@))
        } else {
            None
        },
        None => None,
    }
}

/// `d` holds what was entered, with fresh credential stamps.
pub open spec fn holds_input(d: DeviceConfig, input: DeviceInput, stamp: CredentialStamp) -> bool {
    &&& d.host@ == trim_ws(input.host@)
    &&& d.port == input.port
    &&& d.username@ == trim_ws(input.username@)
    &&& d.password == input.password
    &&& opt_view(d.credentials_updated_at) == Some(stamp.updated_at@)
    &&& opt_view(d.credentials_expires_at) == Some(stamp.expires_at@)
}

/// Adds a device, or, where one with the same backend id exists, updates that one. A new
/// device beyond `max_devices` is refused.
pub fn register_device(
    devices: &mut Vec<DeviceConfig>,
    input: DeviceInput,
    new_id: String,
    stamp: CredentialStamp,
    max_devices: usize,
) -> (r: Result<DeviceConfig, String>)
    ensures
        ({
            let b = entered_backend_id(input.backend_id);
            match b {
                Some(bid) if index_by_backend(old(devices)@, bid, 0) is Some => {
                    let i = index_by_backend(old(devices)@, bid, 0)->0;
                    &&& r matches Ok(d) && final(devices)@ == old(devices)@.update(i, d)
                    &&& holds_input(r->Ok_0, input, stamp)
                    &&& r->Ok_0.id == old(devices)@[i].id
                    &&& r->Ok_0.backend_id == old(devices)@[i].backend_id
                    &&& r->Ok_0.device_id == input.device_id
                },
                _ => if old(devices)@.len() >= max_devices {
                    &&& r matches Err(e) && e@ == "Maximum "@ + decimal(max_devices as nat) + " devices allowed"@
                    &&& final(devices)@ == old(devices)@
                } else {
                    &&& r matches Ok(d) && final(devices)@ == old(devices)@.push(d)
                    &&& holds_input(r->Ok_0, input, stamp)
                    &&& r->Ok_0.id == new_id
                    &&& opt_view(r->Ok_0.backend_id) == b
                    &&& r->Ok_0.device_id == input.device_id
                },
            }
        }),
{
    let backend_id = match &input.backend_id {
        Some(x) => {
            let t = trim(x.as_str());
            if t.unicode_len() > 0 {
                Some(String::from_str(t))
            } else {
                None
            }
        },
        None => None,
    };
    let found = match &backend_id {
        Some(b) => find_local_device_index(devices.as_slice(), b.as_str(), None),
        None => None,
    };
    proof {
        if backend_id is Some {
            lemma_index_by_backend_bound(devices@, backend_id->0@, 0);
        }
    }
    let host = String::from_str(trim(input.host.as_str()));
    let username = String::from_str(trim(input.username.as_str()));
    match found {
        Some(i) => {
            let old_d = devices[i].duplicate();
            let d = DeviceConfig {
                id: old_d.id,
                backend_id: old_d.backend_id,
                host,
                port: input.port,
                username,
                password: input.password,
                credentials_updated_at: Some(stamp.updated_at),
                credentials_expires_at: Some(stamp.expires_at),
                device_id: input.device_id,
            };
            let saved = d.duplicate();
            devices.set(i, d);
            Ok(saved)
        },
        None => {
            if devices.len() >= max_devices {
                let mut e = String::from_str("Maximum ");
                let n = decimal_string(max_devices as u64);
                e.append(n.as_str());
                e.append(" devices allowed");
                return Err(e);
            }
            let d = DeviceConfig {
                id: new_id,
                backend_id,
                host,
                port: input.port,
                username,
                password: input.password,
                credentials_updated_at: Some(stamp.updated_at),
                credentials_expires_at: Some(stamp.expires_at),
                device_id: input.device_id,
            };
            let saved = d.duplicate();
            devices.push(d);
            Ok(saved)
        },
    }
}

/// Replaces the entered fields of the device with local id `id`; a backend id or hardware id
/// left out keeps the stored one.
pub fn update_device(
    devices: &mut Vec<DeviceConfig>,
    id: &str,
    input: DeviceInput,
    stamp: CredentialStamp,
) -> (r: Result<DeviceConfig, String>)
    ensures
        match index_by_id(old(devices)@, id@, 0) {
            None => r matches Err(e) && e@ == "Device not found"@ && final(devices)@ == old(devices)@,
            Some(i) => {
                &&& r matches Ok(d) && final(devices)@ == old(devices)@.update(i, d)
                &&& holds_input(r->Ok_0, input, stamp)
                &&& r->Ok_0.id@ == id@
                &&& r->Ok_0.backend_id == match input.backend_id {
                    Some(b) => Some(b),
                    None => old(devices)@[i].backend_id,
                }
                &&& r->Ok_0.device_id == match input.device_id {
                    Some(x) => Some(x),
                    None => old(devices)@[i].device_id,
                }
            },
        },
{
    let n = devices.len();
    let mut i: usize = 0;
    while i < n
        invariant
            n == devices@.len(),
            devices@ == old(devices)@,
            i <= n,
            index_by_id(devices@, id@, 0) == index_by_id(devices@, id@, i as int),
        decreases n - i,
    {
        if same_text(devices[i].id.as_str(), id) {
            assert(index_by_id(devices@, id@, i as int) == Some(i as int));
            let old_d = devices[i].duplicate();
            let d = DeviceConfig {
                id: String::from_str(id),
                backend_id: match input.backend_id {
                    Some(b) => Some(b),
                    None => old_d.backend_id,
                },
                host: String::from_str(trim(input.host.as_str())),
                port: input.port,
                username: String::from_str(trim(input.username.as_str())),
                password: input.password,
                credentials_updated_at: Some(stamp.updated_at),
                credentials_expires_at: Some(stamp.expires_at),
                device_id: match input.device_id {
                    Some(x) => Some(x),
                    None => old_d.device_id,
                },
            };
            let saved = d.duplicate();
            devices.set(i, d);
            return Ok(saved);
        }
        i = i + 1;
    }
    Err(String::from_str("Device not found"))
}

/// Removes every device with local id `id`.
pub fn delete_device(devices: &mut Vec<DeviceConfig>, id: &str) -> (r: Result<bool, String>)
    ensures
        final(devices)@ == old(devices)@.filter(|d: DeviceConfig| d.id@ != id@),
        match r {
            Ok(b) => b && final(devices)@.len() < old(devices)@.len(),
            Err(e) => e@ == "Device not found"@ && final(devices)@.len() == old(devices)@.len(),
        },
{
    let ghost all = devices@;
    let mut kept: Vec<DeviceConfig> = Vec::new();
    let n = devices.len();
    let mut i: usize = 0;
    proof {
        reveal(Seq::filter);
    }
    assert(all.subrange(0, 0).filter(|d: DeviceConfig| d.id@ != id@) =~= Seq::<DeviceConfig>::empty());
    while i < n
        invariant
            devices@ == all,
            n == all.len(),
            i <= n,
            kept@ == all.subrange(0, i as int).filter(|d: DeviceConfig| d.id@ != id@),
            kept@.len() <= i,
        decreases n - i,
    {
        let ghost pre = all.subrange(0, i + 1);
        assert(pre.drop_last() =~= all.subrange(0, i as int));
        proof {
            reveal(Seq::filter);
        }
        if !same_text(devices[i].id.as_str(), id) {
            kept.push(devices[i].duplicate());
        }
        proof {
            assert(pre.last() == all[i as int]);
        }
        i = i + 1;
    }
    assert(all.subrange(0, n as int) =~= all);
    let removed = kept.len() < n;
    *devices = kept;
    if removed {
        Ok(true)
    } else {
        Err(String::from_str("Device not found"))
    }
}

} // verus!
