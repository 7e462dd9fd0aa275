//! Registering a student on several devices: which devices take part, what happens next after
//! each device call, and how a failed run is unwound.
use vstd::prelude::*;

use crate::devices::{
    credentials_expired_at, device_label, expired_at, find_local_device_index, label_of,
    local_index, Instant,
};
use crate::model::{
    copy_opt_string, DeviceActionResult, DeviceConfig, DeviceConnectionResult,
    ProvisioningTargetDevice, RegisterDeviceResult,
};
use crate::text::{all_ascii_digits, digit_char, decimal, decimal_string, is_ascii_digit, opt_view, same_text, trim, trim_ws, views};

verus! {

/// Which configured devices a registration run visits.
pub struct TargetSelection {
    /// The caller asked for an explicit, empty device list: no device is visited.
    pub explicit_db_only: bool,
    /// The backend ids the caller asked for, where it asked.
    pub requested: Option<Vec<String>>,
    /// The backend ids the provisioning record targets.
    pub provisioned: Vec<String>,
    /// Hardware id to backend id, as the provisioning record maps them (later pairs win).
    pub backend_device_map: Vec<(String, String)>,
}

pub open spec fn in_ids(ids: Seq<String>, x: Seq<char>) -> bool {
    exists|i: int| 0 <= i < ids.len() && (#[trigger] ids[i])@ == x
}

/// The backend id that the provisioning record maps a hardware id to: the last pair for it.
pub open spec fn mapped_backend(map: Seq<(String, String)>, hw: Seq<char>) -> Option<Seq<char>>
    decreases map.len(),
{
    if map.len() == 0 {
        None
    } else if map.last().0@ == hw {
        Some(map.last().1@)
    } else {
        mapped_backend(map.drop_last(), hw)
    }
}

/// The set of backend ids that decides selection: the requested one, else the provisioned one
/// where it is not empty; none means every device.
pub open spec fn selected_ids(sel: TargetSelection) -> Option<Seq<String>> {
    match sel.requested {
        Some(r) => Some(r@),
        None => if sel.provisioned@.len() > 0 {
            Some(sel.provisioned@)
        } else {
            None
        },
    }
}

/// The device takes part in the run: it matches the selection by its backend id, or by the
/// backend id its hardware id maps to.
pub open spec fn is_selected(d: DeviceConfig, sel: TargetSelection) -> bool {
    !sel.explicit_db_only && match selected_ids(sel) {
        None => true,
        Some(ids) => (match d.backend_id {
            Some(b) => in_ids(ids, b@),
            None => false,
        }) || (match d.device_id {
            Some(h) => match mapped_backend(sel.backend_device_map@, h@) {
                Some(b) => in_ids(ids, b),
                None => false,
            },
            None => false,
        }),
    }
}

fn contains_id(ids: &Vec<String>, x: &str) -> (r: bool)
    ensures
        r == in_ids(ids@, x@),
{
    let mut i: usize = 0;
    while i < ids.len()
        invariant
            i <= ids@.len(),
            forall|j: int| 0 <= j < i ==> (#[trigger] ids@[j])@ != x@,
        decreases ids@.len() - i,
    {
        if same_text(ids[i].as_str(), x) {
            return true;
        }
        i = i + 1;
    }
    false
}

/// The backend id mapped to hardware id `hw`.
pub fn map_backend_id(map: &Vec<(String, String)>, hw: &str) -> (r: Option<String>)
    ensures
        opt_view(r) == mapped_backend(map@, hw@),
{
    let mut k: usize = map.len();
    assert(map@.subrange(0, k as int) =~= map@);
    while k > 0
        invariant
            k <= map@.len(),
            mapped_backend(map@, hw@) == mapped_backend(map@.subrange(0, k as int), hw@),
        decreases k,
    {
        let ghost pre = map@.subrange(0, k as int);
        assert(pre.drop_last() =~= map@.subrange(0, k - 1));
        if same_text(map[k - 1].0.as_str(), hw) {
            return Some(map[k - 1].1.clone());
        }
        k = k - 1;
    }
    None
}

pub fn device_selected(device: &DeviceConfig, sel: &TargetSelection) -> (r: bool)
    ensures
        r == is_selected(*device, *sel),
{
    if sel.explicit_db_only {
        return false;
    }
    let ids: &Vec<String> = match &sel.requested {
        Some(r) => r,
        None => {
            if sel.provisioned.len() > 0 {
                &sel.provisioned
            } else {
                return true;
            }
        },
    };
    let by_backend = match &device.backend_id {
        Some(b) => contains_id(ids, b.as_str()),
        None => false,
    };
    if by_backend {
        return true;
    }
    match &device.device_id {
        Some(h) => match map_backend_id(&sel.backend_device_map, h.as_str()) {
            Some(b) => contains_id(ids, b.as_str()),
            None => false,
        },
        None => false,
    }
}

/// The first device from index `i` on that takes part in the run.
pub open spec fn next_selected(ds: Seq<DeviceConfig>, sel: TargetSelection, i: int) -> Option<int>
    decreases ds.len() - i,
{
    if i < 0 || i >= ds.len() {
        None
    } else if is_selected(ds[i], sel) {
        Some(i)
    } else {
        next_selected(ds, sel, i + 1)
    }
}

pub fn find_next_selected(devices: &Vec<DeviceConfig>, sel: &TargetSelection, from: usize) -> (r: Option<usize>)
    ensures
        match r {
            Some(i) => next_selected(devices@, *sel, from as int) == Some(i as int) && from <= i < devices@.len(),
            None => next_selected(devices@, *sel, from as int) is None,
        },
{
    let n = devices.len();
    if from >= n {
        return None;
    }
    let mut i = from;
    while i < n
        invariant
            n == devices@.len(),
            from <= i <= n,
            next_selected(devices@, *sel, from as int) == next_selected(devices@, *sel, i as int),
        decreases n - i,
    {
        if device_selected(&devices[i], sel) {
            return Some(i);
        }
        i = i + 1;
    }
    None
}

/// The backend id reported for a device: its own, else the one its hardware id maps to.
pub open spec fn backend_id_for(d: DeviceConfig, external: Option<Seq<char>>, sel: TargetSelection) -> Option<Seq<char>> {
    match d.backend_id {
        Some(b) => Some(b@),
        None => match external {
            Some(h) => mapped_backend(sel.backend_device_map@, h),
            None => None,
        },
    }
}

pub fn backend_device_id_for(device: &DeviceConfig, external: &Option<String>, sel: &TargetSelection) -> (r: Option<String>)
    ensures
        opt_view(r) == backend_id_for(*device, opt_view(*external), *sel),
{
    match &device.backend_id {
        Some(b) => Some(b.clone()),
        None => match external {
            Some(h) => map_backend_id(&sel.backend_device_map, h.as_str()),
            None => None,
        },
    }
}

} // verus!

verus! {

/// What the caller is to do next.
pub enum SagaAction {
    TestConnection(usize),
    CreateUser(usize),
    UploadFace(usize),
    /// Report a device's terminal status to the backend.
    Report {
        device: usize,
        backend_device_id: Option<String>,
        external_device_id: Option<String>,
        success: bool,
        error: Option<String>,
    },
    /// Delete the user just created on a device whose face upload failed.
    DeleteUser(usize),
    /// The device is done: call `advance` for the next one.
    NextDevice,
    /// No more device work: the run is over.
    Finished,
}

/// How far the visit of the current device has come.
#[derive(PartialEq, Eq, Structural, Clone, Copy, Debug)]
pub enum VisitStage {
    Connecting,
    Creating,
    Uploading,
    Reporting,
    CleaningUp,
}

/// The device being visited.
pub struct Visit {
    pub device: usize,
    pub stage: VisitStage,
    pub connection: Option<DeviceConnectionResult>,
    pub user_create: Option<DeviceActionResult>,
    pub face_upload: Option<DeviceActionResult>,
    pub backend_device_id: Option<String>,
    pub external_device_id: Option<String>,
    /// Why the device failed, where it did.
    pub failure: Option<String>,
}

/// The state of a registration run over the configured devices, visited in order.
pub struct RegistrationSaga {
    /// Device outcomes are reported to a backend provisioning record.
    pub reporting: bool,
    /// One result per visited device, in visiting order.
    pub results: Vec<RegisterDeviceResult>,
    /// The devices that hold the user with a face, in the order they got it: the log that a
    /// rollback replays.
    pub committed: Vec<usize>,
    /// The first failure; once set, no further device is visited.
    pub abort_error: Option<String>,
    /// A device's hardware id was learned or changed.
    pub devices_changed: bool,
    /// The next device index to consider.
    pub next_device: usize,
    pub visit: Option<Visit>,
}

/// A well-formed run commits each device at most once, in visiting order: a rollback that
/// replays the log unwinds no device twice.
pub proof fn lemma_commit_log_distinct(s: RegistrationSaga, n: nat)
    requires
        s.wf(n),
    ensures
        forall|j: int, k: int| 0 <= j < s.committed@.len() && 0 <= k < s.committed@.len() && j != k
            ==> s.committed@[j] != s.committed@[k],
        forall|j: int| 0 <= j < s.committed@.len() ==> s.committed@[j] < n,
{
    assert forall|j: int, k: int| 0 <= j < s.committed@.len() && 0 <= k < s.committed@.len() && j != k
        implies s.committed@[j] != s.committed@[k] by {
        if j < k {
            assert(s.committed@[j] < s.committed@[k]);
        } else {
            assert(s.committed@[k] < s.committed@[j]);
        }
    }
    assert forall|j: int| 0 <= j < s.committed@.len() implies s.committed@[j] < n by {
        assert(s.committed@[j] < s.next_device);
    }
}

pub open spec fn expired_text() -> Seq<char> {
    "Ulanish sozlamalari muddati tugagan"@
}

/// `Qurilma <label>: <what>`.
pub open spec fn device_failure_of(d: DeviceConfig, what: Seq<char>) -> Seq<char> {
    "Qurilma "@ + label_of(d) + ": "@ + what
}

fn device_failure(d: &DeviceConfig, what: &str) -> (r: String)
    ensures
        r@ == device_failure_of(*d, what@),
{
    let mut s = String::from_str("Qurilma ");
    let l = device_label(d);
    s.append(l.as_str());
    s.append(": ");
    s.append(what);
    s
}

pub open spec fn report_failure_of(e: Seq<char>) -> Seq<char> {
    "Backend report failed: "@ + e
}

impl RegistrationSaga {
    /// The saga's own bookkeeping holds together for `n` devices.
    pub open spec fn wf(&self, n: nat) -> bool {
        &&& self.next_device <= n
        &&& forall|j: int| 0 <= j < self.committed@.len() ==> #[trigger] self.committed@[j] < self.next_device
        &&& forall|j: int, k: int| 0 <= j < k < self.committed@.len() ==> #[trigger] self.committed@[j] < #[trigger] self.committed@[k]
        &&& match self.visit {
            Some(v) => {
                &&& v.device < n
                &&& self.next_device == v.device + 1
                &&& forall|j: int| 0 <= j < self.committed@.len() ==> #[trigger] self.committed@[j] < v.device
                &&& v.stage != VisitStage::Connecting ==> v.connection is Some
                &&& (v.stage == VisitStage::Connecting || v.stage == VisitStage::Creating) ==> v.user_create is None
                &&& v.stage != VisitStage::Reporting && v.stage != VisitStage::CleaningUp ==> v.face_upload is None
                &&& v.stage == VisitStage::CleaningUp ==> self.abort_error is Some
                &&& match v.face_upload {
                    Some(f) => !f.ok ==> v.failure is Some,
                    None => true,
                }
            },
            None => true,
        }
    }

    pub fn new(reporting: bool) -> (r: RegistrationSaga)
        ensures
            r.reporting == reporting,
            r.results@.len() == 0,
            r.committed@.len() == 0,
            r.abort_error is None,
            !r.devices_changed,
            r.next_device == 0,
            r.visit is None,
            r.wf(0),
    {
        RegistrationSaga {
            reporting,
            results: Vec::new(),
            committed: Vec::new(),
            abort_error: None,
            devices_changed: false,
            next_device: 0,
            visit: None,
        }
    }
}

/// The connection outcome recorded for a device whose credentials have expired.
pub open spec fn expired_connection(d: DeviceConfig, c: DeviceConnectionResult) -> bool {
    !c.ok && opt_view(c.message) == Some(expired_text()) && c.device_id == d.device_id
}

/// `r` is the result recorded for device `d` at the end of visit `v`.
pub open spec fn records_visit(r: RegisterDeviceResult, d: DeviceConfig, v: Visit) -> bool {
    &&& r.device_id@ == d.id@
    &&& r.device_name@ == label_of(d)
    &&& Some(r.connection) == v.connection
    &&& r.user_create == v.user_create
    &&& r.face_upload == v.face_upload
}

/// `a` reports device `i` with the given status and error.
pub open spec fn reports(
    a: SagaAction,
    i: int,
    backend: Option<Seq<char>>,
    external: Option<Seq<char>>,
    success: bool,
    error: Option<Seq<char>>,
) -> bool {
    match a {
        SagaAction::Report { device, backend_device_id, external_device_id, success: s, error: e } =>
            device == i && opt_view(backend_device_id) == backend && opt_view(external_device_id)
            == external && s == success && opt_view(e) == error,
        _ => false,
    }
}

impl RegistrationSaga {
    /// Looks for the next device to visit and starts its visit; after a failure, finishes.
    pub fn advance(&mut self, devices: &Vec<DeviceConfig>, sel: &TargetSelection, now: Instant) -> (r: SagaAction)
        requires
            old(self).visit is None,
            old(self).wf(devices@.len()),
        ensures
            final(self).wf(devices@.len()),
            final(self).reporting == old(self).reporting,
            final(self).devices_changed == old(self).devices_changed,
            final(self).committed == old(self).committed,
            old(self).abort_error is Some ==> r is Finished && *final(self) == *old(self),
            old(self).abort_error is None ==> match next_selected(devices@, *sel, old(self).next_device as int) {
                None => r is Finished && final(self).visit is None && final(self).results == old(self).results
                    && final(self).abort_error is None,
                Some(i) => {
                    let d = devices@[i];
                    &&& final(self).next_device == i + 1
                    &&& if expired_at(d, now) {
                        let failure = device_failure_of(d, expired_text());
                        if old(self).reporting {
                            &&& final(self).results == old(self).results
                            &&& final(self).abort_error is None
                            &&& final(self).visit matches Some(v) && v.device == i && v.stage == VisitStage::Reporting
                                && expired_connection(d, v.connection->0) && v.user_create is None && v.face_upload is None
                                && opt_view(v.failure) == Some(failure)
                            &&& reports(r, i, backend_id_for(d, opt_view(d.device_id), *sel), opt_view(d.device_id), false, Some(expired_text()))
                        } else {
                            &&& r is Finished
                            &&& final(self).visit is None
                            &&& opt_view(final(self).abort_error) == Some(failure)
                            &&& final(self).results@.len() == old(self).results@.len() + 1
                            &&& final(self).results@.subrange(0, old(self).results@.len() as int) == old(self).results@
                            &&& ({
                                let rec = final(self).results@.last();
                                rec.device_id@ == d.id@ && rec.device_name@ == label_of(d) && expired_connection(d, rec.connection)
                                    && rec.user_create is None && rec.face_upload is None
                            })
                        }
                    } else {
                        &&& r == SagaAction::TestConnection(i as usize)
                        &&& final(self).results == old(self).results
                        &&& final(self).abort_error is None
                        &&& final(self).visit matches Some(v) && v.device == i && v.stage == VisitStage::Connecting
                            && v.connection is None && v.user_create is None && v.face_upload is None
                    }
                },
            },
    {
        if self.abort_error.is_some() {
            return SagaAction::Finished;
        }
        let n = devices.len();
        let i = match find_next_selected(devices, sel, self.next_device) {
            None => {
                self.next_device = n;
                return SagaAction::Finished;
            },
            Some(i) => i,
        };
        self.next_device = i + 1;
        let d = &devices[i];
        if credentials_expired_at(d, now) {
            let connection = DeviceConnectionResult {
                ok: false,
                message: Some(String::from_str("Ulanish sozlamalari muddati tugagan")),
                device_id: copy_opt_string(&d.device_id),
            };
            let failure = device_failure(d, "Ulanish sozlamalari muddati tugagan");
            if self.reporting {
                let external = copy_opt_string(&d.device_id);
                let backend = backend_device_id_for(d, &external, sel);
                self.visit = Some(Visit {
                    device: i,
                    stage: VisitStage::Reporting,
                    connection: Some(connection),
                    user_create: None,
                    face_upload: None,
                    backend_device_id: copy_opt_string(&backend),
                    external_device_id: copy_opt_string(&external),
                    failure: Some(failure),
                });
                return SagaAction::Report {
                    device: i,
                    backend_device_id: backend,
                    external_device_id: external,
                    success: false,
                    error: Some(String::from_str("Ulanish sozlamalari muddati tugagan")),
                };
            }
            self.results.push(RegisterDeviceResult {
                device_id: d.id.clone(),
                device_name: device_label(d),
                connection,
                user_create: None,
                face_upload: None,
            });
            self.abort_error = Some(failure);
            return SagaAction::Finished;
        }
        self.visit = Some(Visit {
            device: i,
            stage: VisitStage::Connecting,
            connection: None,
            user_create: None,
            face_upload: None,
            backend_device_id: None,
            external_device_id: None,
            failure: None,
        });
        SagaAction::TestConnection(i)
    }
}

/// The abort error after a device ends with `failure`: the first failure wins.
pub open spec fn first_failure(old_abort: Option<String>, failure: Option<String>) -> Option<Seq<char>> {
    match old_abort {
        Some(a) => Some(a@),
        None => opt_view(failure),
    }
}

/// The visit of `old` ended in `new` with action `r`: its result is recorded; a device that
/// got its face is committed and the run moves on; a failed upload is cleaned up; any other
/// failure ends the run. The first failure stays the abort error.
pub open spec fn visit_finished(
    old: RegistrationSaga,
    new: RegistrationSaga,
    devices: Seq<DeviceConfig>,
    r: SagaAction,
) -> bool {
    let v = old.visit->0;
    let d = devices[v.device as int];
    &&& new.reporting == old.reporting
    &&& new.devices_changed == old.devices_changed
    &&& new.next_device == old.next_device
    &&& new.results@.len() == old.results@.len() + 1
    &&& new.results@.subrange(0, old.results@.len() as int) =~= old.results@
    &&& records_visit(new.results@.last(), d, v)
    &&& match v.face_upload {
        Some(f) => if f.ok {
            &&& new.committed@ == old.committed@.push(v.device)
            &&& new.abort_error == old.abort_error
            &&& new.visit is None
            &&& if old.abort_error is None {
                r is NextDevice
            } else {
                r is Finished
            }
        } else {
            &&& new.committed == old.committed
            &&& opt_view(new.abort_error) == first_failure(old.abort_error, v.failure)
            &&& new.visit matches Some(w) && w.device == v.device && w.stage == VisitStage::CleaningUp
            &&& r == SagaAction::DeleteUser(v.device)
        },
        None => {
            &&& new.committed == old.committed
            &&& opt_view(new.abort_error) == first_failure(old.abort_error, v.failure)
            &&& new.visit is None
            &&& r is Finished
        },
    }
}

impl RegistrationSaga {
    /// Records the result of the visited device and decides what follows it.
    fn finish_visit(&mut self, devices: &Vec<DeviceConfig>) -> (r: SagaAction)
        requires
            old(self).wf(devices@.len()),
            old(self).visit matches Some(v) && v.connection is Some && (v.face_upload matches Some(f)
                && !f.ok ==> v.failure is Some),
        ensures
            final(self).wf(devices@.len()),
            visit_finished(*old(self), *final(self), devices@, r),
    {
        let mut v = match self.visit.take() {
            Some(v) => v,
            None => {
                return SagaAction::Finished;
            },
        };
        let i = v.device;
        let d = &devices[i];
        let connection = match &v.connection {
            Some(c) => c.duplicate(),
            None => {
                return SagaAction::Finished;
            },
        };
        let user_create = match &v.user_create {
            Some(u) => Some(u.duplicate()),
            None => None,
        };
        let face_upload = match &v.face_upload {
            Some(f) => Some(f.duplicate()),
            None => None,
        };
        let upload_ok = match &v.face_upload {
            Some(f) => Some(f.ok),
            None => None,
        };
        self.results.push(RegisterDeviceResult {
            device_id: d.id.clone(),
            device_name: device_label(d),
            connection,
            user_create,
            face_upload,
        });
        match upload_ok {
            Some(true) => {
                self.committed.push(i);
                if self.abort_error.is_none() {
                    SagaAction::NextDevice
                } else {
                    SagaAction::Finished
                }
            },
            Some(false) => {
                if self.abort_error.is_none() {
                    self.abort_error = copy_opt_string(&v.failure);
                }
                v.stage = VisitStage::CleaningUp;
                self.visit = Some(v);
                SagaAction::DeleteUser(i)
            },
            None => {
                if self.abort_error.is_none() {
                    self.abort_error = copy_opt_string(&v.failure);
                }
                SagaAction::Finished
            },
        }
    }
}

/// The message for a device that could not be reached.
pub open spec fn connection_failure_text(c: DeviceConnectionResult) -> Seq<char> {
    match c.message {
        Some(m) => m@,
        None => "Ulanishda xato"@,
    }
}

/// The device after a connection test: a reported hardware id is remembered.
pub open spec fn after_connection(d: DeviceConfig, c: DeviceConnectionResult) -> DeviceConfig {
    if c.ok && c.device_id is Some && opt_view(d.device_id) != opt_view(c.device_id) {
        DeviceConfig { device_id: c.device_id, ..d }
    } else {
        d
    }
}

/// The hardware id reported for a device: the one the test found, else the remembered one.
pub open spec fn external_after(d: DeviceConfig, c: DeviceConnectionResult) -> Option<Seq<char>> {
    match c.device_id {
        Some(h) => Some(h@),
        None => opt_view(d.device_id),
    }
}

fn opt_text_eq(a: &Option<String>, b: &Option<String>) -> (r: bool)
    ensures
        r == (opt_view(*a) == opt_view(*b)),
{
    match (a, b) {
        (Some(x), Some(y)) => same_text(x.as_str(), y.as_str()),
        (None, None) => true,
        _ => false,
    }
}

impl RegistrationSaga {
    /// The visited device answered the connection test with `c`.
    pub fn on_connection(
        &mut self,
        devices: &mut Vec<DeviceConfig>,
        sel: &TargetSelection,
        c: DeviceConnectionResult,
    ) -> (r: SagaAction)
        requires
            old(self).wf(old(devices)@.len()),
            old(self).visit matches Some(v) && v.stage == VisitStage::Connecting,
        ensures
            final(self).wf(final(devices)@.len()),
            final(self).reporting == old(self).reporting,
            final(self).next_device == old(self).next_device,
            final(self).committed == old(self).committed,
            ({
                let i = old(self).visit->0.device as int;
                let d = after_connection(old(devices)@[i], c);
                let ext = external_after(d, c);
                let backend = backend_id_for(d, ext, *sel);
                &&& final(devices)@ == old(devices)@.update(i, d)
                &&& final(self).devices_changed == (old(self).devices_changed || d != old(devices)@[i])
                &&& if c.ok {
                    &&& r == SagaAction::CreateUser(i as usize)
                    &&& final(self).results == old(self).results
                    &&& final(self).committed == old(self).committed
                    &&& final(self).abort_error == old(self).abort_error
                    &&& final(self).visit matches Some(v) && v.device == i && v.stage == VisitStage::Creating
                        && v.connection == Some(c) && opt_view(v.backend_device_id) == backend
                        && opt_view(v.external_device_id) == ext
                } else if old(self).reporting {
                    &&& reports(r, i, backend, ext, false, opt_view(c.message))
                    &&& final(self).results == old(self).results
                    &&& final(self).abort_error == old(self).abort_error
                    &&& final(self).visit matches Some(v) && v.device == i && v.stage == VisitStage::Reporting
                        && v.connection == Some(c) && v.user_create is None && v.face_upload is None
                        && opt_view(v.failure) == Some(device_failure_of(d, connection_failure_text(c)))
                } else {
                    &&& r is Finished
                    &&& final(self).results@.len() == old(self).results@.len() + 1
                    &&& final(self).results@.subrange(0, old(self).results@.len() as int) == old(self).results@
                    &&& records_visit(final(self).results@.last(), d, Visit {
                        connection: Some(c),
                        user_create: None,
                        face_upload: None,
                        ..old(self).visit->0
                    })
                    &&& opt_view(final(self).abort_error) == (match old(self).abort_error {
                        Some(a) => Some(a@),
                        None => Some(device_failure_of(d, connection_failure_text(c))),
                    })
                    &&& final(self).visit is None
                }
            }),
    {
        let mut v = match self.visit.take() {
            Some(v) => v,
            None => {
                return SagaAction::Finished;
            },
        };
        let i = v.device;
        if c.ok {
            match &c.device_id {
                Some(h) => {
                    let known = copy_opt_string(&devices[i].device_id);
                    let found = Some(h.clone());
                    if !opt_text_eq(&known, &found) {
                        let mut nd = devices[i].duplicate();
                        nd.device_id = found;
                        devices.set(i, nd);
                        self.devices_changed = true;
                    }
                },
                None => {},
            }
        }
        let external = match &c.device_id {
            Some(h) => Some(h.clone()),
            None => copy_opt_string(&devices[i].device_id),
        };
        let backend = backend_device_id_for(&devices[i], &external, sel);
        v.backend_device_id = copy_opt_string(&backend);
        v.external_device_id = copy_opt_string(&external);
        if c.ok {
            v.connection = Some(c);
            v.stage = VisitStage::Creating;
            self.visit = Some(v);
            return SagaAction::CreateUser(i);
        }
        let failure = match &c.message {
            Some(m) => device_failure(&devices[i], m.as_str()),
            None => device_failure(&devices[i], "Ulanishda xato"),
        };
        v.failure = Some(failure);
        let error = copy_opt_string(&c.message);
        v.connection = Some(c);
        v.stage = VisitStage::Reporting;
        self.visit = Some(v);
        if self.reporting {
            return SagaAction::Report {
                device: i,
                backend_device_id: backend,
                external_device_id: external,
                success: false,
                error,
            };
        }
        self.finish_visit(devices)
    }
}

impl RegistrationSaga {
    /// The visited device answered the user creation with `u`.
    pub fn on_user_create(&mut self, devices: &Vec<DeviceConfig>, u: DeviceActionResult) -> (r: SagaAction)
        requires
            old(self).wf(devices@.len()),
            old(self).visit matches Some(v) && v.stage == VisitStage::Creating,
        ensures
            final(self).wf(devices@.len()),
            final(self).devices_changed == old(self).devices_changed,
            final(self).reporting == old(self).reporting,
            final(self).next_device == old(self).next_device,
            final(self).committed == old(self).committed,
            ({
                let v = old(self).visit->0;
                let i = v.device as int;
                let d = devices@[i];
                let failure = device_failure_of(d, "Qurilmada foydalanuvchi yaratishda xato"@);
                if u.ok {
                    &&& r == SagaAction::UploadFace(i as usize)
                    &&& final(self).results == old(self).results
                    &&& final(self).committed == old(self).committed
                    &&& final(self).abort_error == old(self).abort_error
                    &&& final(self).visit == Some(Visit { stage: VisitStage::Uploading, user_create: Some(u), ..v })
                } else if old(self).reporting {
                    &&& reports(r, i, opt_view(v.backend_device_id), opt_view(v.external_device_id), false, opt_view(u.error_msg))
                    &&& final(self).results == old(self).results
                    &&& final(self).abort_error == old(self).abort_error
                    &&& final(self).visit matches Some(w) && w.device == i && w.stage == VisitStage::Reporting
                        && w.connection == v.connection && w.user_create == Some(u) && w.face_upload is None
                        && opt_view(w.failure) == Some(failure)
                } else {
                    let w = Visit { user_create: Some(u), ..v };
                    &&& r is Finished
                    &&& final(self).results@.len() == old(self).results@.len() + 1
                    &&& final(self).results@.subrange(0, old(self).results@.len() as int) =~= old(self).results@
                    &&& records_visit(final(self).results@.last(), d, w)
                    &&& opt_view(final(self).abort_error) == (match old(self).abort_error {
                        Some(a) => Some(a@),
                        None => Some(failure),
                    })
                    &&& final(self).visit is None
                }
            }),
    {
        let mut v = match self.visit.take() {
            Some(v) => v,
            None => {
                return SagaAction::Finished;
            },
        };
        let i = v.device;
        if u.ok {
            v.user_create = Some(u);
            v.stage = VisitStage::Uploading;
            self.visit = Some(v);
            return SagaAction::UploadFace(i);
        }
        let error = copy_opt_string(&u.error_msg);
        v.user_create = Some(u);
        v.failure = Some(device_failure(&devices[i], "Qurilmada foydalanuvchi yaratishda xato"));
        v.stage = VisitStage::Reporting;
        if self.reporting {
            let backend = copy_opt_string(&v.backend_device_id);
            let external = copy_opt_string(&v.external_device_id);
            self.visit = Some(v);
            return SagaAction::Report {
                device: i,
                backend_device_id: backend,
                external_device_id: external,
                success: false,
                error,
            };
        }
        self.visit = Some(v);
        self.finish_visit(devices)
    }

    /// The visited device answered the face upload with `f`.
    pub fn on_face_upload(&mut self, devices: &Vec<DeviceConfig>, f: DeviceActionResult) -> (r: SagaAction)
        requires
            old(self).wf(devices@.len()),
            old(self).visit matches Some(v) && v.stage == VisitStage::Uploading,
        ensures
            final(self).wf(devices@.len()),
            final(self).reporting == old(self).reporting,
            final(self).next_device == old(self).next_device,
            ({
                let v = old(self).visit->0;
                let i = v.device as int;
                let d = devices@[i];
                let failure = if f.ok {
                    None
                } else {
                    Some(device_failure_of(d, "Qurilmaga rasm yuklashda xato"@))
                };
                if old(self).reporting {
                    &&& reports(r, i, opt_view(v.backend_device_id), opt_view(v.external_device_id), f.ok, opt_view(f.error_msg))
                    &&& final(self).results == old(self).results
                    &&& final(self).committed == old(self).committed
                    &&& final(self).abort_error == old(self).abort_error
                    &&& final(self).devices_changed == old(self).devices_changed
                    &&& final(self).visit matches Some(w) && w.device == i && w.stage == VisitStage::Reporting
                        && w.connection == v.connection && w.user_create == v.user_create
                        && w.face_upload == Some(f) && opt_view(w.failure) == failure
                } else {
                    exists|w: Visit| #![auto] w.device == i && w.connection == v.connection && w.user_create == v.user_create
                        && w.face_upload == Some(f) && opt_view(w.failure) == failure
                        && visit_finished(RegistrationSaga { visit: Some(w), ..*old(self) }, *final(self), devices@, r)
                }
            }),
    {
        let mut v = match self.visit.take() {
            Some(v) => v,
            None => {
                return SagaAction::Finished;
            },
        };
        let i = v.device;
        let error = copy_opt_string(&f.error_msg);
        let ok = f.ok;
        v.face_upload = Some(f);
        if !ok {
            v.failure = Some(device_failure(&devices[i], "Qurilmaga rasm yuklashda xato"));
        } else {
            v.failure = None;
        }
        v.stage = VisitStage::Reporting;
        if self.reporting {
            let backend = copy_opt_string(&v.backend_device_id);
            let external = copy_opt_string(&v.external_device_id);
            self.visit = Some(v);
            return SagaAction::Report {
                device: i,
                backend_device_id: backend,
                external_device_id: external,
                success: ok,
                error,
            };
        }
        self.visit = Some(v);
        let ghost mid = *self;
        let r = self.finish_visit(devices);
        assert(mid == RegistrationSaga { visit: mid.visit, ..*old(self) });
        assert(visit_finished(RegistrationSaga { visit: Some(mid.visit->0), ..*old(self) }, *self, devices@, r));
        r
    }

    /// The backend answered the device report with `res`.
    pub fn on_reported(&mut self, devices: &Vec<DeviceConfig>, res: Result<(), String>) -> (r: SagaAction)
        requires
            old(self).wf(devices@.len()),
            old(self).visit matches Some(v) && v.stage == VisitStage::Reporting,
        ensures
            final(self).wf(devices@.len()),
            ({
                exists|a: Option<String>| #[trigger] opt_view(a) == (match res {
                    Err(e) => Some(report_failure_of(e@)),
                    Ok(_) => opt_view(old(self).abort_error),
                }) && visit_finished(RegistrationSaga { abort_error: a, ..*old(self) }, *final(self), devices@, r)
            }),
    {
        match res {
            Err(e) => {
                let mut m = String::from_str("Backend report failed: ");
                m.append(e.as_str());
                self.abort_error = Some(m);
            },
            Ok(_) => {},
        }
        let ghost mid = *self;
        let r = self.finish_visit(devices);
        assert(mid == RegistrationSaga { abort_error: mid.abort_error, ..*old(self) });
        r
    }

    /// The user of a failed upload was deleted: the run is over.
    pub fn on_deleted(&mut self) -> (r: SagaAction)
        requires
            (old(self).visit matches Some(v) && v.stage == VisitStage::CleaningUp),
        ensures
            (r is Finished),
            *final(self) == (RegistrationSaga { visit: None, ..*old(self) }),
    {
        self.visit = None;
        SagaAction::Finished
    }
}

/// `items` joined with `sep` between them.
pub open spec fn joined(items: Seq<Seq<char>>, sep: Seq<char>) -> Seq<char>
    decreases items.len(),
{
    if items.len() == 0 {
        Seq::empty()
    } else if items.len() == 1 {
        items[0]
    } else {
        joined(items.drop_last(), sep) + sep + items.last()
    }
}

pub fn join(items: &Vec<String>, sep: &str) -> (r: String)
    ensures
        r@ == joined(views(items@), sep@),
{
    let mut out = String::new();
    let mut i: usize = 0;
    while i < items.len()
        invariant
            i <= items@.len(),
            out@ == joined(views(items@.subrange(0, i as int)), sep@),
        decreases items@.len() - i,
    {
        let ghost pre = views(items@.subrange(0, i + 1));
        assert(pre.drop_last() =~= views(items@.subrange(0, i as int)));
        if i > 0 {
            out.append(sep);
        }
        out.append(items[i].as_str());
        i = i + 1;
    }
    assert(items@.subrange(0, i as int) =~= items@);
    out
}

/// The committed devices, most recent first: the order in which a rollback unwinds them.
pub fn rollback_order(committed: &Vec<usize>) -> (r: Vec<usize>)
    ensures
        r@.len() == committed@.len(),
        forall|k: int| 0 <= k < r@.len() ==> #[trigger] r@[k] == committed@[committed@.len() - 1 - k],
{
    let mut r: Vec<usize> = Vec::new();
    let mut k: usize = committed.len();
    while k > 0
        invariant
            k <= committed@.len(),
            r@.len() == committed@.len() - k,
            forall|j: int| 0 <= j < r@.len() ==> #[trigger] r@[j] == committed@[committed@.len() - 1 - j],
        decreases k,
    {
        r.push(committed[k - 1]);
        k = k - 1;
    }
    r
}

pub open spec fn rollback_reason_of(message: Seq<char>) -> Seq<char> {
    "Rolled back due to failure: "@ + message
}

pub fn rollback_reason(message: &str) -> (r: String)
    ensures
        r@ == rollback_reason_of(message@),
{
    let mut s = String::from_str("Rolled back due to failure: ");
    s.append(message);
    s
}

/// The rollback error for a device whose delete failed: `<label>: <error>`.
pub open spec fn rollback_delete_error_of(d: DeviceConfig, res: DeviceActionResult) -> Option<Seq<char>> {
    if res.ok {
        None
    } else {
        Some(label_of(d) + ": "@ + match res.error_msg {
            Some(e) => e@,
            None => "Delete failed"@,
        })
    }
}

pub fn rollback_delete_error(device: &DeviceConfig, res: &DeviceActionResult) -> (r: Option<String>)
    ensures
        opt_view(r) == rollback_delete_error_of(*device, *res),
{
    if res.ok {
        return None;
    }
    let mut s = device_label(device);
    s.append(": ");
    match &res.error_msg {
        Some(e) => s.append(e.as_str()),
        None => s.append("Delete failed"),
    }
    Some(s)
}

/// The error reported to the backend for a device that was unwound.
pub open spec fn rollback_status_error_of(reason: Seq<char>, res: DeviceActionResult) -> Seq<char> {
    if res.ok {
        reason
    } else {
        reason + ". Rollback delete failed: "@ + match res.error_msg {
            Some(e) => e@,
            None => "Rollback delete failed"@,
        }
    }
}

pub fn rollback_status_error(reason: &str, res: &DeviceActionResult) -> (r: String)
    ensures
        r@ == rollback_status_error_of(reason@, *res),
{
    let mut s = String::from_str(reason);
    if !res.ok {
        s.append(". Rollback delete failed: ");
        match &res.error_msg {
            Some(e) => s.append(e.as_str()),
            None => s.append("Rollback delete failed"),
        }
    }
    s
}

/// The reason given to the backend when the provisioning is abandoned.
pub open spec fn finalize_reason_of(reason: Seq<char>, errors: Seq<Seq<char>>) -> Seq<char> {
    if errors.len() == 0 {
        reason
    } else {
        reason + ". Rollback errors: "@ + joined(errors, "; "@)
    }
}

pub fn finalize_reason(reason: &str, rollback_errors: &Vec<String>) -> (r: String)
    ensures
        r@ == finalize_reason_of(reason@, views(rollback_errors@)),
{
    let mut s = String::from_str(reason);
    if rollback_errors.len() > 0 {
        s.append(". Rollback errors: ");
        let j = join(rollback_errors, "; ");
        s.append(j.as_str());
    }
    s
}

/// The error of a failed run: the root cause first, then the rollback errors, then a failure
/// to finalize on the backend.
pub open spec fn final_error_of(message: Seq<char>, errors: Seq<Seq<char>>, finalize: Option<Seq<char>>) -> Seq<char> {
    let with_rollback = if errors.len() == 0 {
        message
    } else {
        message + ". Rollback errors: "@ + joined(errors, "; "@)
    };
    match finalize {
        Some(e) => with_rollback + ". Finalize failure xatosi: "@ + e,
        None => with_rollback,
    }
}

/// The error of a failed run always begins with its root cause, whatever the rollback and the
/// finalization added.
pub proof fn lemma_final_error_keeps_root_cause(message: Seq<char>, errors: Seq<Seq<char>>, finalize: Option<Seq<char>>)
    ensures
        final_error_of(message, errors, finalize).len() >= message.len(),
        final_error_of(message, errors, finalize).subrange(0, message.len() as int) == message,
{
    let with_rollback = if errors.len() == 0 {
        message
    } else {
        message + ". Rollback errors: "@ + joined(errors, "; "@)
    };
    assert(with_rollback.subrange(0, message.len() as int) =~= message);
    let r = final_error_of(message, errors, finalize);
    match finalize {
        Some(e) => {
            assert(r.subrange(0, message.len() as int) =~= with_rollback.subrange(0, message.len() as int));
        },
        None => {},
    }
}

pub fn final_error(message: &str, rollback_errors: &Vec<String>, finalize_error: &Option<String>) -> (r: String)
    ensures
        r@ == final_error_of(message@, views(rollback_errors@), opt_view(*finalize_error)),
{
    let mut s = String::from_str(message);
    if rollback_errors.len() > 0 {
        s.append(". Rollback errors: ");
        let j = join(rollback_errors, "; ");
        s.append(j.as_str());
    }
    match finalize_error {
        Some(e) => {
            s.append(". Finalize failure xatosi: ");
            s.append(e.as_str());
        },
        None => {},
    }
    s
}

/// The student's display name: `last first` where either is given, else the plain name.
pub open spec fn full_name_of(name: Seq<char>, first: Option<Seq<char>>, last: Option<Seq<char>>) -> Seq<char> {
    let f = match first {
        Some(x) => trim_ws(x),
        None => Seq::empty(),
    };
    let l = match last {
        Some(x) => trim_ws(x),
        None => Seq::empty(),
    };
    let combined = trim_ws(l + " "@ + f);
    if combined.len() == 0 {
        trim_ws(name)
    } else {
        combined
    }
}

pub fn full_name(name: &str, first_name: &Option<String>, last_name: &Option<String>) -> (r: String)
    ensures
        r@ == full_name_of(name@, opt_view(*first_name), opt_view(*last_name)),
{
    let mut combined = match last_name {
        Some(l) => String::from_str(trim(l.as_str())),
        None => String::new(),
    };
    combined.append(" ");
    match first_name {
        Some(f) => combined.append(trim(f.as_str())),
        None => {},
    }
    let c = trim(combined.as_str());
    if c.unicode_len() == 0 {
        String::from_str(trim(name))
    } else {
        String::from_str(c)
    }
}

/// `o` is given and not blank.
pub open spec fn given(o: Option<String>) -> bool {
    match o {
        Some(s) => trim_ws(s@).len() > 0,
        None => false,
    }
}

fn given_exec(o: &Option<String>) -> (r: bool)
    ensures
        r == given(*o),
{
    match o {
        Some(s) => trim(s.as_str()).unicode_len() > 0,
        None => false,
    }
}

/// `o` where it is given and not blank, else nothing.
pub fn nonblank(o: Option<String>) -> (r: Option<String>)
    ensures
        r == (if given(o) { o } else { None }),
{
    if given_exec(&o) {
        o
    } else {
        None
    }
}

/// A backend URL needs a school id.
pub fn check_backend_pairing(backend_url: &Option<String>, school_id: &Option<String>) -> (r: Result<(), String>)
    ensures
        r is Err <==> (given(*backend_url) && !given(*school_id)),
        r matches Err(e) ==> e@ == "schoolId is required when backendUrl is set"@,
{
    if given_exec(backend_url) && !given_exec(school_id) {
        return Err(String::from_str("schoolId is required when backendUrl is set"));
    }
    Ok(())
}

/// The requested backend ids, trimmed, without blank ones.
pub fn requested_targets(ids: &Option<Vec<String>>) -> (r: Option<Vec<String>>)
    ensures
        r is Some <==> ids is Some,
        r matches Some(v) ==> forall|x: Seq<char>| #![auto] in_ids(v@, x) <==> (x.len() > 0 && exists|i: int| 0 <= i < ids->0@.len() && trim_ws(ids->0@[i]@) == x),
{
    match ids {
        None => None,
        Some(list) => {
            let mut out: Vec<String> = Vec::new();
            let mut i: usize = 0;
            while i < list.len()
                invariant
                    i <= list@.len(),
                    *ids == Some(*list),
                    forall|x: Seq<char>| #![auto] in_ids(out@, x) <==> (x.len() > 0 && exists|j: int| 0 <= j < i && trim_ws(list@[j]@) == x),
                decreases list@.len() - i,
            {
                let t = trim(list[i].as_str());
                let ghost before = out@;
                if t.unicode_len() > 0 {
                    out.push(String::from_str(t));
                }
                proof {
                    assert forall|x: Seq<char>| #![auto] in_ids(out@, x) <==> (x.len() > 0 && exists|j: int| 0 <= j < i + 1 && trim_ws(list@[j]@) == x) by {
                        if in_ids(out@, x) {
                            let k = choose|k: int| 0 <= k < out@.len() && (#[trigger] out@[k])@ == x;
                            if k < before.len() {
                                assert(in_ids(before, x));
                            }
                        }
                        if x.len() > 0 && exists|j: int| 0 <= j < i + 1 && trim_ws(list@[j]@) == x {
                            let j = choose|j: int| 0 <= j < i + 1 && trim_ws(list@[j]@) == x;
                            if j < i {
                                assert(in_ids(before, x));
                                let k = choose|k: int| 0 <= k < before.len() && (#[trigger] before[k])@ == x;
                                assert(out@[k] == before[k]);
                            } else {
                                assert(out@[out@.len() - 1]@ == x);
                            }
                        }
                    }
                }
                i = i + 1;
            }
            Some(out)
        },
    }
}

/// The employee number on the devices: the backend's device student id where it is all
/// digits, else the locally drawn one.
pub fn choose_employee_no(local: String, device_student_id: &str) -> (r: String)
    ensures
        r@ == if device_student_id@.len() > 0 && (forall|i: int| 0 <= i < device_student_id@.len() ==> is_ascii_digit(#[trigger] device_student_id@[i])) {
            device_student_id@
        } else {
            local@
        },
{
    if device_student_id.unicode_len() > 0 && all_ascii_digits(device_student_id) {
        String::from_str(device_student_id)
    } else {
        local
    }
}

/// The employee number made of ten drawn bytes: each byte modulo 10, as a digit.
pub fn employee_no_from_draws(draws: &Vec<u8>) -> (r: String)
    requires
        draws@.len() == 10,
    ensures
        r@ == Seq::new(10, |i: int| digit_char((draws@[i] % 10) as nat)),
{
    let mut s = String::new();
    let mut k: usize = 0;
    while k < 10
        invariant
            k <= 10,
            draws@.len() == 10,
            s@ == Seq::new(k as nat, |i: int| digit_char((draws@[i] % 10) as nat)),
        decreases 10 - k,
    {
        let d = decimal_string((draws[k] % 10) as u64);
        proof {
            reveal_with_fuel(decimal, 1);
        }
        let ghost before = s@;
        s.append(d.as_str());
        assert(s@ =~= Seq::new((k + 1) as nat, |i: int| digit_char((draws@[i] % 10) as nat)));
        k = k + 1;
    }
    s
}

/// Ten random decimal digits.
pub fn generate_employee_no() -> (r: String)
    ensures
        exists|draws: Seq<u8>| draws.len() == 10 && r@ == Seq::new(10, |i: int| digit_char((draws[i] % 10) as nat)),
{
    let mut draws: Vec<u8> = Vec::new();
    let mut k: usize = 0;
    while k < 10
        invariant
            k <= 10,
            draws@.len() == k,
        decreases 10 - k,
    {
        draws.push(crate::random::random_byte());
        k = k + 1;
    }
    employee_no_from_draws(&draws)
}

/// The selection for a run: the caller's request, and what the provisioning record targets.
pub fn selection_from(
    requested: Option<Vec<String>>,
    targets: &Option<Vec<ProvisioningTargetDevice>>,
) -> (r: TargetSelection)
    ensures
        r.explicit_db_only == (requested matches Some(v) && v@.len() == 0),
        r.requested == requested,
        r.provisioned@.len() == (match targets { Some(t) => t@.len(), None => 0 }),
        r.backend_device_map@.len() == r.provisioned@.len(),
        forall|k: int| 0 <= k < r.provisioned@.len() ==> #[trigger] r.provisioned@[k] == targets->0@[k].id,
        forall|k: int| 0 <= k < r.provisioned@.len() ==> #[trigger] r.backend_device_map@[k] == (targets->0@[k].device_id, targets->0@[k].id),
{
    let explicit_db_only = match &requested {
        Some(v) => v.len() == 0,
        None => false,
    };
    let mut provisioned: Vec<String> = Vec::new();
    let mut map: Vec<(String, String)> = Vec::new();
    match targets {
        Some(t) => {
            let mut k: usize = 0;
            while k < t.len()
                invariant
                    *targets == Some(*t),
                    k <= t@.len(),
                    provisioned@.len() == k,
                    map@.len() == k,
                    forall|j: int| 0 <= j < k ==> #[trigger] provisioned@[j] == t@[j].id,
                    forall|j: int| 0 <= j < k ==> #[trigger] map@[j] == (t@[j].device_id, t@[j].id),
                decreases t@.len() - k,
            {
                provisioned.push(t[k].id.clone());
                map.push((t[k].device_id.clone(), t[k].id.clone()));
                k = k + 1;
            }
        },
        None => {},
    }
    TargetSelection { explicit_db_only, requested, provisioned, backend_device_map: map }
}

/// The largest face image, in bytes.
pub const MAX_FACE_IMAGE_BYTES: usize = 204800;

/// The longest base64 text a registration accepts: the encoded size of the largest image and
/// some slack.
pub const MAX_FACE_PAYLOAD_LEN: usize = 273322;

/// Rejects a face image whose base64 text is too long to hold an acceptable image.
pub fn check_face_payload(face_image_base64: &str) -> (r: Result<(), String>)
    ensures
        r is Err <==> face_image_base64.len() > MAX_FACE_PAYLOAD_LEN,
        r matches Err(e) ==> e@ == "Face image is too large. Max 200 KB."@,
{
    if face_image_base64.len() > MAX_FACE_PAYLOAD_LEN {
        return Err(String::from_str("Face image is too large. Max 200 KB."));
    }
    Ok(())
}

/// Remembers the hardware id a successful connection test reported; says whether the device
/// changed.
pub fn remember_device_id(devices: &mut Vec<DeviceConfig>, i: usize, c: &DeviceConnectionResult) -> (r: bool)
    requires
        i < old(devices)@.len(),
    ensures
        final(devices)@ == old(devices)@.update(i as int, after_connection(old(devices)@[i as int], *c)),
        r == (after_connection(old(devices)@[i as int], *c) != old(devices)@[i as int]),
{
    if c.ok {
        match &c.device_id {
            Some(h) => {
                let known = copy_opt_string(&devices[i].device_id);
                let found = Some(h.clone());
                if !opt_text_eq(&known, &found) {
                    let mut nd = devices[i].duplicate();
                    nd.device_id = found;
                    devices.set(i, nd);
                    return true;
                }
            },
            None => {},
        }
    }
    assert(old(devices)@.update(i as int, old(devices)@[i as int]) =~= old(devices)@);
    false
}

/// What a provisioning retry does with one backend device.
pub enum RetryCheck {
    /// No local credentials match it.
    MissingCredentials,
    /// The matching local device's credentials have expired.
    Expired(usize),
    /// Test the connection of this local device.
    Test(usize),
}

/// The retry's check of backend device `backend_device_id`: its local device, found by
/// backend id and else by hardware id, is tested unless its credentials have expired.
pub fn retry_check(
    devices: &Vec<DeviceConfig>,
    backend_device_id: &str,
    external_device_id: Option<&str>,
    now: Instant,
) -> (r: RetryCheck)
    ensures
        ({
            let ext = match external_device_id {
                Some(e) => Some(e@),
                None => None,
            };
            match local_index(devices@, backend_device_id@, ext) {
                None => r is MissingCredentials,
                Some(i) => if expired_at(devices@[i], now) {
                    r == RetryCheck::Expired(i as usize)
                } else {
                    r == RetryCheck::Test(i as usize)
                },
            }
        }),
{
    match find_local_device_index(devices.as_slice(), backend_device_id, external_device_id) {
        None => RetryCheck::MissingCredentials,
        Some(i) => {
            proof {
                crate::devices::lemma_local_index_bound(devices@, backend_device_id@, match external_device_id {
                    Some(e) => Some(e@),
                    None => None,
                });
            }
            if credentials_expired_at(&devices[i], now) {
                RetryCheck::Expired(i)
            } else {
                RetryCheck::Test(i)
            }
        },
    }
}

/// The connection check of a provisioning retry: devices tested, devices that failed, and
/// devices without local credentials.
pub struct RetryTally {
    pub checked: usize,
    pub failed: usize,
    pub missing_credentials: usize,
}

impl RetryTally {
    pub fn new() -> (r: RetryTally)
        ensures
            r.checked == 0 && r.failed == 0 && r.missing_credentials == 0,
    {
        RetryTally { checked: 0, failed: 0, missing_credentials: 0 }
    }

    /// Counts one device's check: missing credentials and expired ones fail at once, a tested
    /// one is checked and fails unless `reachable`. Counts stay at `usize::MAX`.
    pub fn record(&mut self, check: &RetryCheck, reachable: bool)
        ensures
            match check {
                RetryCheck::MissingCredentials => final(self).missing_credentials == sat_inc(old(self).missing_credentials)
                    && final(self).failed == sat_inc(old(self).failed) && final(self).checked == old(self).checked,
                RetryCheck::Expired(_) => final(self).failed == sat_inc(old(self).failed)
                    && final(self).checked == old(self).checked && final(self).missing_credentials == old(self).missing_credentials,
                RetryCheck::Test(_) => final(self).checked == sat_inc(old(self).checked)
                    && final(self).failed == (if reachable { old(self).failed } else { sat_inc(old(self).failed) })
                    && final(self).missing_credentials == old(self).missing_credentials,
            },
    {
        match check {
            RetryCheck::MissingCredentials => {
                self.missing_credentials = inc(self.missing_credentials);
                self.failed = inc(self.failed);
            },
            RetryCheck::Expired(_) => {
                self.failed = inc(self.failed);
            },
            RetryCheck::Test(_) => {
                self.checked = inc(self.checked);
                if !reachable {
                    self.failed = inc(self.failed);
                }
            },
        }
    }
}

/// One more, held at `usize::MAX`.
pub open spec fn sat_inc(n: usize) -> usize {
    if n < usize::MAX {
        (n + 1) as usize
    } else {
        n
    }
}

fn inc(n: usize) -> (r: usize)
    ensures
        r == sat_inc(n),
{
    if n < usize::MAX {
        n + 1
    } else {
        n
    }
}

} // verus!

