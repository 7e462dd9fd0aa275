//! The records the library reads and produces.
use vstd::prelude::*;

verus! {

/// A terminal the operator has configured: where it is, how to sign in, and how it is known
/// to the coordinating backend.
#[derive(Debug)]
pub struct DeviceConfig {
    pub id: String,
    pub backend_id: Option<String>,
    pub host: String,
    pub port: u16,
    pub username: String,
    pub password: String,
    pub credentials_updated_at: Option<String>,
    pub credentials_expires_at: Option<String>,
    pub device_id: Option<String>,
}

/// The outcome of reaching a device's information endpoint.
#[derive(Debug)]
pub struct DeviceConnectionResult {
    pub ok: bool,
    pub message: Option<String>,
    pub device_id: Option<String>,
}

/// The outcome of a device call that changes its state, from the vendor's status envelope.
#[derive(Debug)]
pub struct DeviceActionResult {
    pub ok: bool,
    pub status_code: Option<i32>,
    pub status_string: Option<String>,
    pub error_msg: Option<String>,
}

/// What the backend answers when a provisioning record is started.
#[derive(Debug)]
pub struct ProvisioningStartResponse {
    pub provisioning_id: String,
    pub device_student_id: String,
    pub student_id: String,
    pub target_devices: Option<Vec<ProvisioningTargetDevice>>,
}

/// A device the backend targets: its backend id and its hardware id.
#[derive(Debug)]
pub struct ProvisioningTargetDevice {
    pub id: String,
    pub device_id: String,
}

/// What happened on one device during a registration run.
#[derive(Debug)]
pub struct RegisterDeviceResult {
    pub device_id: String,
    pub device_name: String,
    pub connection: DeviceConnectionResult,
    pub user_create: Option<DeviceActionResult>,
    pub face_upload: Option<DeviceActionResult>,
}

/// The outcome of a registration run.
#[derive(Debug)]
pub struct RegisterResult {
    pub employee_no: String,
    pub provisioning_id: Option<String>,
    pub results: Vec<RegisterDeviceResult>,
}

/// One user record as a device lists it.
#[derive(Debug)]
pub struct UserInfoEntry {
    pub employee_no: String,
    pub name: String,
    pub gender: Option<String>,
    pub num_of_face: Option<i32>,
    pub face_url: Option<String>,
}

/// A page of a device's user search.
#[derive(Debug)]
pub struct UserInfoSearch {
    pub user_info: Option<Vec<UserInfoEntry>>,
    pub num_of_matches: Option<i32>,
    pub total_matches: Option<i32>,
}

/// The envelope of a device's user search answer.
#[derive(Debug)]
pub struct UserInfoSearchResponse {
    pub user_info_search: Option<UserInfoSearch>,
}

pub fn copy_opt_string(o: &Option<String>) -> (r: Option<String>)
    ensures
        r == *o,
{
    match o {
        Some(s) => Some(s.clone()),
        None => None,
    }
}

impl DeviceConfig {
    /// A field-for-field copy.
    pub fn duplicate(&self) -> (r: DeviceConfig)
        ensures
            r == *self,
    {
        DeviceConfig {
            id: self.id.clone(),
            backend_id: copy_opt_string(&self.backend_id),
            host: self.host.clone(),
            port: self.port,
            username: self.username.clone(),
            password: self.password.clone(),
            credentials_updated_at: copy_opt_string(&self.credentials_updated_at),
            credentials_expires_at: copy_opt_string(&self.credentials_expires_at),
            device_id: copy_opt_string(&self.device_id),
        }
    }
}

impl DeviceConnectionResult {
    /// A field-for-field copy.
    pub fn duplicate(&self) -> (r: DeviceConnectionResult)
        ensures
            r == *self,
    {
        DeviceConnectionResult {
            ok: self.ok,
            message: copy_opt_string(&self.message),
            device_id: copy_opt_string(&self.device_id),
        }
    }
}

impl DeviceActionResult {
    /// A field-for-field copy.
    pub fn duplicate(&self) -> (r: DeviceActionResult)
        ensures
            r == *self,
    {
        DeviceActionResult {
            ok: self.ok,
            status_code: self.status_code,
            status_string: copy_opt_string(&self.status_string),
            error_msg: copy_opt_string(&self.error_msg),
        }
    }
}

} // verus!
