//! Provisioning of student identities onto access-control terminals.
//!
//! - `digest`, `auth_flow`: HTTP Digest/Basic authentication against a device, as decisions
//!   on the replies; the caller performs the requests.
//! - `device_api`: the device API's URLs, payloads and response envelopes.
//! - `webhook`: reading and rewriting callback URLs in JSON or XML-like configuration.
//! - `registration`: the multi-device registration saga and its rollback.
//! - `devices`, `operations`, `provisioning`: the local device list, command rules, and the
//!   backend's records.
//! - `json`, `text`, `uri`, `model`, `random`: shared models and outside services.
use vstd::prelude::*;

pub mod auth_flow;
pub mod cloning;
pub mod device_api;
pub mod devices;
pub mod digest;
pub mod json;
pub mod model;
pub mod operations;
pub mod provisioning;
pub mod random;
pub mod registration;
pub mod text;
pub mod uri;
pub mod webhook;
pub mod webhook_sync;

verus! {

} // verus!
