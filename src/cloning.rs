//! Copying users between devices, or from the backend roster to a device: what happens to
//! each user, and the tally of a run.
use vstd::prelude::*;

use crate::model::DeviceActionResult;
use crate::operations::already_exists_of;
use crate::operations::is_already_exists;
use crate::text::{opt_view, trim, trim_ws};

verus! {

/// What the caller is to do next for the user being copied.
pub enum CloneStep {
    /// Fetch the user's face image from the source.
    FetchFace,
    /// Look the user up on the target device.
    LookUp,
    CreateUser,
    UploadFace,
    /// The user is done.
    Done(CloneOutcome),
}

/// How copying one user ended.
pub enum CloneOutcome {
    Copied,
    /// Left out; with the reason where it is reported.
    Skipped(Option<String>),
    Failed(String),
}

pub open spec fn outcome_is(step: CloneStep, kind: int, reason: Option<Seq<char>>) -> bool {
    match step {
        CloneStep::Done(CloneOutcome::Copied) => kind == 0,
        CloneStep::Done(CloneOutcome::Skipped(r)) => kind == 1 && opt_view(r) == reason,
        CloneStep::Done(CloneOutcome::Failed(r)) => kind == 2 && Some(r@) == reason,
        _ => false,
    }
}

/// The first step for a device user: one without an employee number, a name or a face URL is
/// skipped.
pub fn clone_user_start(employee_no: &str, name: &str, face_url: &str) -> (r: CloneStep)
    ensures
        if trim_ws(employee_no@).len() > 0 && trim_ws(name@).len() > 0 && trim_ws(face_url@).len() > 0 {
            r is FetchFace
        } else {
            outcome_is(r, 1, Some("Ma'lumot yetarli emas (employeeNo/name/faceURL)"@))
        },
{
    if trim(employee_no).unicode_len() > 0 && trim(name).unicode_len() > 0 && trim(face_url).unicode_len() > 0 {
        CloneStep::FetchFace
    } else {
        CloneStep::Done(CloneOutcome::Skipped(Some(String::from_str("Ma'lumot yetarli emas (employeeNo/name/faceURL)"))))
    }
}

/// The first step for a backend student: one without a device student id, a name or a photo
/// URL is skipped.
pub fn clone_student_start(device_student_id: &str, full_name: &str, photo_url: &str) -> (r: CloneStep)
    ensures
        if device_student_id@.len() > 0 && full_name@.len() > 0 && photo_url@.len() > 0 {
            r is FetchFace
        } else {
            outcome_is(r, 1, Some("Ma'lumot yetarli emas (deviceStudentId/name/photoUrl)"@))
        },
{
    if device_student_id.unicode_len() > 0 && full_name.unicode_len() > 0 && photo_url.unicode_len() > 0 {
        CloneStep::FetchFace
    } else {
        CloneStep::Done(CloneOutcome::Skipped(Some(String::from_str("Ma'lumot yetarli emas (deviceStudentId/name/photoUrl)"))))
    }
}

/// After fetching the face: a device user is next looked up on the target, a backend student
/// is created directly; without the image the user fails with `failure`.
pub fn after_face_fetch(fetched: bool, look_up_first: bool, failure: &str) -> (r: CloneStep)
    ensures
        !fetched ==> outcome_is(r, 2, Some(failure@)),
        fetched && look_up_first ==> r is LookUp,
        fetched && !look_up_first ==> r is CreateUser,
{
    if !fetched {
        CloneStep::Done(CloneOutcome::Failed(String::from_str(failure)))
    } else if look_up_first {
        CloneStep::LookUp
    } else {
        CloneStep::CreateUser
    }
}

/// After the lookup on the target: a user already there only gets the face.
pub fn after_look_up(exists: bool) -> (r: CloneStep)
    ensures
        exists ==> r is UploadFace,
        !exists ==> r is CreateUser,
{
    if exists {
        CloneStep::UploadFace
    } else {
        CloneStep::CreateUser
    }
}

/// The reason a failed call gives, or `fallback`.
pub open spec fn reason_of(res: DeviceActionResult, fallback: Seq<char>) -> Seq<char> {
    match res.error_msg {
        Some(e) => e@,
        None => fallback,
    }
}

fn reason(res: &DeviceActionResult, fallback: &str) -> (r: String)
    ensures
        r@ == reason_of(*res, fallback@),
{
    match &res.error_msg {
        Some(e) => e.clone(),
        None => String::from_str(fallback),
    }
}

/// After creating the user: on success the face follows. A refusal is a failure, except that,
/// where `tolerate_existing`, one saying the user exists is a silent skip.
pub fn after_create(res: &DeviceActionResult, tolerate_existing: bool) -> (r: CloneStep)
    ensures
        res.ok ==> r is UploadFace,
        !res.ok ==> if tolerate_existing && already_exists_of(reason_of(*res, "Create failed"@)) {
            outcome_is(r, 1, None)
        } else {
            outcome_is(r, 2, Some(reason_of(*res, "Create failed"@)))
        },
{
    if res.ok {
        return CloneStep::UploadFace;
    }
    let why = reason(res, "Create failed");
    if tolerate_existing && is_already_exists(why.as_str()) {
        CloneStep::Done(CloneOutcome::Skipped(None))
    } else {
        CloneStep::Done(CloneOutcome::Failed(why))
    }
}

/// After uploading the face.
pub fn after_upload(res: &DeviceActionResult) -> (r: CloneStep)
    ensures
        res.ok ==> outcome_is(r, 0, None),
        !res.ok ==> outcome_is(r, 2, Some(reason_of(*res, "Upload failed"@))),
{
    if res.ok {
        CloneStep::Done(CloneOutcome::Copied)
    } else {
        CloneStep::Done(CloneOutcome::Failed(reason(res, "Upload failed")))
    }
}

/// The counts of a copy run, and the reported problems: who, and why.
pub struct CloneTally {
    pub processed: u32,
    pub success: u32,
    pub failed: u32,
    pub skipped: u32,
    /// (id, name, reason) of each reported problem, in order.
    pub errors: Vec<(String, String, String)>,
}

impl CloneTally {
    pub fn new() -> (r: CloneTally)
        ensures
            r.processed == 0 && r.success == 0 && r.failed == 0 && r.skipped == 0 && r.errors@.len() == 0,
    {
        CloneTally { processed: 0, success: 0, failed: 0, skipped: 0, errors: Vec::new() }
    }

    /// Whether another user may be taken under `limit`; taking it counts it as processed.
    pub fn take(&mut self, limit: u32) -> (r: bool)
        ensures
            r == (old(self).processed < limit),
            final(self).processed == if r { old(self).processed + 1 } else { old(self).processed as int },
            final(self).success == old(self).success,
            final(self).failed == old(self).failed,
            final(self).skipped == old(self).skipped,
            final(self).errors == old(self).errors,
    {
        if self.processed < limit {
            self.processed = self.processed + 1;
            true
        } else {
            false
        }
    }

    /// Counts how copying user `id` (`name`) ended; a reason is reported.
    pub fn record(&mut self, id: &str, name: &str, outcome: CloneOutcome)
        requires
            old(self).success + old(self).failed + old(self).skipped < old(self).processed,
        ensures
            final(self).processed == old(self).processed,
            final(self).success + final(self).failed + final(self).skipped == old(self).success
                + old(self).failed + old(self).skipped + 1,
            match outcome {
                CloneOutcome::Copied => final(self).success == old(self).success + 1 && final(self).errors == old(self).errors,
                CloneOutcome::Skipped(r) => final(self).skipped == old(self).skipped + 1 && match r {
                    Some(x) => final(self).errors@ == old(self).errors@.push(final(self).errors@.last())
                        && final(self).errors@.last().0@ == id@ && final(self).errors@.last().1@ == name@
                        && final(self).errors@.last().2 == x,
                    None => final(self).errors == old(self).errors,
                },
                CloneOutcome::Failed(x) => final(self).failed == old(self).failed + 1
                    && final(self).errors@ == old(self).errors@.push(final(self).errors@.last())
                    && final(self).errors@.last().0@ == id@ && final(self).errors@.last().1@ == name@
                    && final(self).errors@.last().2 == x,
            },
    {
        match outcome {
            CloneOutcome::Copied => {
                self.success = self.success + 1;
            },
            CloneOutcome::Skipped(r) => {
                self.skipped = self.skipped + 1;
                match r {
                    Some(x) => {
                        self.errors.push((String::from_str(id), String::from_str(name), x));
                    },
                    None => {},
                }
            },
            CloneOutcome::Failed(x) => {
                self.failed = self.failed + 1;
                self.errors.push((String::from_str(id), String::from_str(name), x));
            },
        }
    }
}

} // verus!
