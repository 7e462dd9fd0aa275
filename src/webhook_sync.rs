//! Reading a device's webhook URL and writing a new one, as steps: the caller performs each
//! requested read or write and reports the outcome.
use vstd::prelude::*;

use crate::device_api::{has_keys, is_text, member_at};
use crate::json::{get_of, same_json, Json};
use crate::registration::{join, joined};
use crate::text::{decimal, lower_of, opt_view, strictly_sorted, views};
use crate::webhook::{
    attempt_error, cleaned_set, device_relative_url, entry_urls_from, entry_webhook_urls,
    extract_primary_http_host_notification, extract_urls_from_text,
    extract_webhook_urls_from_json, host_entry_path, is_write_applied, normalize_direction,
    normalize_http_hosts_put_path, normalize_target_url_for_device, not_applied_error,
    pick_primary_webhook_url, replace_url_fields, replace_xml_url_tags, response_status_ok,
    status_ok_of, sync_failure, url_keys, webhook_candidate_paths, webhook_raw_candidate_paths,
    write_attempts, WriteAttempt, decode_entities, direct_urls_from, xml_values_from,
    tags_replaced, url_tags, normalized_put_path, primary_notification_of, url_fields_from,
    url_rewritten, capped, primary_url, direction_of, attempts_for, not_applied_text,
};

verus! {

/// What the caller reports after performing a `SyncAction`.
pub enum SyncEvent {
    /// The configuration read as JSON, or why it could not be.
    JsonRead(Result<Json, String>),
    /// The answer to a JSON write: as JSON and as text; or why the write failed.
    PutReply(Result<(Json, String), String>),
    /// The configuration read as text, or why it could not be.
    RawRead(Result<String, String>),
    /// The text the device answered a raw write with, or why the write failed.
    RawPutReply(Result<String, String>),
}

/// What the caller is to do next.
pub enum SyncAction {
    ReadJson(String),
    Put { path: String, payload: Json },
    ReadRaw(&'static str),
    PutRaw { path: String, body: String },
    Done(Result<Json, String>),
}

/// Where a webhook write stands.
#[derive(PartialEq, Eq, Structural, Clone, Copy, Debug)]
pub enum SyncStage {
    /// Reading the JSON configuration path of this index.
    ReadJson(usize),
    /// Writing with the write shape of this index.
    Write(usize),
    /// Reading back the single entry after the write of this index.
    ReadBackEntry(usize),
    /// Reading back the list after the write of this index.
    ReadBackList(usize),
    /// Reading the raw configuration path of this index.
    ReadRaw(usize),
    /// Writing the rewritten text to the raw path of this index.
    PutRaw(usize),
    /// Reading the raw path of this index back after the write.
    RawReadBack(usize),
    Finished,
}

/// A webhook write in progress.
pub struct WebhookSync {
    pub direction: &'static str,
    /// The device-relative form of the new URL.
    pub target: String,
    /// What a read-back must hold for the write to count.
    pub target_cmp: String,
    pub stage: SyncStage,
    pub host_id: String,
    /// The notification entry with its URL fields rewritten.
    pub entry: Json,
    pub replaced: usize,
    pub before_urls: Vec<String>,
    pub attempts: Vec<WriteAttempt>,
    /// One diagnostic per failed write shape, in order.
    pub errors: Vec<String>,
    pub put_result: Json,
    pub raw_before: Vec<String>,
    pub raw_replaced: usize,
    /// One diagnostic per raw path that could not be read.
    pub raw_errors: Vec<String>,
}

/// The URLs a read-back entry holds.
pub open spec fn read_back_has(entry: Json, x: Seq<char>) -> bool {
    cleaned_set(entry_urls_from(entry, url_keys()), x)
}

/// The entry a single-entry read answers: its `HttpHostNotification`, else the document.
pub open spec fn read_back_entry(raw: Json) -> Json {
    match get_of(raw, "HttpHostNotification"@) {
        Some(e) => e,
        None => raw,
    }
}

/// `a` writes `entry` (a copy of it) to `path`, wrapped as a list or as a single entry.
pub open spec fn puts(a: SyncAction, path: Seq<char>, list: bool, entry: Json) -> bool {
    match a {
        SyncAction::Put { path: p, payload } => p@ == path && match payload {
            Json::Object(top) => top@.len() == 1 && if list {
                top@[0].0@ == "HttpHostNotificationList"@ && match top@[0].1 {
                    Json::Object(inner) => inner@.len() == 1 && inner@[0].0@ == "HttpHostNotification"@
                        && same_json(entry, inner@[0].1),
                    _ => false,
                }
            } else {
                top@[0].0@ == "HttpHostNotification"@ && same_json(entry, top@[0].1)
            },
            _ => false,
        },
        _ => false,
    }
}

impl WebhookSync {
    pub open spec fn wf(&self) -> bool {
        &&& match self.stage {
            SyncStage::ReadJson(i) => i < 2,
            SyncStage::Write(k) | SyncStage::ReadBackEntry(k) | SyncStage::ReadBackList(k) => k < 3
                && self.attempts@.len() == 3,
            SyncStage::ReadRaw(i) | SyncStage::PutRaw(i) | SyncStage::RawReadBack(i) => i < 2,
            SyncStage::Finished => true,
        }
    }

    /// `event` answers the action of the current stage.
    pub open spec fn expects(&self, event: SyncEvent) -> bool {
        match self.stage {
            SyncStage::ReadJson(_) | SyncStage::ReadBackEntry(_) | SyncStage::ReadBackList(_) => event is JsonRead,
            SyncStage::Write(_) => event is PutReply,
            SyncStage::ReadRaw(_) | SyncStage::RawReadBack(_) => event is RawRead,
            SyncStage::PutRaw(_) => event is RawPutReply,
            SyncStage::Finished => false,
        }
    }

    /// Starts writing `target_url` as the `direction` webhook: the first JSON read.
    pub fn start(direction: &str, target_url: &str) -> (r: Result<(WebhookSync, SyncAction), String>)
        ensures
            match r {
                Ok((s, a)) => s.wf() && s.stage == SyncStage::ReadJson(0) && s.target@ == device_relative_url(target_url@)
                    && s.target_cmp@ == device_relative_url(s.target@) && direction_of(direction@) == Some(s.direction@)
                    && s.target@.len() > 0 && (a matches SyncAction::ReadJson(p)
                    && p@ == "ISAPI/Event/notification/httpHosts/1?format=json"@),
                Err(_) => true,
            },
            r is Err <==> (crate::webhook::direction_of(direction@) is None || device_relative_url(target_url@).len() == 0),
    {
        let d = match normalize_direction(direction) {
            Ok(d) => d,
            Err(e) => {
                return Err(e);
            },
        };
        let target = normalize_target_url_for_device(target_url);
        if target.unicode_len() == 0 {
            return Err(String::from_str("targetUrl bo'sh bo'lmasligi kerak"));
        }
        let target_cmp = normalize_target_url_for_device(target.as_str());
        let paths = webhook_candidate_paths();
        let s = WebhookSync {
            direction: d,
            target,
            target_cmp,
            stage: SyncStage::ReadJson(0),
            host_id: String::from_str("1"),
            entry: Json::Null,
            replaced: 0,
            before_urls: Vec::new(),
            attempts: Vec::new(),
            errors: Vec::new(),
            put_result: Json::Null,
            raw_before: Vec::new(),
            raw_replaced: 0,
            raw_errors: Vec::new(),
        };
        Ok((s, SyncAction::ReadJson(String::from_str(paths[0]))))
    }

    fn put_action(&self, k: usize) -> (r: SyncAction)
        requires
            k < 3,
            self.attempts@.len() == 3,
        ensures
            puts(r, self.attempts@[k as int].path@, self.attempts@[k as int].list_payload, self.entry),
    {
        let inner = self.entry.duplicate();
        let payload = if self.attempts[k].list_payload {
            let mut m: Vec<(String, Json)> = Vec::new();
            m.push((String::from_str("HttpHostNotification"), inner));
            let mut top: Vec<(String, Json)> = Vec::new();
            top.push((String::from_str("HttpHostNotificationList"), Json::Object(m)));
            Json::Object(top)
        } else {
            let mut top: Vec<(String, Json)> = Vec::new();
            top.push((String::from_str("HttpHostNotification"), inner));
            Json::Object(top)
        };
        SyncAction::Put { path: self.attempts[k].path.clone(), payload }
    }

    /// Moves to write shape `k`, or gives up after the last one.
    fn next_shape(&mut self, k: usize) -> (r: SyncAction)
        requires
            k <= 3,
            old(self).attempts@.len() == 3,
        ensures
            final(self).wf(),
            *final(self) == (WebhookSync { stage: final(self).stage, ..*old(self) }),
            k < 3 ==> final(self).stage == SyncStage::Write(k) && puts(
                r,
                old(self).attempts@[k as int].path@,
                old(self).attempts@[k as int].list_payload,
                old(self).entry,
            ),
            k == 3 ==> final(self).stage == SyncStage::Finished && (r matches SyncAction::Done(Err(e)) && e@
                == "Qurilma URLni saqlamadi. hostId="@ + old(self).host_id@ + ", kutilgan="@
                + old(self).target_cmp@ + ", urinishlar="@ + joined(views(old(self).errors@), " || "@)),
    {
        if k < 3 {
            self.stage = SyncStage::Write(k);
            self.put_action(k)
        } else {
            self.stage = SyncStage::Finished;
            SyncAction::Done(Err(sync_failure(self.host_id.as_str(), self.target_cmp.as_str(), &self.errors)))
        }
    }

    /// Moves to raw path `i`, or gives up after the last one.
    fn next_raw(&mut self, i: usize) -> (r: SyncAction)
        requires
            i <= 2,
        ensures
            final(self).wf(),
            *final(self) == (WebhookSync { stage: final(self).stage, ..*old(self) }),
            i < 2 ==> final(self).stage == SyncStage::ReadRaw(i) && (r matches SyncAction::ReadRaw(p) && p@ == (if i
                == 0 {
                "ISAPI/Event/notification/httpHosts"@
            } else {
                "ISAPI/Event/notification/httpHosts/1"@
            })),
            i == 2 ==> final(self).stage == SyncStage::Finished && (r matches SyncAction::Done(Err(e)) && e@
                == "Webhook sync qilib bo'lmadi: "@ + joined(views(old(self).raw_errors@), " | "@)),
    {
        if i < 2 {
            self.stage = SyncStage::ReadRaw(i);
            let paths = webhook_raw_candidate_paths();
            SyncAction::ReadRaw(paths[i])
        } else {
            self.stage = SyncStage::Finished;
            let mut m = String::from_str("Webhook sync qilib bo'lmadi: ");
            let j = join(&self.raw_errors, " | ");
            m.append(j.as_str());
            SyncAction::Done(Err(m))
        }
    }
}

/// The URLs a text holds, written out or as URL elements.
pub open spec fn text_has(t: Seq<char>, x: Seq<char>) -> bool {
    cleaned_set(direct_urls_from(decode_entities(t), 0) + xml_values_from(decode_entities(decode_entities(t)), 0), x)
}

/// The URLs the list read-back holds: those of its primary entry.
pub open spec fn list_has(raw: Json, x: Seq<char>) -> bool {
    match primary_notification_of(raw) {
        Some((e, _)) => read_back_has(e, x),
        None => false,
    }
}

/// The entry a JSON configuration document offers for rewriting.
pub open spec fn entry_of(raw: Json) -> Json {
    match primary_notification_of(raw) {
        Some((e, _)) => e,
        None => raw,
    }
}

/// The host id of the entry a JSON configuration document offers, `1` where it names none.
pub open spec fn host_of(raw: Json) -> Seq<char> {
    match primary_notification_of(raw) {
        Some((_, id)) => id,
        None => "1"@,
    }
}

/// The raw configuration path of index `i`.
pub open spec fn raw_path(i: int) -> Seq<char> {
    if i == 0 {
        "ISAPI/Event/notification/httpHosts"@
    } else {
        "ISAPI/Event/notification/httpHosts/1"@
    }
}

/// After write shape `k` failed: the next shape, or, after the last, the composed error.
pub open spec fn shape_follows(old: WebhookSync, new: WebhookSync, k: int, r: SyncAction) -> bool {
    &&& new.attempts == old.attempts
    &&& new.entry == old.entry
    &&& new.errors@.len() == old.errors@.len() + 1
    &&& new.errors@.subrange(0, old.errors@.len() as int) == old.errors@
    &&& if k + 1 < 3 {
        new.stage == SyncStage::Write((k + 1) as usize) && puts(
            r,
            old.attempts@[k + 1].path@,
            old.attempts@[k + 1].list_payload,
            old.entry,
        )
    } else {
        new.stage == SyncStage::Finished && (r matches SyncAction::Done(Err(e)) && e@
            == "Qurilma URLni saqlamadi. hostId="@ + old.host_id@ + ", kutilgan="@ + old.target_cmp@
            + ", urinishlar="@ + joined(views(new.errors@), " || "@))
    }
}

/// After write shape `k` was read back holding URLs `has`: done where the target is among
/// them, else the next shape.
pub open spec fn read_back_follows(old: WebhookSync, new: WebhookSync, k: int, has: spec_fn(Seq<char>) -> bool, r: SyncAction) -> bool {
    exists|after: Seq<String>| #![trigger views(after)] strictly_sorted(views(after)) && (forall|x: Seq<char>|
        #[trigger] has(x) <==> views(after).contains(x)) && settled(old, new, k, after, r)
}

/// Write shape `k` was settled against the URLs `after` read back: where one of them has the
/// target's device-relative form the write is reported done; otherwise the miss is recorded
/// and the next shape follows.
pub open spec fn settled(old: WebhookSync, new: WebhookSync, k: int, after: Seq<String>, r: SyncAction) -> bool {
    if exists|i: int| 0 <= i < after.len() && device_relative_url((#[trigger] after[i])@) == old.target_cmp@ {
        &&& new.stage == SyncStage::Finished
        &&& r matches SyncAction::Done(Ok(j))
        &&& write_report(j, old.direction@, old.attempts@[k].path@, "json"@, old.replaced as nat, old.before_urls@, after)
        &&& is_text(member_at(j, 4), old.attempts@[k].name@)
    } else {
        &&& !(r matches SyncAction::Done(Ok(_)))
        &&& new.errors@.last()@ == not_applied_text(old.attempts@[k].name@, after)
        &&& shape_follows(old, new, k, r)
    }
}

/// `j` is the array of the texts `v`.
pub open spec fn texts_json(j: Json, v: Seq<String>) -> bool {
    match j {
        Json::Array(a) => a@.len() == v.len() && forall|i: int| 0 <= i < v.len() ==> is_text(#[trigger] a@[i], v[i]@),
        _ => false,
    }
}

fn strings_json(v: &Vec<String>) -> (r: Json)
    ensures
        texts_json(r, v@),
{
    let mut a: Vec<Json> = Vec::new();
    let mut i: usize = 0;
    while i < v.len()
        invariant
            i <= v@.len(),
            a@.len() == i,
            forall|j: int| 0 <= j < i ==> is_text(#[trigger] a@[j], v@[j]@),
        decreases v@.len() - i,
    {
        a.push(Json::Str(v[i].clone()));
        i = i + 1;
    }
    Json::Array(a)
}

fn member(k: &str, v: Json) -> (r: (String, Json))
    ensures
        r.0@ == k@,
        r.1 == v,
{
    (String::from_str(k), v)
}

fn text(t: &str) -> (r: Json)
    ensures
        is_text(r, t@),
{
    Json::Str(String::from_str(t))
}

/// `j` is the number `n`, written in decimal.
pub open spec fn count_is(j: Json, n: nat) -> bool {
    j matches Json::Number(x) && x@ == decimal(n)
}

fn count_json(n: usize) -> (r: Json)
    ensures
        count_is(r, n as nat),
{
    Json::Number(crate::text::decimal_string(n as u64))
}

/// `j` reports a write that took: its direction, path and format, the attempt (for a JSON
/// write), the number of rewritten fields, and the URLs before and after.
pub open spec fn write_report(
    j: Json,
    direction: Seq<char>,
    path: Seq<char>,
    format: Seq<char>,
    replaced: nat,
    before: Seq<String>,
    after: Seq<String>,
) -> bool {
    &&& member_at(j, 0) == Json::Bool(true)
    &&& is_text(member_at(j, 1), direction)
    &&& is_text(member_at(j, 2), path)
    &&& is_text(member_at(j, 3), format)
    &&& if format == "json"@ {
        &&& has_keys(j, seq!["ok"@, "direction"@, "path"@, "format"@, "attempt"@, "replacedFields"@, "beforeUrls"@, "afterUrls"@, "raw"@])
        &&& count_is(member_at(j, 5), replaced)
        &&& texts_json(member_at(j, 6), before)
        &&& texts_json(member_at(j, 7), after)
    } else {
        &&& has_keys(j, seq!["ok"@, "direction"@, "path"@, "format"@, "replacedFields"@, "beforeUrls"@, "afterUrls"@, "raw"@])
        &&& count_is(member_at(j, 4), replaced)
        &&& texts_json(member_at(j, 5), before)
        &&& texts_json(member_at(j, 6), after)
    }
}

impl WebhookSync {
    fn applied_json(&self, name: &str, after: &Vec<String>, path: &str, put_result: Json) -> (r: Json)
        ensures
            write_report(r, self.direction@, path@, "json"@, self.replaced as nat, self.before_urls@, after@),
            is_text(member_at(r, 4), name@),
    {
        let mut m: Vec<(String, Json)> = Vec::new();
        m.push(member("ok", Json::Bool(true)));
        m.push(member("direction", text(self.direction)));
        m.push(member("path", text(path)));
        m.push(member("format", text("json")));
        m.push(member("attempt", text(name)));
        m.push(member("replacedFields", count_json(self.replaced)));
        m.push(member("beforeUrls", strings_json(&self.before_urls)));
        m.push(member("afterUrls", strings_json(after)));
        m.push(member("raw", put_result));
        proof {
            reveal_strlit("json");
        }
        Json::Object(m)
    }

    /// Settles write shape `k` against the URLs read back.
    fn settle(&mut self, k: usize, after: Vec<String>) -> (r: SyncAction)
        requires
            old(self).wf(),
            k < 3,
            old(self).attempts@.len() == 3,
        ensures
            final(self).wf(),
            final(self).target == old(self).target,
            final(self).target_cmp == old(self).target_cmp,
            final(self).direction == old(self).direction,
            final(self).host_id == old(self).host_id,
            final(self).attempts == old(self).attempts,
            final(self).replaced == old(self).replaced,
            final(self).before_urls == old(self).before_urls,
            settled(*old(self), *final(self), k as int, after@, r),
    {
        if is_write_applied(&after, self.target_cmp.as_str()) {
            self.stage = SyncStage::Finished;
            let mut put_result = Json::Null;
            core::mem::swap(&mut put_result, &mut self.put_result);
            let name = self.attempts[k].name;
            let path = self.attempts[k].path.clone();
            return SyncAction::Done(Ok(self.applied_json(name, &after, path.as_str(), put_result)));
        }
        let e = not_applied_error(self.attempts[k].name, &after);
        let ghost before = self.errors@;
        self.errors.push(e);
        assert(self.errors@.subrange(0, before.len() as int) =~= before);
        self.next_shape(k + 1)
    }

    /// The next step after `event` answered the current one.
    pub fn next(&mut self, event: SyncEvent) -> (r: SyncAction)
        requires
            old(self).wf(),
            old(self).expects(event),
        ensures
            final(self).wf(),
            final(self).target == old(self).target,
            final(self).target_cmp == old(self).target_cmp,
            final(self).direction == old(self).direction,
            !(old(self).stage is ReadJson) ==> final(self).host_id == old(self).host_id && final(self).attempts
                == old(self).attempts && final(self).replaced == old(self).replaced && final(self).before_urls
                == old(self).before_urls,
            match (old(self).stage, event) {
                (SyncStage::ReadJson(i), SyncEvent::JsonRead(Err(_))) => if i == 0 {
                    final(self).stage == SyncStage::ReadJson(1) && (r matches SyncAction::ReadJson(p)
                        && p@ == "ISAPI/Event/notification/httpHosts?format=json"@)
                } else {
                    final(self).stage == SyncStage::ReadRaw(0) && (r matches SyncAction::ReadRaw(p) && p@ == raw_path(0))
                },
                (SyncStage::ReadJson(_), SyncEvent::JsonRead(Ok(raw))) => exists|e: Json| #[trigger] same_json(entry_of(raw), e) && if url_fields_from(e, 0) > 0 {
                    &&& final(self).stage == SyncStage::Write(0)
                    &&& url_rewritten(e, final(self).entry, final(self).target@)
                    &&& final(self).replaced as nat == capped(url_fields_from(e, 0))
                    &&& final(self).errors@.len() == 0
                    &&& final(self).host_id@ == host_of(raw)
                    &&& attempts_for(final(self).attempts@, final(self).host_id@)
                    &&& puts(r, final(self).attempts@[0].path@, final(self).attempts@[0].list_payload, final(self).entry)
                } else {
                    final(self).stage == SyncStage::ReadRaw(0) && (r matches SyncAction::ReadRaw(p) && p@ == raw_path(0))
                },
                (SyncStage::Write(k), SyncEvent::PutReply(res)) => match res {
                    Err(e) => final(self).errors@.last()@ == old(self).attempts@[k as int].name@ + " => "@ + e@
                        && shape_follows(*old(self), *final(self), k as int, r),
                    Ok((v, t)) => if status_ok_of(v) {
                        final(self).stage == SyncStage::ReadBackEntry(k) && (r matches SyncAction::ReadJson(p)
                            && p@ == "ISAPI/Event/notification/httpHosts/"@ + old(self).host_id@ + "?format=json"@)
                    } else {
                        final(self).errors@.last()@ == old(self).attempts@[k as int].name@ + " => "@ + (
                        "status not OK: "@ + t@) && shape_follows(*old(self), *final(self), k as int, r)
                    },
                },
                (SyncStage::ReadBackEntry(k), SyncEvent::JsonRead(res)) => match res {
                    Ok(raw) if exists|x: Seq<char>| #[trigger] read_back_has(read_back_entry(raw), x) =>
                        read_back_follows(*old(self), *final(self), k as int, |x: Seq<char>| read_back_has(read_back_entry(raw), x), r),
                    _ => final(self).stage == SyncStage::ReadBackList(k) && (r matches SyncAction::ReadJson(p)
                        && p@ == "ISAPI/Event/notification/httpHosts?format=json"@),
                },
                (SyncStage::ReadBackList(k), SyncEvent::JsonRead(res)) => match res {
                    Ok(raw) => read_back_follows(*old(self), *final(self), k as int, |x: Seq<char>| list_has(raw, x), r),
                    Err(_) => read_back_follows(*old(self), *final(self), k as int, |x: Seq<char>| false, r),
                },
                (SyncStage::ReadRaw(i), SyncEvent::RawRead(res)) => {
                    let next_raw_ok = if i + 1 < 2 {
                        final(self).stage == SyncStage::ReadRaw((i + 1) as usize) && (r matches SyncAction::ReadRaw(p) && p@ == raw_path(i + 1))
                    } else {
                        final(self).stage == SyncStage::Finished && (r matches SyncAction::Done(Err(m)) && m@
                            == "Webhook sync qilib bo'lmadi: "@ + joined(views(final(self).raw_errors@), " | "@))
                    };
                    match res {
                        Err(e) => views(final(self).raw_errors@) == views(old(self).raw_errors@).push(raw_path(i as int) + " => "@ + e@)
                            && next_raw_ok,
                        Ok(t) => if !(exists|x: Seq<char>| #[trigger] text_has(t@, x)) || tags_replaced(t@, url_tags(), old(self).target@).1 == 0 {
                            final(self).raw_errors == old(self).raw_errors && next_raw_ok
                        } else {
                            final(self).stage == SyncStage::PutRaw(i) && (r matches SyncAction::PutRaw { path, body }
                                && path@ == normalized_put_path(raw_path(i as int)) && body@ == tags_replaced(t@, url_tags(), old(self).target@).0)
                        },
                    }
                },
                (SyncStage::PutRaw(i), SyncEvent::RawPutReply(res)) => match res {
                    Ok(_) => final(self).stage == SyncStage::RawReadBack(i) && (r matches SyncAction::ReadRaw(p)
                        && p@ == raw_path(i as int)),
                    Err(e) => final(self).stage == SyncStage::Finished && (r matches SyncAction::Done(Err(m)) && m == e),
                },
                (SyncStage::RawReadBack(i), SyncEvent::RawRead(res)) => final(self).stage == SyncStage::Finished && match res {
                    Ok(t) => exists|after: Seq<String>| #![trigger views(after)] strictly_sorted(views(after))
                        && (forall|x: Seq<char>| #[trigger] text_has(t@, x) <==> views(after).contains(x))
                        && if exists|i: int| 0 <= i < after.len() && device_relative_url((#[trigger] after[i])@) == old(self).target_cmp@ {
                        r matches SyncAction::Done(Ok(j)) && write_report(j, old(self).direction@,
                            normalized_put_path(raw_path(i as int)), "raw"@, old(self).raw_replaced as nat, old(self).raw_before@, after)
                    } else {
                        r matches SyncAction::Done(Err(m)) && m@ == "Webhook sync qilib bo'lmadi: "@ + not_applied_text(raw_path(i as int), after)
                    },
                    Err(e) => r matches SyncAction::Done(Err(m)) && m == e,
                },
                _ => true,
            },
    {
        match event {
            SyncEvent::JsonRead(res) => {
                match self.stage {
                    SyncStage::ReadJson(i) => match res {
                        Err(_) => {
                            if i == 0 {
                                self.stage = SyncStage::ReadJson(1);
                                let paths = webhook_candidate_paths();
                                SyncAction::ReadJson(String::from_str(paths[1]))
                            } else {
                                self.next_raw(0)
                            }
                        },
                        Ok(raw) => self.on_config(raw),
                    },
                    SyncStage::ReadBackEntry(k) => {
                        let found = match &res {
                            Ok(raw) => {
                                let urls = match raw.get("HttpHostNotification") {
                                    Some(e) => entry_webhook_urls(e),
                                    None => entry_webhook_urls(raw),
                                };
                                if urls.len() > 0 {
                                    proof {
                                        assert(views(urls@)[0] == urls@[0]@);
                                        assert(views(urls@).contains(urls@[0]@));
                                    }
                                    Some(urls)
                                } else {
                                    proof {
                                        assert forall|x: Seq<char>| !read_back_has(read_back_entry(*raw), x) by {
                                            if read_back_has(read_back_entry(*raw), x) {
                                                assert(views(urls@).contains(x));
                                            }
                                        }
                                    }
                                    None
                                }
                            },
                            Err(_) => None,
                        };
                        match found {
                            Some(urls) => {
                                let ghost has = |x: Seq<char>| read_back_has(read_back_entry(res->Ok_0), x);
                                proof {
                                    assert forall|x: Seq<char>| has(x) <==> views(urls@).contains(x) by {}
                                    lemma_applied_iff(urls@, has, self.target_cmp@);
                                }
                                self.settle(k, urls)
                            },
                            None => {
                                self.stage = SyncStage::ReadBackList(k);
                                SyncAction::ReadJson(String::from_str("ISAPI/Event/notification/httpHosts?format=json"))
                            },
                        }
                    },
                    SyncStage::ReadBackList(k) => {
                        let urls = match &res {
                            Ok(raw) => extract_webhook_urls_from_json(raw),
                            Err(_) => Vec::new(),
                        };
                        proof {
                            match res {
                                Ok(raw) => {
                                    lemma_applied_iff(urls@, |x: Seq<char>| list_has(raw, x), self.target_cmp@);
                                },
                                Err(_) => {
                                    assert(views(urls@) =~= Seq::<Seq<char>>::empty());
                                    lemma_applied_iff(urls@, |x: Seq<char>| false, self.target_cmp@);
                                },
                            }
                        }
                        self.settle(k, urls)
                    },
                    _ => SyncAction::Done(Err(String::from_str("unexpected read"))),
                }
            },
            SyncEvent::PutReply(res) => {
                let k = match self.stage {
                    SyncStage::Write(k) => k,
                    _ => {
                        return SyncAction::Done(Err(String::from_str("unexpected write answer")));
                    },
                };
                let ghost before = self.errors@;
                match res {
                    Err(e) => {
                        self.errors.push(attempt_error(self.attempts[k].name, e.as_str()));
                        assert(self.errors@.subrange(0, before.len() as int) =~= before);
                        self.next_shape(k + 1)
                    },
                    Ok((v, t)) => {
                        if response_status_ok(&v) {
                            self.put_result = v;
                            self.stage = SyncStage::ReadBackEntry(k);
                            SyncAction::ReadJson(host_entry_path(self.host_id.as_str()))
                        } else {
                            let mut m = String::from_str("status not OK: ");
                            m.append(t.as_str());
                            self.errors.push(attempt_error(self.attempts[k].name, m.as_str()));
                            assert(self.errors@.subrange(0, before.len() as int) =~= before);
                            self.next_shape(k + 1)
                        }
                    },
                }
            },
            SyncEvent::RawRead(res) => {
                let i = match self.stage {
                    SyncStage::ReadRaw(i) => i,
                    SyncStage::RawReadBack(i) => {
                        return match res {
                            Ok(t) => self.raw_read_back(i, t),
                            Err(e) => {
                                self.stage = SyncStage::Finished;
                                SyncAction::Done(Err(e))
                            },
                        };
                    },
                    _ => {
                        return SyncAction::Done(Err(String::from_str("unexpected raw read")));
                    },
                };
                let paths = webhook_raw_candidate_paths();
                let path = paths[i];
                match res {
                    Err(e) => {
                        let mut m = String::from_str(path);
                        m.append(" => ");
                        m.append(e.as_str());
                        let ghost before = views(self.raw_errors@);
                        self.raw_errors.push(m);
                        assert(views(self.raw_errors@) =~= before.push(raw_path(i as int) + " => "@ + e@));
                        self.next_raw(i + 1)
                    },
                    Ok(t) => {
                        let before_urls = extract_urls_from_text(t.as_str());
                        if before_urls.len() == 0 {
                            proof {
                                assert forall|x: Seq<char>| !text_has(t@, x) by {
                                    if text_has(t@, x) {
                                        assert(views(before_urls@).contains(x));
                                    }
                                }
                            }
                            return self.next_raw(i + 1);
                        }
                        proof {
                            assert(views(before_urls@)[0] == before_urls@[0]@);
                            assert(views(before_urls@).contains(before_urls@[0]@));
                            assert(text_has(t@, before_urls@[0]@));
                        }
                        let (updated, n) = replace_xml_url_tags(t.as_str(), self.target.as_str());
                        if n == 0 {
                            return self.next_raw(i + 1);
                        }
                        self.raw_before = before_urls;
                        self.raw_replaced = n;
                        self.stage = SyncStage::PutRaw(i);
                        SyncAction::PutRaw { path: normalize_http_hosts_put_path(path), body: updated }
                    },
                }
            },
            SyncEvent::RawPutReply(res) => {
                let i = match self.stage {
                    SyncStage::PutRaw(i) => i,
                    _ => {
                        return SyncAction::Done(Err(String::from_str("unexpected raw write answer")));
                    },
                };
                match res {
                    Err(e) => {
                        self.stage = SyncStage::Finished;
                        SyncAction::Done(Err(e))
                    },
                    Ok(_) => {
                        self.stage = SyncStage::RawReadBack(i);
                        let paths = webhook_raw_candidate_paths();
                        SyncAction::ReadRaw(paths[i])
                    },
                }
            },
        }
    }

    /// The raw write to path `i` was read back as `text`.
    fn raw_read_back(&mut self, i: usize, body: String) -> (r: SyncAction)
        requires
            i < 2,
        ensures
            final(self).wf(),
            *final(self) == (WebhookSync { stage: SyncStage::Finished, ..*old(self) }),
            exists|after: Seq<String>| #![trigger views(after)] strictly_sorted(views(after))
                && (forall|x: Seq<char>| #[trigger] text_has(body@, x) <==> views(after).contains(x))
                && if exists|k: int| 0 <= k < after.len() && device_relative_url((#[trigger] after[k])@) == old(self).target_cmp@ {
                r matches SyncAction::Done(Ok(j)) && write_report(j, old(self).direction@,
                    normalized_put_path(raw_path(i as int)), "raw"@, old(self).raw_replaced as nat, old(self).raw_before@, after)
            } else {
                r matches SyncAction::Done(Err(m)) && m@ == "Webhook sync qilib bo'lmadi: "@ + not_applied_text(raw_path(i as int), after)
            },
    {
        self.stage = SyncStage::Finished;
        let paths = webhook_raw_candidate_paths();
        let after = extract_urls_from_text(body.as_str());
        if !is_write_applied(&after, self.target_cmp.as_str()) {
            let mut m = String::from_str("Webhook sync qilib bo'lmadi: ");
            let e = not_applied_error(paths[i], &after);
            m.append(e.as_str());
            return SyncAction::Done(Err(m));
        }
        let put_path = normalize_http_hosts_put_path(paths[i]);
        let mut raw: Vec<(String, Json)> = Vec::new();
        raw.push(member("text", Json::Str(body)));
        let mut m: Vec<(String, Json)> = Vec::new();
        m.push(member("ok", Json::Bool(true)));
        m.push(member("direction", text(self.direction)));
        m.push(member("path", Json::Str(put_path)));
        m.push(member("format", text("raw")));
        m.push(member("replacedFields", count_json(self.raw_replaced)));
        m.push(member("beforeUrls", strings_json(&self.raw_before)));
        m.push(member("afterUrls", strings_json(&after)));
        m.push(member("raw", Json::Object(raw)));
        proof {
            reveal_strlit("raw");
            reveal_strlit("json");
            assert("raw"@ != "json"@) by {
                assert("raw"@[0] != "json"@[0]);
            }
        }
        SyncAction::Done(Ok(Json::Object(m)))
    }

    /// The configuration was read as JSON: rewrite the URL fields of its entry, or move to the
    /// raw paths where it has none.
    fn on_config(&mut self, raw: Json) -> (r: SyncAction)
        requires
            old(self).wf(),
        ensures
            final(self).wf(),
            final(self).target == old(self).target,
            final(self).target_cmp == old(self).target_cmp,
            final(self).direction == old(self).direction,
            exists|e: Json| #[trigger] same_json(entry_of(raw), e) && if url_fields_from(e, 0) > 0 {
                &&& final(self).stage == SyncStage::Write(0)
                &&& url_rewritten(e, final(self).entry, final(self).target@)
                &&& final(self).replaced as nat == capped(url_fields_from(e, 0))
                &&& final(self).errors@.len() == 0
                &&& final(self).host_id@ == host_of(raw)
                &&& attempts_for(final(self).attempts@, final(self).host_id@)
                &&& puts(r, final(self).attempts@[0].path@, final(self).attempts@[0].list_payload, final(self).entry)
            } else {
                final(self).stage == SyncStage::ReadRaw(0) && (r matches SyncAction::ReadRaw(p) && p@ == raw_path(0))
            },
    {
        let found = match extract_primary_http_host_notification(&raw) {
            Some((e, id)) => {
                assert(entry_of(raw) == *e);
                Some((e.duplicate(), id))
            },
            None => None,
        };
        let (entry, host) = match found {
            Some(p) => p,
            None => {
                let copy = raw.duplicate();
                (copy, String::from_str("1"))
            },
        };
        let ghost e0 = entry;
        assert(same_json(entry_of(raw), e0));
        let before = entry_webhook_urls(&entry);
        let (updated, n) = replace_url_fields(entry, self.target.as_str());
        if n > 0 {
            self.before_urls = before;
            self.entry = updated;
            self.replaced = n;
            self.attempts = write_attempts(host.as_str());
            self.host_id = host;
            self.errors = Vec::new();
            let r = self.next_shape(0);
            assert(url_fields_from(e0, 0) > 0);
            assert(url_rewritten(e0, self.entry, self.target@));
            assert(self.errors@.len() == 0);
            r
        } else {
            let r = self.next_raw(0);
            assert(url_fields_from(e0, 0) == 0);
            r
        }
    }
}

/// The URLs read back hold the target exactly when one of the listed ones does.
proof fn lemma_applied_iff(urls: Seq<String>, has: spec_fn(Seq<char>) -> bool, target: Seq<char>)
    requires
        forall|x: Seq<char>| #[trigger] has(x) <==> views(urls).contains(x),
    ensures
        (exists|i: int| 0 <= i < urls.len() && device_relative_url((#[trigger] urls[i])@) == target)
            <==> (exists|x: Seq<char>| #[trigger] has(x) && device_relative_url(x) == target),
{
    if exists|i: int| 0 <= i < urls.len() && device_relative_url((#[trigger] urls[i])@) == target {
        let i = choose|i: int| 0 <= i < urls.len() && device_relative_url((#[trigger] urls[i])@) == target;
        assert(views(urls)[i] == urls[i]@);
        assert(has(urls[i]@));
    }
    if exists|x: Seq<char>| #[trigger] has(x) && device_relative_url(x) == target {
        let x = choose|x: Seq<char>| #[trigger] has(x) && device_relative_url(x) == target;
        assert(views(urls).contains(x));
        let i = choose|i: int| 0 <= i < views(urls).len() && views(urls)[i] == x;
        assert(urls[i]@ == x);
    }
}

/// Where a webhook read stands.
#[derive(PartialEq, Eq, Structural, Clone, Copy, Debug)]
pub enum ReadStage {
    ReadJson(usize),
    ReadRaw(usize),
    Finished,
}

/// A webhook read in progress.
pub struct WebhookRead {
    pub direction: &'static str,
    pub stage: ReadStage,
    /// The URLs found, once found.
    pub urls: Vec<String>,
    /// The primary URL among them for the direction.
    pub primary: Option<String>,
    /// One diagnostic per raw path that could not be read.
    pub errors: Vec<String>,
}

/// `j` is `Str(t)` where `t` is given, else `Null`.
pub open spec fn text_or_null_json(j: Json, t: Option<String>) -> bool {
    match t {
        Some(x) => is_text(j, x@),
        None => j == Json::Null,
    }
}

/// `j` reports a read: the direction, the path and format it was read from, the primary URL
/// (or null), and the URLs found.
pub open spec fn read_report(j: Json, direction: Seq<char>, path: Seq<char>, format: Seq<char>, primary: Option<String>, urls: Seq<String>) -> bool {
    &&& has_keys(j, seq!["ok"@, "direction"@, "path"@, "format"@, "primaryUrl"@, "urls"@, "raw"@])
    &&& member_at(j, 0) == Json::Bool(true)
    &&& is_text(member_at(j, 1), direction)
    &&& is_text(member_at(j, 2), path)
    &&& is_text(member_at(j, 3), format)
    &&& text_or_null_json(member_at(j, 4), primary)
    &&& texts_json(member_at(j, 5), urls)
}

/// The JSON configuration path of index `i`.
pub open spec fn json_path(i: int) -> Seq<char> {
    if i == 0 {
        "ISAPI/Event/notification/httpHosts/1?format=json"@
    } else {
        "ISAPI/Event/notification/httpHosts?format=json"@
    }
}

fn opt_text(t: &Option<String>) -> (r: Json)
    ensures
        text_or_null_json(r, *t),
{
    match t {
        Some(x) => Json::Str(x.clone()),
        None => Json::Null,
    }
}

impl WebhookRead {
    pub open spec fn wf(&self) -> bool {
        match self.stage {
            ReadStage::ReadJson(i) | ReadStage::ReadRaw(i) => i < 2,
            ReadStage::Finished => true,
        }
    }

    pub open spec fn expects(&self, event: SyncEvent) -> bool {
        match self.stage {
            ReadStage::ReadJson(_) => event is JsonRead,
            ReadStage::ReadRaw(_) => event is RawRead,
            ReadStage::Finished => false,
        }
    }

    /// Starts reading the `direction` webhook: the first JSON read.
    pub fn start(direction: &str) -> (r: Result<(WebhookRead, SyncAction), String>)
        ensures
            r is Err <==> direction_of(direction@) is None,
            match r {
                Ok((s, a)) => s.wf() && s.stage == ReadStage::ReadJson(0) && direction_of(direction@) == Some(s.direction@)
                    && (a matches SyncAction::ReadJson(p) && p@ == "ISAPI/Event/notification/httpHosts/1?format=json"@),
                Err(_) => true,
            },
    {
        let d = match normalize_direction(direction) {
            Ok(d) => d,
            Err(e) => {
                return Err(e);
            },
        };
        let paths = webhook_candidate_paths();
        let s = WebhookRead { direction: d, stage: ReadStage::ReadJson(0), urls: Vec::new(), primary: None, errors: Vec::new() };
        Ok((s, SyncAction::ReadJson(String::from_str(paths[0]))))
    }

    fn next_raw(&mut self, i: usize) -> (r: SyncAction)
        requires
            i <= 2,
        ensures
            final(self).wf(),
            final(self).errors == old(self).errors,
            final(self).direction == old(self).direction,
            final(self).urls == old(self).urls,
            final(self).primary == old(self).primary,
            i < 2 ==> final(self).stage == ReadStage::ReadRaw(i) && (r matches SyncAction::ReadRaw(p) && p@ == raw_path(i as int)),
            i == 2 ==> final(self).stage == ReadStage::Finished && (r matches SyncAction::Done(Err(e)) && e@
                == "Webhookni qurilmadan o'qib bo'lmadi: "@ + joined(views(old(self).errors@), " | "@)),
    {
        if i < 2 {
            self.stage = ReadStage::ReadRaw(i);
            let paths = webhook_raw_candidate_paths();
            SyncAction::ReadRaw(paths[i])
        } else {
            self.stage = ReadStage::Finished;
            let mut m = String::from_str("Webhookni qurilmadan o'qib bo'lmadi: ");
            let j = join(&self.errors, " | ");
            m.append(j.as_str());
            SyncAction::Done(Err(m))
        }
    }

    /// The next step after `event` answered the current one. A JSON document settles the
    /// read only where it yields a primary URL; a text settles it where it holds any URL.
    pub fn read_next(&mut self, event: SyncEvent) -> (r: SyncAction)
        requires
            old(self).wf(),
            old(self).expects(event),
        ensures
            final(self).wf(),
            match (old(self).stage, event) {
                (ReadStage::ReadJson(i), SyncEvent::JsonRead(Ok(raw))) => {
                    &&& forall|x: Seq<char>| #![auto] views(final(self).urls@).contains(x) <==> list_has(raw, x)
                    &&& opt_view(final(self).primary) == primary_url(views(final(self).urls@), lower_of(old(self).direction@))
                    &&& if final(self).primary is Some {
                        final(self).stage == ReadStage::Finished && (r matches SyncAction::Done(Ok(j))
                            && read_report(j, old(self).direction@, json_path(i as int), "json"@, final(self).primary, final(self).urls@))
                    } else {
                        final(self).stage == ReadStage::ReadRaw(0) && (r matches SyncAction::ReadRaw(p) && p@ == raw_path(0))
                    }
                },
                (ReadStage::ReadJson(i), SyncEvent::JsonRead(Err(_))) => if i == 0 {
                    final(self).stage == ReadStage::ReadJson(1) && (r matches SyncAction::ReadJson(p)
                        && p@ == "ISAPI/Event/notification/httpHosts?format=json"@)
                } else {
                    final(self).stage == ReadStage::ReadRaw(0) && (r matches SyncAction::ReadRaw(p) && p@ == raw_path(0))
                },
                (ReadStage::ReadRaw(i), SyncEvent::RawRead(Ok(t))) => if exists|x: Seq<char>| #[trigger] text_has(t@, x) {
                    &&& forall|x: Seq<char>| #![auto] views(final(self).urls@).contains(x) <==> text_has(t@, x)
                    &&& opt_view(final(self).primary) == primary_url(views(final(self).urls@), lower_of(old(self).direction@))
                    &&& final(self).stage == ReadStage::Finished
                    &&& r matches SyncAction::Done(Ok(j)) && read_report(j, old(self).direction@, raw_path(i as int), "raw"@, final(self).primary, final(self).urls@)
                } else {
                    final(self).errors == old(self).errors && if i + 1 < 2 {
                        final(self).stage == ReadStage::ReadRaw((i + 1) as usize)
                    } else {
                        final(self).stage == ReadStage::Finished && r matches SyncAction::Done(Err(_))
                    }
                },
                (ReadStage::ReadRaw(i), SyncEvent::RawRead(Err(e))) => {
                    &&& views(final(self).errors@) == views(old(self).errors@).push(raw_path(i as int) + " => "@ + e@)
                    &&& if i + 1 < 2 {
                        final(self).stage == ReadStage::ReadRaw((i + 1) as usize)
                    } else {
                        final(self).stage == ReadStage::Finished && r matches SyncAction::Done(Err(_))
                    }
                },
                _ => true,
            },
    {
        match event {
            SyncEvent::JsonRead(res) => {
                let i = match self.stage {
                    ReadStage::ReadJson(i) => i,
                    _ => {
                        return SyncAction::Done(Err(String::from_str("unexpected read")));
                    },
                };
                match res {
                    Err(_) => {
                        if i == 0 {
                            self.stage = ReadStage::ReadJson(1);
                            let paths = webhook_candidate_paths();
                            SyncAction::ReadJson(String::from_str(paths[1]))
                        } else {
                            self.next_raw(0)
                        }
                    },
                    Ok(raw) => {
                        let urls = extract_webhook_urls_from_json(&raw);
                        let primary = pick_primary_webhook_url(urls.as_slice(), self.direction);
                        proof {
                            assert(lower_of(self.direction@) == lower_of(old(self).direction@));
                        }
                        self.urls = urls;
                        self.primary = primary;
                        if self.primary.is_none() {
                            return self.next_raw(0);
                        }
                        self.stage = ReadStage::Finished;
                        let paths = webhook_candidate_paths();
                        let scoped = match extract_primary_http_host_notification(&raw) {
                            Some((e, _)) => {
                                let mut m: Vec<(String, Json)> = Vec::new();
                                m.push(member("HttpHostNotification", e.duplicate()));
                                Json::Object(m)
                            },
                            None => raw.duplicate(),
                        };
                        let mut m: Vec<(String, Json)> = Vec::new();
                        m.push(member("ok", Json::Bool(true)));
                        m.push(member("direction", text(self.direction)));
                        m.push(member("path", text(paths[i])));
                        m.push(member("format", text("json")));
                        m.push(member("primaryUrl", opt_text(&self.primary)));
                        m.push(member("urls", strings_json(&self.urls)));
                        m.push(member("raw", scoped));
                        SyncAction::Done(Ok(Json::Object(m)))
                    },
                }
            },
            SyncEvent::RawRead(res) => {
                let i = match self.stage {
                    ReadStage::ReadRaw(i) => i,
                    _ => {
                        return SyncAction::Done(Err(String::from_str("unexpected raw read")));
                    },
                };
                let paths = webhook_raw_candidate_paths();
                match res {
                    Err(e) => {
                        let mut m = String::from_str(paths[i]);
                        m.append(" => ");
                        m.append(e.as_str());
                        let ghost before = views(self.errors@);
                        self.errors.push(m);
                        assert(views(self.errors@) =~= before.push(raw_path(i as int) + " => "@ + e@));
                        self.next_raw(i + 1)
                    },
                    Ok(t) => {
                        let urls = extract_urls_from_text(t.as_str());
                        if urls.len() == 0 {
                            proof {
                                assert forall|x: Seq<char>| !text_has(t@, x) by {
                                    if text_has(t@, x) {
                                        assert(views(urls@).contains(x));
                                    }
                                }
                            }
                            return self.next_raw(i + 1);
                        }
                        proof {
                            assert(views(urls@)[0] == urls@[0]@);
                            assert(views(urls@).contains(urls@[0]@));
                            assert(text_has(t@, urls@[0]@));
                        }
                        let primary = pick_primary_webhook_url(urls.as_slice(), self.direction);
                        self.urls = urls;
                        self.primary = primary;
                        self.stage = ReadStage::Finished;
                        let mut raw: Vec<(String, Json)> = Vec::new();
                        raw.push(member("text", Json::Str(t)));
                        let mut m: Vec<(String, Json)> = Vec::new();
                        m.push(member("ok", Json::Bool(true)));
                        m.push(member("direction", text(self.direction)));
                        m.push(member("path", text(paths[i])));
                        m.push(member("format", text("raw")));
                        m.push(member("primaryUrl", opt_text(&self.primary)));
                        m.push(member("urls", strings_json(&self.urls)));
                        m.push(member("raw", Json::Object(raw)));
                        SyncAction::Done(Ok(Json::Object(m)))
                    },
                }
            },
            _ => SyncAction::Done(Err(String::from_str("unexpected answer"))),
        }
    }
}

} // verus!

