//! The decisions of an authenticated device request: which attempt comes next, given the
//! reply to the previous one. The caller sends the requests.
use vstd::prelude::*;

use crate::digest::{
    build_digest_authorization, challenge_view, digest_authorization_of, parse_digest_challenge,
    parsed_challenge,
};
use crate::text::{decimal, decimal_string, trim, trim_ws};

verus! {

/// A reply from the device, as far as the decisions read it.
pub struct Reply {
    /// The HTTP status code.
    pub status: u16,
    /// The canonical reason phrase of the status, where it has one.
    pub reason: Option<String>,
    /// The `WWW-Authenticate` header, empty where it is absent.
    pub www_authenticate: String,
    /// The body text.
    pub body: String,
}

/// The credential an attempt carries.
pub enum Credential {
    Anonymous,
    Basic,
    /// An `Authorization: Digest ...` header value.
    Digest(String),
}

/// Which attempt the last reply answers.
#[derive(PartialEq, Eq, Structural, Clone, Copy, Debug)]
pub enum AuthStage {
    /// The request, sent without credentials.
    Plain,
    /// The request, answering the first challenge.
    Digest,
    /// The request, with Basic credentials because no challenge came.
    Basic,
    /// The request, answering a challenge that came only after Basic credentials.
    BasicThenDigest,
    /// An unauthenticated GET to the upload URL, sent to learn the challenge before a form.
    Probe,
    /// The form, answering the probe's challenge.
    FormDigest,
    /// The form, with Basic credentials.
    FormBasic,
}

/// What to do next.
pub enum AuthStep {
    /// Send the request again with this credential.
    Send(Credential),
    /// Send the probe (an unauthenticated GET to the same URL).
    Probe,
    /// Send the form with this credential.
    SendForm(Credential),
    /// The last reply is the answer.
    Accept,
    /// Give up with this message.
    Reject(String),
}

/// How many more requests may follow the attempt of `stage`: the negotiation sends at most
/// three requests in all.
pub open spec fn attempts_left(stage: AuthStage) -> nat {
    match stage {
        AuthStage::Plain => 2,
        AuthStage::Basic => 1,
        AuthStage::Probe => 1,
        _ => 0,
    }
}

/// `step` sends another request.
pub open spec fn sends(step: AuthStep) -> bool {
    step is Send || step is SendForm || step is Probe
}

pub open spec fn is_success(status: u16) -> bool {
    200 <= status < 300
}

/// `<code> <reason>`, as the status is displayed.
pub open spec fn status_text_of(r: Reply) -> Seq<char> {
    decimal(r.status as nat) + " "@ + match r.reason {
        Some(x) => x@,
        None => "<unknown status code>"@,
    }
}

/// `HTTP <status>: <reason>`.
pub open spec fn short_error_of(r: Reply) -> Seq<char> {
    "HTTP "@ + status_text_of(r) + ": "@ + match r.reason {
        Some(x) => x@,
        None => Seq::empty(),
    }
}

/// `HTTP <status>: <reason>`, followed by `: <body>` where the body is not blank.
pub open spec fn reply_error_of(r: Reply) -> Seq<char> {
    if trim_ws(r.body@).len() == 0 {
        short_error_of(r)
    } else {
        short_error_of(r) + ": "@ + r.body@
    }
}

/// A 401 without a challenge after credentials were offered.
pub open spec fn no_challenge_error_of(r: Reply) -> Seq<char> {
    "Unauthorized (no digest challenge). WWW-Authenticate: "@ + r.www_authenticate@
}

fn status_text(r: &Reply) -> (s: String)
    ensures
        s@ == status_text_of(*r),
{
    let mut s = decimal_string(r.status as u64);
    s.append(" ");
    match &r.reason {
        Some(x) => s.append(x.as_str()),
        None => s.append("<unknown status code>"),
    }
    s
}

pub fn short_error(r: &Reply) -> (s: String)
    ensures
        s@ == short_error_of(*r),
{
    let mut s = String::from_str("HTTP ");
    let t = status_text(r);
    s.append(t.as_str());
    s.append(": ");
    match &r.reason {
        Some(x) => s.append(x.as_str()),
        None => {},
    }
    s
}

/// The message for a failed reply: status, reason, and the body where there is one.
pub fn response_error(r: &Reply) -> (s: String)
    ensures
        s@ == reply_error_of(*r),
{
    let mut s = short_error(r);
    if trim(r.body.as_str()).unicode_len() > 0 {
        s.append(": ");
        s.append(r.body.as_str());
    }
    s
}

fn no_challenge_error(r: &Reply) -> (s: String)
    ensures
        s@ == no_challenge_error_of(*r),
{
    let mut s = String::from_str("Unauthorized (no digest challenge). WWW-Authenticate: ");
    s.append(r.www_authenticate.as_str());
    s
}

/// The Digest answer to the challenge in `r`, if `r` carries one: the header, or why it
/// cannot be built.
pub open spec fn digest_answer_of(
    r: Reply,
    username: Seq<char>,
    password: Seq<char>,
    method: Seq<char>,
    url: Seq<char>,
    cnonce: Seq<char>,
) -> Option<Result<Seq<char>, Seq<char>>> {
    match parsed_challenge(r.www_authenticate@) {
        Some(c) => Some(digest_authorization_of(username, password, method, url, c, cnonce)),
        None => None,
    }
}

fn digest_answer(
    r: &Reply,
    username: &str,
    password: &str,
    method: &str,
    url: &str,
    cnonce: &str,
) -> (a: Option<Result<String, String>>)
    ensures
        match a {
            None => digest_answer_of(*r, username@, password@, method@, url@, cnonce@) is None,
            Some(Ok(h)) => digest_answer_of(*r, username@, password@, method@, url@, cnonce@)
                == Some(Ok::<Seq<char>, Seq<char>>(h@)),
            Some(Err(e)) => digest_answer_of(*r, username@, password@, method@, url@, cnonce@)
                == Some(Err::<Seq<char>, Seq<char>>(e@)),
        },
{
    match parse_digest_challenge(r.www_authenticate.as_str()) {
        None => None,
        Some(c) => Some(build_digest_authorization(username, password, method, url, &c, cnonce)),
    }
}

/// The first attempt: the request itself, or the probe where the body is a form (a form
/// cannot be sent twice).
pub fn auth_start(multipart: bool) -> (r: (AuthStage, AuthStep))
    ensures
        multipart ==> r.0 == AuthStage::Probe && r.1 is Probe,
        !multipart ==> r.0 == AuthStage::Plain && r.1 matches AuthStep::Send(Credential::Anonymous),
{
    if multipart {
        (AuthStage::Probe, AuthStep::Probe)
    } else {
        (AuthStage::Plain, AuthStep::Send(Credential::Anonymous))
    }
}

/// `step` sends (or, for a form, sends as a form) the Digest answer `a`, or rejects with its
/// error.
pub open spec fn answers_with(step: AuthStep, a: Result<Seq<char>, Seq<char>>, form: bool) -> bool {
    match a {
        Ok(h) => if form {
            step matches AuthStep::SendForm(Credential::Digest(x)) && x@ == h
        } else {
            step matches AuthStep::Send(Credential::Digest(x)) && x@ == h
        },
        Err(e) => step matches AuthStep::Reject(m) && m@ == e,
    }
}

pub open spec fn rejects_with(step: AuthStep, msg: Seq<char>) -> bool {
    step matches AuthStep::Reject(m) && m@ == msg
}

/// The decision after `reply` answered the attempt of `stage`. Devices signal missing
/// credentials with 401, 400 or 403; a challenge is answered with Digest, and without one
/// Basic credentials are tried, once more answered with Digest if they draw a challenge.
/// Only MD5 challenges are answered. `cnonce` is the client nonce for `qop=auth`.
pub fn auth_next(
    stage: AuthStage,
    reply: &Reply,
    username: &str,
    password: &str,
    method: &str,
    url: &str,
    cnonce: &str,
) -> (r: (AuthStage, AuthStep))
    ensures
        sends(r.1) ==> attempts_left(r.0) < attempts_left(stage),
        ({
            let ok = is_success(reply.status);
            let answer = digest_answer_of(*reply, username@, password@, method@, url@, cnonce@);
            match stage {
                AuthStage::Plain => if ok {
                    r.1 is Accept
                } else if reply.status != 401 && reply.status != 400 && reply.status != 403 {
                    rejects_with(r.1, reply_error_of(*reply))
                } else {
                    match answer {
                        Some(a) => r.0 == AuthStage::Digest && answers_with(r.1, a, false),
                        None => r.0 == AuthStage::Basic && r.1 matches AuthStep::Send(Credential::Basic),
                    }
                },
                AuthStage::Basic => if ok {
                    r.1 is Accept
                } else {
                    match answer {
                        Some(a) if reply.status == 401 => r.0 == AuthStage::BasicThenDigest && answers_with(r.1, a, false),
                        _ => if reply.status == 401 {
                            rejects_with(r.1, no_challenge_error_of(*reply))
                        } else {
                            rejects_with(r.1, reply_error_of(*reply))
                        },
                    }
                },
                AuthStage::Digest | AuthStage::BasicThenDigest => if ok {
                    r.1 is Accept
                } else {
                    rejects_with(r.1, reply_error_of(*reply))
                },
                AuthStage::Probe => match answer {
                    Some(a) if reply.status == 401 => r.0 == AuthStage::FormDigest && answers_with(r.1, a, true),
                    _ => r.0 == AuthStage::FormBasic && r.1 matches AuthStep::SendForm(Credential::Basic),
                },
                AuthStage::FormDigest => if ok {
                    r.1 is Accept
                } else {
                    rejects_with(r.1, short_error_of(*reply))
                },
                AuthStage::FormBasic => if ok {
                    r.1 is Accept
                } else if reply.status == 401 {
                    rejects_with(r.1, no_challenge_error_of(*reply))
                } else {
                    rejects_with(r.1, short_error_of(*reply))
                },
            }
        }),
{
    let ok = 200 <= reply.status && reply.status < 300;
    match stage {
        AuthStage::Plain => {
            if ok {
                return (stage, AuthStep::Accept);
            }
            if reply.status != 401 && reply.status != 400 && reply.status != 403 {
                return (stage, AuthStep::Reject(response_error(reply)));
            }
            match digest_answer(reply, username, password, method, url, cnonce) {
                Some(Ok(h)) => (AuthStage::Digest, AuthStep::Send(Credential::Digest(h))),
                Some(Err(e)) => (AuthStage::Digest, AuthStep::Reject(e)),
                None => (AuthStage::Basic, AuthStep::Send(Credential::Basic)),
            }
        },
        AuthStage::Basic => {
            if ok {
                return (stage, AuthStep::Accept);
            }
            if reply.status == 401 {
                match digest_answer(reply, username, password, method, url, cnonce) {
                    Some(Ok(h)) => (AuthStage::BasicThenDigest, AuthStep::Send(Credential::Digest(h))),
                    Some(Err(e)) => (AuthStage::BasicThenDigest, AuthStep::Reject(e)),
                    None => (stage, AuthStep::Reject(no_challenge_error(reply))),
                }
            } else {
                (stage, AuthStep::Reject(response_error(reply)))
            }
        },
        AuthStage::Digest | AuthStage::BasicThenDigest => {
            if ok {
                (stage, AuthStep::Accept)
            } else {
                (stage, AuthStep::Reject(response_error(reply)))
            }
        },
        AuthStage::Probe => {
            if reply.status == 401 {
                match digest_answer(reply, username, password, method, url, cnonce) {
                    Some(Ok(h)) => {
                        return (AuthStage::FormDigest, AuthStep::SendForm(Credential::Digest(h)));
                    },
                    Some(Err(e)) => {
                        return (AuthStage::FormDigest, AuthStep::Reject(e));
                    },
                    None => {},
                }
            }
            (AuthStage::FormBasic, AuthStep::SendForm(Credential::Basic))
        },
        AuthStage::FormDigest => {
            if ok {
                (stage, AuthStep::Accept)
            } else {
                (stage, AuthStep::Reject(short_error(reply)))
            }
        },
        AuthStage::FormBasic => {
            if ok {
                (stage, AuthStep::Accept)
            } else if reply.status == 401 {
                (stage, AuthStep::Reject(no_challenge_error(reply)))
            } else {
                (stage, AuthStep::Reject(short_error(reply)))
            }
        },
    }
}

} // verus!
