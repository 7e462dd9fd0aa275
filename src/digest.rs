//! HTTP Digest authentication (RFC 2617, MD5): reading a challenge and answering it.
use vstd::prelude::*;

use crate::text::{
    chars_of, first_occurrence, lemma_first_occurrence, find_from, opt_view, same_text,
    starts_with, starts_with_str, strip_start, trim, trim_ws, CharClass, ends_with, ends_with_str,
    occurs_at,
};
use crate::uri::{request_target, request_target_of};

verus! {

/// The parameters of a `WWW-Authenticate: Digest ...` challenge.
#[derive(Debug)]
pub struct DigestChallenge {
    pub realm: String,
    pub nonce: String,
    pub qop: Option<String>,
    pub opaque: Option<String>,
    pub algorithm: Option<String>,
}

/// The named parameters of a challenge, each as last given.
pub struct ChallengeFields {
    pub realm: Option<Seq<char>>,
    pub nonce: Option<Seq<char>>,
    pub qop: Option<Seq<char>>,
    pub opaque: Option<Seq<char>>,
    pub algorithm: Option<Seq<char>>,
}

/// Splitting state after a prefix: the finished parameters, the one being read, and whether a
/// quoted value is open.
pub open spec fn split_prefix(s: Seq<char>) -> (Seq<Seq<char>>, Seq<char>, bool)
    decreases s.len(),
{
    if s.len() == 0 {
        (seq![], seq![], false)
    } else {
        let (parts, cur, quoted) = split_prefix(s.drop_last());
        let c = s.last();
        if c == '"' {
            (parts, cur.push(c), !quoted)
        } else if c == ',' && !quoted {
            (parts.push(trim_ws(cur)), seq![], quoted)
        } else {
            (parts, cur.push(c), quoted)
        }
    }
}

/// The comma-separated parameters of `s`, commas inside quotes kept, each trimmed; a blank
/// last parameter is dropped.
pub open spec fn challenge_params(s: Seq<char>) -> Seq<Seq<char>> {
    let (parts, cur, _) = split_prefix(s);
    if trim_ws(cur).len() > 0 {
        parts.push(trim_ws(cur))
    } else {
        parts
    }
}

/// A value without one pair of surrounding double quotes.
pub open spec fn unquoted(v: Seq<char>) -> Seq<char> {
    if v.len() >= 2 && v[0] == '"' && v.last() == '"' {
        v.subrange(1, v.len() - 1)
    } else {
        v
    }
}

/// The fields after reading `items` in order; `None` where an item has no `=`.
pub open spec fn read_params(items: Seq<Seq<char>>) -> Option<ChallengeFields>
    decreases items.len(),
{
    if items.len() == 0 {
        Some(ChallengeFields { realm: None, nonce: None, qop: None, opaque: None, algorithm: None })
    } else {
        match read_params(items.drop_last()) {
            None => None,
            Some(f) => {
                let item = items.last();
                match first_occurrence(item, "="@, 0) {
                    None => None,
                    Some(eq) => {
                        let key = trim_ws(item.subrange(0, eq));
                        let value = unquoted(trim_ws(item.subrange(eq + 1, item.len() as int)));
                        if key == "realm"@ {
                            Some(ChallengeFields { realm: Some(value), ..f })
                        } else if key == "nonce"@ {
                            Some(ChallengeFields { nonce: Some(value), ..f })
                        } else if key == "qop"@ {
                            Some(ChallengeFields { qop: Some(value), ..f })
                        } else if key == "opaque"@ {
                            Some(ChallengeFields { opaque: Some(value), ..f })
                        } else if key == "algorithm"@ {
                            Some(ChallengeFields { algorithm: Some(value), ..f })
                        } else {
                            Some(f)
                        }
                    },
                }
            },
        }
    }
}

/// The challenge that a `WWW-Authenticate` value states: it must use the Digest scheme, each
/// parameter must be `key=value`, and realm and nonce must be given.
pub open spec fn parsed_challenge(header: Seq<char>) -> Option<ChallengeFields> {
    let t = trim_ws(header);
    if !starts_with(t, "Digest"@) {
        None
    } else {
        let rest = trim_ws(t.subrange(6, t.len() as int));
        match read_params(challenge_params(rest)) {
            Some(f) => if f.realm is Some && f.nonce is Some {
                Some(f)
            } else {
                None
            },
            None => None,
        }
    }
}

/// What a parsed challenge holds.
pub open spec fn challenge_view(c: DigestChallenge) -> ChallengeFields {
    ChallengeFields {
        realm: Some(c.realm@),
        nonce: Some(c.nonce@),
        qop: opt_view(c.qop),
        opaque: opt_view(c.opaque),
        algorithm: opt_view(c.algorithm),
    }
}

fn split_params(s: &str) -> (r: Vec<String>)
    ensures
        r@.map_values(|x: String| x@) == challenge_params(s@),
{
    let cs = chars_of(s);
    let n = cs.len();
    let mut parts: Vec<String> = Vec::new();
    let mut start: usize = 0;
    let mut quoted = false;
    let mut i: usize = 0;
    assert(s@.subrange(0, 0) =~= Seq::<char>::empty());
    assert(parts@.map_values(|x: String| x@) =~= Seq::<Seq<char>>::empty());
    while i < n
        invariant
            cs@ == s@,
            n == s@.len(),
            start <= i <= n,
            split_prefix(s@.subrange(0, i as int)) == (
                parts@.map_values(|x: String| x@),
                s@.subrange(start as int, i as int),
                quoted,
            ),
        decreases n - i,
    {
        let c = cs[i];
        let ghost pre = s@.subrange(0, i + 1);
        assert(pre.drop_last() =~= s@.subrange(0, i as int));
        assert(pre.last() == c);
        if c == '"' {
            quoted = !quoted;
            assert(s@.subrange(start as int, i as int).push(c) =~= s@.subrange(start as int, i + 1));
        } else if c == ',' && !quoted {
            let piece = trim(s.substring_char(start, i));
            let ghost before = parts@.map_values(|x: String| x@);
            parts.push(String::from_str(piece));
            assert(parts@.map_values(|x: String| x@) =~= before.push(piece@));
            start = i + 1;
            assert(s@.subrange(start as int, i + 1) =~= Seq::<char>::empty());
        } else {
            assert(s@.subrange(start as int, i as int).push(c) =~= s@.subrange(start as int, i + 1));
        }
        i = i + 1;
    }
    assert(s@.subrange(0, n as int) =~= s@);
    let last = trim(s.substring_char(start, n));
    if last.unicode_len() > 0 {
        let ghost before = parts@.map_values(|x: String| x@);
        parts.push(String::from_str(last));
        assert(parts@.map_values(|x: String| x@) =~= before.push(last@));
    }
    parts
}

fn unquote(v: &str) -> (r: &str)
    ensures
        r@ == unquoted(v@),
{
    let n = v.unicode_len();
    if n >= 2 && v.get_char(0) == '"' && v.get_char(n - 1) == '"' {
        v.substring_char(1, n - 1)
    } else {
        v
    }
}

fn copy_opt(o: &Option<String>) -> (r: Option<String>)
    ensures
        r == *o,
{
    match o {
        Some(s) => Some(s.clone()),
        None => None,
    }
}

/// Reads a `WWW-Authenticate` header value as a Digest challenge.
pub fn parse_digest_challenge(header_value: &str) -> (r: Option<DigestChallenge>)
    ensures
        match r {
            Some(c) => parsed_challenge(header_value@) == Some(challenge_view(c)),
            None => parsed_challenge(header_value@) is None,
        },
{
    let trimmed = trim(header_value);
    if !starts_with_str(trimmed, "Digest") {
        return None;
    }
    proof {
        reveal_strlit("Digest");
    }
    let rest = trim(trimmed.substring_char(6, trimmed.unicode_len()));
    let items = split_params(rest);
    let ghost its = items@.map_values(|x: String| x@);
    let eq_sign = chars_of("=");
    let mut realm: Option<String> = None;
    let mut nonce: Option<String> = None;
    let mut qop: Option<String> = None;
    let mut opaque: Option<String> = None;
    let mut algorithm: Option<String> = None;
    let mut k: usize = 0;
    assert(its.subrange(0, 0) =~= Seq::<Seq<char>>::empty());
    while k < items.len()
        invariant
            its == items@.map_values(|x: String| x@),
            its == challenge_params(rest@),
            starts_with(trim_ws(header_value@), "Digest"@),
            rest@ == trim_ws(trim_ws(header_value@).subrange(6, trim_ws(header_value@).len() as int)),
            eq_sign@ == "="@,
            k <= items@.len(),
            read_params(its.subrange(0, k as int)) == Some(ChallengeFields {
                realm: opt_view(realm),
                nonce: opt_view(nonce),
                qop: opt_view(qop),
                opaque: opt_view(opaque),
                algorithm: opt_view(algorithm),
            }),
        decreases items@.len() - k,
    {
        let item = items[k].as_str();
        let ghost pre = its.subrange(0, k + 1);
        assert(pre.drop_last() =~= its.subrange(0, k as int));
        assert(pre.last() == item@);
        let ic = chars_of(item);
        let eq = match find_from(&ic, &eq_sign, 0) {
            None => {
                proof {
                    assert(first_occurrence(item@, "="@, 0) is None);
                    assert(read_params(pre) is None);
                    lemma_prefix_fails(its, k as int);
                }
                return None;
            },
            Some(e) => e,
        };
        proof {
            reveal_strlit("=");
            assert(occurs_at(ic@, eq_sign@, eq as int));
        }
        let ilen = ic.len();
        let key = trim(item.substring_char(0, eq));
        let value = String::from_str(unquote(trim(item.substring_char(eq + 1, ilen))));
        if same_text(key, "realm") {
            realm = Some(value);
        } else if same_text(key, "nonce") {
            nonce = Some(value);
        } else if same_text(key, "qop") {
            qop = Some(value);
        } else if same_text(key, "opaque") {
            opaque = Some(value);
        } else if same_text(key, "algorithm") {
            algorithm = Some(value);
        }
        k = k + 1;
    }
    assert(its.subrange(0, k as int) =~= its);
    match (realm, nonce) {
        (Some(realm), Some(nonce)) => Some(DigestChallenge { realm, nonce, qop, opaque, algorithm }),
        _ => None,
    }
}

proof fn lemma_prefix_fails(its: Seq<Seq<char>>, k: int)
    requires
        0 <= k < its.len(),
        read_params(its.subrange(0, k + 1)) is None,
    ensures
        read_params(its) is None,
    decreases its.len() - k,
{
    if k + 1 < its.len() {
        let pre = its.subrange(0, k + 2);
        assert(pre.drop_last() =~= its.subrange(0, k + 1));
        lemma_prefix_fails(its, k + 1);
    } else {
        assert(its.subrange(0, k + 1) =~= its);
    }
}

} // verus!

verus! {

/// The 32 lowercase hexadecimal digits of the MD5 digest of the UTF-8 encoding of `s`.
pub uninterp spec fn md5_hex_of(s: Seq<char>) -> Seq<char>;

/// Relies on `md5::compute` and the `{:x}` formatting of its `Digest`: the lowercase hex MD5 of
/// the text's bytes.
#[verifier::external_body]
fn md5_hex(s: &str) -> (r: String)
    ensures
        r@ == md5_hex_of(s@),
{
    format!("{:x}", md5::compute(s))
}

/// The result of `str::to_uppercase` (Unicode uppercase mapping).
pub uninterp spec fn upper_of(s: Seq<char>) -> Seq<char>;

/// Relies on `str::to_uppercase`: the uppercase form depends on the characters alone.
#[verifier::external_body]
fn uppercase(s: &str) -> (r: String)
    ensures
        r@ == upper_of(s@),
{
    s.to_uppercase()
}

/// HA1: the hash of `username:realm:password`.
pub open spec fn ha1_of(username: Seq<char>, realm: Seq<char>, password: Seq<char>) -> Seq<char> {
    md5_hex_of(username + ":"@ + realm + ":"@ + password)
}

/// HA2: the hash of `method:uri`.
pub open spec fn ha2_of(method: Seq<char>, uri: Seq<char>) -> Seq<char> {
    md5_hex_of(method + ":"@ + uri)
}

/// The Digest response: `MD5(HA1:nonce:nc:cnonce:auth:HA2)` under `qop=auth` (with the given
/// nonce count and client nonce), `MD5(HA1:nonce:HA2)` without a qop.
pub open spec fn response_of(
    ha1: Seq<char>,
    nonce: Seq<char>,
    ha2: Seq<char>,
    auth: Option<(Seq<char>, Seq<char>)>,
) -> Seq<char> {
    match auth {
        Some((nc, cnonce)) => md5_hex_of(
            ha1 + ":"@ + nonce + ":"@ + nc + ":"@ + cnonce + ":"@ + "auth"@ + ":"@ + ha2,
        ),
        None => md5_hex_of(ha1 + ":"@ + nonce + ":"@ + ha2),
    }
}

/// The nonce count and client nonce, as views.
pub open spec fn auth_view(auth: Option<(&str, &str)>) -> Option<(Seq<char>, Seq<char>)> {
    match auth {
        Some((nc, cnonce)) => Some((nc@, cnonce@)),
        None => None,
    }
}

/// Computes the Digest response to a challenge; `auth` carries the nonce count and client
/// nonce where the exchange runs under `qop=auth`.
pub fn digest_response(
    username: &str,
    realm: &str,
    password: &str,
    method: &str,
    uri: &str,
    nonce: &str,
    auth: Option<(&str, &str)>,
) -> (r: String)
    ensures
        r@ == response_of(
            ha1_of(username@, realm@, password@),
            nonce@,
            ha2_of(method@, uri@),
            auth_view(auth),
        ),
{
    let mut a1 = String::from_str(username);
    a1.append(":");
    a1.append(realm);
    a1.append(":");
    a1.append(password);
    let ha1 = md5_hex(a1.as_str());
    let mut a2 = String::from_str(method);
    a2.append(":");
    a2.append(uri);
    let ha2 = md5_hex(a2.as_str());
    let mut line = ha1;
    line.append(":");
    line.append(nonce);
    line.append(":");
    match auth {
        Some((nc, cnonce)) => {
            line.append(nc);
            line.append(":");
            line.append(cnonce);
            line.append(":");
            line.append("auth");
            line.append(":");
        },
        None => {},
    }
    line.append(ha2.as_str());
    md5_hex(line.as_str())
}

/// Splitting at commas, state after a prefix: finished pieces and the piece being read.
pub open spec fn comma_fold(s: Seq<char>) -> (Seq<Seq<char>>, Seq<char>)
    decreases s.len(),
{
    if s.len() == 0 {
        (seq![], seq![])
    } else {
        let (parts, cur) = comma_fold(s.drop_last());
        if s.last() == ',' {
            (parts.push(cur), seq![])
        } else {
            (parts, cur.push(s.last()))
        }
    }
}

/// The pieces of `s` between commas (`str::split(',')`).
pub open spec fn comma_segments(s: Seq<char>) -> Seq<Seq<char>> {
    comma_fold(s).0.push(comma_fold(s).1)
}

/// The challenge's qop list offers `auth`.
pub open spec fn offers_auth(qop: Seq<char>) -> bool {
    exists|i: int| 0 <= i < comma_segments(qop).len() && trim_ws(#[trigger] comma_segments(qop)[i]) == "auth"@
}

fn qop_offers_auth(qop: &str) -> (r: bool)
    ensures
        r == offers_auth(qop@),
{
    let cs = chars_of(qop);
    let n = cs.len();
    let mut start: usize = 0;
    let mut i: usize = 0;
    let ghost mut done: Seq<Seq<char>> = seq![];
    assert(qop@.subrange(0, 0) =~= Seq::<char>::empty());
    while i < n
        invariant
            cs@ == qop@,
            n == qop@.len(),
            start <= i <= n,
            comma_fold(qop@.subrange(0, i as int)) == (done, qop@.subrange(start as int, i as int)),
            forall|j: int| 0 <= j < done.len() ==> trim_ws(#[trigger] done[j]) != "auth"@,
        decreases n - i,
    {
        let ghost pre = qop@.subrange(0, i + 1);
        assert(pre.drop_last() =~= qop@.subrange(0, i as int));
        assert(pre.last() == cs@[i as int]);
        if cs[i] == ',' {
            let piece = trim(qop.substring_char(start, i));
            if same_text(piece, "auth") {
                proof {
                    assert(comma_fold(pre) == (done.push(qop@.subrange(start as int, i as int)), Seq::<char>::empty()));
                    lemma_comma_fold_prefix(qop@, i + 1);
                    let segs = comma_segments(qop@);
                    assert(comma_fold(pre).0[done.len() as int] == qop@.subrange(start as int, i as int));
                    assert(segs[done.len() as int] == qop@.subrange(start as int, i as int));
                    assert(trim_ws(segs[done.len() as int]) == "auth"@);
                }
                return true;
            }
            proof {
                done = done.push(qop@.subrange(start as int, i as int));
            }
            start = i + 1;
            assert(qop@.subrange(start as int, i + 1) =~= Seq::<char>::empty());
        } else {
            assert(qop@.subrange(start as int, i as int).push(cs@[i as int]) =~= qop@.subrange(start as int, i + 1));
        }
        i = i + 1;
    }
    assert(qop@.subrange(0, n as int) =~= qop@);
    let last = trim(qop.substring_char(start, n));
    let r = same_text(last, "auth");
    proof {
        let segs = comma_segments(qop@);
        assert(segs =~= done.push(qop@.subrange(start as int, n as int)));
        if r {
            assert(segs[done.len() as int] == qop@.subrange(start as int, n as int));
            assert(trim_ws(segs[done.len() as int]) == "auth"@);
        }
        if !r {
            assert forall|j: int| 0 <= j < segs.len() implies trim_ws(#[trigger] segs[j]) != "auth"@ by {
                if j < done.len() {
                    assert(segs[j] == done[j]);
                }
            }
        }
    }
    r
}

/// The pieces finished after a prefix stay pieces of the whole text.
proof fn lemma_comma_fold_prefix(s: Seq<char>, i: int)
    requires
        0 <= i <= s.len(),
    ensures
        comma_fold(s.subrange(0, i)).0.len() <= comma_segments(s).len(),
        forall|j: int| 0 <= j < comma_fold(s.subrange(0, i)).0.len() ==> #[trigger] comma_fold(s.subrange(0, i)).0[j] == comma_segments(s)[j],
    decreases s.len() - i,
{
    if i < s.len() {
        lemma_comma_fold_prefix(s, i + 1);
        let pre = s.subrange(0, i + 1);
        assert(pre.drop_last() =~= s.subrange(0, i));
        let done_parts = comma_fold(s.subrange(0, i)).0;
        let next_parts = comma_fold(pre).0;
        assert(done_parts.len() <= next_parts.len());
        assert forall|j: int| 0 <= j < done_parts.len() implies #[trigger] done_parts[j] == comma_segments(s)[j] by {
            assert(next_parts[j] == done_parts[j]);
        }
    } else {
        assert(s.subrange(0, i) =~= s);
        let done_parts = comma_fold(s).0;
        assert forall|j: int| 0 <= j < done_parts.len() implies #[trigger] done_parts[j] == comma_segments(s)[j] by {
            assert(comma_segments(s) == done_parts.push(comma_fold(s).1));
        }
    }
}

/// The `Authorization` header value answering a Digest challenge.
pub open spec fn authorization_of(
    username: Seq<char>,
    realm: Seq<char>,
    nonce: Seq<char>,
    uri: Seq<char>,
    response: Seq<char>,
    opaque: Option<Seq<char>>,
    auth: Option<(Seq<char>, Seq<char>)>,
) -> Seq<char> {
    let base = "Digest username=\""@ + username + "\", realm=\""@ + realm + "\", nonce=\""@ + nonce
        + "\", uri=\""@ + uri + "\", response=\""@ + response + "\""@;
    let with_opaque = match opaque {
        Some(o) => base + ", opaque=\""@ + o + "\""@,
        None => base,
    };
    let with_algorithm = with_opaque + ", algorithm=MD5"@;
    match auth {
        Some((nc, cnonce)) => with_algorithm + ", qop="@ + "auth"@ + ", nc="@ + nc + ", cnonce=\""@
            + cnonce + "\""@,
        None => with_algorithm,
    }
}

/// The answer to `challenge` for a request with `method` to `url`, or why there is none: the
/// URL does not parse, or the challenge names an algorithm other than MD5 (a challenge that
/// names none is MD5). Under `qop=auth`
/// the nonce count is `00000001` and the client nonce is `cnonce`.
pub open spec fn digest_authorization_of(
    username: Seq<char>,
    password: Seq<char>,
    method: Seq<char>,
    url: Seq<char>,
    c: ChallengeFields,
    cnonce: Seq<char>,
) -> Result<Seq<char>, Seq<char>> {
    match request_target_of(url) {
        Err(e) => Err(e),
        Ok(uri) => {
            if c.algorithm matches Some(a) && upper_of(a) != "MD5"@ {
                Err("Unsupported digest algorithm: "@ + c.algorithm->0)
            } else {
                let realm = c.realm->0;
                let nonce = c.nonce->0;
                let auth = match c.qop {
                    Some(q) => if offers_auth(q) {
                        Some(("00000001"@, cnonce))
                    } else {
                        None
                    },
                    None => None,
                };
                let response = response_of(
                    ha1_of(username, realm, password),
                    nonce,
                    ha2_of(method, uri),
                    auth,
                );
                Ok(authorization_of(username, realm, nonce, uri, response, c.opaque, auth))
            }
        },
    }
}

pub fn build_digest_authorization(
    username: &str,
    password: &str,
    method: &str,
    url: &str,
    challenge: &DigestChallenge,
    cnonce: &str,
) -> (r: Result<String, String>)
    ensures
        match r {
            Ok(h) => digest_authorization_of(username@, password@, method@, url@, challenge_view(*challenge), cnonce@) == Ok::<Seq<char>, Seq<char>>(h@),
            Err(e) => digest_authorization_of(username@, password@, method@, url@, challenge_view(*challenge), cnonce@) == Err::<Seq<char>, Seq<char>>(e@),
        },
{
    let uri = match request_target(url) {
        Ok(u) => u,
        Err(e) => return Err(e),
    };
    match &challenge.algorithm {
        Some(algorithm) => {
            let up = uppercase(algorithm.as_str());
            if !same_text(up.as_str(), "MD5") {
                let mut msg = String::from_str("Unsupported digest algorithm: ");
                msg.append(algorithm.as_str());
                return Err(msg);
            }
        },
        None => {},
    }
    let use_auth = match &challenge.qop {
        Some(q) => qop_offers_auth(q.as_str()),
        None => false,
    };
    let auth: Option<(&str, &str)> = if use_auth {
        Some(("00000001", cnonce))
    } else {
        None
    };
    let response = digest_response(
        username,
        challenge.realm.as_str(),
        password,
        method,
        uri.as_str(),
        challenge.nonce.as_str(),
        auth,
    );
    let mut h = String::from_str("Digest username=\"");
    h.append(username);
    h.append("\", realm=\"");
    h.append(challenge.realm.as_str());
    h.append("\", nonce=\"");
    h.append(challenge.nonce.as_str());
    h.append("\", uri=\"");
    h.append(uri.as_str());
    h.append("\", response=\"");
    h.append(response.as_str());
    h.append("\"");
    match &challenge.opaque {
        Some(o) => {
            h.append(", opaque=\"");
            h.append(o.as_str());
            h.append("\"");
        },
        None => {},
    }
    h.append(", algorithm=MD5");
    if use_auth {
        h.append(", qop=");
        h.append("auth");
        h.append(", nc=");
        h.append("00000001");
        h.append(", cnonce=\"");
        h.append(cnonce);
        h.append("\"");
    }
    Ok(h)
}

/// A client nonce: a random 64-bit number in lowercase hexadecimal.
pub fn fresh_cnonce() -> (r: String)
    ensures
        exists|n: u64| r@ == crate::text::hex(n as nat),
{
    let n: u64 = crate::random::random_u64();
    crate::text::hex_string(n)
}

} // verus!
