//! Reading and rewriting webhook callback URLs in device notification settings.
use vstd::prelude::*;

use crate::json::{as_i64_of, as_str_of, get_i64, get_of, get_str, Json};
use crate::uri::{request_target, request_target_of};
use crate::text::{
    after_last, after_last_of, chars_of, decimal, decimal_string, lemma_first_occurrence, contains, first_word, first_word_of, same_text, contains_str, ends_with, ends_with_str, find_from, first_occurrence,
    insert_sorted_unique, is_whitespace, is_ws, lemma_replace_all_ends, lemma_trim_ends,
    lemma_trim_fixed, lemma_trim_idempotent, lower_of, lowercase, matches_at, occurs_at,
    opt_view, replace_all, replace_str, starts_with, starts_with_str, strictly_sorted, strip,
    strip_end, trim, trim_char, trim_ws, views, CharClass,
};

verus! {

/// Escaped slashes and the five XML entities decoded, in this order.
pub open spec fn decode_entities(s: Seq<char>) -> Seq<char> {
    replace_all(
        replace_all(
            replace_all(
                replace_all(
                    replace_all(replace_all(s, "\\/"@, "/"@), "&lt;"@, "<"@),
                    "&gt;"@,
                    ">"@,
                ),
                "&quot;"@,
                "\""@,
            ),
            "&apos;"@,
            "'"@,
        ),
        "&amp;"@,
        "&"@,
    )
}

/// Decodes `\/` and the XML entities `&lt; &gt; &quot; &apos; &amp;`.
pub fn decode_markup_entities(input: &str) -> (r: String)
    ensures
        r@ == decode_entities(input@),
{
    let a = replace_str(input, "\\/", "/");
    let b = replace_str(a.as_str(), "&lt;", "<");
    let c = replace_str(b.as_str(), "&gt;", ">");
    let d = replace_str(c.as_str(), "&quot;", "\"");
    let e = replace_str(d.as_str(), "&apos;", "'");
    replace_str(e.as_str(), "&amp;", "&")
}

/// The candidate with entities decoded and surrounding whitespace, quotes and trailing `>`
/// removed.
pub open spec fn candidate_body(input: Seq<char>) -> Seq<char> {
    trim_ws(
        strip_end(
            trim_char(trim_char(trim_ws(decode_entities(input)), '"'), '\''),
            CharClass::Exactly('>'),
        ),
    )
}

/// A usable callback URL read from a device, or nothing: schema references are decoys, and
/// only absolute http(s) URLs and rooted paths are kept.
pub open spec fn sanitized(input: Seq<char>) -> Option<Seq<char>> {
    sanitized_lowered(candidate_body(input), lower_of(candidate_body(input)))
}

/// The decision on a trimmed candidate `t` given its lowercase form `l`.
pub open spec fn sanitized_lowered(t: Seq<char>, l: Seq<char>) -> Option<Seq<char>> {
    if t.len() == 0 {
        None
    } else if contains(l, "xmlschema"@) {
        None
    } else if starts_with(l, "http://"@) || starts_with(l, "https://"@) || starts_with(l, "/"@) {
        Some(t)
    } else {
        None
    }
}

pub fn sanitize_webhook_candidate(input: &str) -> (r: Option<String>)
    ensures
        opt_view(r) == sanitized(input@),
{
    let decoded = decode_markup_entities(input);
    let a = trim(decoded.as_str());
    let b = strip(a, &CharClass::Exactly('"'), true, true);
    let c = strip(b, &CharClass::Exactly('\''), true, true);
    let d = strip(c, &CharClass::Exactly('>'), false, true);
    let e = trim(d);
    let trimmed = String::from_str(e);
    let lower = lowercase(trimmed.as_str());
    sanitize_lowered(trimmed, lower.as_str())
}

/// Keeps the trimmed candidate `trimmed`, whose lowercase form is `lower`, where it is a URL
/// and not a schema reference.
pub fn sanitize_lowered(trimmed: String, lower: &str) -> (r: Option<String>)
    ensures
        opt_view(r) == sanitized_lowered(trimmed@, lower@),
{
    if trimmed.unicode_len() == 0 {
        return None;
    }
    if contains_str(lower, "xmlschema") {
        return None;
    }
    if starts_with_str(lower, "http://") || starts_with_str(lower, "https://") || starts_with_str(lower, "/") {
        return Some(trimmed);
    }
    None
}

/// A URL that may be offered as the device's callback address.
pub open spec fn valid_candidate(url: Seq<char>) -> bool {
    valid_lowered(lower_of(url))
}

/// The validity test on the lowercase form `l` of a URL.
pub open spec fn valid_lowered(l: Seq<char>) -> bool {
    !contains(l, "isapi.org/ver20/xmlschema"@) && !contains(l, "&gt;"@) && !contains(l, "&lt;"@)
        && !contains(l, "<"@) && !contains(l, ">"@) && (starts_with(l, "http://"@) || starts_with(
        l,
        "https://"@,
    ) || (starts_with(l, "/"@) && !starts_with(l, "/isapi/"@)))
}

pub fn is_valid_webhook_candidate(url: &str) -> (r: bool)
    ensures
        r == valid_candidate(url@),
{
    let lower = lowercase(url);
    is_valid_lowered(lower.as_str())
}

/// The validity test on the lowercase form of a URL.
pub fn is_valid_lowered(l: &str) -> (r: bool)
    ensures
        r == valid_lowered(l@),
{
    if contains_str(l, "isapi.org/ver20/xmlschema") {
        return false;
    }
    if contains_str(l, "&gt;") || contains_str(l, "&lt;") || contains_str(l, "<") || contains_str(
        l,
        ">",
    ) {
        return false;
    }
    starts_with_str(l, "http://") || starts_with_str(l, "https://") || (starts_with_str(l, "/")
        && !starts_with_str(l, "/isapi/"))
}

/// A valid URL that names the direction (`/in`, `/out`, as a path end or before a query) or
/// carries a secret.
pub open spec fn preferred_for(url: Seq<char>, dir: Seq<char>) -> bool {
    preferred_lowered(lower_of(url), dir)
}

/// The preference test on the lowercase form `l` of a URL.
pub open spec fn preferred_lowered(l: Seq<char>, dir: Seq<char>) -> bool {
    valid_lowered(l) && (contains(l, "/"@ + dir + "?"@) || ends_with(l, "/"@ + dir)
        || contains(l, "/"@ + dir + "&"@) || contains(l, "secret="@))
}

/// The first of `urls` that is preferred for `dir`.
pub open spec fn first_preferred(urls: Seq<Seq<char>>, dir: Seq<char>) -> Option<Seq<char>>
    decreases urls.len(),
{
    if urls.len() == 0 {
        None
    } else if preferred_for(urls[0], dir) {
        Some(urls[0])
    } else {
        first_preferred(urls.drop_first(), dir)
    }
}

/// The first valid candidate of `urls`.
pub open spec fn first_valid(urls: Seq<Seq<char>>) -> Option<Seq<char>>
    decreases urls.len(),
{
    if urls.len() == 0 {
        None
    } else if valid_candidate(urls[0]) {
        Some(urls[0])
    } else {
        first_valid(urls.drop_first())
    }
}

/// The first of `urls` that is preferred for `dir`, else the first valid one.
pub open spec fn primary_url(urls: Seq<Seq<char>>, dir: Seq<char>) -> Option<Seq<char>> {
    match first_preferred(urls, dir) {
        Some(u) => Some(u),
        None => first_valid(urls),
    }
}

fn is_preferred(url: &str, dir: &str) -> (r: bool)
    ensures
        r == preferred_for(url@, dir@),
{
    let lower = lowercase(url);
    is_preferred_lowered(lower.as_str(), dir)
}

/// The preference test on the lowercase form of a URL, for the lowercase direction `dir`.
pub fn is_preferred_lowered(l: &str, dir: &str) -> (r: bool)
    ensures
        r == preferred_lowered(l@, dir@),
{
    if !is_valid_lowered(l) {
        return false;
    }
    let mut slash_dir = String::from_str("/");
    slash_dir.append(dir);
    let mut with_query = slash_dir.clone();
    with_query.append("?");
    let mut with_amp = slash_dir.clone();
    with_amp.append("&");
    contains_str(l, with_query.as_str()) || ends_with_str(l, slash_dir.as_str()) || contains_str(
        l,
        with_amp.as_str(),
    ) || contains_str(l, "secret=")
}

pub fn pick_primary_webhook_url(urls: &[String], direction: &str) -> (r: Option<String>)
    ensures
        opt_view(r) == primary_url(views(urls@), lower_of(direction@)),
{
    let dir = lowercase(direction);
    pick_primary_lowered_direction(urls, dir.as_str())
}

/// The primary URL for the lowercase direction `direction`.
pub fn pick_primary_lowered_direction(urls: &[String], direction: &str) -> (r: Option<String>)
    ensures
        opt_view(r) == primary_url(views(urls@), direction@),
{
    let dir = String::from_str(direction);
    let ghost us = views(urls@);
    let n = urls.len();
    let mut i: usize = 0;
    assert(us.subrange(0, n as int) =~= us);
    while i < n
        invariant
            n == urls@.len(),
            us == views(urls@),
            dir@ == direction@,
            us.len() == n,
            i <= n,
            first_preferred(us, dir@) == first_preferred(us.subrange(i as int, n as int), dir@),
        decreases n - i,
    {
        let ghost rest = us.subrange(i as int, n as int);
        assert(rest[0] == urls@[i as int]@);
        if is_preferred(urls[i].as_str(), dir.as_str()) {
            let u = urls[i].clone();
            assert(u@ == rest[0]);
            assert(first_preferred(rest, dir@) == Some(rest[0]));
            return Some(u);
        }
        assert(rest.drop_first() =~= us.subrange(i + 1, n as int));
        i = i + 1;
    }
    let mut k: usize = 0;
    while k < n
        invariant
            n == urls@.len(),
            us == views(urls@),
            dir@ == direction@,
            us.len() == n,
            k <= n,
            first_preferred(us, dir@) == None::<Seq<char>>,
            first_valid(us) == first_valid(us.subrange(k as int, n as int)),
        decreases n - k,
    {
        let ghost rest = us.subrange(k as int, n as int);
        assert(rest[0] == urls@[k as int]@);
        if is_valid_webhook_candidate(urls[k].as_str()) {
            let u = urls[k].clone();
            assert(u@ == rest[0]);
            assert(first_valid(rest) == Some(rest[0]));
            return Some(u);
        }
        assert(rest.drop_first() =~= us.subrange(k + 1, n as int));
        k = k + 1;
    }
    None
}

/// The sanitized forms of `items`, as a set.
pub open spec fn cleaned_set(items: Seq<Seq<char>>, x: Seq<char>) -> bool {
    exists|i: int| 0 <= i < items.len() && sanitized(items[i]) == Some(x)
}

/// Sanitizes each candidate, drops the rejected ones, and returns the rest sorted and without
/// repeats.
pub fn clean_webhook_candidates(items: Vec<String>) -> (r: Vec<String>)
    ensures
        strictly_sorted(views(r@)),
        forall|x: Seq<char>| views(r@).contains(x) <==> cleaned_set(views(items@), x),
{
    let ghost its = views(items@);
    let mut out: Vec<String> = Vec::new();
    let mut i: usize = 0;
    while i < items.len()
        invariant
            its == views(items@),
            its.len() == items@.len(),
            i <= items@.len(),
            strictly_sorted(views(out@)),
            forall|x: Seq<char>| views(out@).contains(x) <==> (exists|j: int| 0 <= j < i && sanitized(#[trigger] its[j]) == Some(x)),
        decreases items@.len() - i,
    {
        let s = sanitize_webhook_candidate(items[i].as_str());
        let ghost before = views(out@);
        let ghost sv = opt_view(s);
        assert(its[i as int] == items@[i as int]@);
        match s {
            Some(x) => {
                insert_sorted_unique(&mut out, x);
            },
            None => {},
        }
        proof {
            if let Some(xv) = sv {
                assert(sanitized(its[i as int]) == Some(xv));
            }
            assert forall|x: Seq<char>| views(out@).contains(x) <==> (exists|j: int| 0 <= j < i + 1 && sanitized(#[trigger] its[j]) == Some(x)) by {
                if exists|j: int| 0 <= j < i + 1 && sanitized(#[trigger] its[j]) == Some(x) {
                    let j = choose|j: int| 0 <= j < i + 1 && sanitized(#[trigger] its[j]) == Some(x);
                    if j < i {
                        assert(before.contains(x));
                    }
                }
            }
        }
        i = i + 1;
    }
    out
}

} // verus!

verus! {

/// Ends a URL found in free text.
pub open spec fn is_url_terminator(c: char) -> bool {
    is_ws(c) || c == '"' || c == '\'' || c == '<' || c == '>'
}

/// The first index at or after `i` that holds a terminator, or the length of `s`.
pub open spec fn token_end(s: Seq<char>, i: int) -> int
    decreases s.len() - i,
{
    if i < 0 || i >= s.len() || is_url_terminator(s[i]) {
        i
    } else {
        token_end(s, i + 1)
    }
}

/// A URL begins at `i`: an http(s) scheme or a rooted `/webhook/` path.
pub open spec fn url_starts_at(s: Seq<char>, i: int) -> bool {
    occurs_at(s, "http://"@, i) || occurs_at(s, "https://"@, i) || occurs_at(s, "/webhook/"@, i)
}

/// The URLs written out in `s` from index `i` on, each running up to the next terminator;
/// the scan stops seven characters before the end.
pub open spec fn direct_urls_from(s: Seq<char>, i: int) -> Seq<Seq<char>>
    decreases s.len() - i,
{
    if i < 0 || i + 7 >= s.len() {
        seq![]
    } else if url_starts_at(s, i) && i < token_end(s, i) <= s.len() {
        let e = token_end(s, i);
        seq![trim_ws(s.subrange(i, e))] + direct_urls_from(s, e)
    } else {
        direct_urls_from(s, i + 1)
    }
}

proof fn lemma_token_end(s: Seq<char>, i: int)
    requires
        0 <= i <= s.len(),
    ensures
        i <= token_end(s, i) <= s.len(),
        forall|j: int| i <= j < token_end(s, i) ==> !is_url_terminator(#[trigger] s[j]),
        token_end(s, i) < s.len() ==> is_url_terminator(s[token_end(s, i)]),
    decreases s.len() - i,
{
    if i < s.len() && !is_url_terminator(s[i]) {
        lemma_token_end(s, i + 1);
    }
}

fn is_url_terminator_exec(c: char) -> (r: bool)
    ensures
        r == is_url_terminator(c),
{
    is_whitespace(c) || c == '"' || c == '\'' || c == '<' || c == '>'
}

/// Appends to `out` every URL written out in `text`.
pub fn extract_direct_url_candidates(text: &str, out: &mut Vec<String>)
    ensures
        views(final(out)@) == views(old(out)@) + direct_urls_from(text@, 0),
{
    let cs = chars_of(text);
    let n = cs.len();
    let http = chars_of("http://");
    let https = chars_of("https://");
    let hook = chars_of("/webhook/");
    let mut i: usize = 0;
    while n > 7 && i < n - 7
        invariant
            cs@ == text@,
            n == text@.len(),
            http@ == "http://"@,
            https@ == "https://"@,
            hook@ == "/webhook/"@,
            i <= n,
            views(out@) + direct_urls_from(text@, i as int) == views(old(out)@) + direct_urls_from(
                text@,
                0,
            ),
        decreases n - i,
    {
        if matches_at(&cs, i, &http) || matches_at(&cs, i, &https) || matches_at(&cs, i, &hook) {
            let mut end = i;
            while end < n && !is_url_terminator_exec(cs[end])
                invariant
                    cs@ == text@,
                    n == text@.len(),
                    i <= end <= n,
                    token_end(text@, i as int) == token_end(text@, end as int),
                decreases n - end,
            {
                end = end + 1;
            }
            proof {
                lemma_token_end(text@, i as int);
            }
            if end > i {
                let piece = trim(text.substring_char(i, end));
                let ghost before = views(out@);
                out.push(String::from_str(piece));
                proof {
                    assert(views(out@) =~= before + seq![trim_ws(text@.subrange(i as int, end as int))]);
                }
                i = end;
                continue;
            }
        }
        i = i + 1;
    }
    proof {
        assert(direct_urls_from(text@, i as int) == Seq::<Seq<char>>::empty());
        assert(views(out@) =~= views(out@) + Seq::<Seq<char>>::empty());
    }
}

/// Writes `target` between each `open` marker and the next `close` marker after it, scanning
/// from `pos`; returns the text from `pos` on and the number of replacements.
pub open spec fn tag_values_replaced(
    s: Seq<char>,
    pos: int,
    open: Seq<char>,
    close: Seq<char>,
    target: Seq<char>,
) -> (Seq<char>, nat)
    decreases s.len() - pos,
{
    if pos < 0 || pos > s.len() || close.len() == 0 {
        (s.subrange(pos, s.len() as int), 0)
    } else {
        match first_occurrence(s, open, pos) {
            None => (s.subrange(pos, s.len() as int), 0),
            Some(p) => match first_occurrence(s, close, p + open.len()) {
                None => (s.subrange(pos, s.len() as int), 0),
                Some(q) => if pos < q + close.len() <= s.len() {
                    let r = tag_values_replaced(s, q + close.len(), open, close, target);
                    (s.subrange(pos, p + open.len()) + target + close + r.0, r.1 + 1)
                } else {
                    (s.subrange(pos, s.len() as int), 0)
                },
            },
        }
    }
}

pub open spec fn open_tag(tag: Seq<char>) -> Seq<char> {
    "<"@ + tag + ">"@
}

pub open spec fn close_tag(tag: Seq<char>) -> Seq<char> {
    "</"@ + tag + ">"@
}

/// The value of every `<tag>…</tag>` element replaced by `target`.
pub open spec fn tag_replaced(s: Seq<char>, tag: Seq<char>, target: Seq<char>) -> (Seq<char>, nat) {
    tag_values_replaced(s, 0, open_tag(tag), close_tag(tag), target)
}

fn replace_tag_values(s: &str, tag: &str, target: &str) -> (r: (String, usize))
    ensures
        r.0@ == tag_replaced(s@, tag@, target@).0,
        r.1 as nat == tag_replaced(s@, tag@, target@).1,
{
    let mut open = String::from_str("<");
    open.append(tag);
    open.append(">");
    let mut close = String::from_str("</");
    close.append(tag);
    close.append(">");
    let cs = chars_of(s);
    let os = chars_of(open.as_str());
    let cls = chars_of(close.as_str());
    let n = cs.len();
    let ghost total = tag_values_replaced(s@, 0, os@, cls@, target@);
    let mut out = String::new();
    let mut count: usize = 0;
    let mut pos: usize = 0;
    assert(out@ + tag_values_replaced(s@, 0, os@, cls@, target@).0 =~= total.0);
    loop
        invariant
            cs@ == s@,
            n == s@.len(),
            os@ == open_tag(tag@),
            cls@ == close_tag(tag@),
            open@ == os@,
            close@ == cls@,
            total == tag_values_replaced(s@, 0, os@, cls@, target@),
            pos <= n,
            count <= pos,
            out@ + tag_values_replaced(s@, pos as int, os@, cls@, target@).0 == total.0,
            count + tag_values_replaced(s@, pos as int, os@, cls@, target@).1 == total.1,
        ensures
            pos <= n,
            out@ + s@.subrange(pos as int, n as int) == total.0,
            count == total.1,
        decreases n - pos,
    {
        if cls.len() == 0 {
            break;
        }
        match find_from(&cs, &os, pos) {
            None => {
                assert(first_occurrence(s@, os@, pos as int) is None);
                break;
            },
            Some(p) => {
                let vs = p + os.len();
                match find_from(&cs, &cls, vs) {
                    None => {
                        assert(first_occurrence(s@, os@, pos as int) == Some(p as int));
                        assert(vs == p + os@.len());
                        assert(first_occurrence(s@, cls@, vs as int) is None);
                        break;
                    },
                    Some(q) => {
                        assert(q + cls@.len() <= n);
                        assert(first_occurrence(s@, os@, pos as int) == Some(p as int));
                        assert(first_occurrence(s@, cls@, vs as int) == Some(q as int));
                        assert(vs == p + os@.len());
                        let next = q + cls.len();
                        let ghost r = tag_values_replaced(s@, next as int, os@, cls@, target@);
                        assert(tag_values_replaced(s@, pos as int, os@, cls@, target@) == (
                        s@.subrange(pos as int, vs as int) + target@ + cls@ + r.0, r.1 + 1));
                        out.append(s.substring_char(pos, vs));
                        out.append(target);
                        out.append(close.as_str());
                        assert(out@ + r.0 =~= total.0);
                        count = count + 1;
                        pos = next;
                    },
                }
            },
        }
    }
    out.append(s.substring_char(pos, n));
    (out, count)
}

/// The element names whose values `replace_xml_url_tags` rewrites, in order.
pub open spec fn url_tags() -> Seq<Seq<char>> {
    seq!["url"@, "URL"@, "httpUrl"@, "HttpUrl"@, "HTTPUrl"@, "address"@, "Address"@]
}

/// Each tag of `tags` replaced in turn; the text and the total number of replacements.
pub open spec fn tags_replaced(s: Seq<char>, tags: Seq<Seq<char>>, target: Seq<char>) -> (Seq<char>, nat)
    decreases tags.len(),
{
    if tags.len() == 0 {
        (s, 0)
    } else {
        let first = tag_replaced(s, tags[0], target);
        let rest = tags_replaced(first.0, tags.drop_first(), target);
        (rest.0, first.1 + rest.1)
    }
}

/// Rewrites the value of every URL-bearing element (`url`, `httpUrl`, `address` in the
/// spellings devices use) to `target_url`; returns the new text and the number of values
/// rewritten (held at `usize::MAX` should it exceed that).
pub fn replace_xml_url_tags(xml: &str, target_url: &str) -> (r: (String, usize))
    ensures
        r.0@ == tags_replaced(xml@, url_tags(), target_url@).0,
        r.1 as nat == if tags_replaced(xml@, url_tags(), target_url@).1 <= usize::MAX {
            tags_replaced(xml@, url_tags(), target_url@).1
        } else {
            usize::MAX as nat
        },
{
    let tags: [&str; 7] = ["url", "URL", "httpUrl", "HttpUrl", "HTTPUrl", "address", "Address"];
    let ghost ts = seq![tags[0]@, tags[1]@, tags[2]@, tags[3]@, tags[4]@, tags[5]@, tags[6]@];
    assert(ts =~= url_tags());
    let mut out = String::from_str(xml);
    let mut total: usize = 0;
    let ghost mut exact: nat = 0;
    let mut k: usize = 0;
    assert(ts.subrange(0, 7) =~= ts);
    while k < 7
        invariant
            k <= 7,
            ts == url_tags(),
            total as nat == if exact <= usize::MAX { exact } else { usize::MAX as nat },
            forall|j: int| 0 <= j < 7 ==> #[trigger] ts[j] == tags[j]@,
            tags_replaced(xml@, ts, target_url@) == ({
                let rest = tags_replaced(out@, ts.subrange(k as int, 7), target_url@);
                (rest.0, exact + rest.1)
            }),
        decreases 7 - k,
    {
        let ghost rest = ts.subrange(k as int, 7);
        assert(rest.drop_first() =~= ts.subrange(k + 1, 7));
        let (next, n) = replace_tag_values(out.as_str(), tags[k], target_url);
        proof {
            exact = (exact + n) as nat;
        }
        if total > usize::MAX - n {
            total = usize::MAX;
        } else {
            total = total + n;
        }
        out = next;
        k = k + 1;
    }
    proof {
        assert(ts.subrange(7, 7).len() == 0);
    }
    (out, total)
}

/// The lowercased local name of an element token: its first word, without a namespace
/// prefix.
pub open spec fn tag_base(token: Seq<char>) -> Seq<char> {
    lower_of(after_last(first_word(token), ':'))
}

/// Element names whose text is a callback URL.
pub open spec fn is_url_tag(base: Seq<char>) -> bool {
    base == "url"@ || base == "httpurl"@ || base == "hosturl"@ || base == "callbackurl"@
}

/// The closing tag with local name `base`, searched from `search` on: where it starts and
/// where its `>` stands.
pub open spec fn closing_tag_from(src: Seq<char>, search: int, base: Seq<char>) -> Option<(int, int)>
    decreases src.len() - search,
{
    if search < 0 || search >= src.len() {
        None
    } else {
        match first_occurrence(src, "</"@, search) {
            None => None,
            Some(co) => match first_occurrence(src, ">"@, co) {
                None => None,
                Some(ce) => if tag_base(trim_ws(src.subrange(co + 2, ce))) == base {
                    Some((co, ce))
                } else if search < ce + 1 <= src.len() {
                    closing_tag_from(src, ce + 1, base)
                } else {
                    None
                },
            },
        }
    }
}

/// The trimmed, non-empty texts of the URL elements of `src` from index `i` on, in order.
pub open spec fn xml_values_from(src: Seq<char>, i: int) -> Seq<Seq<char>>
    decreases src.len() - i,
{
    if i < 0 || i >= src.len() {
        seq![]
    } else {
        match first_occurrence(src, "<"@, i) {
            None => seq![],
            Some(open) => match first_occurrence(src, ">"@, open) {
                None => seq![],
                Some(end) => if i < end + 1 <= src.len() {
                    if end <= open + 1 {
                        xml_values_from(src, end + 1)
                    } else {
                        let tok = trim_ws(src.subrange(open + 1, end));
                        if starts_with(tok, "/"@) || starts_with(tok, "?"@) || starts_with(
                            tok,
                            "!"@,
                        ) || !is_url_tag(tag_base(tok)) {
                            xml_values_from(src, end + 1)
                        } else {
                            match closing_tag_from(src, end + 1, tag_base(tok)) {
                                None => xml_values_from(src, end + 1),
                                Some((cs, ce)) => if end + 1 < ce + 1 <= src.len() {
                                    let v = trim_ws(src.subrange(end + 1, cs));
                                    if cs > end + 1 && v.len() > 0 {
                                        seq![v] + xml_values_from(src, ce + 1)
                                    } else {
                                        xml_values_from(src, ce + 1)
                                    }
                                } else {
                                    seq![]
                                },
                            }
                        }
                    }
                } else {
                    seq![]
                },
            },
        }
    }
}

fn tag_base_of(token: &str) -> (r: String)
    ensures
        r@ == tag_base(token@),
{
    lowercase(after_last_of(first_word_of(token), ':'))
}

/// Whether the lowercase local name `base` names a URL element.
pub fn is_url_tag_name(base: &str) -> (r: bool)
    ensures
        r == is_url_tag(base@),
{
    same_text(base, "url") || same_text(base, "httpurl") || same_text(base, "hosturl")
        || same_text(base, "callbackurl")
}

proof fn lemma_gt_after(src: Seq<char>, co: int, ce: int)
    requires
        occurs_at(src, "</"@, co),
        occurs_at(src, ">"@, ce),
        co <= ce,
    ensures
        co + 2 <= ce,
{
    reveal_strlit("</");
    reveal_strlit(">");
    assert(src.subrange(co, co + 2)[0] == src[co]);
    assert(src.subrange(co, co + 2)[1] == src[co + 1]);
    assert(src.subrange(ce, ce + 1)[0] == src[ce]);
}

fn find_closing_tag(src: &str, cs: &Vec<char>, from: usize, base: &str) -> (r: Option<(usize, usize)>)
    requires
        cs@ == src@,
    ensures
        match r {
            Some((a, b)) => closing_tag_from(src@, from as int, base@) == Some((a as int, b as int)),
            None => closing_tag_from(src@, from as int, base@) is None,
        },
{
    let lt_slash = chars_of("</");
    let gt = chars_of(">");
    let n = cs.len();
    let mut search = from;
    loop
        invariant
            cs@ == src@,
            n == src@.len(),
            lt_slash@ == "</"@,
            gt@ == ">"@,
            closing_tag_from(src@, from as int, base@) == closing_tag_from(src@, search as int, base@),
        decreases n - search,
    {
        if search >= n {
            return None;
        }
        match find_from(cs, &lt_slash, search) {
            None => {
                assert(first_occurrence(src@, "</"@, search as int) is None);
                return None;
            },
            Some(co) => match find_from(cs, &gt, co) {
                None => {
                    assert(first_occurrence(src@, "</"@, search as int) == Some(co as int));
                    assert(first_occurrence(src@, ">"@, co as int) is None);
                    return None;
                },
                Some(ce) => {
                    proof {
                        lemma_gt_after(src@, co as int, ce as int);
                        reveal_strlit(">");
                        assert(first_occurrence(src@, "</"@, search as int) == Some(co as int));
                        assert(first_occurrence(src@, ">"@, co as int) == Some(ce as int));
                    }
                    let tok = trim(src.substring_char(co + 2, ce));
                    let b = tag_base_of(tok);
                    if same_text(b.as_str(), base) {
                        return Some((co, ce));
                    }
                    search = ce + 1;
                },
            },
        }
    }
}

/// The texts of the URL-bearing elements (`url`, `httpUrl`, `hostUrl`, `callbackUrl`, in any
/// case and with any namespace prefix) of `text`, after decoding entities.
pub fn extract_xml_tag_values(text: &str) -> (r: Vec<String>)
    ensures
        views(r@) == xml_values_from(decode_entities(text@), 0),
{
    let source = decode_markup_entities(text);
    let src = source.as_str();
    let cs = chars_of(src);
    let lt = chars_of("<");
    let gt = chars_of(">");
    let n = cs.len();
    let mut out: Vec<String> = Vec::new();
    let mut i: usize = 0;
    let ghost all = xml_values_from(src@, 0);
    assert(views(out@) + xml_values_from(src@, 0) =~= all);
    loop
        invariant
            cs@ == src@,
            src@ == decode_entities(text@),
            n == src@.len(),
            lt@ == "<"@,
            gt@ == ">"@,
            all == xml_values_from(src@, 0),
            views(out@) + xml_values_from(src@, i as int) == all,
        decreases n - i,
    {
        if i >= n {
            assert(views(out@) =~= all);
            return out;
        }
        let open = match find_from(&cs, &lt, i) {
            None => {
                assert(views(out@) =~= all);
                return out;
            },
            Some(o) => o,
        };
        let end = match find_from(&cs, &gt, open) {
            None => {
                assert(first_occurrence(src@, "<"@, i as int) == Some(open as int));
                assert(views(out@) =~= all);
                return out;
            },
            Some(e) => e,
        };
        assert(first_occurrence(src@, "<"@, i as int) == Some(open as int));
        assert(first_occurrence(src@, ">"@, open as int) == Some(end as int));
        proof {
            reveal_strlit(">");
        }
        if end <= open + 1 {
            i = end + 1;
            continue;
        }
        let tok = trim(src.substring_char(open + 1, end));
        if starts_with_str(tok, "/") || starts_with_str(tok, "?") || starts_with_str(tok, "!") {
            i = end + 1;
            continue;
        }
        let base = tag_base_of(tok);
        if !is_url_tag_name(base.as_str()) {
            i = end + 1;
            continue;
        }
        match find_closing_tag(src, &cs, end + 1, base.as_str()) {
            None => {
                i = end + 1;
            },
            Some((close_start, close_end)) => {
                proof {
                    lemma_closing_after(src@, end + 1, base@);
                }
                if close_start > end + 1 {
                    let v = trim(src.substring_char(end + 1, close_start));
                    if v.unicode_len() > 0 {
                        let ghost before = views(out@);
                        out.push(String::from_str(v));
                        assert(views(out@) =~= before + seq![v@]);
                    }
                }
                i = close_end + 1;
            },
        }
    }
}

proof fn lemma_closing_after(src: Seq<char>, search: int, base: Seq<char>)
    ensures
        match closing_tag_from(src, search, base) {
            Some((a, b)) => search <= a && a + 2 <= b < src.len(),
            None => true,
        },
    decreases src.len() - search,
{
    reveal_strlit(">");
    if 0 <= search < src.len() {
        lemma_first_occurrence(src, "</"@, search);
        if let Some(co) = first_occurrence(src, "</"@, search) {
            lemma_first_occurrence(src, ">"@, co);
        }
        match first_occurrence(src, "</"@, search) {
            None => {},
            Some(co) => match first_occurrence(src, ">"@, co) {
                None => {},
                Some(ce) => {
                    lemma_gt_after(src, co, ce);
                    if tag_base(trim_ws(src.subrange(co + 2, ce))) != base && search < ce + 1 <= src.len() {
                        lemma_closing_after(src, ce + 1, base);
                    }
                },
            },
        }
    }
}

/// Every URL found in `text`, written out or as the value of a URL element, sanitized,
/// sorted and without repeats.
pub fn extract_urls_from_text(text: &str) -> (r: Vec<String>)
    ensures
        strictly_sorted(views(r@)),
        forall|x: Seq<char>| #![auto] views(r@).contains(x) <==> cleaned_set(
            direct_urls_from(decode_entities(text@), 0) + xml_values_from(
                decode_entities(decode_entities(text@)),
                0,
            ),
            x,
        ),
{
    let decoded = decode_markup_entities(text);
    let mut urls: Vec<String> = Vec::new();
    extract_direct_url_candidates(decoded.as_str(), &mut urls);
    let tags = extract_xml_tag_values(decoded.as_str());
    let ghost direct = views(urls@);
    let mut k: usize = 0;
    while k < tags.len()
        invariant
            views(urls@) == direct + views(tags@).subrange(0, k as int),
            k <= tags@.len(),
        decreases tags@.len() - k,
    {
        let t = tags[k].clone();
        let ghost before = views(urls@);
        urls.push(t);
        assert(views(urls@) =~= before + seq![tags@[k as int]@]);
        k = k + 1;
        assert(views(urls@) =~= direct + views(tags@).subrange(0, k as int));
    }
    assert(views(tags@).subrange(0, k as int) =~= views(tags@));
    assert(direct =~= Seq::<Seq<char>>::empty() + direct_urls_from(decoded@, 0));
    clean_webhook_candidates(urls)
}

/// The path with the singular host-notification segment (`httpHosts/1`) turned into the
/// collection path, after trimming.
pub open spec fn normalized_put_path(path: Seq<char>) -> Seq<char> {
    let t = trim_ws(path);
    if contains(t, "ISAPI/Event/notification/httpHosts/1"@) {
        replace_all(t, "ISAPI/Event/notification/httpHosts/1"@, "ISAPI/Event/notification/httpHosts"@)
    } else {
        t
    }
}

/// Normalizing a path that is in normalized form leaves it as it is: a normalized path in
/// which no singular host segment remains normalizes to itself.
pub proof fn lemma_put_path_normalization_idempotent(path: Seq<char>)
    requires
        !contains(normalized_put_path(path), "ISAPI/Event/notification/httpHosts/1"@),
    ensures
        normalized_put_path(normalized_put_path(path)) == normalized_put_path(path),
{
    let t = trim_ws(path);
    let q = normalized_put_path(path);
    if contains(t, "ISAPI/Event/notification/httpHosts/1"@) {
        reveal_strlit("ISAPI/Event/notification/httpHosts");
        let to = "ISAPI/Event/notification/httpHosts"@;
        assert(to[0] == 'I');
        assert(to.last() == 's');
        let i = choose|i: int| occurs_at(t, "ISAPI/Event/notification/httpHosts/1"@, i);
        assert(t.len() > 0);
        lemma_trim_ends(path);
        lemma_replace_all_ends(t, "ISAPI/Event/notification/httpHosts/1"@, to);
        lemma_trim_fixed(q);
    } else {
        lemma_trim_idempotent(path);
    }
}

pub fn normalize_http_hosts_put_path(path: &str) -> (r: String)
    ensures
        r@ == normalized_put_path(path@),
{
    let trimmed = trim(path);
    if contains_str(trimmed, "ISAPI/Event/notification/httpHosts/1") {
        return replace_str(
            trimmed,
            "ISAPI/Event/notification/httpHosts/1",
            "ISAPI/Event/notification/httpHosts",
        );
    }
    String::from_str(trimmed)
}

/// The device-relative form of a callback URL: the path and query of an absolute URL (`/`
/// where both are empty), or the trimmed text itself where it is not an absolute URL.
pub open spec fn device_relative_url(target: Seq<char>) -> Seq<char> {
    device_relative_from(trim_ws(target), request_target_of(trim_ws(target)))
}

/// The device-relative form of the trimmed URL `t`, given what parsing it gave.
pub open spec fn device_relative_from(t: Seq<char>, parsed: Result<Seq<char>, Seq<char>>) -> Seq<char> {
    match parsed {
        Ok(v) => if v.len() == 0 {
            "/"@
        } else {
            v
        },
        Err(_) => t,
    }
}

pub fn normalize_target_url_for_device(target_url: &str) -> (r: String)
    ensures
        r@ == device_relative_url(target_url@),
{
    let trimmed = trim(target_url);
    let parsed = request_target(trimmed);
    device_relative_parsed(trimmed, parsed)
}

/// The device-relative form of the trimmed URL `trimmed`, given its parsed request target.
pub fn device_relative_parsed(trimmed: &str, parsed: Result<String, String>) -> (r: String)
    ensures
        r@ == device_relative_from(trimmed@, match parsed {
            Ok(v) => Ok::<Seq<char>, Seq<char>>(v@),
            Err(e) => Err::<Seq<char>, Seq<char>>(e@),
        }),
{
    match parsed {
        Ok(v) => {
            if v.unicode_len() == 0 {
                String::from_str("/")
            } else {
                v
            }
        },
        Err(_) => String::from_str(trimmed),
    }
}

/// `n` in decimal, with a minus sign where negative.
pub open spec fn signed_decimal(n: int) -> Seq<char> {
    if n < 0 {
        "-"@ + decimal((-n) as nat)
    } else {
        decimal(n as nat)
    }
}

fn signed_decimal_string(n: i64) -> (r: String)
    ensures
        r@ == signed_decimal(n as int),
{
    if n < 0 {
        let m: u64 = ((-(n + 1)) as u64) + 1;
        let mut s = String::from_str("-");
        let d = decimal_string(m);
        s.append(d.as_str());
        s
    } else {
        decimal_string(n as u64)
    }
}

/// A year in decimal.
pub fn signed_year(n: i32) -> (r: String)
    ensures
        r@ == signed_decimal(n as int),
{
    signed_decimal_string(n as i64)
}

/// The id of a host-notification entry: a non-blank text id (trimmed), else a numeric id.
pub open spec fn host_id_of(v: Json) -> Option<Seq<char>> {
    match as_str_of(get_of(v, "id"@)) {
        Some(t) if trim_ws(t).len() > 0 => Some(trim_ws(t)),
        _ => match as_i64_of(get_of(v, "id"@)) {
            Some(n) => Some(signed_decimal(n as int)),
            None => None,
        },
    }
}

pub fn extract_host_id(value: &Json) -> (r: Option<String>)
    ensures
        opt_view(r) == host_id_of(*value),
{
    match get_str(value, "id") {
        Some(t) => {
            let tt = trim(t.as_str());
            if tt.unicode_len() > 0 {
                return Some(String::from_str(tt));
            }
        },
        None => {},
    }
    match get_i64(value, "id") {
        Some(n) => Some(signed_decimal_string(n)),
        None => None,
    }
}

/// The host id of an entry, `1` where it has none.
pub open spec fn host_id_or_default(v: Json) -> Seq<char> {
    match host_id_of(v) {
        Some(x) => x,
        None => "1"@,
    }
}

fn host_id_or_default_exec(v: &Json) -> (r: String)
    ensures
        r@ == host_id_or_default(*v),
{
    match extract_host_id(v) {
        Some(x) => x,
        None => String::from_str("1"),
    }
}

/// The first entry from `i` on whose host id is `1`.
pub open spec fn entry_with_id_one(a: Seq<Json>, i: int) -> Option<int>
    decreases a.len() - i,
{
    if i < 0 || i >= a.len() {
        None
    } else if host_id_of(a[i]) == Some("1"@) {
        Some(i)
    } else {
        entry_with_id_one(a, i + 1)
    }
}

/// The primary host-notification entry of a configuration document, with its host id: the
/// single `HttpHostNotification`, else from `HttpHostNotificationList` the entry with id 1,
/// else its first entry, else its only object.
pub open spec fn primary_notification_of(raw: Json) -> Option<(Json, Seq<char>)> {
    match get_of(raw, "HttpHostNotification"@) {
        Some(item) => Some((item, host_id_or_default(item))),
        None => match get_of(raw, "HttpHostNotificationList"@) {
            None => None,
            Some(list) => match get_of(list, "HttpHostNotification"@) {
                Some(Json::Object(o)) => Some((Json::Object(o), host_id_or_default(Json::Object(o)))),
                Some(Json::Array(a)) => if a@.len() == 0 {
                    None
                } else {
                    match entry_with_id_one(a@, 0) {
                        Some(k) => Some((a@[k], host_id_or_default(a@[k]))),
                        None => Some((a@[0], host_id_or_default(a@[0]))),
                    }
                },
                _ => None,
            },
        },
    }
}

pub fn extract_primary_http_host_notification(raw: &Json) -> (r: Option<(&Json, String)>)
    ensures
        match r {
            Some((e, id)) => primary_notification_of(*raw) == Some((*e, id@)),
            None => primary_notification_of(*raw) is None,
        },
{
    match raw.get("HttpHostNotification") {
        Some(item) => {
            return Some((item, host_id_or_default_exec(item)));
        },
        None => {},
    }
    let list = match raw.get("HttpHostNotificationList") {
        Some(l) => l,
        None => {
            return None;
        },
    };
    match list.get("HttpHostNotification") {
        Some(entries) => match entries {
            Json::Object(_) => Some((entries, host_id_or_default_exec(entries))),
            Json::Array(a) => {
                if a.len() == 0 {
                    return None;
                }
                let mut i: usize = 0;
                while i < a.len()
                    invariant
                        *entries == Json::Array(*a),
                        get_of(*raw, "HttpHostNotification"@) is None,
                        get_of(*raw, "HttpHostNotificationList"@) == Some(*list),
                        get_of(*list, "HttpHostNotification"@) == Some(*entries),
                        a@.len() > 0,
                        i <= a@.len(),
                        entry_with_id_one(a@, 0) == entry_with_id_one(a@, i as int),
                    decreases a@.len() - i,
                {
                    let id = extract_host_id(&a[i]);
                    let is_one = match &id {
                        Some(x) => same_text(x.as_str(), "1"),
                        None => false,
                    };
                    if is_one {
                        assert(entry_with_id_one(a@, i as int) == Some(i as int));
                        return Some((&a[i], host_id_or_default_exec(&a[i])));
                    }
                    i = i + 1;
                }
                Some((&a[0], host_id_or_default_exec(&a[0])))
            },
            _ => None,
        },
        None => None,
    }
}

/// The keys under which a notification entry may hold its URL, in the order they are read.
pub open spec fn url_keys() -> Seq<Seq<char>> {
    seq!["url"@, "URL"@, "httpURL"@, "httpUrl"@, "HttpURL"@, "HttpUrl"@]
}

/// The sanitized URLs an entry holds under the URL keys, in key order.
pub open spec fn entry_urls_from(entry: Json, keys: Seq<Seq<char>>) -> Seq<Seq<char>>
    decreases keys.len(),
{
    if keys.len() == 0 {
        seq![]
    } else {
        let prev = entry_urls_from(entry, keys.drop_last());
        match as_str_of(get_of(entry, keys.last())) {
            Some(v) => match sanitized(v) {
                Some(c) => prev.push(c),
                None => prev,
            },
            None => prev,
        }
    }
}

/// The webhook URLs a notification entry holds, cleaned.
pub fn entry_webhook_urls(entry: &Json) -> (r: Vec<String>)
    ensures
        strictly_sorted(views(r@)),
        forall|x: Seq<char>| #![auto] views(r@).contains(x) <==> cleaned_set(entry_urls_from(*entry, url_keys()), x),
{
    let mut urls: Vec<String> = Vec::new();
    let keys: [&str; 6] = ["url", "URL", "httpURL", "httpUrl", "HttpURL", "HttpUrl"];
    let ghost ks = seq![keys[0]@, keys[1]@, keys[2]@, keys[3]@, keys[4]@, keys[5]@];
    assert(ks =~= url_keys());
    let mut k: usize = 0;
    assert(ks.subrange(0, 0) =~= Seq::<Seq<char>>::empty());
    while k < 6
        invariant
            k <= 6,
            ks == url_keys(),
            forall|j: int| 0 <= j < 6 ==> #[trigger] ks[j] == keys[j]@,
            views(urls@) == entry_urls_from(*entry, ks.subrange(0, k as int)),
        decreases 6 - k,
    {
        let ghost pre = ks.subrange(0, k + 1);
        assert(pre.drop_last() =~= ks.subrange(0, k as int));
        let ghost before = views(urls@);
        match get_str(entry, keys[k]) {
            Some(v) => match sanitize_webhook_candidate(v.as_str()) {
                Some(c) => {
                    urls.push(c);
                    assert(views(urls@) =~= before.push(views(urls@).last()));
                },
                None => {},
            },
            None => {},
        }
        k = k + 1;
    }
    assert(ks.subrange(0, 6) =~= ks);
    clean_webhook_candidates(urls)
}

/// The webhook URLs of a JSON configuration document: those of its primary entry, cleaned.
pub fn extract_webhook_urls_from_json(raw: &Json) -> (r: Vec<String>)
    ensures
        strictly_sorted(views(r@)),
        forall|x: Seq<char>| #![auto] views(r@).contains(x) <==> match primary_notification_of(*raw) {
            Some((entry, _)) => cleaned_set(entry_urls_from(entry, url_keys()), x),
            None => false,
        },
{
    match extract_primary_http_host_notification(raw) {
        Some((entry, _)) => entry_webhook_urls(entry),
        None => {
            let r: Vec<String> = Vec::new();
            assert(views(r@) =~= Seq::<Seq<char>>::empty());
            r
        },
    }
}

/// A configuration write answered with success: `statusCode` 1, else `statusString` "OK" in
/// any ASCII case, else no status at all.
pub open spec fn status_ok_of(v: Json) -> bool {
    match as_i64_of(get_of(v, "statusCode"@)) {
        Some(c) => c == 1,
        None => match as_str_of(get_of(v, "statusString"@)) {
            Some(s) => s.len() == 2 && (s[0] == 'o' || s[0] == 'O') && (s[1] == 'k' || s[1] == 'K'),
            None => true,
        },
    }
}

pub fn response_status_ok(value: &Json) -> (r: bool)
    ensures
        r == status_ok_of(*value),
{
    match get_i64(value, "statusCode") {
        Some(c) => c == 1,
        None => match get_str(value, "statusString") {
            Some(s) => {
                let cs = chars_of(s.as_str());
                cs.len() == 2 && (cs[0] == 'o' || cs[0] == 'O') && (cs[1] == 'k' || cs[1] == 'K')
            },
            None => true,
        },
    }
}

/// The direction of a webhook, `in` or `out`, in any case and with surrounding whitespace.
pub open spec fn direction_of(d: Seq<char>) -> Option<Seq<char>> {
    direction_lowered(lower_of(trim_ws(d)))
}

/// The direction named by the trimmed, lowercase text `l`.
pub open spec fn direction_lowered(l: Seq<char>) -> Option<Seq<char>> {
    if l == "in"@ {
        Some("in"@)
    } else if l == "out"@ {
        Some("out"@)
    } else {
        None
    }
}

pub fn normalize_direction(direction: &str) -> (r: Result<&'static str, String>)
    ensures
        match r {
            Ok(d) => direction_of(direction@) == Some(d@),
            Err(e) => direction_of(direction@) is None && e@ == "direction must be in|out"@,
        },
{
    let l = lowercase(trim(direction));
    direction_from_lowered(l.as_str())
}

/// The direction named by a trimmed, lowercase text.
pub fn direction_from_lowered(l: &str) -> (r: Result<&'static str, String>)
    ensures
        match r {
            Ok(d) => direction_lowered(l@) == Some(d@),
            Err(e) => direction_lowered(l@) is None && e@ == "direction must be in|out"@,
        },
{
    if same_text(l, "in") {
        Ok("in")
    } else if same_text(l, "out") {
        Ok("out")
    } else {
        Err(String::from_str("direction must be in|out"))
    }
}

/// The key names a URL: it holds `url` in any ASCII case.
pub open spec fn is_url_key(k: Seq<char>) -> bool {
    exists|i: int| 0 <= i && i + 3 <= k.len() && (k[i] == 'u' || k[i] == 'U') && (#[trigger] k[i + 1] == 'r'
        || k[i + 1] == 'R') && (k[i + 2] == 'l' || k[i + 2] == 'L')
}

fn has_url_key(k: &str) -> (r: bool)
    ensures
        r == is_url_key(k@),
{
    let cs = chars_of(k);
    let n = cs.len();
    if n < 3 {
        return false;
    }
    let mut i: usize = 0;
    while i < n - 2
        invariant
            cs@ == k@,
            n == k@.len(),
            n >= 3,
            i <= n - 2,
            forall|j: int| 0 <= j < i ==> !((cs@[j] == 'u' || cs@[j] == 'U') && (#[trigger] cs@[j + 1] == 'r'
                || cs@[j + 1] == 'R') && (cs@[j + 2] == 'l' || cs@[j + 2] == 'L')),
        decreases n - i,
    {
        if (cs[i] == 'u' || cs[i] == 'U') && (cs[i + 1] == 'r' || cs[i + 1] == 'R') && (cs[i + 2] == 'l'
            || cs[i + 2] == 'L') {
            return true;
        }
        i = i + 1;
    }
    false
}

/// The number of children of a container.
pub open spec fn child_count(v: Json) -> int {
    match v {
        Json::Object(m) => m@.len() as int,
        Json::Array(a) => a@.len() as int,
        _ => 0,
    }
}

/// The number of string fields under URL keys in the children of `v` from index `i` on, at
/// any depth.
pub open spec fn url_fields_from(v: Json, i: int) -> nat
    decreases v, child_count(v) - i,
{
    if i < 0 || i >= child_count(v) {
        0
    } else {
        match v {
            Json::Object(m) => (if m@[i].1 is Str && is_url_key(m@[i].0@) {
                1
            } else {
                url_fields_from(m@[i].1, 0)
            }) + url_fields_from(v, i + 1),
            Json::Array(a) => url_fields_from(a@[i], 0) + url_fields_from(v, i + 1),
            _ => 0,
        }
    }
}

/// `new` is `old` with every string field under a URL key, at any depth, set to `url`.
pub open spec fn url_rewritten(old: Json, new: Json, url: Seq<char>) -> bool
    decreases old,
{
    match old {
        Json::Object(m) => match new {
            Json::Object(n) => n@.len() == m@.len() && forall|i: int| 0 <= i < m@.len() ==> {
                &&& (#[trigger] n@[i]).0 == m@[i].0
                &&& if m@[i].1 is Str && is_url_key(m@[i].0@) {
                    n@[i].1 matches Json::Str(s) && s@ == url
                } else {
                    url_rewritten(m@[i].1, n@[i].1, url)
                }
            },
            _ => false,
        },
        Json::Array(a) => match new {
            Json::Array(b) => b@.len() == a@.len() && forall|i: int| 0 <= i < a@.len() ==> url_rewritten(
                a@[i],
                #[trigger] b@[i],
                url,
            ),
            _ => false,
        },
        _ => new == old,
    }
}

/// `n`, held at `usize::MAX`.
pub open spec fn capped(n: nat) -> nat {
    if n <= usize::MAX {
        n
    } else {
        usize::MAX as nat
    }
}

/// Adds two counts, holding the sum at `usize::MAX`.
fn capped_add(a: usize, b: usize) -> (r: usize)
    ensures
        r as nat == capped((a + b) as nat),
{
    if a > usize::MAX - b {
        usize::MAX
    } else {
        a + b
    }
}

/// Sets every string field under a URL key (in any ASCII case, at any depth) to `new_url`;
/// returns the new document and how many fields changed (held at `usize::MAX`).
pub fn replace_url_fields(value: Json, new_url: &str) -> (r: (Json, usize))
    ensures
        url_rewritten(value, r.0, new_url@),
        r.1 as nat == capped(url_fields_from(value, 0)),
    decreases value,
{
    let ghost v0 = value;
    match value {
        Json::Object(m) => {
            let ghost m0 = m@;
            let n = m.len();
            let mut rest = m;
            let mut out: Vec<(String, Json)> = Vec::new();
            let mut count: usize = 0;
            let ghost mut exact: nat = 0;
            let mut i: usize = 0;
            while i < n
                invariant
                    value == v0,
                    v0 == Json::Object(v0->Object_0),
                    m0 == v0->Object_0@,
                    n == m0.len(),
                    i <= n,
                    rest@ == m0.subrange(i as int, n as int),
                    out@.len() == i,
                    url_fields_from(v0, 0) == exact + url_fields_from(v0, i as int),
                    count as nat == capped(exact),
                    forall|j: int| 0 <= j < i ==> {
                        &&& (#[trigger] out@[j]).0 == m0[j].0
                        &&& if m0[j].1 is Str && is_url_key(m0[j].0@) {
                            out@[j].1 matches Json::Str(s) && s@ == new_url@
                        } else {
                            url_rewritten(m0[j].1, out@[j].1, new_url@)
                        }
                    },
                decreases n - i,
            {
                let (k, child) = rest.remove(0);
                assert(rest@ =~= m0.subrange(i + 1, n as int));
                assert(child == m0[i as int].1);
                let is_str = match &child {
                    Json::Str(_) => true,
                    _ => false,
                };
                if is_str && has_url_key(k.as_str()) {
                    out.push((k, Json::Str(String::from_str(new_url))));
                    count = capped_add(count, 1);
                    proof {
                        exact = exact + 1;
                    }
                } else {
                    proof {
                        vstd::std_specs::vec::axiom_vec_index_decreases(v0->Object_0, i as int);
                        assert(decreases_to!(v0 => v0->Object_0));
                        assert(decreases_to!(v0 => child));
                    }
                    let ghost child_g = child;
                let (nc, c) = replace_url_fields(child, new_url);
                    out.push((k, nc));
                    count = capped_add(count, c);
                    proof {
                        exact = exact + url_fields_from(child_g, 0);
                    }
                }
                i = i + 1;
            }
            (Json::Object(out), count)
        },
        Json::Array(a) => {
            let ghost a0 = a@;
            let n = a.len();
            let mut rest = a;
            let mut out: Vec<Json> = Vec::new();
            let mut count: usize = 0;
            let ghost mut exact: nat = 0;
            let mut i: usize = 0;
            while i < n
                invariant
                    value == v0,
                    v0 == Json::Array(v0->Array_0),
                    a0 == v0->Array_0@,
                    n == a0.len(),
                    i <= n,
                    rest@ == a0.subrange(i as int, n as int),
                    out@.len() == i,
                    url_fields_from(v0, 0) == exact + url_fields_from(v0, i as int),
                    count as nat == capped(exact),
                    forall|j: int| 0 <= j < i ==> url_rewritten(a0[j], #[trigger] out@[j], new_url@),
                decreases n - i,
            {
                let child = rest.remove(0);
                assert(rest@ =~= a0.subrange(i + 1, n as int));
                assert(child == a0[i as int]);
                proof {
                    vstd::std_specs::vec::axiom_vec_index_decreases(v0->Array_0, i as int);
                    assert(decreases_to!(v0 => v0->Array_0));
                    assert(decreases_to!(v0 => child));
                }
                let ghost child_g = child;
                let (nc, c) = replace_url_fields(child, new_url);
                out.push(nc);
                count = capped_add(count, c);
                proof {
                    exact = exact + url_fields_from(child_g, 0);
                }
                i = i + 1;
            }
            (Json::Array(out), count)
        },
        other => (other, 0),
    }
}

/// How a rewritten notification entry is written back.
pub struct WriteAttempt {
    /// The configuration path of the PUT.
    pub path: String,
    /// The entry goes inside a `HttpHostNotificationList` wrapper (else it is sent as a single
    /// `HttpHostNotification`).
    pub list_payload: bool,
    pub name: &'static str,
}

/// `a` are the write shapes for host `host`, in the order they are tried.
pub open spec fn attempts_for(a: Seq<WriteAttempt>, host: Seq<char>) -> bool {
    &&& a.len() == 3
    &&& a[0].path@ == "ISAPI/Event/notification/httpHosts/"@ + host + "?format=json"@
    &&& !a[0].list_payload
    &&& a[0].name@ == "single-path/single-payload"@
    &&& a[1].path@ == "ISAPI/Event/notification/httpHosts?format=json"@
    &&& a[1].list_payload
    &&& a[1].name@ == "list-path/list-payload"@
    &&& a[2].path@ == "ISAPI/Event/notification/httpHosts?format=json"@
    &&& !a[2].list_payload
    &&& a[2].name@ == "list-path/single-payload"@
}

/// The three write shapes that firmware generations accept, in the order they are tried:
/// single path with a single entry, list path with a list, list path with a single entry.
pub fn write_attempts(host_id: &str) -> (r: Vec<WriteAttempt>)
    ensures
        attempts_for(r@, host_id@),
{
    let mut single = String::from_str("ISAPI/Event/notification/httpHosts/");
    single.append(host_id);
    single.append("?format=json");
    let mut v: Vec<WriteAttempt> = Vec::new();
    v.push(WriteAttempt { path: single, list_payload: false, name: "single-path/single-payload" });
    v.push(WriteAttempt {
        path: String::from_str("ISAPI/Event/notification/httpHosts?format=json"),
        list_payload: true,
        name: "list-path/list-payload",
    });
    v.push(WriteAttempt {
        path: String::from_str("ISAPI/Event/notification/httpHosts?format=json"),
        list_payload: false,
        name: "list-path/single-payload",
    });
    v
}

/// The path that reads one host-notification entry.
pub fn host_entry_path(host_id: &str) -> (r: String)
    ensures
        r@ == "ISAPI/Event/notification/httpHosts/"@ + host_id@ + "?format=json"@,
{
    let mut p = String::from_str("ISAPI/Event/notification/httpHosts/");
    p.append(host_id);
    p.append("?format=json");
    p
}

/// A write took effect: one of the URLs read back has the device-relative form `target`.
pub fn is_write_applied(after_urls: &Vec<String>, target: &str) -> (r: bool)
    ensures
        r == exists|i: int| 0 <= i < after_urls@.len() && device_relative_url((#[trigger] after_urls@[i])@) == target@,
{
    let mut i: usize = 0;
    while i < after_urls.len()
        invariant
            i <= after_urls@.len(),
            forall|j: int| 0 <= j < i ==> device_relative_url((#[trigger] after_urls@[j])@) != target@,
        decreases after_urls@.len() - i,
    {
        let n = normalize_target_url_for_device(after_urls[i].as_str());
        if same_text(n.as_str(), target) {
            return true;
        }
        i = i + 1;
    }
    false
}

/// `<attempt> => <error>`.
pub fn attempt_error(name: &str, error: &str) -> (r: String)
    ensures
        r@ == name@ + " => "@ + error@,
{
    let mut s = String::from_str(name);
    s.append(" => ");
    s.append(error);
    s
}

/// The diagnostic of a write that returned success but did not stick.
/// The diagnostic of attempt `name` whose read-back held `after`.
pub open spec fn not_applied_text(name: Seq<char>, after: Seq<String>) -> Seq<char> {
    name + " => applied=false, after="@ + (if after.len() == 0 {
        "-"@
    } else {
        crate::registration::joined(views(after), " | "@)
    })
}

pub fn not_applied_error(name: &str, after_urls: &Vec<String>) -> (r: String)
    ensures
        r@ == not_applied_text(name@, after_urls@),
{
    let mut s = String::from_str(name);
    s.append(" => applied=false, after=");
    if after_urls.len() == 0 {
        s.append("-");
    } else {
        let j = crate::registration::join(after_urls, " | ");
        s.append(j.as_str());
    }
    s
}

/// The error after every write shape failed: the host, the expected URL, and each attempt.
pub fn sync_failure(host_id: &str, target: &str, attempts: &Vec<String>) -> (r: String)
    ensures
        r@ == "Qurilma URLni saqlamadi. hostId="@ + host_id@ + ", kutilgan="@ + target@ + ", urinishlar="@
            + crate::registration::joined(views(attempts@), " || "@),
{
    let mut s = String::from_str("Qurilma URLni saqlamadi. hostId=");
    s.append(host_id);
    s.append(", kutilgan=");
    s.append(target);
    s.append(", urinishlar=");
    let j = crate::registration::join(attempts, " || ");
    s.append(j.as_str());
    s
}

/// The configuration paths read as JSON, in order.
pub fn webhook_candidate_paths() -> (r: Vec<&'static str>)
    ensures
        r@.len() == 2,
        r@[0]@ == "ISAPI/Event/notification/httpHosts/1?format=json"@,
        r@[1]@ == "ISAPI/Event/notification/httpHosts?format=json"@,
{
    let mut v: Vec<&'static str> = Vec::new();
    v.push("ISAPI/Event/notification/httpHosts/1?format=json");
    v.push("ISAPI/Event/notification/httpHosts?format=json");
    v
}

/// The configuration paths read as raw text, in order.
pub fn webhook_raw_candidate_paths() -> (r: Vec<&'static str>)
    ensures
        r@.len() == 2,
        r@[0]@ == "ISAPI/Event/notification/httpHosts"@,
        r@[1]@ == "ISAPI/Event/notification/httpHosts/1"@,
{
    let mut v: Vec<&'static str> = Vec::new();
    v.push("ISAPI/Event/notification/httpHosts");
    v.push("ISAPI/Event/notification/httpHosts/1");
    v
}

} // verus!

