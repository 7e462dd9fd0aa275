//! Character-level text utilities with their mathematical models.
use vstd::prelude::*;

verus! {

/// Unicode `White_Space`, the set that `char::is_whitespace` tests.
pub open spec fn is_ws(c: char) -> bool {
    let u = c as u32;
    (0x09 <= u && u <= 0x0D) || u == 0x20 || u == 0x85 || u == 0xA0 || u == 0x1680 || (0x2000
        <= u && u <= 0x200A) || u == 0x2028 || u == 0x2029 || u == 0x202F || u == 0x205F || u
        == 0x3000
}

/// A class of characters that trimming removes.
pub enum CharClass {
    Whitespace,
    Exactly(char),
}

pub open spec fn in_class(c: char, k: CharClass) -> bool {
    match k {
        CharClass::Whitespace => is_ws(c),
        CharClass::Exactly(x) => c == x,
    }
}

pub open spec fn strip_start(s: Seq<char>, k: CharClass) -> Seq<char>
    decreases s.len(),
{
    if s.len() > 0 && in_class(s[0], k) {
        strip_start(s.drop_first(), k)
    } else {
        s
    }
}

pub open spec fn strip_end(s: Seq<char>, k: CharClass) -> Seq<char>
    decreases s.len(),
{
    if s.len() > 0 && in_class(s.last(), k) {
        strip_end(s.drop_last(), k)
    } else {
        s
    }
}

/// What `str::trim` leaves of `s`.
pub open spec fn trim_ws(s: Seq<char>) -> Seq<char> {
    strip_end(strip_start(s, CharClass::Whitespace), CharClass::Whitespace)
}

/// What `str::trim_matches(c)` leaves of `s`.
pub open spec fn trim_char(s: Seq<char>, c: char) -> Seq<char> {
    strip_end(strip_start(s, CharClass::Exactly(c)), CharClass::Exactly(c))
}

pub open spec fn starts_with(s: Seq<char>, p: Seq<char>) -> bool {
    p.len() <= s.len() && s.subrange(0, p.len() as int) == p
}

pub open spec fn ends_with(s: Seq<char>, p: Seq<char>) -> bool {
    p.len() <= s.len() && s.subrange(s.len() - p.len(), s.len() as int) == p
}

/// `p` occurs in `s` starting at index `i`.
pub open spec fn occurs_at(s: Seq<char>, p: Seq<char>, i: int) -> bool {
    0 <= i && i + p.len() <= s.len() && s.subrange(i, i + p.len()) == p
}

pub open spec fn contains(s: Seq<char>, p: Seq<char>) -> bool {
    exists|i: int| occurs_at(s, p, i)
}

/// Every non-overlapping occurrence of `from`, scanned from the left, replaced by `to`
/// (the behaviour of `str::replace`).
pub open spec fn replace_all(s: Seq<char>, from: Seq<char>, to: Seq<char>) -> Seq<char>
    decreases s.len(),
{
    if s.len() == 0 {
        s
    } else if from.len() > 0 && starts_with(s, from) {
        to + replace_all(s.subrange(from.len() as int, s.len() as int), from, to)
    } else {
        seq![s[0]] + replace_all(s.drop_first(), from, to)
    }
}

/// The first index at or after `start` where `p` occurs in `s`.
pub open spec fn first_occurrence(s: Seq<char>, p: Seq<char>, start: int) -> Option<int>
    decreases s.len() + 1 - start,
{
    if start < 0 || start > s.len() {
        None
    } else if occurs_at(s, p, start) {
        Some(start)
    } else {
        first_occurrence(s, p, start + 1)
    }
}

pub fn is_whitespace(c: char) -> (r: bool)
    ensures
        r == is_ws(c),
{
    let u = c as u32;
    (0x09 <= u && u <= 0x0D) || u == 0x20 || u == 0x85 || u == 0xA0 || u == 0x1680 || (0x2000
        <= u && u <= 0x200A) || u == 0x2028 || u == 0x2029 || u == 0x202F || u == 0x205F || u
        == 0x3000
}

/// The characters of `s`, one by one.
pub fn chars_of(s: &str) -> (r: Vec<char>)
    ensures
        r@ == s@,
{
    let n = s.unicode_len();
    let mut out: Vec<char> = Vec::new();
    let mut i: usize = 0;
    while i < n
        invariant
            n == s@.len(),
            i <= n,
            out@ == s@.subrange(0, i as int),
        decreases n - i,
    {
        out.push(s.get_char(i));
        i = i + 1;
        assert(out@ =~= s@.subrange(0, i as int));
    }
    assert(out@ =~= s@);
    out
}

pub proof fn lemma_first_occurrence(s: Seq<char>, p: Seq<char>, start: int)
    requires
        0 <= start,
    ensures
        match first_occurrence(s, p, start) {
            Some(i) => start <= i && occurs_at(s, p, i),
            None => forall|j: int| start <= j ==> !occurs_at(s, p, j),
        },
    decreases s.len() + 1 - start,
{
    if start <= s.len() && !occurs_at(s, p, start) {
        lemma_first_occurrence(s, p, start + 1);
        assert(first_occurrence(s, p, start) == first_occurrence(s, p, start + 1));
    }
}

/// Whether `p` occurs in `s` at index `i`.
pub fn matches_at(s: &Vec<char>, i: usize, p: &Vec<char>) -> (r: bool)
    ensures
        r == occurs_at(s@, p@, i as int),
{
    if i > s.len() || p.len() > s.len() - i {
        return false;
    }
    let n = s.len();
    let mut k: usize = 0;
    while k < p.len()
        invariant
            n == s@.len(),
            i + p@.len() <= s@.len(),
            k <= p@.len(),
            forall|j: int| 0 <= j < k ==> s@[i + j] == p@[j],
        decreases p@.len() - k,
    {
        if s[i + k] != p[k] {
            assert(s@.subrange(i as int, i + p@.len())[k as int] != p@[k as int]);
            return false;
        }
        k = k + 1;
    }
    assert(s@.subrange(i as int, i + p@.len()) =~= p@);
    true
}

fn in_class_exec(c: char, k: &CharClass) -> (r: bool)
    ensures
        r == in_class(c, *k),
{
    match k {
        CharClass::Whitespace => is_whitespace(c),
        CharClass::Exactly(x) => c == *x,
    }
}

proof fn lemma_strip_start_from(s: Seq<char>, k: CharClass, i: int)
    requires
        0 <= i <= s.len(),
        forall|j: int| 0 <= j < i ==> in_class(#[trigger] s[j], k),
    ensures
        strip_start(s, k) == strip_start(s.subrange(i, s.len() as int), k),
    decreases i,
{
    if i > 0 {
        assert(s.drop_first().subrange(i - 1, s.drop_first().len() as int) =~= s.subrange(
            i,
            s.len() as int,
        ));
        assert(in_class(s[0], k));
        lemma_strip_start_from(s.drop_first(), k, i - 1);
    } else {
        assert(s.subrange(0, s.len() as int) =~= s);
    }
}

proof fn lemma_strip_end_to(s: Seq<char>, k: CharClass, m: int)
    requires
        0 <= m <= s.len(),
        forall|j: int| m <= j < s.len() ==> in_class(#[trigger] s[j], k),
    ensures
        strip_end(s, k) == strip_end(s.subrange(0, m), k),
    decreases s.len() - m,
{
    if m < s.len() {
        assert(s.drop_last().subrange(0, m) =~= s.subrange(0, m));
        assert(in_class(s[s.len() - 1], k));
        lemma_strip_end_to(s.drop_last(), k, m);
    } else {
        assert(s.subrange(0, s.len() as int) =~= s);
    }
}

/// `s` without the leading (when `front`) and trailing (when `back`) characters of class `k`.
pub fn strip<'a>(s: &'a str, k: &CharClass, front: bool, back: bool) -> (r: &'a str)
    ensures
        r@ == ({
            let a = if front { strip_start(s@, *k) } else { s@ };
            if back { strip_end(a, *k) } else { a }
        }),
{
    let cs = chars_of(s);
    let n = cs.len();
    let mut lo: usize = 0;
    while front && lo < n && in_class_exec(cs[lo], k)
        invariant
            n == cs@.len(),
            cs@ == s@,
            lo <= n,
            !front ==> lo == 0,
            forall|j: int| 0 <= j < lo ==> in_class(#[trigger] cs@[j], *k),
        decreases n - lo,
    {
        lo = lo + 1;
    }
    proof {
        lemma_strip_start_from(s@, *k, lo as int);
    }
    let ghost mid = s@.subrange(lo as int, n as int);
    let mut hi: usize = n;
    while back && hi > lo && in_class_exec(cs[hi - 1], k)
        invariant
            n == cs@.len(),
            cs@ == s@,
            lo <= hi <= n,
            !back ==> hi == n,
            mid == s@.subrange(lo as int, n as int),
            forall|j: int| hi <= j < n ==> in_class(#[trigger] cs@[j], *k),
        decreases hi,
    {
        hi = hi - 1;
    }
    proof {
        let a = if front { strip_start(s@, *k) } else { s@ };
        if front {
            if lo < n {
                assert(!in_class(s@[lo as int], *k));
            }
            assert(strip_start(mid, *k) == mid);
            assert(a == mid);
        } else {
            assert(mid =~= s@);
        }
        assert forall|j: int| (hi - lo) <= j < mid.len() implies in_class(#[trigger] mid[j], *k) by {
            assert(mid[j] == s@[lo + j]);
        }
        lemma_strip_end_to(mid, *k, hi - lo);
        assert(mid.subrange(0, hi - lo) =~= s@.subrange(lo as int, hi as int));
        let t = s@.subrange(lo as int, hi as int);
        if back {
            if hi > lo {
                assert(t.last() == s@[hi - 1]);
            }
            assert(strip_end(t, *k) == t);
        } else {
            assert(t =~= mid);
        }
    }
    s.substring_char(lo, hi)
}

/// `s` without leading and trailing whitespace (`str::trim`).
pub fn trim(s: &str) -> (r: &str)
    ensures
        r@ == trim_ws(s@),
{
    strip(s, &CharClass::Whitespace, true, true)
}

/// Whether `p` occurs anywhere in `s`.
pub fn contains_str(s: &str, p: &str) -> (r: bool)
    ensures
        r == contains(s@, p@),
{
    let cs = chars_of(s);
    let ps = chars_of(p);
    let mut i: usize = 0;
    while i < cs.len()
        invariant
            cs@ == s@,
            ps@ == p@,
            forall|j: int| 0 <= j < i ==> !occurs_at(s@, p@, j),
        decreases cs@.len() - i,
    {
        if matches_at(&cs, i, &ps) {
            return true;
        }
        i = i + 1;
    }
    if matches_at(&cs, i, &ps) {
        return true;
    }
    assert forall|j: int| !occurs_at(s@, p@, j) by {
        if 0 <= j && j > i {
            assert(j + p@.len() > s@.len());
        }
    }
    false
}

/// Whether `s` begins with `p`.
pub fn starts_with_str(s: &str, p: &str) -> (r: bool)
    ensures
        r == starts_with(s@, p@),
{
    let cs = chars_of(s);
    let ps = chars_of(p);
    matches_at(&cs, 0, &ps)
}

/// Whether `s` ends with `p`.
pub fn ends_with_str(s: &str, p: &str) -> (r: bool)
    ensures
        r == ends_with(s@, p@),
{
    let cs = chars_of(s);
    let ps = chars_of(p);
    if ps.len() > cs.len() {
        return false;
    }
    matches_at(&cs, cs.len() - ps.len(), &ps)
}

/// The first index at or after `start` where `p` occurs in `s`.
pub fn find_from(s: &Vec<char>, p: &Vec<char>, start: usize) -> (r: Option<usize>)
    ensures
        match r {
            Some(i) => first_occurrence(s@, p@, start as int) == Some(i as int),
            None => first_occurrence(s@, p@, start as int) is None,
        },
        r matches Some(i) ==> occurs_at(s@, p@, i as int) && start <= i,
{
    let n = s.len();
    if start > n {
        return None;
    }
    let mut i: usize = start;
    loop
        invariant
            n == s@.len(),
            start <= i <= n,
            first_occurrence(s@, p@, start as int) == first_occurrence(s@, p@, i as int),
        decreases n - i,
    {
        if matches_at(s, i, p) {
            return Some(i);
        }
        if i == n {
            assert(first_occurrence(s@, p@, n + 1) is None);
            return None;
        }
        i = i + 1;
    }
}

/// `s` with every occurrence of `from` replaced by `to` (`str::replace`).
pub fn replace_str(s: &str, from: &str, to: &str) -> (r: String)
    ensures
        r@ == replace_all(s@, from@, to@),
{
    let cs = chars_of(s);
    let fs = chars_of(from);
    let n = cs.len();
    let m = fs.len();
    let mut out = String::new();
    let mut last: usize = 0;
    let mut i: usize = 0;
    assert(s@.subrange(0, n as int) =~= s@);
    assert(s@.subrange(0, 0) =~= Seq::<char>::empty());
    assert(out@ =~= Seq::<char>::empty());
    while i < n
        invariant
            n == s@.len(),
            m == from@.len(),
            cs@ == s@,
            fs@ == from@,
            last <= i <= n,
            out@ + s@.subrange(last as int, i as int) + replace_all(
                s@.subrange(i as int, n as int),
                from@,
                to@,
            ) == replace_all(s@, from@, to@),
        decreases n - i,
    {
        let ghost rest = s@.subrange(i as int, n as int);
        if m > 0 && matches_at(&cs, i, &fs) {
            proof {
                assert(rest.subrange(0, m as int) =~= s@.subrange(i as int, i + m));
                assert(rest.subrange(m as int, rest.len() as int) =~= s@.subrange(i + m, n as int));
            }
            out.append(s.substring_char(last, i));
            out.append(to);
            i = i + m;
            last = i;
            proof {
                assert(s@.subrange(last as int, i as int) =~= Seq::<char>::empty());
            }
        } else {
            proof {
                if m > 0 {
                    assert(!starts_with(rest, from@)) by {
                        if starts_with(rest, from@) {
                            assert(rest.subrange(0, m as int) =~= s@.subrange(i as int, i + m));
                        }
                    }
                }
                assert(rest.drop_first() =~= s@.subrange(i + 1, n as int));
                assert(s@.subrange(last as int, i as int) + seq![rest[0]] =~= s@.subrange(
                    last as int,
                    i + 1,
                ));
            }
            i = i + 1;
        }
    }
    out.append(s.substring_char(last, n));
    proof {
        assert(s@.subrange(n as int, n as int) =~= Seq::<char>::empty());
    }
    out
}

} // verus!

verus! {

/// The result of `str::to_lowercase` (Unicode lowercase mapping).
pub uninterp spec fn lower_of(s: Seq<char>) -> Seq<char>;

/// Relies on `str::to_lowercase`: the lowercase form depends on the characters alone.
#[verifier::external_body]
pub(crate) fn lowercase(s: &str) -> (r: String)
    ensures
        r@ == lower_of(s@),
{
    s.to_lowercase()
}

/// The view of an optional string.
pub open spec fn opt_view(o: Option<String>) -> Option<Seq<char>> {
    match o {
        Some(x) => Some(x@),
        None => None,
    }
}

/// The views of a sequence of strings.
pub open spec fn views(v: Seq<String>) -> Seq<Seq<char>> {
    v.map_values(|x: String| x@)
}

/// Lexicographic order on characters by code point: the order of `String`'s `Ord`.
pub open spec fn seq_less(a: Seq<char>, b: Seq<char>) -> bool
    decreases a.len(),
{
    if a.len() == 0 {
        b.len() > 0
    } else if b.len() == 0 {
        false
    } else if a[0] != b[0] {
        a[0] < b[0]
    } else {
        seq_less(a.drop_first(), b.drop_first())
    }
}

pub proof fn lemma_seq_less_trans(a: Seq<char>, b: Seq<char>, c: Seq<char>)
    requires
        seq_less(a, b),
        seq_less(b, c),
    ensures
        seq_less(a, c),
    decreases a.len(),
{
    if a.len() > 0 && b.len() > 0 && c.len() > 0 && a[0] == b[0] && b[0] == c[0] {
        lemma_seq_less_trans(a.drop_first(), b.drop_first(), c.drop_first());
    }
}

pub proof fn lemma_seq_less_total(a: Seq<char>, b: Seq<char>)
    ensures
        seq_less(a, b) || seq_less(b, a) || a == b,
        !(seq_less(a, b) && seq_less(b, a)),
        !seq_less(a, a),
    decreases a.len(),
{
    if a.len() > 0 && b.len() > 0 {
        if a[0] == b[0] {
            lemma_seq_less_total(a.drop_first(), b.drop_first());
            if a.drop_first() == b.drop_first() {
                assert(a =~= seq![a[0]] + a.drop_first());
                assert(b =~= seq![b[0]] + b.drop_first());
            }
        } else {
            assert(a[0] < b[0] || b[0] < a[0]);
        }
    } else if a.len() == 0 && b.len() == 0 {
        assert(a =~= b);
    }
    if a.len() > 0 {
        lemma_seq_less_total(a.drop_first(), a.drop_first());
    }
}

/// Whether `a` orders before `b`.
pub fn str_less(a: &str, b: &str) -> (r: bool)
    ensures
        r == seq_less(a@, b@),
{
    let x = chars_of(a);
    let y = chars_of(b);
    let mut i: usize = 0;
    assert(a@.subrange(0, a@.len() as int) =~= a@);
    assert(b@.subrange(0, b@.len() as int) =~= b@);
    while i < x.len() && i < y.len() && x[i] == y[i]
        invariant
            x@ == a@,
            y@ == b@,
            i <= x@.len(),
            i <= y@.len(),
            seq_less(a@, b@) == seq_less(a@.subrange(i as int, a@.len() as int), b@.subrange(i as int, b@.len() as int)),
        decreases x@.len() - i,
    {
        proof {
            let sa = a@.subrange(i as int, a@.len() as int);
            let sb = b@.subrange(i as int, b@.len() as int);
            assert(sa.drop_first() =~= a@.subrange(i + 1, a@.len() as int));
            assert(sb.drop_first() =~= b@.subrange(i + 1, b@.len() as int));
        }
        i = i + 1;
    }
    if i == x.len() {
        i < y.len()
    } else if i == y.len() {
        false
    } else {
        x[i] < y[i]
    }
}

/// Strictly increasing in `seq_less`: sorted, without repeats.
pub open spec fn strictly_sorted(v: Seq<Seq<char>>) -> bool {
    forall|i: int, j: int| 0 <= i < j < v.len() ==> seq_less(#[trigger] v[i], #[trigger] v[j])
}

/// Adds `x` to a strictly sorted vector unless it is there already.
pub fn insert_sorted_unique(v: &mut Vec<String>, x: String)
    requires
        strictly_sorted(views(old(v)@)),
    ensures
        strictly_sorted(views(final(v)@)),
        forall|y: Seq<char>| views(final(v)@).contains(y) <==> (views(old(v)@).contains(y) || y == x@),
{
    let ghost old_v = views(v@);
    let mut p: usize = 0;
    while p < v.len() && str_less(v[p].as_str(), x.as_str())
        invariant
            views(v@) == old_v,
            p <= v@.len(),
            strictly_sorted(old_v),
            forall|i: int| 0 <= i < p ==> seq_less(#[trigger] old_v[i], x@),
        decreases v@.len() - p,
    {
        p = p + 1;
    }
    if p < v.len() && !str_less(x.as_str(), v[p].as_str()) {
        proof {
            lemma_seq_less_total(old_v[p as int], x@);
            assert(old_v[p as int] == x@);
        }
        return;
    }
    proof {
        if p < old_v.len() {
            assert(seq_less(x@, old_v[p as int]));
        }
    }
    v.insert(p, x);
    proof {
        let nv = views(v@);
        assert(nv =~= old_v.insert(p as int, x@));
        assert forall|i: int, j: int| 0 <= i < j < nv.len() implies seq_less(#[trigger] nv[i], #[trigger] nv[j]) by {
            if i < p && j == p {
            } else if i < p && j > p {
                lemma_seq_less_trans(nv[i], x@, old_v[p as int]);
                if j - 1 > p {
                    lemma_seq_less_trans(nv[i], old_v[p as int], old_v[j - 1]);
                }
            } else if i == p {
                if j - 1 > p {
                    lemma_seq_less_trans(x@, old_v[p as int], old_v[j - 1]);
                }
            } else {
            }
        }
        assert forall|y: Seq<char>| nv.contains(y) <==> (old_v.contains(y) || y == x@) by {
            if nv.contains(y) {
                let k = choose|k: int| 0 <= k < nv.len() && nv[k] == y;
                if k < p {
                    assert(old_v[k] == y);
                } else if k > p {
                    assert(old_v[k - 1] == y);
                }
            }
            if old_v.contains(y) {
                let k = choose|k: int| 0 <= k < old_v.len() && old_v[k] == y;
                if k < p {
                    assert(nv[k] == y);
                } else {
                    assert(nv[k + 1] == y);
                }
            }
            if y == x@ {
                assert(nv[p as int] == y);
            }
        }
    }
}

} // verus!

verus! {

/// Whether `a` and `b` hold the same characters.
pub fn same_text(a: &str, b: &str) -> (r: bool)
    ensures
        r == (a@ == b@),
{
    let x = chars_of(a);
    let y = chars_of(b);
    if x.len() != y.len() {
        return false;
    }
    let r = matches_at(&x, 0, &y);
    proof {
        assert(a@.subrange(0, b@.len() as int) =~= a@);
    }
    r
}

/// The index of the first whitespace character at or after `i`, or the length of `s`.
pub open spec fn ws_end(s: Seq<char>, i: int) -> int
    decreases s.len() - i,
{
    if i < 0 || i >= s.len() || is_ws(s[i]) {
        i
    } else {
        ws_end(s, i + 1)
    }
}

proof fn lemma_ws_end(s: Seq<char>, i: int)
    requires
        0 <= i <= s.len(),
    ensures
        i <= ws_end(s, i) <= s.len(),
    decreases s.len() - i,
{
    if i < s.len() && !is_ws(s[i]) {
        lemma_ws_end(s, i + 1);
    }
}

/// The first word of `t` (`split_whitespace().next()`, or empty).
pub open spec fn first_word(t: Seq<char>) -> Seq<char> {
    let u = strip_start(t, CharClass::Whitespace);
    u.subrange(0, ws_end(u, 0))
}

pub fn first_word_of(t: &str) -> (r: &str)
    ensures
        r@ == first_word(t@),
{
    let u = strip(t, &CharClass::Whitespace, true, false);
    let cs = chars_of(u);
    let mut e: usize = 0;
    while e < cs.len() && !is_whitespace(cs[e])
        invariant
            cs@ == u@,
            e <= cs@.len(),
            ws_end(u@, 0) == ws_end(u@, e as int),
        decreases cs@.len() - e,
    {
        e = e + 1;
    }
    u.substring_char(0, e)
}

/// What follows the last `c` in `t`, or all of `t` (`split(c).next_back()`).
pub open spec fn after_last(t: Seq<char>, c: char) -> Seq<char>
    decreases t.len(),
{
    if t.len() == 0 {
        t
    } else if t.last() == c {
        Seq::empty()
    } else {
        after_last(t.drop_last(), c) + seq![t.last()]
    }
}

pub fn after_last_of(t: &str, c: char) -> (r: &str)
    ensures
        r@ == after_last(t@, c),
{
    let cs = chars_of(t);
    let n = cs.len();
    let mut k: usize = n;
    assert(t@.subrange(0, n as int) =~= t@);
    assert(t@ + t@.subrange(n as int, n as int) =~= t@);
    while k > 0 && cs[k - 1] != c
        invariant
            cs@ == t@,
            n == t@.len(),
            k <= n,
            after_last(t@, c) == after_last(t@.subrange(0, k as int), c) + t@.subrange(k as int, n as int),
        decreases k,
    {
        let ghost p = t@.subrange(0, k as int);
        assert(p.drop_last() =~= t@.subrange(0, k - 1));
        assert(seq![p.last()] + t@.subrange(k as int, n as int) =~= t@.subrange(k - 1, n as int));
        k = k - 1;
    }
    proof {
        if k == 0 {
            assert(t@.subrange(0, 0) =~= Seq::<char>::empty());
            assert(after_last(t@, c) =~= t@.subrange(0, n as int));
            assert(t@.subrange(0, n as int) =~= t@);
        } else {
            assert(Seq::<char>::empty() + t@.subrange(k as int, n as int) =~= t@.subrange(k as int, n as int));
        }
    }
    assert(t@.subrange(0, n as int) =~= t@);
    t.substring_char(k, n)
}

} // verus!

verus! {

/// The decimal digit for `d < 10`.
pub open spec fn digit_char(d: nat) -> char {
    if d == 0 {
        '0'
    } else if d == 1 {
        '1'
    } else if d == 2 {
        '2'
    } else if d == 3 {
        '3'
    } else if d == 4 {
        '4'
    } else if d == 5 {
        '5'
    } else if d == 6 {
        '6'
    } else if d == 7 {
        '7'
    } else if d == 8 {
        '8'
    } else {
        '9'
    }
}

/// The decimal notation of `n`, without leading zeros.
pub open spec fn decimal(n: nat) -> Seq<char>
    decreases n,
{
    if n < 10 {
        seq![digit_char(n)]
    } else {
        decimal(n / 10) + seq![digit_char(n % 10)]
    }
}

pub open spec fn is_ascii_digit(c: char) -> bool {
    '0' <= c && c <= '9'
}

fn digit_str(d: u64) -> (r: &'static str)
    requires
        d < 10,
    ensures
        r@ == seq![digit_char(d as nat)],
{
    proof {
        reveal_strlit("0");
        reveal_strlit("1");
        reveal_strlit("2");
        reveal_strlit("3");
        reveal_strlit("4");
        reveal_strlit("5");
        reveal_strlit("6");
        reveal_strlit("7");
        reveal_strlit("8");
        reveal_strlit("9");
    }
    if d == 0 {
        "0"
    } else if d == 1 {
        "1"
    } else if d == 2 {
        "2"
    } else if d == 3 {
        "3"
    } else if d == 4 {
        "4"
    } else if d == 5 {
        "5"
    } else if d == 6 {
        "6"
    } else if d == 7 {
        "7"
    } else if d == 8 {
        "8"
    } else {
        "9"
    }
}

/// `n` written in decimal.
pub fn decimal_string(n: u64) -> (r: String)
    ensures
        r@ == decimal(n as nat),
    decreases n,
{
    if n < 10 {
        String::from_str(digit_str(n))
    } else {
        let mut s = decimal_string(n / 10);
        s.append(digit_str(n % 10));
        s
    }
}

/// Every character of `s` is an ASCII digit (vacuously so for the empty text).
pub fn all_ascii_digits(s: &str) -> (r: bool)
    ensures
        r == (forall|i: int| 0 <= i < s@.len() ==> is_ascii_digit(#[trigger] s@[i])),
{
    let cs = chars_of(s);
    let mut i: usize = 0;
    while i < cs.len()
        invariant
            cs@ == s@,
            i <= cs@.len(),
            forall|j: int| 0 <= j < i ==> is_ascii_digit(#[trigger] s@[j]),
        decreases cs@.len() - i,
    {
        if !('0' <= cs[i] && cs[i] <= '9') {
            return false;
        }
        i = i + 1;
    }
    true
}

} // verus!

verus! {

/// The lowercase hexadecimal digit for `d < 16`.
pub open spec fn hex_digit_char(d: nat) -> char {
    if d < 10 {
        digit_char(d)
    } else if d == 10 {
        'a'
    } else if d == 11 {
        'b'
    } else if d == 12 {
        'c'
    } else if d == 13 {
        'd'
    } else if d == 14 {
        'e'
    } else {
        'f'
    }
}

/// The lowercase hexadecimal notation of `n`, without leading zeros.
pub open spec fn hex(n: nat) -> Seq<char>
    decreases n,
{
    if n < 16 {
        seq![hex_digit_char(n)]
    } else {
        hex(n / 16) + seq![hex_digit_char(n % 16)]
    }
}

fn hex_digit_str(d: u64) -> (r: &'static str)
    requires
        d < 16,
    ensures
        r@ == seq![hex_digit_char(d as nat)],
{
    if d < 10 {
        return digit_str(d);
    }
    proof {
        reveal_strlit("a");
        reveal_strlit("b");
        reveal_strlit("c");
        reveal_strlit("d");
        reveal_strlit("e");
        reveal_strlit("f");
    }
    if d == 10 {
        "a"
    } else if d == 11 {
        "b"
    } else if d == 12 {
        "c"
    } else if d == 13 {
        "d"
    } else if d == 14 {
        "e"
    } else {
        "f"
    }
}

/// `n` in lowercase hexadecimal (`format!("{:x}", n)`).
pub fn hex_string(n: u64) -> (r: String)
    ensures
        r@ == hex(n as nat),
    decreases n,
{
    if n < 16 {
        String::from_str(hex_digit_str(n))
    } else {
        let mut s = hex_string(n / 16);
        s.append(hex_digit_str(n % 16));
        s
    }
}

} // verus!

verus! {

proof fn lemma_strip_start_shape(s: Seq<char>, k: CharClass)
    ensures
        strip_start(s, k).len() > 0 ==> !in_class(strip_start(s, k)[0], k),
    decreases s.len(),
{
    if s.len() > 0 && in_class(s[0], k) {
        lemma_strip_start_shape(s.drop_first(), k);
    }
}

proof fn lemma_strip_end_shape(s: Seq<char>, k: CharClass)
    ensures
        strip_end(s, k).len() <= s.len(),
        strip_end(s, k) == s.subrange(0, strip_end(s, k).len() as int),
        strip_end(s, k).len() > 0 ==> !in_class(strip_end(s, k).last(), k),
    decreases s.len(),
{
    if s.len() > 0 && in_class(s.last(), k) {
        lemma_strip_end_shape(s.drop_last(), k);
        let r = strip_end(s.drop_last(), k);
        assert(s.drop_last().subrange(0, r.len() as int) =~= s.subrange(0, r.len() as int));
    } else {
        assert(s.subrange(0, s.len() as int) =~= s);
    }
}

/// A trimmed text begins and ends with a character that is not whitespace.
pub proof fn lemma_trim_ends(s: Seq<char>)
    ensures
        trim_ws(s).len() > 0 ==> !is_ws(trim_ws(s)[0]) && !is_ws(trim_ws(s).last()),
{
    let u = strip_start(s, CharClass::Whitespace);
    lemma_strip_start_shape(s, CharClass::Whitespace);
    lemma_strip_end_shape(u, CharClass::Whitespace);
    let t = strip_end(u, CharClass::Whitespace);
    if t.len() > 0 {
        assert(t[0] == u[0]);
    }
}

/// A text that begins and ends with non-whitespace is its own trim.
pub proof fn lemma_trim_fixed(s: Seq<char>)
    requires
        s.len() == 0 || (!is_ws(s[0]) && !is_ws(s.last())),
    ensures
        trim_ws(s) == s,
{
    assert(strip_start(s, CharClass::Whitespace) == s);
    assert(strip_end(s, CharClass::Whitespace) == s);
}

/// Trimming twice trims once.
pub proof fn lemma_trim_idempotent(s: Seq<char>)
    ensures
        trim_ws(trim_ws(s)) == trim_ws(s),
{
    lemma_trim_ends(s);
    lemma_trim_fixed(trim_ws(s));
}

/// Replacing in a non-empty text with a non-empty replacement: the result is non-empty,
/// begins with the text's or the replacement's first character, and ends with the text's or
/// the replacement's last character.
pub proof fn lemma_replace_all_ends(s: Seq<char>, from: Seq<char>, to: Seq<char>)
    requires
        s.len() > 0,
        to.len() > 0,
    ensures
        replace_all(s, from, to).len() > 0,
        replace_all(s, from, to)[0] == s[0] || replace_all(s, from, to)[0] == to[0],
        replace_all(s, from, to).last() == s.last() || replace_all(s, from, to).last() == to.last(),
    decreases s.len(),
{
    let r = replace_all(s, from, to);
    if from.len() > 0 && starts_with(s, from) {
        let rest = s.subrange(from.len() as int, s.len() as int);
        if rest.len() > 0 {
            lemma_replace_all_ends(rest, from, to);
            assert(rest.last() == s.last());
            assert(r.last() == replace_all(rest, from, to).last());
        } else {
            assert(replace_all(rest, from, to) == rest);
            assert(r =~= to);
        }
    } else {
        let rest = s.drop_first();
        if rest.len() > 0 {
            lemma_replace_all_ends(rest, from, to);
            assert(rest.last() == s.last());
            assert(r.last() == replace_all(rest, from, to).last());
        } else {
            assert(replace_all(rest, from, to) == rest);
            assert(r =~= seq![s[0]]);
        }
    }
}

} // verus!
