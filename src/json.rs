//! A JSON document as the device and backend exchange it.
use vstd::prelude::*;

use crate::text::{opt_view, same_text};

verus! {

/// A JSON value. Numbers that fit an `i64` are held as such; other numbers keep their text.
/// Object members keep their order; keys are unique.
pub enum Json {
    Null,
    Bool(bool),
    Int(i64),
    Number(String),
    Str(String),
    Array(Vec<Json>),
    Object(Vec<(String, Json)>),
}

/// The member `key` of an object.
pub open spec fn member_from(members: Seq<(String, Json)>, key: Seq<char>, i: int) -> Option<Json>
    decreases members.len() - i,
{
    if i < 0 || i >= members.len() {
        None
    } else if members[i].0@ == key {
        Some(members[i].1)
    } else {
        member_from(members, key, i + 1)
    }
}

/// `v[key]` where `v` is an object with that member.
pub open spec fn get_of(v: Json, key: Seq<char>) -> Option<Json> {
    match v {
        Json::Object(m) => member_from(m@, key, 0),
        _ => None,
    }
}

pub open spec fn as_str_of(v: Option<Json>) -> Option<Seq<char>> {
    match v {
        Some(Json::Str(s)) => Some(s@),
        _ => None,
    }
}

pub open spec fn as_i64_of(v: Option<Json>) -> Option<i64> {
    match v {
        Some(Json::Int(i)) => Some(i),
        _ => None,
    }
}

impl Json {
    /// The member `key`, where `self` is an object that has it.
    pub fn get(&self, key: &str) -> (r: Option<&Json>)
        ensures
            match r {
                Some(x) => get_of(*self, key@) == Some(*x),
                None => get_of(*self, key@) is None,
            },
    {
        match self {
            Json::Object(m) => {
                let mut i: usize = 0;
                while i < m.len()
                    invariant
                        *self == Json::Object(*m),
                        i <= m@.len(),
                        member_from(m@, key@, 0) == member_from(m@, key@, i as int),
                    decreases m@.len() - i,
                {
                    if same_text(m[i].0.as_str(), key) {
                        return Some(&m[i].1);
                    }
                    i = i + 1;
                }
                None
            },
            _ => None,
        }
    }

    pub fn as_str(&self) -> (r: Option<&str>)
        ensures
            match r {
                Some(s) => as_str_of(Some(*self)) == Some(s@),
                None => as_str_of(Some(*self)) is None,
            },
    {
        match self {
            Json::Str(s) => Some(s.as_str()),
            _ => None,
        }
    }

    pub fn as_i64(&self) -> (r: Option<i64>)
        ensures
            r == as_i64_of(Some(*self)),
    {
        match self {
            Json::Int(i) => Some(*i),
            _ => None,
        }
    }
}

/// `v[key]` as text.
pub fn get_str(v: &Json, key: &str) -> (r: Option<String>)
    ensures
        opt_view(r) == as_str_of(get_of(*v, key@)),
{
    match v.get(key) {
        Some(x) => match x.as_str() {
            Some(s) => Some(String::from_str(s)),
            None => None,
        },
        None => None,
    }
}

/// `v[key]` as an integer.
pub fn get_i64(v: &Json, key: &str) -> (r: Option<i64>)
    ensures
        r == as_i64_of(get_of(*v, key@)),
{
    match v.get(key) {
        Some(x) => x.as_i64(),
        None => None,
    }
}

} // verus!

verus! {

/// `b` holds the same document as `a`: same shape, same texts and numbers, same member names
/// in the same order.
pub open spec fn same_json(a: Json, b: Json) -> bool
    decreases a,
{
    match a {
        Json::Array(x) => match b {
            Json::Array(y) => y@.len() == x@.len() && forall|i: int| 0 <= i < x@.len() ==> same_json(x@[i], #[trigger] y@[i]),
            _ => false,
        },
        Json::Object(x) => match b {
            Json::Object(y) => y@.len() == x@.len() && forall|i: int| 0 <= i < x@.len() ==> (#[trigger] y@[i]).0@ == x@[i].0@
                && same_json(x@[i].1, y@[i].1),
            _ => false,
        },
        Json::Str(s) => b matches Json::Str(t) && t@ == s@,
        Json::Number(s) => b matches Json::Number(t) && t@ == s@,
        _ => b == a,
    }
}

impl Json {
    /// A deep copy.
    pub fn duplicate(&self) -> (r: Json)
        ensures
            same_json(*self, r),
        decreases self,
    {
        match self {
            Json::Null => Json::Null,
            Json::Bool(b) => Json::Bool(*b),
            Json::Int(i) => Json::Int(*i),
            Json::Number(t) => Json::Number(t.clone()),
            Json::Str(t) => Json::Str(t.clone()),
            Json::Array(a) => {
                let mut out: Vec<Json> = Vec::new();
                let mut i: usize = 0;
                while i < a.len()
                    invariant
                        *self == Json::Array(*a),
                        i <= a@.len(),
                        out@.len() == i,
                        forall|j: int| 0 <= j < i ==> same_json(a@[j], #[trigger] out@[j]),
                    decreases a@.len() - i,
                {
                    proof {
                        vstd::std_specs::vec::axiom_vec_index_decreases(*a, i as int);
                        assert(decreases_to!(*self => self->Array_0));
                        assert(decreases_to!(*self => a@[i as int]));
                    }
                    let x = a[i].duplicate();
                    out.push(x);
                    i = i + 1;
                }
                Json::Array(out)
            },
            Json::Object(m) => {
                let mut out: Vec<(String, Json)> = Vec::new();
                let mut i: usize = 0;
                while i < m.len()
                    invariant
                        *self == Json::Object(*m),
                        i <= m@.len(),
                        out@.len() == i,
                        forall|j: int| 0 <= j < i ==> (#[trigger] out@[j]).0@ == m@[j].0@ && same_json(m@[j].1, out@[j].1),
                    decreases m@.len() - i,
                {
                    proof {
                        vstd::std_specs::vec::axiom_vec_index_decreases(*m, i as int);
                        assert(decreases_to!(*self => self->Object_0));
                        assert(decreases_to!(*self => m@[i as int]));
                        assert(decreases_to!(*self => m@[i as int].1));
                    }
                    let x = m[i].1.duplicate();
                    out.push((m[i].0.clone(), x));
                    i = i + 1;
                }
                Json::Object(out)
            },
        }
    }
}

} // verus!
