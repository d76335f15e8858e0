//! JSON values as the library builds and reads them.
use vstd::prelude::*;

use crate::text::{str_eq, to_owned_string};

verus! {

/// A JSON number.
#[derive(Debug, Clone, Copy, PartialEq, Eq, Structural)]
pub enum JsonNumber {
    /// A non-negative integer.
    PosInt(u64),
    /// A negative integer.
    NegInt(i64),
    /// A floating-point number, by the bits of its `f64`.
    Float(u64),
}

/// A JSON value. An object keeps its members in order.
#[derive(Debug)]
pub enum Json {
    Null,
    Bool(bool),
    Number(JsonNumber),
    Str(String),
    Array(Vec<Json>),
    Object(Vec<(String, Json)>),
}

/// A JSON value as mathematics.
#[verifier::ext_equal]
pub enum JsonV {
    Null,
    Bool(bool),
    Number(JsonNumber),
    Str(Seq<char>),
    Array(Seq<JsonV>),
    Object(Seq<(Seq<char>, JsonV)>),
}

impl Json {
    pub open spec fn view_json(self) -> JsonV
        decreases self,
    {
        match self {
            Json::Null => JsonV::Null,
            Json::Bool(b) => JsonV::Bool(b),
            Json::Number(n) => JsonV::Number(n),
            Json::Str(s) => JsonV::Str(s@),
            Json::Array(v) => JsonV::Array(Seq::new(v@.len(), |i: int|
                if 0 <= i < v@.len() { v@[i].view_json() } else { JsonV::Null })),
            Json::Object(m) => JsonV::Object(Seq::new(m@.len(), |i: int|
                if 0 <= i < m@.len() { (m@[i].0@, m@[i].1.view_json()) } else { (Seq::empty(), JsonV::Null) })),
        }
    }
}

impl Json {
    /// A copy of the value.
    pub fn deep_clone(&self) -> (res: Json)
        ensures
            res.view_json() == self.view_json(),
        decreases self,
    {
        match self {
            Json::Null => Json::Null,
            Json::Bool(b) => Json::Bool(*b),
            Json::Number(n) => Json::Number(*n),
            Json::Str(s) => Json::Str(s.clone()),
            Json::Array(v) => {
                let mut out: Vec<Json> = Vec::new();
                for i in 0..v.len()
                    invariant
                        *self == Json::Array(*v),
                        out@.len() == i,
                        forall|k: int| 0 <= k < i ==> (#[trigger] out@[k]).view_json() == v@[k].view_json(),
                {
                    proof {
                        assert(decreases_to!(*self => self->Array_0));
                        assert(decreases_to!(*v => v@));
                        assert(decreases_to!(v@ => v@[i as int]));
                    }
                    out.push(v[i].deep_clone());
                }
                let res = Json::Array(out);
                assert(res.view_json()->Array_0 =~= self.view_json()->Array_0);
                res
            },
            Json::Object(m) => {
                let mut out: Vec<(String, Json)> = Vec::new();
                for i in 0..m.len()
                    invariant
                        *self == Json::Object(*m),
                        out@.len() == i,
                        forall|k: int| 0 <= k < i ==> (#[trigger] out@[k]).0@ == m@[k].0@
                            && out@[k].1.view_json() == m@[k].1.view_json(),
                {
                    proof {
                        assert(decreases_to!(*self => self->Object_0));
                        assert(decreases_to!(*m => m@));
                        assert(decreases_to!(m@ => m@[i as int]));
                        assert(decreases_to!(m@[i as int] => m@[i as int].1));
                    }
                    let (key, value) = &m[i];
                    out.push((key.clone(), value.deep_clone()));
                }
                let res = Json::Object(out);
                assert(res.view_json()->Object_0 =~= self.view_json()->Object_0);
                res
            },
        }
    }
}

/// A JSON string.
pub fn json_str(s: &str) -> (res: Json)
    ensures
        res.view_json() == JsonV::Str(s@),
{
    Json::Str(to_owned_string(s))
}

/// The first member of an object's members named `key`.
pub open spec fn first_member(m: Seq<(String, Json)>, key: Seq<char>) -> Option<Json>
    decreases m.len(),
{
    if m.len() == 0 {
        None
    } else if m[0].0@ == key {
        Some(m[0].1)
    } else {
        first_member(m.skip(1), key)
    }
}

/// The member `key` of an object (`Value::get`); none for other values.
pub open spec fn field(v: Json, key: Seq<char>) -> Option<Json> {
    match v {
        Json::Object(m) => first_member(m@, key),
        _ => None,
    }
}

/// The text of a string value (`Value::as_str`).
pub open spec fn str_of(v: Option<Json>) -> Option<Seq<char>> {
    match v {
        Some(Json::Str(s)) => Some(s@),
        _ => None,
    }
}

/// The elements of an array value (`Value::as_array`).
pub open spec fn array_of(v: Option<Json>) -> Option<Seq<Json>> {
    match v {
        Some(Json::Array(a)) => Some(a@),
        _ => None,
    }
}

/// A non-negative integer value (`Value::as_u64`).
pub open spec fn u64_of(v: Option<Json>) -> Option<u64> {
    match v {
        Some(Json::Number(JsonNumber::PosInt(u))) => Some(u),
        _ => None,
    }
}

/// The member `key` of an object, if any.
pub fn get<'a>(v: &'a Json, key: &str) -> (res: Option<&'a Json>)
    ensures
        match res {
            Some(r) => field(*v, key@) == Some(*r),
            None => field(*v, key@) is None,
        },
{
    match v {
        Json::Object(m) => {
            let mut i: usize = 0;
            assert(m@.skip(0) =~= m@);
            while i < m.len()
                invariant
                    *v == Json::Object(*m),
                    i <= m.len(),
                    first_member(m@, key@) == first_member(m@.skip(i as int), key@),
                decreases m.len() - i,
            {
                let ghost rest = m@.skip(i as int);
                assert(rest[0] == m@[i as int]);
                assert(rest.skip(1) =~= m@.skip(i + 1));
                if str_eq(m[i].0.as_str(), key) {
                    return Some(&m[i].1);
                }
                i += 1;
            }
            None
        },
        _ => None,
    }
}

/// The text of a value, if it is a string.
pub fn as_str(v: Option<&Json>) -> (res: Option<&str>)
    ensures
        match res {
            Some(s) => str_of(match v { Some(j) => Some(*j), None => None }) == Some(s@),
            None => str_of(match v { Some(j) => Some(*j), None => None }) is None,
        },
{
    match v {
        Some(Json::Str(s)) => Some(s.as_str()),
        _ => None,
    }
}

/// The elements of a value, if it is an array.
pub fn as_array(v: Option<&Json>) -> (res: Option<&Vec<Json>>)
    ensures
        match res {
            Some(a) => array_of(match v { Some(j) => Some(*j), None => None }) == Some(a@),
            None => array_of(match v { Some(j) => Some(*j), None => None }) is None,
        },
{
    match v {
        Some(Json::Array(a)) => Some(a),
        _ => None,
    }
}

/// A value as a non-negative integer, if it is one.
pub fn as_u64(v: Option<&Json>) -> (res: Option<u64>)
    ensures
        res == u64_of(match v { Some(j) => Some(*j), None => None }),
{
    match v {
        Some(Json::Number(JsonNumber::PosInt(u))) => Some(*u),
        _ => None,
    }
}

/// An object member as a view.
pub open spec fn member(key: Seq<char>, value: JsonV) -> (Seq<char>, JsonV) {
    (key, value)
}

/// Appends the member `key: value` to an object being built.
pub fn put(m: &mut Vec<(String, Json)>, key: &str, value: Json)
    ensures
        final(m)@.len() == old(m)@.len() + 1,
        forall|i: int| 0 <= i < old(m)@.len() ==> #[trigger] final(m)@[i] == old(m)@[i],
        final(m)@.last().0@ == key@,
        final(m)@.last().1 == value,
{
    m.push((to_owned_string(key), value));
}

/// The view of an object's members.
pub open spec fn members_view(m: Seq<(String, Json)>) -> Seq<(Seq<char>, JsonV)> {
    Seq::new(m.len(), |i: int| (m[i].0@, m[i].1.view_json()))
}

/// The view of an array's elements.
pub open spec fn elements_view(v: Seq<Json>) -> Seq<JsonV> {
    Seq::new(v.len(), |i: int| v[i].view_json())
}

/// The view of an object is that of its members.
pub proof fn lemma_object_view(m: Vec<(String, Json)>)
    ensures
        Json::Object(m).view_json() == JsonV::Object(members_view(m@)),
{
    assert(Json::Object(m).view_json()->Object_0 =~= members_view(m@));
}

/// The view of an array is that of its elements.
pub proof fn lemma_array_view(v: Vec<Json>)
    ensures
        Json::Array(v).view_json() == JsonV::Array(elements_view(v@)),
{
    assert(Json::Array(v).view_json()->Array_0 =~= elements_view(v@));
}

/// The object `{k1: v1, k2: v2}`.
pub fn object2(k1: &str, v1: Json, k2: &str, v2: Json) -> (res: Json)
    ensures
        res.view_json() == JsonV::Object(seq![(k1@, v1.view_json()), (k2@, v2.view_json())]),
{
    let mut m: Vec<(String, Json)> = Vec::new();
    put(&mut m, k1, v1);
    put(&mut m, k2, v2);
    proof {
        lemma_object_view(m);
        assert(members_view(m@) =~= seq![(k1@, v1.view_json()), (k2@, v2.view_json())]);
    }
    Json::Object(m)
}

/// The object `{k1: v1, k2: v2, k3: v3}`.
pub fn object3(k1: &str, v1: Json, k2: &str, v2: Json, k3: &str, v3: Json) -> (res: Json)
    ensures
        res.view_json() == JsonV::Object(seq![(k1@, v1.view_json()), (k2@, v2.view_json()), (k3@, v3.view_json())]),
{
    let mut m: Vec<(String, Json)> = Vec::new();
    put(&mut m, k1, v1);
    put(&mut m, k2, v2);
    put(&mut m, k3, v3);
    proof {
        lemma_object_view(m);
        assert(members_view(m@) =~= seq![(k1@, v1.view_json()), (k2@, v2.view_json()), (k3@, v3.view_json())]);
    }
    Json::Object(m)
}

/// The object `{k1: v1, k2: v2, k3: v3, k4: v4}`.
pub fn object4(k1: &str, v1: Json, k2: &str, v2: Json, k3: &str, v3: Json, k4: &str, v4: Json) -> (res: Json)
    ensures
        res.view_json() == JsonV::Object(seq![(k1@, v1.view_json()), (k2@, v2.view_json()), (k3@, v3.view_json()), (k4@, v4.view_json())]),
{
    let mut m: Vec<(String, Json)> = Vec::new();
    put(&mut m, k1, v1);
    put(&mut m, k2, v2);
    put(&mut m, k3, v3);
    put(&mut m, k4, v4);
    proof {
        lemma_object_view(m);
        assert(members_view(m@) =~= seq![(k1@, v1.view_json()), (k2@, v2.view_json()), (k3@, v3.view_json()), (k4@, v4.view_json())]);
    }
    Json::Object(m)
}

/// A copy of an object's members.
pub fn clone_members(m: &Vec<(String, Json)>) -> (res: Vec<(String, Json)>)
    ensures
        members_view(res@) == members_view(m@),
{
    let mut out: Vec<(String, Json)> = Vec::new();
    for i in 0..m.len()
        invariant
            out@.len() == i,
            forall|k: int| 0 <= k < i ==> (#[trigger] out@[k]).0@ == m@[k].0@ && out@[k].1.view_json() == m@[k].1.view_json(),
    {
        out.push((m[i].0.clone(), m[i].1.deep_clone()));
    }
    assert(members_view(out@) =~= members_view(m@));
    out
}

} // verus!
