//! JSON values: the shape in which structural schemas arrive and in which
//! free-form schema fields are kept.

use vstd::prelude::*;

verus! {

broadcast use {
    vstd::std_specs::vec::axiom_vec_decreases_to_view,
    vstd::std_specs::vec::axiom_vec_index_decreases,
};

/// A JSON value. Numbers are kept as their decimal text; the members of an
/// object keep their order.
#[derive(Debug)]
pub enum JsonValue {
    Null,
    Bool(bool),
    Number(String),
    Str(String),
    Array(Vec<JsonValue>),
    Object(Vec<(String, JsonValue)>),
}

/// The mathematical form of a JSON value.
pub enum Json {
    Null,
    Bool(bool),
    Number(Seq<char>),
    Str(Seq<char>),
    Array(Seq<Json>),
    Object(Seq<(Seq<char>, Json)>),
}

pub open spec fn json_of(v: JsonValue) -> Json
    decreases v,
{
    match v {
        JsonValue::Null => Json::Null,
        JsonValue::Bool(b) => Json::Bool(b),
        JsonValue::Number(n) => Json::Number(n@),
        JsonValue::Str(s) => Json::Str(s@),
        JsonValue::Array(a) => Json::Array(jsons_of(a@)),
        JsonValue::Object(m) => Json::Object(members_of(m@)),
    }
}

pub open spec fn jsons_of(s: Seq<JsonValue>) -> Seq<Json>
    decreases s,
{
    if s.len() == 0 {
        Seq::empty()
    } else {
        jsons_of(s.drop_last()).push(json_of(s.last()))
    }
}

pub open spec fn members_of(s: Seq<(String, JsonValue)>) -> Seq<(Seq<char>, Json)>
    decreases s,
{
    if s.len() == 0 {
        Seq::empty()
    } else {
        members_of(s.drop_last()).push((s.last().0@, json_of(s.last().1)))
    }
}

pub proof fn lemma_jsons_of(s: Seq<JsonValue>)
    ensures
        jsons_of(s).len() == s.len(),
        forall|i: int| 0 <= i < s.len() ==> #[trigger] jsons_of(s)[i] == json_of(s[i]),
    decreases s.len(),
{
    if s.len() > 0 {
        lemma_jsons_of(s.drop_last());
    }
}

pub proof fn lemma_members_of(s: Seq<(String, JsonValue)>)
    ensures
        members_of(s).len() == s.len(),
        forall|i: int|
            0 <= i < s.len() ==> #[trigger] members_of(s)[i] == (s[i].0@, json_of(s[i].1)),
    decreases s.len(),
{
    if s.len() > 0 {
        lemma_members_of(s.drop_last());
    }
}

/// The value of the last member under `key`.
pub open spec fn lookup(m: Seq<(Seq<char>, Json)>, key: Seq<char>) -> Option<Json>
    decreases m.len(),
{
    if m.len() == 0 {
        None
    } else if m.last().0 == key {
        Some(m.last().1)
    } else {
        lookup(m.drop_last(), key)
    }
}

pub open spec fn opt_json_ref(o: Option<&JsonValue>) -> Option<Json> {
    match o {
        Some(v) => Some(json_of(*v)),
        None => None,
    }
}

/// The value of the last member of `m` under `key`.
pub fn get_member<'a>(m: &'a Vec<(String, JsonValue)>, key: &str) -> (r: Option<&'a JsonValue>)
    ensures
        opt_json_ref(r) == lookup(members_of(m@), key@),
{
    let k = String::from_str(key);
    let mut found: Option<usize> = None;
    let mut i: usize = 0;
    while i < m.len()
        invariant
            i <= m@.len(),
            k@ == key@,
            match found {
                Some(j) => j < i && lookup(members_of(m@.take(i as int)), key@) == Some(
                    json_of(m@[j as int].1),
                ),
                None => lookup(members_of(m@.take(i as int)), key@) is None,
            },
        decreases m@.len() - i,
    {
        proof {
            assert(m@.take(i + 1).drop_last() =~= m@.take(i as int));
            let x = members_of(m@.take(i as int));
            assert(x.push((m@[i as int].0@, json_of(m@[i as int].1))).drop_last() =~= x);
        }
        if m[i].0 == k {
            found = Some(i);
        }
        i = i + 1;
    }
    assert(m@.take(m@.len() as int) =~= m@);
    match found {
        Some(j) => Some(&m[j].1),
        None => None,
    }
}

/// A copy of `v`.
pub fn clone_json(v: &JsonValue) -> (r: JsonValue)
    ensures
        r@ == v@,
    decreases v,
{
    match v {
        JsonValue::Null => JsonValue::Null,
        JsonValue::Bool(b) => JsonValue::Bool(*b),
        JsonValue::Number(n) => JsonValue::Number(n.clone()),
        JsonValue::Str(s) => JsonValue::Str(s.clone()),
        JsonValue::Array(a) => {
            let mut r: Vec<JsonValue> = Vec::new();
            let mut i: usize = 0;
            while i < a.len()
                invariant
                    i <= a@.len(),
                    jsons_of(r@) == jsons_of(a@.take(i as int)),
                    *v == JsonValue::Array(*a),
                decreases a@.len() - i,
            {
                proof {
                    assert(decreases_to!(*v => (*v)->Array_0));
                    assert(decreases_to!(a => a[i as int]));
                }
                let e = clone_json(&a[i]);
                proof {
                    assert(r@.push(e).drop_last() =~= r@);
                    assert(a@.take(i + 1).drop_last() =~= a@.take(i as int));
                }
                r.push(e);
                i = i + 1;
            }
            assert(a@.take(a@.len() as int) =~= a@);
            JsonValue::Array(r)
        },
        JsonValue::Object(m) => {
            let mut r: Vec<(String, JsonValue)> = Vec::new();
            let mut i: usize = 0;
            while i < m.len()
                invariant
                    i <= m@.len(),
                    members_of(r@) == members_of(m@.take(i as int)),
                    *v == JsonValue::Object(*m),
                decreases m@.len() - i,
            {
                proof {
                    assert(decreases_to!(*v => (*v)->Object_0));
                    assert(decreases_to!(m => m[i as int]));
                    assert(decreases_to!(m[i as int] => m[i as int].1));
                }
                let e = (m[i].0.clone(), clone_json(&m[i].1));
                proof {
                    assert(r@.push(e).drop_last() =~= r@);
                    assert(m@.take(i + 1).drop_last() =~= m@.take(i as int));
                }
                r.push(e);
                i = i + 1;
            }
            assert(m@.take(m@.len() as int) =~= m@);
            JsonValue::Object(r)
        },
    }
}

impl View for JsonValue {
    type V = Json;

    open spec fn view(&self) -> Json {
        json_of(*self)
    }
}

} // verus!
