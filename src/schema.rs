//! Payload schemas, and how they are read from the structural JSON schema
//! that reflection produces.
//!
//! An object with a `$ref` string is a reference. Any other object is read
//! member by member: a member whose key names a typed field and whose value
//! has that field's shape fills the field (a later one replaces an earlier
//! one); every other member is kept verbatim among the additional fields.

use crate::annotation::{opt_view, str_eq, strs};
use crate::json::{
    clone_json, json_of, jsons_of, lemma_jsons_of, lemma_members_of, lookup, members_of, Json,
    JsonValue,
};
use vstd::prelude::*;

verus! {

broadcast use {
    vstd::std_specs::vec::axiom_vec_decreases_to_view,
    vstd::std_specs::vec::axiom_vec_index_decreases,
};

/// A schema: a reference to one defined elsewhere, or a schema object.
#[derive(Debug)]
pub enum Schema {
    Reference { reference: String },
    Object(Box<SchemaObject>),
}

/// A schema object. Members without a typed field of their own are kept in
/// `additional`, in order.
#[derive(Debug)]
pub struct SchemaObject {
    pub schema_type: Option<JsonValue>,
    pub properties: Option<Vec<(String, Schema)>>,
    pub required: Option<Vec<String>>,
    pub description: Option<String>,
    pub title: Option<String>,
    pub enum_values: Option<Vec<JsonValue>>,
    pub const_value: Option<JsonValue>,
    pub items: Option<Box<Schema>>,
    pub additional_properties: Option<Box<Schema>>,
    pub one_of: Option<Vec<Schema>>,
    pub any_of: Option<Vec<Schema>>,
    pub all_of: Option<Vec<Schema>>,
    pub additional: Vec<(String, JsonValue)>,
}

/// The mathematical form of a schema.
pub enum SchemaModel {
    Reference(Seq<char>),
    Object(Box<ObjectModel>),
}

/// The mathematical form of a schema object.
pub struct ObjectModel {
    pub schema_type: Option<Json>,
    pub properties: Option<Seq<(Seq<char>, SchemaModel)>>,
    pub required: Option<Seq<Seq<char>>>,
    pub description: Option<Seq<char>>,
    pub title: Option<Seq<char>>,
    pub enum_values: Option<Seq<Json>>,
    pub const_value: Option<Json>,
    pub items: Option<Box<SchemaModel>>,
    pub additional_properties: Option<Box<SchemaModel>>,
    pub one_of: Option<Seq<SchemaModel>>,
    pub any_of: Option<Seq<SchemaModel>>,
    pub all_of: Option<Seq<SchemaModel>>,
    pub additional: Seq<(Seq<char>, Json)>,
}

pub open spec fn opt_json(o: Option<JsonValue>) -> Option<Json> {
    match o {
        Some(j) => Some(json_of(j)),
        None => None,
    }
}

pub open spec fn schema_model(s: Schema) -> SchemaModel
    decreases s,
{
    match s {
        Schema::Reference { reference } => SchemaModel::Reference(reference@),
        Schema::Object(o) => SchemaModel::Object(Box::new(object_model(*o))),
    }
}

pub open spec fn object_model(o: SchemaObject) -> ObjectModel
    decreases o,
{
    ObjectModel {
        schema_type: opt_json(o.schema_type),
        properties: match o.properties {
            Some(p) => Some(named_models(p@)),
            None => None,
        },
        required: match o.required {
            Some(r) => Some(strs(r@)),
            None => None,
        },
        description: opt_view(o.description),
        title: opt_view(o.title),
        enum_values: match o.enum_values {
            Some(e) => Some(jsons_of(e@)),
            None => None,
        },
        const_value: opt_json(o.const_value),
        items: match o.items {
            Some(b) => Some(Box::new(schema_model(*b))),
            None => None,
        },
        additional_properties: match o.additional_properties {
            Some(b) => Some(Box::new(schema_model(*b))),
            None => None,
        },
        one_of: match o.one_of {
            Some(l) => Some(models(l@)),
            None => None,
        },
        any_of: match o.any_of {
            Some(l) => Some(models(l@)),
            None => None,
        },
        all_of: match o.all_of {
            Some(l) => Some(models(l@)),
            None => None,
        },
        additional: members_of(o.additional@),
    }
}

pub open spec fn models(s: Seq<Schema>) -> Seq<SchemaModel>
    decreases s,
{
    if s.len() == 0 {
        Seq::empty()
    } else {
        models(s.drop_last()).push(schema_model(s.last()))
    }
}

pub open spec fn named_models(s: Seq<(String, Schema)>) -> Seq<(Seq<char>, SchemaModel)>
    decreases s,
{
    if s.len() == 0 {
        Seq::empty()
    } else {
        named_models(s.drop_last()).push((s.last().0@, schema_model(s.last().1)))
    }
}

impl View for Schema {
    type V = SchemaModel;

    open spec fn view(&self) -> SchemaModel {
        schema_model(*self)
    }
}

pub open spec fn opt_model(o: Option<Schema>) -> Option<SchemaModel> {
    match o {
        Some(s) => Some(schema_model(s)),
        None => None,
    }
}

/// Which typed field a member key names: 1 to 12, or 0 for none.
pub open spec fn field_kind(k: Seq<char>) -> int {
    if k == "type"@ {
        1
    } else if k == "properties"@ {
        2
    } else if k == "required"@ {
        3
    } else if k == "description"@ {
        4
    } else if k == "title"@ {
        5
    } else if k == "enum"@ {
        6
    } else if k == "const"@ {
        7
    } else if k == "items"@ {
        8
    } else if k == "additionalProperties"@ {
        9
    } else if k == "oneOf"@ {
        10
    } else if k == "anyOf"@ {
        11
    } else if k == "allOf"@ {
        12
    } else {
        0
    }
}

/// What one member of a schema object contributes.
pub enum Slot {
    Field(int, FieldValue),
    Extra(Seq<char>, Json),
}

/// The value of one typed field.
pub enum FieldValue {
    Value(Json),
    Named(Seq<(Seq<char>, SchemaModel)>),
    Strings(Seq<Seq<char>>),
    Text(Seq<char>),
    Values(Seq<Json>),
    One(SchemaModel),
    Many(Seq<SchemaModel>),
}

/// The schema that the object with members `m` describes.
pub open spec fn object_conv(m: Seq<(Seq<char>, Json)>) -> SchemaModel
    decreases m, 1nat,
{
    match lookup(m, "$ref"@) {
        Some(Json::Str(r)) => SchemaModel::Reference(r),
        _ => SchemaModel::Object(Box::new(fold_slots(slots(m)))),
    }
}

/// What each member contributes, in order.
pub open spec fn slots(m: Seq<(Seq<char>, Json)>) -> Seq<Slot>
    decreases m, 0nat,
{
    if m.len() == 0 {
        Seq::empty()
    } else {
        slots(m.drop_last()).push(slot_of(m.last().0, m.last().1))
    }
}

/// What the member `k: v` contributes.
pub open spec fn slot_of(k: Seq<char>, v: Json) -> Slot
    decreases v, 0nat,
{
    let kind = field_kind(k);
    let extra = Slot::Extra(k, v);
    if kind == 1 || kind == 7 {
        if v is Null {
            extra
        } else {
            Slot::Field(kind, FieldValue::Value(v))
        }
    } else if kind == 2 {
        match v {
            Json::Object(pm) => match named_conv(pm) {
                Some(p) => Slot::Field(kind, FieldValue::Named(p)),
                None => extra,
            },
            _ => extra,
        }
    } else if kind == 3 {
        match v {
            Json::Array(a) => match str_conv(a) {
                Some(l) => Slot::Field(kind, FieldValue::Strings(l)),
                None => extra,
            },
            _ => extra,
        }
    } else if kind == 4 || kind == 5 {
        match v {
            Json::Str(t) => Slot::Field(kind, FieldValue::Text(t)),
            _ => extra,
        }
    } else if kind == 6 {
        match v {
            Json::Array(a) => Slot::Field(kind, FieldValue::Values(a)),
            _ => extra,
        }
    } else if kind == 8 || kind == 9 {
        match v {
            Json::Object(pm) => Slot::Field(kind, FieldValue::One(object_conv(pm))),
            _ => extra,
        }
    } else if kind >= 10 {
        match v {
            Json::Array(a) => match list_conv(a) {
                Some(l) => Slot::Field(kind, FieldValue::Many(l)),
                None => extra,
            },
            _ => extra,
        }
    } else {
        extra
    }
}

/// The schema of each member value, where every one is an object.
pub open spec fn named_conv(pm: Seq<(Seq<char>, Json)>) -> Option<Seq<(Seq<char>, SchemaModel)>>
    decreases pm, 0nat,
{
    if pm.len() == 0 {
        Some(Seq::empty())
    } else {
        match (named_conv(pm.drop_last()), pm.last().1) {
            (Some(p), Json::Object(inner)) => Some(p.push((pm.last().0, object_conv(inner)))),
            _ => None,
        }
    }
}

/// The schema of each element, where every one is an object.
pub open spec fn list_conv(a: Seq<Json>) -> Option<Seq<SchemaModel>>
    decreases a, 0nat,
{
    if a.len() == 0 {
        Some(Seq::empty())
    } else {
        match (list_conv(a.drop_last()), a.last()) {
            (Some(l), Json::Object(inner)) => Some(l.push(object_conv(inner))),
            _ => None,
        }
    }
}

/// The texts, where every element is a string.
pub open spec fn str_conv(a: Seq<Json>) -> Option<Seq<Seq<char>>>
    decreases a.len(),
{
    if a.len() == 0 {
        Some(Seq::empty())
    } else {
        match (str_conv(a.drop_last()), a.last()) {
            (Some(l), Json::Str(t)) => Some(l.push(t)),
            _ => None,
        }
    }
}

pub open spec fn empty_object() -> ObjectModel {
    ObjectModel {
        schema_type: None,
        properties: None,
        required: None,
        description: None,
        title: None,
        enum_values: None,
        const_value: None,
        items: None,
        additional_properties: None,
        one_of: None,
        any_of: None,
        all_of: None,
        additional: Seq::empty(),
    }
}

/// `o` with the contribution of `s` applied.
pub open spec fn apply_slot(o: ObjectModel, s: Slot) -> ObjectModel {
    match s {
        Slot::Extra(k, v) => ObjectModel { additional: o.additional.push((k, v)), ..o },
        Slot::Field(kind, f) => match f {
            FieldValue::Value(v) => if kind == 1 {
                ObjectModel { schema_type: Some(v), ..o }
            } else {
                ObjectModel { const_value: Some(v), ..o }
            },
            FieldValue::Named(p) => ObjectModel { properties: Some(p), ..o },
            FieldValue::Strings(l) => ObjectModel { required: Some(l), ..o },
            FieldValue::Text(t) => if kind == 4 {
                ObjectModel { description: Some(t), ..o }
            } else {
                ObjectModel { title: Some(t), ..o }
            },
            FieldValue::Values(l) => ObjectModel { enum_values: Some(l), ..o },
            FieldValue::One(m) => if kind == 8 {
                ObjectModel { items: Some(Box::new(m)), ..o }
            } else {
                ObjectModel { additional_properties: Some(Box::new(m)), ..o }
            },
            FieldValue::Many(l) => if kind == 10 {
                ObjectModel { one_of: Some(l), ..o }
            } else if kind == 11 {
                ObjectModel { any_of: Some(l), ..o }
            } else {
                ObjectModel { all_of: Some(l), ..o }
            },
        },
    }
}

/// The object that the contributions `sl` build, applied in order.
pub open spec fn fold_slots(sl: Seq<Slot>) -> ObjectModel
    decreases sl.len(),
{
    if sl.len() == 0 {
        empty_object()
    } else {
        apply_slot(fold_slots(sl.drop_last()), sl.last())
    }
}

/// The schema that the JSON value `j` describes; only an object describes
/// one.
pub open spec fn schema_of(j: Json) -> Option<SchemaModel> {
    match j {
        Json::Object(m) => Some(object_conv(m)),
        _ => None,
    }
}

proof fn lemma_members_step(m: Seq<(String, JsonValue)>, i: int)
    requires
        0 <= i < m.len(),
    ensures
        members_of(m.take(i + 1)) == members_of(m.take(i)).push((m[i].0@, json_of(m[i].1))),
        slots(members_of(m.take(i + 1))) == slots(members_of(m.take(i))).push(
            slot_of(m[i].0@, json_of(m[i].1)),
        ),
        fold_slots(slots(members_of(m.take(i + 1)))) == apply_slot(
            fold_slots(slots(members_of(m.take(i)))),
            slot_of(m[i].0@, json_of(m[i].1)),
        ),
{
    assert(m.take(i + 1).drop_last() =~= m.take(i));
    let x = members_of(m.take(i));
    let y = (m[i].0@, json_of(m[i].1));
    assert(x.push(y).drop_last() =~= x);
    let sl = slots(x);
    assert(sl.push(slot_of(y.0, y.1)).drop_last() =~= sl);
}

proof fn lemma_lookup_step(m: Seq<(String, JsonValue)>, i: int, key: Seq<char>)
    requires
        0 <= i < m.len(),
    ensures
        lookup(members_of(m.take(i + 1)), key) == if m[i].0@ == key {
            Some(json_of(m[i].1))
        } else {
            lookup(members_of(m.take(i)), key)
        },
{
    lemma_members_step(m, i);
    let x = members_of(m.take(i));
    assert(x.push((m[i].0@, json_of(m[i].1))).drop_last() =~= x);
}

proof fn lemma_named_conv_none(s: Seq<(Seq<char>, Json)>, n: int)
    requires
        0 <= n <= s.len(),
        named_conv(s.take(n)) is None,
    ensures
        named_conv(s) is None,
    decreases s.len() - n,
{
    if n < s.len() {
        assert(s.take(n + 1).drop_last() =~= s.take(n));
        lemma_named_conv_none(s, n + 1);
    } else {
        assert(s.take(n) =~= s);
    }
}

proof fn lemma_list_conv_none(s: Seq<Json>, n: int)
    requires
        0 <= n <= s.len(),
        list_conv(s.take(n)) is None,
    ensures
        list_conv(s) is None,
    decreases s.len() - n,
{
    if n < s.len() {
        assert(s.take(n + 1).drop_last() =~= s.take(n));
        lemma_list_conv_none(s, n + 1);
    } else {
        assert(s.take(n) =~= s);
    }
}

proof fn lemma_str_conv_none(s: Seq<Json>, n: int)
    requires
        0 <= n <= s.len(),
        str_conv(s.take(n)) is None,
    ensures
        str_conv(s) is None,
    decreases s.len() - n,
{
    if n < s.len() {
        assert(s.take(n + 1).drop_last() =~= s.take(n));
        lemma_str_conv_none(s, n + 1);
    } else {
        assert(s.take(n) =~= s);
    }
}

proof fn lemma_jsons_step(a: Seq<JsonValue>, i: int)
    requires
        0 <= i < a.len(),
    ensures
        jsons_of(a.take(i + 1)) == jsons_of(a.take(i)).push(json_of(a[i])),
{
    assert(a.take(i + 1).drop_last() =~= a.take(i));
}

fn field_kind_of(k: &String) -> (r: u8)
    ensures
        r as int == field_kind(k@),
{
    if str_eq(k, "type") {
        1
    } else if str_eq(k, "properties") {
        2
    } else if str_eq(k, "required") {
        3
    } else if str_eq(k, "description") {
        4
    } else if str_eq(k, "title") {
        5
    } else if str_eq(k, "enum") {
        6
    } else if str_eq(k, "const") {
        7
    } else if str_eq(k, "items") {
        8
    } else if str_eq(k, "additionalProperties") {
        9
    } else if str_eq(k, "oneOf") {
        10
    } else if str_eq(k, "anyOf") {
        11
    } else if str_eq(k, "allOf") {
        12
    } else {
        0
    }
}

/// Reads the schema that the JSON value `j` describes; `None` unless `j` is an
/// object.
pub fn schema_from_json(j: &JsonValue) -> (r: Option<Schema>)
    ensures
        opt_model(r) == schema_of(j@),
{
    match j {
        JsonValue::Object(m) => Some(convert_object(m)),
        _ => None,
    }
}

/// The text of the last member under `$ref`, where that member is a string.
fn find_ref(m: &Vec<(String, JsonValue)>) -> (r: Option<String>)
    ensures
        match lookup(members_of(m@), "$ref"@) {
            Some(Json::Str(t)) => r matches Some(x) && x@ == t,
            _ => r is None,
        },
{
    let mut found: Option<usize> = None;
    let mut i: usize = 0;
    while i < m.len()
        invariant
            i <= m@.len(),
            match found {
                Some(k) => k < i && lookup(members_of(m@.take(i as int)), "$ref"@) == Some(
                    json_of(m@[k as int].1),
                ),
                None => lookup(members_of(m@.take(i as int)), "$ref"@) is None,
            },
        decreases m@.len() - i,
    {
        proof {
            lemma_lookup_step(m@, i as int, "$ref"@);
        }
        if str_eq(&m[i].0, "$ref") {
            found = Some(i);
        }
        i = i + 1;
    }
    assert(m@.take(m@.len() as int) =~= m@);
    match found {
        Some(k) => match &m[k].1 {
            JsonValue::Str(t) => Some(t.clone()),
            _ => None,
        },
        None => None,
    }
}

fn convert_object(m: &Vec<(String, JsonValue)>) -> (r: Schema)
    ensures
        schema_model(r) == object_conv(members_of(m@)),
    decreases m,
{
    if let Some(reference) = find_ref(m) {
        return Schema::Reference { reference };
    }
    let mut o = SchemaObject {
        schema_type: None,
        properties: None,
        required: None,
        description: None,
        title: None,
        enum_values: None,
        const_value: None,
        items: None,
        additional_properties: None,
        one_of: None,
        any_of: None,
        all_of: None,
        additional: Vec::new(),
    };
    assert(members_of(o.additional@) =~= Seq::<(Seq<char>, Json)>::empty());
    assert(slots(members_of(m@.take(0))) =~= Seq::<Slot>::empty());
    let mut i: usize = 0;
    while i < m.len()
        invariant
            i <= m@.len(),
            object_model(o) == fold_slots(slots(members_of(m@.take(i as int)))),
        decreases m@.len() - i,
    {
        proof {
            lemma_members_step(m@, i as int);
            assert(decreases_to!(m => m[i as int]));
            assert(decreases_to!(m[i as int] => m[i as int].1));
        }
        absorb(&mut o, &m[i].0, &m[i].1);
        i = i + 1;
    }
    assert(m@.take(m@.len() as int) =~= m@);
    Schema::Object(Box::new(o))
}

/// Applies the member `k: v` to `o`.
fn absorb(o: &mut SchemaObject, k: &String, v: &JsonValue)
    ensures
        object_model(*final(o)) == apply_slot(object_model(*old(o)), slot_of(k@, json_of(*v))),
    decreases v,
{
    let kind = field_kind_of(k);
    let mut extra = false;
    if kind == 1 || kind == 7 {
        if let JsonValue::Null = v {
            extra = true;
        } else if kind == 1 {
            o.schema_type = Some(clone_json(v));
        } else {
            o.const_value = Some(clone_json(v));
        }
    } else if kind == 2 {
        match v {
            JsonValue::Object(pm) => {
                proof {
                    assert(decreases_to!(*v => (*v)->Object_0));
                }
                match convert_named(pm) {
                    Some(p) => {
                        o.properties = Some(p);
                    },
                    None => {
                        extra = true;
                    },
                }
            },
            _ => {
                extra = true;
            },
        }
    } else if kind == 3 {
        match v {
            JsonValue::Array(a) => match convert_strs(a) {
                Some(l) => {
                    o.required = Some(l);
                },
                None => {
                    extra = true;
                },
            },
            _ => {
                extra = true;
            },
        }
    } else if kind == 4 || kind == 5 {
        match v {
            JsonValue::Str(t) => {
                if kind == 4 {
                    o.description = Some(t.clone());
                } else {
                    o.title = Some(t.clone());
                }
            },
            _ => {
                extra = true;
            },
        }
    } else if kind == 6 {
        match clone_json(v) {
            JsonValue::Array(a) => {
                o.enum_values = Some(a);
            },
            _ => {
                extra = true;
            },
        }
    } else if kind == 8 || kind == 9 {
        match v {
            JsonValue::Object(pm) => {
                proof {
                    assert(decreases_to!(*v => (*v)->Object_0));
                }
                let s = convert_object(pm);
                if kind == 8 {
                    o.items = Some(Box::new(s));
                } else {
                    o.additional_properties = Some(Box::new(s));
                }
            },
            _ => {
                extra = true;
            },
        }
    } else if kind >= 10 {
        match v {
            JsonValue::Array(a) => {
                proof {
                    assert(decreases_to!(*v => (*v)->Array_0));
                }
                match convert_list(a) {
                    Some(l) => {
                        if kind == 10 {
                            o.one_of = Some(l);
                        } else if kind == 11 {
                            o.any_of = Some(l);
                        } else {
                            o.all_of = Some(l);
                        }
                    },
                    None => {
                        extra = true;
                    },
                }
            },
            _ => {
                extra = true;
            },
        }
    } else {
        extra = true;
    }
    if extra {
        let ghost before = o.additional@;
        let e = (k.clone(), clone_json(v));
        o.additional.push(e);
        assert(o.additional@.drop_last() =~= before);
    }
}

/// Reads the schema of every member value; `None` unless each is an object.
fn convert_named(pm: &Vec<(String, JsonValue)>) -> (r: Option<Vec<(String, Schema)>>)
    ensures
        match r {
            Some(p) => named_conv(members_of(pm@)) == Some(named_models(p@)),
            None => named_conv(members_of(pm@)) is None,
        },
    decreases pm,
{
    let mut out: Vec<(String, Schema)> = Vec::new();
    let mut i: usize = 0;
    assert(members_of(pm@.take(0)) =~= Seq::<(Seq<char>, Json)>::empty());
    while i < pm.len()
        invariant
            i <= pm@.len(),
            named_conv(members_of(pm@.take(i as int))) == Some(named_models(out@)),
        decreases pm@.len() - i,
    {
        proof {
            lemma_members_step(pm@, i as int);
            let x = members_of(pm@.take(i as int));
            assert(x.push((pm@[i as int].0@, json_of(pm@[i as int].1))).drop_last() =~= x);
            assert(decreases_to!(pm => pm[i as int]));
            assert(decreases_to!(pm[i as int] => pm[i as int].1));
        }
        match &pm[i].1 {
            JsonValue::Object(inner) => {
                proof {
                    assert(decreases_to!(pm[i as int].1 => (pm[i as int].1)->Object_0));
                }
                let s = convert_object(inner);
                let e = (pm[i].0.clone(), s);
                let ghost before = out@;
                out.push(e);
                assert(out@.drop_last() =~= before);
            },
            _ => {
                proof {
                    lemma_members_of(pm@);
                    lemma_members_of(pm@.take(i + 1));
                    assert(members_of(pm@).take(i + 1) =~= members_of(pm@.take(i + 1)));
                    lemma_named_conv_none(members_of(pm@), i + 1);
                }
                return None;
            },
        }
        i = i + 1;
    }
    assert(pm@.take(pm@.len() as int) =~= pm@);
    Some(out)
}

/// Reads the schema of every element; `None` unless each is an object.
fn convert_list(a: &Vec<JsonValue>) -> (r: Option<Vec<Schema>>)
    ensures
        match r {
            Some(l) => list_conv(jsons_of(a@)) == Some(models(l@)),
            None => list_conv(jsons_of(a@)) is None,
        },
    decreases a,
{
    let mut out: Vec<Schema> = Vec::new();
    let mut i: usize = 0;
    assert(jsons_of(a@.take(0)) =~= Seq::<Json>::empty());
    while i < a.len()
        invariant
            i <= a@.len(),
            list_conv(jsons_of(a@.take(i as int))) == Some(models(out@)),
        decreases a@.len() - i,
    {
        proof {
            lemma_jsons_step(a@, i as int);
            let x = jsons_of(a@.take(i as int));
            assert(x.push(json_of(a@[i as int])).drop_last() =~= x);
            assert(decreases_to!(a => a[i as int]));
        }
        match &a[i] {
            JsonValue::Object(inner) => {
                proof {
                    assert(decreases_to!(a[i as int] => (a[i as int])->Object_0));
                }
                let s = convert_object(inner);
                let ghost before = out@;
                out.push(s);
                assert(out@.drop_last() =~= before);
            },
            _ => {
                proof {
                    lemma_jsons_of(a@);
                    lemma_jsons_of(a@.take(i + 1));
                    assert(jsons_of(a@).take(i + 1) =~= jsons_of(a@.take(i + 1)));
                    lemma_list_conv_none(jsons_of(a@), i + 1);
                }
                return None;
            },
        }
        i = i + 1;
    }
    assert(a@.take(a@.len() as int) =~= a@);
    Some(out)
}

/// The texts of the elements; `None` unless each is a string.
fn convert_strs(a: &Vec<JsonValue>) -> (r: Option<Vec<String>>)
    ensures
        match r {
            Some(l) => str_conv(jsons_of(a@)) == Some(strs(l@)),
            None => str_conv(jsons_of(a@)) is None,
        },
{
    let mut out: Vec<String> = Vec::new();
    let mut i: usize = 0;
    assert(jsons_of(a@.take(0)) =~= Seq::<Json>::empty());
    assert(strs(out@) =~= Seq::<Seq<char>>::empty());
    while i < a.len()
        invariant
            i <= a@.len(),
            str_conv(jsons_of(a@.take(i as int))) == Some(strs(out@)),
        decreases a@.len() - i,
    {
        proof {
            lemma_jsons_step(a@, i as int);
            let x = jsons_of(a@.take(i as int));
            assert(x.push(json_of(a@[i as int])).drop_last() =~= x);
        }
        match &a[i] {
            JsonValue::Str(t) => {
                let ghost before = out@;
                out.push(t.clone());
                assert(strs(out@) =~= strs(before).push(t@));
            },
            _ => {
                proof {
                    lemma_jsons_of(a@);
                    lemma_jsons_of(a@.take(i + 1));
                    assert(jsons_of(a@).take(i + 1) =~= jsons_of(a@.take(i + 1)));
                    lemma_str_conv_none(jsons_of(a@), i + 1);
                }
                return None;
            },
        }
        i = i + 1;
    }
    assert(a@.take(a@.len() as int) =~= a@);
    Some(out)
}

} // verus!
