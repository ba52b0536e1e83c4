//! The compiled document as a JSON value: every field under its AsyncAPI
//! key (`$ref`, `contentType`, `enum`, `oneOf`, ...), and every absent field
//! left out rather than written as null.

use crate::annotation::{opt_view, strs};
use crate::json::{
    clone_json, json_of, jsons_of, lemma_jsons_of, lemma_members_of, members_of, Json, JsonValue,
};
use crate::model::{
    AsyncApiSpec, Channel, Components, Info, Message, MessageRef, Operation, OperationAction,
    Parameter, Server, ServerVariable,
};
use crate::named_map::NamedMap;
use crate::schema::{
    models, named_models, object_model, schema_model, ObjectModel, Schema, SchemaModel,
    SchemaObject,
};
use vstd::prelude::*;

verus! {

broadcast use {
    vstd::std_specs::vec::axiom_vec_decreases_to_view,
    vstd::std_specs::vec::axiom_vec_index_decreases,
};

pub type Members = Seq<(Seq<char>, Json)>;

/// The member `key: "text"`, where the text is present.
pub open spec fn opt_text(key: Seq<char>, o: Option<Seq<char>>) -> Members {
    match o {
        Some(t) => seq![(key, Json::Str(t))],
        None => Seq::empty(),
    }
}

/// The member `key: value`, where the value is present.
pub open spec fn opt_member(key: Seq<char>, o: Option<Json>) -> Members {
    match o {
        Some(v) => seq![(key, v)],
        None => Seq::empty(),
    }
}

pub open spec fn str_jsons(s: Seq<Seq<char>>) -> Seq<Json> {
    s.map_values(|t: Seq<char>| Json::Str(t))
}

/// The member `key: ["a", ...]`, where the list is present.
pub open spec fn opt_texts(key: Seq<char>, o: Option<Seq<Seq<char>>>) -> Members {
    match o {
        Some(l) => seq![(key, Json::Array(str_jsons(l)))],
        None => Seq::empty(),
    }
}

/// A reference object, `{"$ref": path}`.
pub open spec fn ref_json(path: Seq<char>) -> Json {
    Json::Object(seq![("$ref"@, Json::Str(path))])
}

pub open spec fn schema_json(m: SchemaModel) -> Json
    decreases m,
{
    match m {
        SchemaModel::Reference(r) => ref_json(r),
        SchemaModel::Object(o) => Json::Object(object_json(*o)),
    }
}

/// The members of a schema object: its typed fields in a fixed order, then
/// its additional fields as they are.
pub open spec fn object_json(o: ObjectModel) -> Members
    decreases o,
{
    opt_member("type"@, o.schema_type) + match o.properties {
        Some(p) => seq![("properties"@, Json::Object(named_schemas_json(p)))],
        None => Seq::empty(),
    } + opt_texts("required"@, o.required) + opt_text("description"@, o.description) + opt_text(
        "title"@,
        o.title,
    ) + match o.enum_values {
        Some(e) => seq![("enum"@, Json::Array(e))],
        None => Seq::empty(),
    } + opt_member("const"@, o.const_value) + match o.items {
        Some(b) => seq![("items"@, schema_json(*b))],
        None => Seq::empty(),
    } + match o.additional_properties {
        Some(b) => seq![("additionalProperties"@, schema_json(*b))],
        None => Seq::empty(),
    } + match o.one_of {
        Some(l) => seq![("oneOf"@, Json::Array(schemas_json(l)))],
        None => Seq::empty(),
    } + match o.any_of {
        Some(l) => seq![("anyOf"@, Json::Array(schemas_json(l)))],
        None => Seq::empty(),
    } + match o.all_of {
        Some(l) => seq![("allOf"@, Json::Array(schemas_json(l)))],
        None => Seq::empty(),
    } + o.additional
}

pub open spec fn named_schemas_json(p: Seq<(Seq<char>, SchemaModel)>) -> Members
    decreases p,
{
    if p.len() == 0 {
        Seq::empty()
    } else {
        named_schemas_json(p.drop_last()).push((p.last().0, schema_json(p.last().1)))
    }
}

pub open spec fn schemas_json(l: Seq<SchemaModel>) -> Seq<Json>
    decreases l,
{
    if l.len() == 0 {
        Seq::empty()
    } else {
        schemas_json(l.drop_last()).push(schema_json(l.last()))
    }
}

proof fn lemma_push_member(out: Seq<(String, JsonValue)>, k: String, v: JsonValue)
    ensures
        members_of(out.push((k, v))) == members_of(out).push((k@, json_of(v))),
{
    assert(out.push((k, v)).drop_last() =~= out);
}

fn push_member(out: &mut Vec<(String, JsonValue)>, key: &str, v: JsonValue)
    ensures
        members_of(final(out)@) == members_of(old(out)@) + seq![(key@, json_of(v))],
{
    let k = String::from_str(key);
    proof {
        lemma_push_member(out@, k, v);
    }
    out.push((k, v));
    assert(members_of(old(out)@).push((key@, json_of(v))) =~= members_of(old(out)@) + seq![
        (key@, json_of(v)),
    ]);
}

fn push_nothing(out: &Vec<(String, JsonValue)>)
    ensures
        members_of(out@) == members_of(out@) + Seq::<(Seq<char>, Json)>::empty(),
{
    assert(members_of(out@) =~= members_of(out@) + Seq::<(Seq<char>, Json)>::empty());
}

fn push_text(out: &mut Vec<(String, JsonValue)>, key: &str, v: &Option<String>)
    ensures
        members_of(final(out)@) == members_of(old(out)@) + opt_text(key@, opt_view(*v)),
{
    match v {
        Some(t) => push_member(out, key, JsonValue::Str(t.clone())),
        None => push_nothing(out),
    }
}

fn texts_json(l: &Vec<String>) -> (r: JsonValue)
    ensures
        r@ == Json::Array(str_jsons(strs(l@))),
{
    let mut a: Vec<JsonValue> = Vec::new();
    let mut i: usize = 0;
    while i < l.len()
        invariant
            i <= l@.len(),
            jsons_of(a@) == str_jsons(strs(l@.take(i as int))),
        decreases l@.len() - i,
    {
        let ghost before = a@;
        let e = JsonValue::Str(l[i].clone());
        assert(before.push(e).drop_last() =~= before);
        assert(json_of(e) == Json::Str(l@[i as int]@));
        a.push(e);
        assert(jsons_of(a@) == jsons_of(before).push(Json::Str(l@[i as int]@)));
        assert(str_jsons(strs(l@.take(i + 1))) =~= str_jsons(strs(l@.take(i as int))).push(
            Json::Str(l@[i as int]@),
        ));
        i = i + 1;
    }
    assert(l@.take(l@.len() as int) =~= l@);
    JsonValue::Array(a)
}

fn push_texts(out: &mut Vec<(String, JsonValue)>, key: &str, v: &Option<Vec<String>>)
    ensures
        members_of(final(out)@) == members_of(old(out)@) + opt_texts(
            key@,
            match *v {
                Some(l) => Some(strs(l@)),
                None => None,
            },
        ),
{
    match v {
        Some(l) => push_member(out, key, texts_json(l)),
        None => push_nothing(out),
    }
}

fn push_value(out: &mut Vec<(String, JsonValue)>, key: &str, v: &Option<JsonValue>)
    ensures
        members_of(final(out)@) == members_of(old(out)@) + opt_member(
            key@,
            match *v {
                Some(j) => Some(json_of(j)),
                None => None,
            },
        ),
{
    match v {
        Some(j) => push_member(out, key, clone_json(j)),
        None => push_nothing(out),
    }
}

fn ref_to_json(path: &String) -> (r: JsonValue)
    ensures
        r@ == ref_json(path@),
{
    let mut m: Vec<(String, JsonValue)> = Vec::new();
    assert(members_of(m@) =~= Seq::<(Seq<char>, Json)>::empty());
    push_member(&mut m, "$ref", JsonValue::Str(path.clone()));
    assert(members_of(m@) =~= seq![("$ref"@, Json::Str(path@))]);
    JsonValue::Object(m)
}

/// The schema as a JSON value.
pub fn schema_to_json(s: &Schema) -> (r: JsonValue)
    ensures
        r@ == schema_json(s@),
    decreases s,
{
    match s {
        Schema::Reference { reference } => ref_to_json(reference),
        Schema::Object(o) => {
            proof {
                assert(decreases_to!(*s => (*s)->Object_0));
            }
            let m = object_to_json(o);
            JsonValue::Object(m)
        },
    }
}

fn object_to_json(o: &SchemaObject) -> (r: Vec<(String, JsonValue)>)
    ensures
        members_of(r@) == object_json(object_model(*o)),
    decreases o,
{
    let mut m: Vec<(String, JsonValue)> = Vec::new();
    assert(members_of(m@) =~= Seq::<(Seq<char>, Json)>::empty());
    push_value(&mut m, "type", &o.schema_type);
    match &o.properties {
        Some(p) => {
            let pj = named_schemas_to_json(p);
            push_member(&mut m, "properties", JsonValue::Object(pj));
        },
        None => push_nothing(&m),
    }
    push_texts(&mut m, "required", &o.required);
    push_text(&mut m, "description", &o.description);
    push_text(&mut m, "title", &o.title);
    match &o.enum_values {
        Some(e) => {
            push_member(&mut m, "enum", JsonValue::Array(clone_json_list(e)));
        },
        None => push_nothing(&m),
    }
    push_value(&mut m, "const", &o.const_value);
    match &o.items {
        Some(b) => {
            let bj = schema_to_json(b);
            push_member(&mut m, "items", bj);
        },
        None => push_nothing(&m),
    }
    match &o.additional_properties {
        Some(b) => {
            let bj = schema_to_json(b);
            push_member(&mut m, "additionalProperties", bj);
        },
        None => push_nothing(&m),
    }
    match &o.one_of {
        Some(l) => {
            let lj = schemas_to_json(l);
            push_member(&mut m, "oneOf", JsonValue::Array(lj));
        },
        None => push_nothing(&m),
    }
    match &o.any_of {
        Some(l) => {
            let lj = schemas_to_json(l);
            push_member(&mut m, "anyOf", JsonValue::Array(lj));
        },
        None => push_nothing(&m),
    }
    match &o.all_of {
        Some(l) => {
            let lj = schemas_to_json(l);
            push_member(&mut m, "allOf", JsonValue::Array(lj));
        },
        None => push_nothing(&m),
    }
    let ghost before = members_of(m@);
    let mut i: usize = 0;
    while i < o.additional.len()
        invariant
            i <= o.additional@.len(),
            members_of(m@) == before + members_of(o.additional@.take(i as int)),
        decreases o.additional@.len() - i,
    {
        let e = &o.additional[i];
        let ghost pre = m@;
        let v = clone_json(&e.1);
        let k = e.0.clone();
        proof {
            lemma_push_member(pre, k, v);
            assert(o.additional@.take(i + 1).drop_last() =~= o.additional@.take(i as int));
        }
        m.push((k, v));
        assert(before + members_of(o.additional@.take(i + 1)) =~= (before + members_of(
            o.additional@.take(i as int),
        )).push((e.0@, json_of(e.1))));
        i = i + 1;
    }
    assert(o.additional@.take(o.additional@.len() as int) =~= o.additional@);
    m
}

fn clone_json_list(l: &Vec<JsonValue>) -> (r: Vec<JsonValue>)
    ensures
        jsons_of(r@) == jsons_of(l@),
{
    let mut r: Vec<JsonValue> = Vec::new();
    let mut i: usize = 0;
    while i < l.len()
        invariant
            i <= l@.len(),
            jsons_of(r@) == jsons_of(l@.take(i as int)),
        decreases l@.len() - i,
    {
        let ghost before = r@;
        r.push(clone_json(&l[i]));
        assert(r@.drop_last() =~= before);
        assert(l@.take(i + 1).drop_last() =~= l@.take(i as int));
        i = i + 1;
    }
    assert(l@.take(l@.len() as int) =~= l@);
    r
}

fn named_schemas_to_json(p: &Vec<(String, Schema)>) -> (r: Vec<(String, JsonValue)>)
    ensures
        members_of(r@) == named_schemas_json(named_models(p@)),
    decreases p,
{
    let mut r: Vec<(String, JsonValue)> = Vec::new();
    let mut i: usize = 0;
    assert(members_of(r@) =~= Seq::<(Seq<char>, Json)>::empty());
    assert(named_models(p@.take(0)) =~= Seq::<(Seq<char>, SchemaModel)>::empty());
    while i < p.len()
        invariant
            i <= p@.len(),
            members_of(r@) == named_schemas_json(named_models(p@.take(i as int))),
        decreases p@.len() - i,
    {
        proof {
            assert(decreases_to!(p => p[i as int]));
            assert(decreases_to!(p[i as int] => p[i as int].1));
            assert(p@.take(i + 1).drop_last() =~= p@.take(i as int));
            let x = named_models(p@.take(i as int));
            let y = (p@[i as int].0@, schema_model(p@[i as int].1));
            assert(x.push(y).drop_last() =~= x);
        }
        let v = schema_to_json(&p[i].1);
        let k = p[i].0.clone();
        proof {
            lemma_push_member(r@, k, v);
        }
        r.push((k, v));
        i = i + 1;
    }
    assert(p@.take(p@.len() as int) =~= p@);
    r
}

fn schemas_to_json(l: &Vec<Schema>) -> (r: Vec<JsonValue>)
    ensures
        jsons_of(r@) == schemas_json(models(l@)),
    decreases l,
{
    let mut r: Vec<JsonValue> = Vec::new();
    let mut i: usize = 0;
    assert(models(l@.take(0)) =~= Seq::<SchemaModel>::empty());
    while i < l.len()
        invariant
            i <= l@.len(),
            jsons_of(r@) == schemas_json(models(l@.take(i as int))),
        decreases l@.len() - i,
    {
        proof {
            assert(decreases_to!(l => l[i as int]));
            assert(l@.take(i + 1).drop_last() =~= l@.take(i as int));
            let x = models(l@.take(i as int));
            assert(x.push(schema_model(l@[i as int])).drop_last() =~= x);
        }
        let v = schema_to_json(&l[i]);
        let ghost before = r@;
        r.push(v);
        assert(r@.drop_last() =~= before);
        i = i + 1;
    }
    assert(l@.take(l@.len() as int) =~= l@);
    r
}

/// A value of the document that has a JSON form.
pub trait ToJson {
    spec fn json(&self) -> Json;

    fn to_json(&self) -> (r: JsonValue)
        ensures
            r@ == self.json(),
    ;
}

pub open spec fn opt_strs(o: Option<Vec<String>>) -> Option<Seq<Seq<char>>> {
    match o {
        Some(l) => Some(strs(l@)),
        None => None,
    }
}

/// The members `name: value` of a map, in order.
pub open spec fn map_members<V: ToJson>(m: NamedMap<V>) -> Members {
    m.entries@.map_values(|e: (String, V)| (e.0@, e.1.json()))
}

/// The member `key: {...}` for a map, where the map is present.
pub open spec fn opt_map<V: ToJson>(key: Seq<char>, o: Option<NamedMap<V>>) -> Members {
    match o {
        Some(m) => seq![(key, Json::Object(map_members(m)))],
        None => Seq::empty(),
    }
}

/// The member `key: {...}` for a value, where it is present.
pub open spec fn opt_json<T: ToJson>(key: Seq<char>, o: Option<T>) -> Members {
    match o {
        Some(t) => seq![(key, t.json())],
        None => Seq::empty(),
    }
}

fn map_to_json<V: ToJson>(m: &NamedMap<V>) -> (r: JsonValue)
    ensures
        r@ == Json::Object(map_members(*m)),
{
    let mut out: Vec<(String, JsonValue)> = Vec::new();
    let mut i: usize = 0;
    while i < m.entries.len()
        invariant
            i <= m.entries@.len(),
            out@.len() == i,
            forall|j: int|
                0 <= j < i ==> #[trigger] out@[j].0@ == m.entries@[j].0@ && json_of(out@[j].1)
                    == m.entries@[j].1.json(),
        decreases m.entries@.len() - i,
    {
        let v = m.entries[i].1.to_json();
        out.push((m.entries[i].0.clone(), v));
        i = i + 1;
    }
    proof {
        lemma_members_of(out@);
    }
    assert(members_of(out@) =~= map_members(*m));
    JsonValue::Object(out)
}

fn push_map<V: ToJson>(out: &mut Vec<(String, JsonValue)>, key: &str, o: &Option<NamedMap<V>>)
    ensures
        members_of(final(out)@) == members_of(old(out)@) + opt_map(key@, *o),
{
    match o {
        Some(m) => push_member(out, key, map_to_json(m)),
        None => push_nothing(out),
    }
}

fn push_json<T: ToJson>(out: &mut Vec<(String, JsonValue)>, key: &str, o: &Option<T>)
    ensures
        members_of(final(out)@) == members_of(old(out)@) + opt_json(key@, *o),
{
    match o {
        Some(t) => push_member(out, key, t.to_json()),
        None => push_nothing(out),
    }
}

fn empty_members() -> (r: Vec<(String, JsonValue)>)
    ensures
        members_of(r@) == Seq::<(Seq<char>, Json)>::empty(),
{
    let r: Vec<(String, JsonValue)> = Vec::new();
    assert(members_of(r@) =~= Seq::<(Seq<char>, Json)>::empty());
    r
}

impl ToJson for Schema {
    open spec fn json(&self) -> Json {
        schema_json(self@)
    }

    fn to_json(&self) -> (r: JsonValue) {
        schema_to_json(self)
    }
}

impl ToJson for ServerVariable {
    open spec fn json(&self) -> Json {
        Json::Object(
            opt_text("description"@, opt_view(self.description)) + opt_text(
                "default"@,
                opt_view(self.default),
            ) + opt_texts("enum"@, opt_strs(self.enum_values)) + opt_texts(
                "examples"@,
                opt_strs(self.examples),
            ),
        )
    }

    fn to_json(&self) -> (r: JsonValue) {
        let mut m = empty_members();
        push_text(&mut m, "description", &self.description);
        push_text(&mut m, "default", &self.default);
        push_texts(&mut m, "enum", &self.enum_values);
        push_texts(&mut m, "examples", &self.examples);
        JsonValue::Object(m)
    }
}

impl ToJson for Server {
    open spec fn json(&self) -> Json {
        Json::Object(
            seq![("host"@, Json::Str(self.host@)), ("protocol"@, Json::Str(self.protocol@))]
                + opt_text("pathname"@, opt_view(self.pathname)) + opt_text(
                "description"@,
                opt_view(self.description),
            ) + opt_map("variables"@, self.variables),
        )
    }

    fn to_json(&self) -> (r: JsonValue) {
        let mut m = empty_members();
        push_member(&mut m, "host", JsonValue::Str(self.host.clone()));
        push_member(&mut m, "protocol", JsonValue::Str(self.protocol.clone()));
        assert(members_of(m@) =~= seq![
            ("host"@, Json::Str(self.host@)),
            ("protocol"@, Json::Str(self.protocol@)),
        ]);
        push_text(&mut m, "pathname", &self.pathname);
        push_text(&mut m, "description", &self.description);
        push_map(&mut m, "variables", &self.variables);
        JsonValue::Object(m)
    }
}

impl ToJson for Message {
    open spec fn json(&self) -> Json {
        Json::Object(
            opt_text("name"@, opt_view(self.name)) + opt_text("title"@, opt_view(self.title))
                + opt_text("summary"@, opt_view(self.summary)) + opt_text(
                "description"@,
                opt_view(self.description),
            ) + opt_text("contentType"@, opt_view(self.content_type)) + opt_json(
                "payload"@,
                self.payload,
            ),
        )
    }

    fn to_json(&self) -> (r: JsonValue) {
        let mut m = empty_members();
        push_text(&mut m, "name", &self.name);
        push_text(&mut m, "title", &self.title);
        push_text(&mut m, "summary", &self.summary);
        push_text(&mut m, "description", &self.description);
        push_text(&mut m, "contentType", &self.content_type);
        push_json(&mut m, "payload", &self.payload);
        JsonValue::Object(m)
    }
}

impl ToJson for MessageRef {
    open spec fn json(&self) -> Json {
        match self {
            MessageRef::Reference { reference } => ref_json(reference@),
            MessageRef::Inline(m) => m.json(),
        }
    }

    fn to_json(&self) -> (r: JsonValue) {
        match self {
            MessageRef::Reference { reference } => ref_to_json(reference),
            MessageRef::Inline(m) => m.to_json(),
        }
    }
}

impl ToJson for Parameter {
    open spec fn json(&self) -> Json {
        Json::Object(
            opt_text("description"@, opt_view(self.description)) + opt_json(
                "schema"@,
                self.schema,
            ),
        )
    }

    fn to_json(&self) -> (r: JsonValue) {
        let mut m = empty_members();
        push_text(&mut m, "description", &self.description);
        push_json(&mut m, "schema", &self.schema);
        JsonValue::Object(m)
    }
}

impl ToJson for Channel {
    open spec fn json(&self) -> Json {
        Json::Object(
            opt_text("address"@, opt_view(self.address)) + opt_map("messages"@, self.messages)
                + opt_map("parameters"@, self.parameters),
        )
    }

    fn to_json(&self) -> (r: JsonValue) {
        let mut m = empty_members();
        push_text(&mut m, "address", &self.address);
        push_map(&mut m, "messages", &self.messages);
        push_map(&mut m, "parameters", &self.parameters);
        JsonValue::Object(m)
    }
}

pub open spec fn action_text(a: OperationAction) -> Seq<char> {
    match a {
        OperationAction::Send => "send"@,
        OperationAction::Receive => "receive"@,
    }
}

pub open spec fn refs_json(l: Seq<MessageRef>) -> Seq<Json> {
    l.map_values(|r: MessageRef| r.json())
}

fn refs_to_json(l: &Vec<MessageRef>) -> (r: JsonValue)
    ensures
        r@ == Json::Array(refs_json(l@)),
{
    let mut out: Vec<JsonValue> = Vec::new();
    let mut i: usize = 0;
    while i < l.len()
        invariant
            i <= l@.len(),
            out@.len() == i,
            forall|j: int| 0 <= j < i ==> json_of(#[trigger] out@[j]) == l@[j].json(),
        decreases l@.len() - i,
    {
        out.push(l[i].to_json());
        i = i + 1;
    }
    proof {
        lemma_jsons_of(out@);
    }
    assert(jsons_of(out@) =~= refs_json(l@));
    JsonValue::Array(out)
}

impl ToJson for Operation {
    open spec fn json(&self) -> Json {
        Json::Object(
            seq![
                ("action"@, Json::Str(action_text(self.action))),
                ("channel"@, ref_json(self.channel.reference@)),
            ] + match self.messages {
                Some(l) => seq![("messages"@, Json::Array(refs_json(l@)))],
                None => Seq::empty(),
            },
        )
    }

    fn to_json(&self) -> (r: JsonValue) {
        let mut m = empty_members();
        let action = match self.action {
            OperationAction::Send => String::from_str("send"),
            OperationAction::Receive => String::from_str("receive"),
        };
        push_member(&mut m, "action", JsonValue::Str(action));
        push_member(&mut m, "channel", ref_to_json(&self.channel.reference));
        assert(members_of(m@) =~= seq![
            ("action"@, Json::Str(action_text(self.action))),
            ("channel"@, ref_json(self.channel.reference@)),
        ]);
        match &self.messages {
            Some(l) => push_member(&mut m, "messages", refs_to_json(l)),
            None => push_nothing(&m),
        }
        JsonValue::Object(m)
    }
}

impl ToJson for Components {
    open spec fn json(&self) -> Json {
        Json::Object(opt_map("messages"@, self.messages) + opt_map("schemas"@, self.schemas))
    }

    fn to_json(&self) -> (r: JsonValue) {
        let mut m = empty_members();
        push_map(&mut m, "messages", &self.messages);
        push_map(&mut m, "schemas", &self.schemas);
        JsonValue::Object(m)
    }
}

impl ToJson for Info {
    open spec fn json(&self) -> Json {
        Json::Object(
            seq![("title"@, Json::Str(self.title@)), ("version"@, Json::Str(self.version@))]
                + opt_text("description"@, opt_view(self.description)),
        )
    }

    fn to_json(&self) -> (r: JsonValue) {
        let mut m = empty_members();
        push_member(&mut m, "title", JsonValue::Str(self.title.clone()));
        push_member(&mut m, "version", JsonValue::Str(self.version.clone()));
        assert(members_of(m@) =~= seq![
            ("title"@, Json::Str(self.title@)),
            ("version"@, Json::Str(self.version@)),
        ]);
        push_text(&mut m, "description", &self.description);
        JsonValue::Object(m)
    }
}

impl ToJson for AsyncApiSpec {
    open spec fn json(&self) -> Json {
        Json::Object(
            seq![("asyncapi"@, Json::Str(self.asyncapi@)), ("info"@, self.info.json())] + opt_map(
                "servers"@,
                self.servers,
            ) + opt_map("channels"@, self.channels) + opt_map("operations"@, self.operations)
                + opt_json("components"@, self.components),
        )
    }

    fn to_json(&self) -> (r: JsonValue) {
        let mut m = empty_members();
        push_member(&mut m, "asyncapi", JsonValue::Str(self.asyncapi.clone()));
        push_member(&mut m, "info", self.info.to_json());
        assert(members_of(m@) =~= seq![
            ("asyncapi"@, Json::Str(self.asyncapi@)),
            ("info"@, self.info.json()),
        ]);
        push_map(&mut m, "servers", &self.servers);
        push_map(&mut m, "channels", &self.channels);
        push_map(&mut m, "operations", &self.operations);
        push_json(&mut m, "components", &self.components);
        JsonValue::Object(m)
    }
}

} // verus!
