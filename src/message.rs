//! Message types: the messages that a struct or an enum declares, and the
//! payload schema of each, cut out of the type's structural schema.

use crate::annotation::{clone_opt, first_attrs_str, opt_view, strs, Attribute};
use crate::error::CompileError;
use crate::json::{
    get_member, json_of, jsons_of, lemma_jsons_of, lookup, opt_json_ref, Json, JsonValue,
};
use crate::meta::{
    extract_asyncapi_meta, extract_serde_rename, extract_serde_tag, message_doc, AsyncApiMeta,
};
use crate::model::Message;
use crate::schema::{opt_model, schema_from_json, schema_of, Schema, SchemaModel};
use vstd::prelude::*;

verus! {

/// A type declaration as the annotation reader delivers it.
#[derive(Debug)]
pub struct TypeDecl {
    pub ident: String,
    pub attrs: Vec<Attribute>,
    pub kind: DeclKind,
}

/// What kind of type is declared.
#[derive(Debug)]
pub enum DeclKind {
    Struct,
    Enum(Vec<VariantDecl>),
    Union,
}

/// One variant of an enum declaration.
#[derive(Debug)]
pub struct VariantDecl {
    pub ident: String,
    pub attrs: Vec<Attribute>,
}

/// One message of a type: its resolved name and its documentation.
#[derive(Debug)]
pub struct MessageMeta {
    pub name: String,
    pub doc: AsyncApiMeta,
}

/// The messages that one type declares.
#[derive(Debug)]
pub struct MessageType {
    pub ident: String,
    /// The tag field of an internally tagged type, `#[serde(tag = "...")]`.
    pub tag: Option<String>,
    pub is_enum: bool,
    pub messages: Vec<MessageMeta>,
}

/// The name of a message declared by `ident` with attributes `attrs`: the
/// serde rename where there is one, else the identifier.
pub open spec fn resolved_name(attrs: Seq<Attribute>, ident: Seq<char>) -> Seq<char> {
    match first_attrs_str(attrs, "serde"@, "rename"@) {
        Some(n) => n,
        None => ident,
    }
}

pub open spec fn message_meta_from(attrs: Seq<Attribute>, ident: Seq<char>, m: MessageMeta) -> bool {
    &&& m.name@ == resolved_name(attrs, ident)
    &&& message_doc(attrs, m.doc)
}

/// `t` is the message type that `decl` declares: one message for a struct,
/// one per variant, in order, for an enum.
pub open spec fn message_type_of(decl: TypeDecl, t: MessageType) -> bool {
    &&& t.ident@ == decl.ident@
    &&& opt_view(t.tag) == first_attrs_str(decl.attrs@, "serde"@, "tag"@)
    &&& t.is_enum == decl.kind is Enum
    &&& match decl.kind {
        DeclKind::Enum(vs) => {
            &&& t.messages@.len() == vs@.len()
            &&& forall|i: int|
                0 <= i < vs@.len() ==> message_meta_from(
                    vs@[i].attrs@,
                    vs@[i].ident@,
                    #[trigger] t.messages@[i],
                )
        },
        _ => {
            &&& t.messages@.len() == 1
            &&& message_meta_from(decl.attrs@, decl.ident@, t.messages@[0])
        },
    }
}

pub open spec fn names_of(ms: Seq<MessageMeta>) -> Seq<Seq<char>> {
    ms.map_values(|m: MessageMeta| m.name@)
}

impl MessageType {
    /// The message names, in declaration order.
    pub open spec fn names(&self) -> Seq<Seq<char>> {
        names_of(self.messages@)
    }

    /// Whether payloads are cut out of a disjunction, one branch per message:
    /// an enum that declares more than one message.
    pub open spec fn is_union(&self) -> bool {
        self.is_enum && self.messages@.len() > 1
    }

    /// The message names, in declaration order.
    pub fn asyncapi_message_names(&self) -> (r: Vec<String>)
        ensures
            strs(r@) == self.names(),
    {
        let mut r: Vec<String> = Vec::new();
        let mut i: usize = 0;
        while i < self.messages.len()
            invariant
                i <= self.messages@.len(),
                r@.len() == i,
                forall|j: int| 0 <= j < i ==> r@[j]@ == self.messages@[j].name@,
            decreases self.messages@.len() - i,
        {
            r.push(self.messages[i].name.clone());
            i = i + 1;
        }
        assert(strs(r@) =~= self.names());
        r
    }

    /// How many messages the type declares.
    pub fn asyncapi_message_count(&self) -> (r: usize)
        ensures
            r == self.messages@.len(),
    {
        self.messages.len()
    }

    /// The tag field of an internally tagged type.
    pub fn asyncapi_tag_field(&self) -> (r: Option<&str>)
        ensures
            match r {
                Some(t) => opt_view(self.tag) == Some(t@),
                None => self.tag is None,
            },
    {
        match &self.tag {
            Some(t) => Some(t.as_str()),
            None => None,
        }
    }

    /// The messages with their payload schemas, in declaration order, given
    /// the type's structural schema.
    pub fn asyncapi_messages(&self, schema: &JsonValue) -> (r: Vec<Message>)
        ensures
            r@.len() == self.messages@.len(),
            forall|i: int|
                0 <= i < r@.len() ==> message_out(self, schema@, self.messages@[i], #[trigger] r@[i]),
    {
        let mut r: Vec<Message> = Vec::new();
        let mut i: usize = 0;
        while i < self.messages.len()
            invariant
                i <= self.messages@.len(),
                r@.len() == i,
                forall|j: int|
                    0 <= j < i ==> message_out(self, schema@, self.messages@[j], #[trigger] r@[j]),
            decreases self.messages@.len() - i,
        {
            let m = &self.messages[i];
            let payload = self.payload_for(schema, &m.name);
            r.push(
                Message {
                    name: Some(m.name.clone()),
                    title: Some(message_title(m)),
                    summary: clone_opt(&m.doc.summary),
                    description: clone_opt(&m.doc.description),
                    content_type: Some(content_type(&m.doc)),
                    payload,
                },
            );
            i = i + 1;
        }
        r
    }

    /// The payload of the message `name`: for a union, the branch of the
    /// disjunction whose discriminator (the tag property) is `name`, absent
    /// where there is no tag, no disjunction or no such branch; the whole
    /// schema otherwise.
    pub fn payload_for(&self, schema: &JsonValue, name: &String) -> (r: Option<Schema>)
        ensures
            opt_model(r) == payload_of(self, schema@, name@),
    {
        if self.is_enum && self.messages.len() > 1 {
            match &self.tag {
                Some(tag) => match union_branches(schema) {
                    Some(branches) => match branch_for(branches, tag, name) {
                        Some(b) => schema_from_json(b),
                        None => None,
                    },
                    None => None,
                },
                None => None,
            }
        } else {
            schema_from_json(schema)
        }
    }
}

/// The content type of a message: the one given, else the binary default
/// where the message triggers binary frames, else JSON.
pub open spec fn content_type_of(d: AsyncApiMeta) -> Seq<char> {
    match d.content_type {
        Some(c) => c@,
        None => if d.triggers_binary {
            "application/octet-stream"@
        } else {
            "application/json"@
        },
    }
}

/// The title of a message: the one given, else its name.
pub open spec fn title_of(m: MessageMeta) -> Seq<char> {
    match m.doc.title {
        Some(t) => t@,
        None => m.name@,
    }
}

/// The branches of the disjunction at the root of a schema.
pub open spec fn spec_union_branches(schema: Json) -> Option<Seq<Json>> {
    match schema {
        Json::Object(m) => match lookup(m, "oneOf"@) {
            Some(Json::Array(a)) => Some(a),
            _ => None,
        },
        _ => None,
    }
}

/// The constant that a branch gives its discriminator property `tag`.
pub open spec fn discriminator(branch: Json, tag: Seq<char>) -> Option<Json> {
    match branch {
        Json::Object(m) => match lookup(m, "properties"@) {
            Some(Json::Object(p)) => match lookup(p, tag) {
                Some(Json::Object(q)) => lookup(q, "const"@),
                _ => None,
            },
            _ => None,
        },
        _ => None,
    }
}

/// The index of the first branch whose discriminator is the string `name`,
/// or -1.
pub open spec fn branch_index(bs: Seq<Json>, tag: Seq<char>, name: Seq<char>) -> int
    decreases bs.len(),
{
    if bs.len() == 0 {
        -1
    } else if branch_index(bs.drop_last(), tag, name) >= 0 {
        branch_index(bs.drop_last(), tag, name)
    } else if discriminator(bs.last(), tag) == Some(Json::Str(name)) {
        bs.len() - 1
    } else {
        -1
    }
}

/// The payload of message `name` of type `t` whose structural schema is
/// `schema`: for a union, the first branch whose tag property is the
/// constant `name`, or none; for a single message, the whole schema.
pub open spec fn payload_of(t: &MessageType, schema: Json, name: Seq<char>) -> Option<SchemaModel> {
    if t.is_union() {
        match (t.tag, spec_union_branches(schema)) {
            (Some(tag), Some(bs)) => {
                let k = branch_index(bs, tag@, name);
                if k >= 0 {
                    schema_of(bs[k])
                } else {
                    None
                }
            },
            _ => None,
        }
    } else {
        schema_of(schema)
    }
}

/// `out` is the message that `m` of type `t` becomes.
pub open spec fn message_out(t: &MessageType, schema: Json, m: MessageMeta, out: Message) -> bool {
    &&& opt_view(out.name) == Some(m.name@)
    &&& opt_view(out.title) == Some(title_of(m))
    &&& opt_view(out.summary) == opt_view(m.doc.summary)
    &&& opt_view(out.description) == opt_view(m.doc.description)
    &&& opt_view(out.content_type) == Some(content_type_of(m.doc))
    &&& opt_model(out.payload) == payload_of(t, schema, m.name@)
}

fn message_title(m: &MessageMeta) -> (r: String)
    ensures
        r@ == title_of(*m),
{
    match &m.doc.title {
        Some(t) => t.clone(),
        None => m.name.clone(),
    }
}

fn content_type(d: &AsyncApiMeta) -> (r: String)
    ensures
        r@ == content_type_of(*d),
{
    match &d.content_type {
        Some(c) => c.clone(),
        None => if d.triggers_binary {
            String::from_str("application/octet-stream")
        } else {
            String::from_str("application/json")
        },
    }
}

fn union_branches(schema: &JsonValue) -> (r: Option<&Vec<JsonValue>>)
    ensures
        match r {
            Some(a) => spec_union_branches(schema@) == Some(jsons_of(a@)),
            None => spec_union_branches(schema@) is None,
        },
{
    match schema {
        JsonValue::Object(m) => match get_member(m, "oneOf") {
            Some(JsonValue::Array(a)) => Some(a),
            _ => None,
        },
        _ => None,
    }
}

fn discriminator_of<'a>(branch: &'a JsonValue, tag: &String) -> (r: Option<&'a JsonValue>)
    ensures
        opt_json_ref(r) == discriminator(branch@, tag@),
{
    match branch {
        JsonValue::Object(m) => match get_member(m, "properties") {
            Some(JsonValue::Object(p)) => match get_member(p, tag.as_str()) {
                Some(JsonValue::Object(q)) => get_member(q, "const"),
                _ => None,
            },
            _ => None,
        },
        _ => None,
    }
}

fn branch_for<'a>(bs: &'a Vec<JsonValue>, tag: &String, name: &String) -> (r: Option<&'a JsonValue>)
    ensures
        ({
            let k = branch_index(jsons_of(bs@), tag@, name@);
            match r {
                Some(b) => k >= 0 && json_of(*b) == jsons_of(bs@)[k],
                None => k < 0,
            }
        }),
{
    proof {
        lemma_jsons_of(bs@);
    }
    let mut i: usize = 0;
    while i < bs.len()
        invariant
            i <= bs@.len(),
            branch_index(jsons_of(bs@.take(i as int)), tag@, name@) < 0,
            jsons_of(bs@).len() == bs@.len(),
            forall|j: int|
                0 <= j < bs@.len() ==> #[trigger] jsons_of(bs@)[j] == json_of(bs@[j]),
        decreases bs@.len() - i,
    {
        let ghost pre = jsons_of(bs@.take(i as int));
        proof {
            assert(bs@.take(i + 1).drop_last() =~= bs@.take(i as int));
            assert(pre.push(json_of(bs@[i as int])).drop_last() =~= pre);
        }
        let d = discriminator_of(&bs[i], tag);
        let hit = match d {
            Some(JsonValue::Str(s)) => *s == *name,
            _ => false,
        };
        if hit {
            proof {
                lemma_branch_index_prefix(jsons_of(bs@), i + 1, tag@, name@);
                lemma_jsons_of(bs@.take(i + 1));
                assert(jsons_of(bs@).take(i + 1) =~= jsons_of(
                    bs@.take(i + 1),
                ));
            }
            return Some(&bs[i]);
        }
        i = i + 1;
    }
    proof {
        assert(bs@.take(bs@.len() as int) =~= bs@);
    }
    None
}

proof fn lemma_branch_index_prefix(bs: Seq<Json>, n: int, tag: Seq<char>, name: Seq<char>)
    requires
        0 <= n <= bs.len(),
        branch_index(bs.take(n), tag, name) >= 0,
    ensures
        branch_index(bs, tag, name) == branch_index(bs.take(n), tag, name),
    decreases bs.len() - n,
{
    if n < bs.len() {
        assert(bs.take(n + 1).drop_last() =~= bs.take(n));
        lemma_branch_index_prefix(bs, n + 1, tag, name);
    } else {
        assert(bs.take(n) =~= bs);
    }
}

/// Reads the messages that a type declares: one per variant of an enum,
/// named by its serde rename or else its identifier, or one for a struct.
/// A union declares none and is refused.
pub fn derive_to_asyncapi_message(decl: &TypeDecl) -> (r: Result<MessageType, CompileError>)
    ensures
        r is Err <==> decl.kind is Union,
        r matches Err(e) ==> e.is_union_of(decl.ident@),
        r matches Ok(t) ==> message_type_of(*decl, t),
{
    let tag = extract_serde_tag(decl.attrs.as_slice());
    match &decl.kind {
        DeclKind::Enum(variants) => {
            let mut messages: Vec<MessageMeta> = Vec::new();
            let mut i: usize = 0;
            while i < variants.len()
                invariant
                    i <= variants@.len(),
                    messages@.len() == i,
                    forall|j: int|
                        0 <= j < i ==> message_meta_from(
                            variants@[j].attrs@,
                            variants@[j].ident@,
                            #[trigger] messages@[j],
                        ),
                decreases variants@.len() - i,
            {
                let v = &variants[i];
                messages.push(message_meta(v.attrs.as_slice(), &v.ident));
                i = i + 1;
            }
            Ok(MessageType { ident: decl.ident.clone(), tag, is_enum: true, messages })
        },
        DeclKind::Struct => {
            let m = message_meta(decl.attrs.as_slice(), &decl.ident);
            let messages = vec![m];
            Ok(MessageType { ident: decl.ident.clone(), tag, is_enum: false, messages })
        },
        DeclKind::Union => Err(CompileError::UnionNotSupported { declaration: decl.ident.clone() }),
    }
}

fn message_meta(attrs: &[Attribute], ident: &String) -> (r: MessageMeta)
    ensures
        message_meta_from(attrs@, ident@, r),
{
    let name = match extract_serde_rename(attrs) {
        Some(n) => n,
        None => ident.clone(),
    };
    MessageMeta { name, doc: extract_asyncapi_meta(attrs) }
}

} // verus!
