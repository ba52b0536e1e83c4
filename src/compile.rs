//! The assembler: turns the records of one specification, together with the
//! message types it refers to, into a cross-referenced document.

use crate::annotation::{append_strings, clone_opt, clone_strings, opt_view, str_eq, strs};
use crate::error::CompileError;
use crate::json::{lemma_members_of, members_of, Json, JsonValue};
use crate::message::{message_out, MessageMeta, MessageType, TypeDecl};
use crate::model::{
    AsyncApiSpec, Channel, ChannelRef, Components, Info, Message, MessageRef, Operation,
    OperationAction, Parameter, Server, ServerVariable,
};
use crate::named_map::{
    dedup, last_index, lemma_names_all, lemma_names_push, lemma_names_step, NamedMap,
};
use crate::schema::{empty_object, opt_model, ObjectModel, Schema, SchemaModel, SchemaObject};
use crate::spec_meta::{
    extract_asyncapi_spec_meta, spec_meta_of, AsyncApiSpecMeta, ChannelMeta, OperationMeta,
    ParameterMeta, ServerMeta, ServerVariableMeta,
};
use vstd::prelude::*;

verus! {

/// A message type that specifications may refer to, with the structural
/// schema that reflection gave for it.
#[derive(Debug)]
pub struct RegisteredType {
    pub message_type: MessageType,
    pub schema: JsonValue,
}

/// The message types known to the assembler, keyed by type path.
#[derive(Debug)]
pub struct TypeRegistry {
    pub types: NamedMap<RegisteredType>,
}

impl TypeRegistry {
    pub open spec fn wf(&self) -> bool {
        self.types.wf()
    }

    pub open spec fn knows(&self, path: Seq<char>) -> bool {
        self.types.contains_key(path)
    }

    pub open spec fn entry(&self, path: Seq<char>) -> RegisteredType {
        self.types.value_of(path)
    }

    /// The names of the messages of the type at `path`.
    pub open spec fn names(&self, path: Seq<char>) -> Seq<Seq<char>> {
        self.entry(path).message_type.names()
    }

    pub fn new() -> (r: Self)
        ensures
            r.wf(),
            forall|p: Seq<char>| !r.knows(p),
    {
        TypeRegistry { types: NamedMap::new() }
    }

    /// Registers `message_type` under `path`, replacing what was there.
    pub fn register(&mut self, path: String, message_type: MessageType, schema: JsonValue)
        requires
            old(self).wf(),
        ensures
            final(self).wf(),
            final(self).knows(path@),
            final(self).entry(path@) == (RegisteredType { message_type, schema }),
            forall|p: Seq<char>| p != path@ ==> (final(self).knows(p) <==> old(self).knows(p)),
            forall|p: Seq<char>|
                p != path@ && old(self).knows(p) ==> #[trigger] final(self).entry(p) == old(
                    self,
                ).entry(p),
    {
        let ghost k = path@;
        self.types.insert(path, RegisteredType { message_type, schema });
        assert(self.types.keys().contains(k)) by {
            if !old(self).types.keys().contains(k) {
                assert(self.types.keys()[old(self).types.keys().len() as int] == k);
            }
        }
        assert forall|p: Seq<char>| p != k implies (self.knows(p) <==> old(self).knows(p)) by {
            if old(self).types.keys().contains(k) {
            } else {
                let ok = old(self).types.keys();
                if self.knows(p) {
                    let j = choose|j: int| 0 <= j < ok.push(k).len() && ok.push(k)[j] == p;
                    assert(ok[j] == p);
                }
                if old(self).knows(p) {
                    let j = choose|j: int| 0 <= j < ok.len() && ok[j] == p;
                    assert(ok.push(k)[j] == p);
                }
            }
        }
    }

    fn lookup(&self, path: &String) -> (r: &RegisteredType)
        requires
            self.wf(),
            self.knows(path@),
        ensures
            *r == self.entry(path@),
    {
        self.types.get(path.as_str()).unwrap()
    }
}

// ---------------------------------------------------------------- servers

pub open spec fn variable_names(s: Seq<ServerVariableMeta>) -> Seq<Seq<char>> {
    s.map_values(|x: ServerVariableMeta| x.name@)
}

/// A server record that names its server, host and protocol.
pub open spec fn server_usable(m: ServerMeta) -> bool {
    m.name is Some && m.host is Some && m.protocol is Some
}

/// The server records that the document can hold, in order; the others are
/// left out.
pub open spec fn usable_servers(s: Seq<ServerMeta>) -> Seq<ServerMeta>
    decreases s.len(),
{
    if s.len() == 0 {
        s
    } else if server_usable(s.last()) {
        usable_servers(s.drop_last()).push(s.last())
    } else {
        usable_servers(s.drop_last())
    }
}

pub open spec fn server_names(s: Seq<ServerMeta>) -> Seq<Seq<char>> {
    s.map_values(|x: ServerMeta| x.name->0@)
}

/// `v` is `None` for an empty list, else the list's strings.
pub open spec fn opt_list_built(ms: Seq<String>, v: Option<Vec<String>>) -> bool {
    if ms.len() == 0 {
        v is None
    } else {
        v matches Some(l) && strs(l@) == strs(ms)
    }
}

pub open spec fn variable_built(m: ServerVariableMeta, v: ServerVariable) -> bool {
    &&& opt_view(v.description) == opt_view(m.description)
    &&& opt_view(v.default) == opt_view(m.default)
    &&& opt_list_built(m.enum_values@, v.enum_values)
    &&& opt_list_built(m.examples@, v.examples)
}

pub open spec fn variables_built(ms: Seq<ServerVariableMeta>, r: Option<NamedMap<ServerVariable>>) -> bool {
    if ms.len() == 0 {
        r is None
    } else {
        r matches Some(m) && m.wf() && m.keys() == dedup(variable_names(ms)) && forall|k: Seq<char>|
            m.contains_key(k) ==> variable_built(
                ms[last_index(variable_names(ms), k)],
                #[trigger] m.value_of(k),
            )
    }
}

pub open spec fn server_built(m: ServerMeta, s: Server) -> bool {
    &&& opt_view(m.host) == Some(s.host@)
    &&& opt_view(m.protocol) == Some(s.protocol@)
    &&& opt_view(s.pathname) == opt_view(m.pathname)
    &&& opt_view(s.description) == opt_view(m.description)
    &&& variables_built(m.variables@, s.variables)
}

/// The servers map: the usable records keyed by server name in order of
/// first appearance, the last record of each name giving the value; `None`
/// where there are none.
pub open spec fn servers_built(ms: Seq<ServerMeta>, r: Option<NamedMap<Server>>) -> bool {
    let us = usable_servers(ms);
    if us.len() == 0 {
        r is None
    } else {
        r matches Some(m) && m.wf() && m.keys() == dedup(server_names(us)) && forall|k: Seq<char>|
            m.contains_key(k) ==> server_built(
                us[last_index(server_names(us), k)],
                #[trigger] m.value_of(k),
            )
    }
}

fn opt_list(v: &Vec<String>) -> (r: Option<Vec<String>>)
    ensures
        opt_list_built(v@, r),
{
    if v.len() == 0 {
        None
    } else {
        Some(clone_strings(v))
    }
}

fn build_variables(ms: &Vec<ServerVariableMeta>) -> (r: Option<NamedMap<ServerVariable>>)
    ensures
        variables_built(ms@, r),
{
    let ghost names = variable_names(ms@);
    let mut map: NamedMap<ServerVariable> = NamedMap::new();
    let mut i: usize = 0;
    while i < ms.len()
        invariant
            i <= ms@.len(),
            names == variable_names(ms@),
            map.wf(),
            map.keys() == dedup(names.take(i as int)),
            forall|k: Seq<char>|
                map.contains_key(k) ==> variable_built(
                    ms@[last_index(names.take(i as int), k)],
                    #[trigger] map.value_of(k),
                ),
        decreases ms@.len() - i,
    {
        proof {
            lemma_names_step(names, i as int);
        }
        let m = &ms[i];
        let v = ServerVariable {
            description: clone_opt(&m.description),
            default: clone_opt(&m.default),
            enum_values: opt_list(&m.enum_values),
            examples: opt_list(&m.examples),
        };
        map.insert(m.name.clone(), v);
        i = i + 1;
    }
    proof {
        lemma_names_all(names);
    }
    if ms.len() == 0 {
        None
    } else {
        Some(map)
    }
}

fn build_servers(ms: &Vec<ServerMeta>) -> (r: Option<NamedMap<Server>>)
    ensures
        servers_built(ms@, r),
{
    let mut map: NamedMap<Server> = NamedMap::new();
    let mut any = false;
    let mut i: usize = 0;
    while i < ms.len()
        invariant
            i <= ms@.len(),
            any == (usable_servers(ms@.take(i as int)).len() > 0),
            map.wf(),
            map.keys() == dedup(server_names(usable_servers(ms@.take(i as int)))),
            forall|k: Seq<char>|
                map.contains_key(k) ==> server_built(
                    usable_servers(ms@.take(i as int))[last_index(
                        server_names(usable_servers(ms@.take(i as int))),
                        k,
                    )],
                    #[trigger] map.value_of(k),
                ),
        decreases ms@.len() - i,
    {
        let ghost us = usable_servers(ms@.take(i as int));
        assert(ms@.take(i + 1).drop_last() =~= ms@.take(i as int));
        let m = &ms[i];
        match (&m.name, &m.host, &m.protocol) {
            (Some(name), Some(host), Some(protocol)) => {
                proof {
                    lemma_names_push(server_names(us), name@);
                    assert(server_names(us.push(*m)) =~= server_names(us).push(name@));
                }
                let s = Server {
                    host: host.clone(),
                    protocol: protocol.clone(),
                    pathname: clone_opt(&m.pathname),
                    description: clone_opt(&m.description),
                    variables: build_variables(&m.variables),
                };
                map.insert(name.clone(), s);
                any = true;
            },
            _ => {},
        }
        i = i + 1;
    }
    assert(ms@.take(ms@.len() as int) =~= ms@);
    if !any {
        None
    } else {
        Some(map)
    }
}

// ------------------------------------------------------- message names

/// The names of the messages of the types at `paths`, type by type.
pub open spec fn names_of_types(reg: TypeRegistry, paths: Seq<Seq<char>>) -> Seq<Seq<char>>
    decreases paths.len(),
{
    if paths.len() == 0 {
        Seq::empty()
    } else {
        names_of_types(reg, paths.drop_last()) + reg.names(paths.last())
    }
}

/// The names of the messages that an operation lists.
pub open spec fn op_message_names(reg: TypeRegistry, op: OperationMeta) -> Seq<Seq<char>> {
    names_of_types(reg, strs(op.messages@))
}

/// The names of the messages of every usable operation on channel `name`,
/// operation by operation.
pub open spec fn channel_message_names(
    reg: TypeRegistry,
    ops: Seq<OperationMeta>,
    name: Seq<char>,
) -> Seq<Seq<char>>
    decreases ops.len(),
{
    if ops.len() == 0 {
        Seq::empty()
    } else if operation_usable(ops.last()) && ops.last().channel->0@ == name {
        channel_message_names(reg, ops.drop_last(), name) + op_message_names(reg, ops.last())
    } else {
        channel_message_names(reg, ops.drop_last(), name)
    }
}

/// The reference path of the component message `name`.
pub open spec fn message_ref(name: Seq<char>) -> Seq<char> {
    "#/components/messages/"@ + name
}

/// The reference path of the channel `name`.
pub open spec fn channel_ref(name: Seq<char>) -> Seq<char> {
    "#/channels/"@ + name
}

pub open spec fn is_ref_to(r: MessageRef, path: Seq<char>) -> bool {
    r matches MessageRef::Reference { reference } && reference@ == path
}

pub open spec fn paths_known(reg: TypeRegistry, paths: Seq<String>) -> bool {
    forall|i: int| 0 <= i < paths.len() ==> reg.knows(#[trigger] paths[i]@)
}

fn message_ref_to(name: &String) -> (r: String)
    ensures
        r@ == message_ref(name@),
{
    let mut s = String::from_str("#/components/messages/");
    s.append(name.as_str());
    s
}

fn channel_ref_to(name: &String) -> (r: String)
    ensures
        r@ == channel_ref(name@),
{
    let mut s = String::from_str("#/channels/");
    s.append(name.as_str());
    s
}

/// The names of the messages of the types at `paths`, type by type.
fn message_names_of(reg: &TypeRegistry, paths: &Vec<String>) -> (r: Vec<String>)
    requires
        reg.wf(),
        paths_known(*reg, paths@),
    ensures
        strs(r@) == names_of_types(*reg, strs(paths@)),
{
    let mut r: Vec<String> = Vec::new();
    let mut i: usize = 0;
    assert(strs(r@) =~= Seq::<Seq<char>>::empty());
    assert(strs(paths@.take(0)) =~= Seq::<Seq<char>>::empty());
    while i < paths.len()
        invariant
            i <= paths@.len(),
            reg.wf(),
            paths_known(*reg, paths@),
            strs(r@) == names_of_types(*reg, strs(paths@.take(i as int))),
        decreases paths@.len() - i,
    {
        let t = reg.lookup(&paths[i]);
        let names = t.message_type.asyncapi_message_names();
        append_strings(&mut r, &names);
        assert(strs(paths@.take(i + 1)).drop_last() =~= strs(paths@.take(i as int)));
        i = i + 1;
    }
    assert(paths@.take(paths@.len() as int) =~= paths@);
    r
}

// ---------------------------------------------------------------- channels

/// The channel records that name their channel, in order; the others are
/// left out.
pub open spec fn usable_channels(s: Seq<ChannelMeta>) -> Seq<ChannelMeta>
    decreases s.len(),
{
    if s.len() == 0 {
        s
    } else if s.last().name is Some {
        usable_channels(s.drop_last()).push(s.last())
    } else {
        usable_channels(s.drop_last())
    }
}

pub open spec fn channel_names(s: Seq<ChannelMeta>) -> Seq<Seq<char>> {
    s.map_values(|x: ChannelMeta| x.name->0@)
}

pub open spec fn parameter_names(s: Seq<ParameterMeta>) -> Seq<Seq<char>> {
    s.map_values(|x: ParameterMeta| x.name@)
}

/// The schema of a parameter: an object of its type, with its format as an
/// additional field; none where it gives no type.
pub open spec fn param_schema(p: ParameterMeta) -> Option<SchemaModel> {
    match p.schema_type {
        Some(t) => Some(
            SchemaModel::Object(
                Box::new(
                    ObjectModel {
                        schema_type: Some(Json::Str(t@)),
                        additional: match p.format {
                            Some(f) => seq![("format"@, Json::Str(f@))],
                            None => Seq::empty(),
                        },
                        ..empty_object()
                    },
                ),
            ),
        ),
        None => None,
    }
}

pub open spec fn parameter_built(m: ParameterMeta, p: Parameter) -> bool {
    &&& opt_view(p.description) == opt_view(m.description)
    &&& opt_model(p.schema) == param_schema(m)
}

pub open spec fn parameters_built(ms: Seq<ParameterMeta>, r: Option<NamedMap<Parameter>>) -> bool {
    if ms.len() == 0 {
        r is None
    } else {
        r matches Some(m) && m.wf() && m.keys() == dedup(parameter_names(ms)) && forall|k: Seq<char>|
            m.contains_key(k) ==> parameter_built(
                ms[last_index(parameter_names(ms), k)],
                #[trigger] m.value_of(k),
            )
    }
}

/// A channel's messages: one reference per distinct name, in order of first
/// appearance; `None` where there are none.
pub open spec fn channel_messages_built(names: Seq<Seq<char>>, r: Option<NamedMap<MessageRef>>) -> bool {
    if names.len() == 0 {
        r is None
    } else {
        r matches Some(m) && m.wf() && m.keys() == dedup(names) && forall|k: Seq<char>|
            m.contains_key(k) ==> is_ref_to(#[trigger] m.value_of(k), message_ref(k))
    }
}

pub open spec fn channel_built(
    reg: TypeRegistry,
    ops: Seq<OperationMeta>,
    m: ChannelMeta,
    c: Channel,
) -> bool {
    &&& opt_view(c.address) == opt_view(m.address)
    &&& parameters_built(m.parameters@, c.parameters)
    &&& channel_messages_built(channel_message_names(reg, ops, m.name->0@), c.messages)
}

pub open spec fn channels_built(
    reg: TypeRegistry,
    ops: Seq<OperationMeta>,
    ms: Seq<ChannelMeta>,
    r: Option<NamedMap<Channel>>,
) -> bool {
    let us = usable_channels(ms);
    if us.len() == 0 {
        r is None
    } else {
        r matches Some(m) && m.wf() && m.keys() == dedup(channel_names(us)) && forall|k: Seq<char>|
            m.contains_key(k) ==> channel_built(
                reg,
                ops,
                us[last_index(channel_names(us), k)],
                #[trigger] m.value_of(k),
            )
    }
}

/// The names that every operation lists, operation by operation.
pub open spec fn op_names_built(
    reg: TypeRegistry,
    ops: Seq<OperationMeta>,
    names: Seq<Vec<String>>,
) -> bool {
    &&& names.len() == ops.len()
    &&& forall|i: int|
        0 <= i < ops.len() ==> strs(#[trigger] names[i]@) == op_message_names(reg, ops[i])
}

fn param_schema_of(m: &ParameterMeta) -> (r: Option<Schema>)
    ensures
        opt_model(r) == param_schema(*m),
{
    match &m.schema_type {
        Some(t) => {
            let mut additional: Vec<(String, JsonValue)> = Vec::new();
            if let Some(f) = &m.format {
                additional.push((String::from_str("format"), JsonValue::Str(f.clone())));
                assert(additional@.drop_last() =~= Seq::<(String, JsonValue)>::empty());
            }
            let o = SchemaObject {
                schema_type: Some(JsonValue::Str(t.clone())),
                properties: None,
                required: None,
                description: None,
                title: None,
                enum_values: None,
                const_value: None,
                items: None,
                additional_properties: None,
                one_of: None,
                any_of: None,
                all_of: None,
                additional,
            };
            proof {
                let e = members_of(o.additional@);
                lemma_members_of(o.additional@);
                if m.format is Some {
                    assert(e =~= seq![("format"@, Json::Str(m.format->0@))]);
                } else {
                    assert(e =~= Seq::<(Seq<char>, Json)>::empty());
                }
            }
            Some(Schema::Object(Box::new(o)))
        },
        None => None,
    }
}

fn build_parameters(ms: &Vec<ParameterMeta>) -> (r: Option<NamedMap<Parameter>>)
    ensures
        parameters_built(ms@, r),
{
    let ghost names = parameter_names(ms@);
    let mut map: NamedMap<Parameter> = NamedMap::new();
    let mut i: usize = 0;
    while i < ms.len()
        invariant
            i <= ms@.len(),
            names == parameter_names(ms@),
            map.wf(),
            map.keys() == dedup(names.take(i as int)),
            forall|k: Seq<char>|
                map.contains_key(k) ==> parameter_built(
                    ms@[last_index(names.take(i as int), k)],
                    #[trigger] map.value_of(k),
                ),
        decreases ms@.len() - i,
    {
        proof {
            lemma_names_step(names, i as int);
        }
        let m = &ms[i];
        let p = Parameter { description: clone_opt(&m.description), schema: param_schema_of(m) };
        map.insert(m.name.clone(), p);
        i = i + 1;
    }
    proof {
        lemma_names_all(names);
    }
    if ms.len() == 0 {
        None
    } else {
        Some(map)
    }
}

fn build_channel_messages(
    reg: &TypeRegistry,
    ops: &Vec<OperationMeta>,
    op_names: &Vec<Vec<String>>,
    name: &String,
) -> (r: Option<NamedMap<MessageRef>>)
    requires
        op_names_built(*reg, ops@, op_names@),
    ensures
        channel_messages_built(channel_message_names(*reg, ops@, name@), r),
{
    let mut all: Vec<String> = Vec::new();
    let mut i: usize = 0;
    assert(strs(all@) =~= Seq::<Seq<char>>::empty());
    while i < ops.len()
        invariant
            i <= ops@.len(),
            op_names_built(*reg, ops@, op_names@),
            strs(all@) == channel_message_names(*reg, ops@.take(i as int), name@),
        decreases ops@.len() - i,
    {
        assert(ops@.take(i + 1).drop_last() =~= ops@.take(i as int));
        if ops[i].name.is_some() && ops[i].action.is_some() {
            if let Some(c) = &ops[i].channel {
                if *c == *name {
                    append_strings(&mut all, &op_names[i]);
                }
            }
        }
        i = i + 1;
    }
    assert(ops@.take(ops@.len() as int) =~= ops@);
    let ghost names = strs(all@);
    let mut map: NamedMap<MessageRef> = NamedMap::new();
    let mut j: usize = 0;
    while j < all.len()
        invariant
            j <= all@.len(),
            names == strs(all@),
            map.wf(),
            map.keys() == dedup(names.take(j as int)),
            forall|k: Seq<char>|
                map.contains_key(k) ==> is_ref_to(#[trigger] map.value_of(k), message_ref(k)),
        decreases all@.len() - j,
    {
        proof {
            lemma_names_step(names, j as int);
        }
        let reference = message_ref_to(&all[j]);
        map.insert(all[j].clone(), MessageRef::Reference { reference });
        j = j + 1;
    }
    proof {
        lemma_names_all(names);
    }
    if all.len() == 0 {
        None
    } else {
        Some(map)
    }
}

fn build_channels(
    reg: &TypeRegistry,
    ms: &Vec<ChannelMeta>,
    ops: &Vec<OperationMeta>,
    op_names: &Vec<Vec<String>>,
) -> (r: Option<NamedMap<Channel>>)
    requires
        op_names_built(*reg, ops@, op_names@),
    ensures
        channels_built(*reg, ops@, ms@, r),
{
    let mut map: NamedMap<Channel> = NamedMap::new();
    let mut any = false;
    let mut i: usize = 0;
    while i < ms.len()
        invariant
            i <= ms@.len(),
            op_names_built(*reg, ops@, op_names@),
            any == (usable_channels(ms@.take(i as int)).len() > 0),
            map.wf(),
            map.keys() == dedup(channel_names(usable_channels(ms@.take(i as int)))),
            forall|k: Seq<char>|
                map.contains_key(k) ==> channel_built(
                    *reg,
                    ops@,
                    usable_channels(ms@.take(i as int))[last_index(
                        channel_names(usable_channels(ms@.take(i as int))),
                        k,
                    )],
                    #[trigger] map.value_of(k),
                ),
        decreases ms@.len() - i,
    {
        let ghost us = usable_channels(ms@.take(i as int));
        assert(ms@.take(i + 1).drop_last() =~= ms@.take(i as int));
        let m = &ms[i];
        if let Some(name) = &m.name {
            proof {
                lemma_names_push(channel_names(us), name@);
                assert(channel_names(us.push(*m)) =~= channel_names(us).push(name@));
            }
            let c = Channel {
                address: clone_opt(&m.address),
                messages: build_channel_messages(reg, ops, op_names, name),
                parameters: build_parameters(&m.parameters),
            };
            map.insert(name.clone(), c);
            any = true;
        }
        i = i + 1;
    }
    assert(ms@.take(ms@.len() as int) =~= ms@);
    if !any {
        None
    } else {
        Some(map)
    }
}

// -------------------------------------------------------------- operations

/// The action that `a` names, where it names one.
pub open spec fn action_of(a: Seq<char>) -> Option<OperationAction> {
    if a == "send"@ {
        Some(OperationAction::Send)
    } else if a == "receive"@ {
        Some(OperationAction::Receive)
    } else {
        None
    }
}

/// An operation record that names its operation, action and channel.
pub open spec fn operation_usable(m: OperationMeta) -> bool {
    m.name is Some && m.action is Some && m.channel is Some
}

/// The operation records that the document can hold, in order; the others
/// are left out.
pub open spec fn usable_operations(s: Seq<OperationMeta>) -> Seq<OperationMeta>
    decreases s.len(),
{
    if s.len() == 0 {
        s
    } else if operation_usable(s.last()) {
        usable_operations(s.drop_last()).push(s.last())
    } else {
        usable_operations(s.drop_last())
    }
}

/// Whether a usable operation's action is neither `send` nor `receive`.
pub open spec fn bad_action(m: OperationMeta) -> bool {
    operation_usable(m) && action_of(m.action->0@) is None
}

/// The index of the first usable operation whose action is neither `send`
/// nor `receive`, or -1.
pub open spec fn first_bad_action(ops: Seq<OperationMeta>) -> int
    decreases ops.len(),
{
    if ops.len() == 0 {
        -1
    } else if first_bad_action(ops.drop_last()) >= 0 {
        first_bad_action(ops.drop_last())
    } else if bad_action(ops.last()) {
        ops.len() - 1
    } else {
        -1
    }
}

/// One reference per name, in order.
pub open spec fn refs_built(names: Seq<Seq<char>>, v: Seq<MessageRef>) -> bool {
    &&& v.len() == names.len()
    &&& forall|i: int| 0 <= i < v.len() ==> is_ref_to(#[trigger] v[i], message_ref(names[i]))
}

pub open spec fn operation_built(reg: TypeRegistry, m: OperationMeta, o: Operation) -> bool {
    &&& action_of(m.action->0@) == Some(o.action)
    &&& o.channel.reference@ == channel_ref(m.channel->0@)
    &&& if m.messages@.len() == 0 {
        o.messages is None
    } else {
        o.messages matches Some(v) && refs_built(op_message_names(reg, m), v@)
    }
}

pub open spec fn operation_names(s: Seq<OperationMeta>) -> Seq<Seq<char>> {
    s.map_values(|x: OperationMeta| x.name->0@)
}

pub open spec fn operations_built(
    reg: TypeRegistry,
    ms: Seq<OperationMeta>,
    r: Option<NamedMap<Operation>>,
) -> bool {
    let us = usable_operations(ms);
    if us.len() == 0 {
        r is None
    } else {
        r matches Some(m) && m.wf() && m.keys() == dedup(operation_names(us)) && forall|k: Seq<char>|
            m.contains_key(k) ==> operation_built(
                reg,
                us[last_index(operation_names(us), k)],
                #[trigger] m.value_of(k),
            )
    }
}

/// The index of the first operation with a bad action.
fn find_bad_action(ops: &Vec<OperationMeta>) -> (r: Option<usize>)
    ensures
        match r {
            Some(k) => k == first_bad_action(ops@) && k < ops@.len() && bad_action(ops@[k as int]),
            None => first_bad_action(ops@) < 0,
        },
{
    let mut i: usize = 0;
    while i < ops.len()
        invariant
            i <= ops@.len(),
            first_bad_action(ops@.take(i as int)) < 0,
        decreases ops@.len() - i,
    {
        assert(ops@.take(i + 1).drop_last() =~= ops@.take(i as int));
        let bad = match (&ops[i].name, &ops[i].action, &ops[i].channel) {
            (Some(_), Some(a), Some(_)) => !str_eq(a, "send") && !str_eq(a, "receive"),
            _ => false,
        };
        if bad {
            proof {
                lemma_first_bad_prefix(ops@, i + 1);
            }
            return Some(i);
        }
        i = i + 1;
    }
    assert(ops@.take(ops@.len() as int) =~= ops@);
    None
}

proof fn lemma_first_bad_prefix(ops: Seq<OperationMeta>, n: int)
    requires
        0 <= n <= ops.len(),
        first_bad_action(ops.take(n)) >= 0,
    ensures
        first_bad_action(ops) == first_bad_action(ops.take(n)),
    decreases ops.len() - n,
{
    if n < ops.len() {
        assert(ops.take(n + 1).drop_last() =~= ops.take(n));
        lemma_first_bad_prefix(ops, n + 1);
    } else {
        assert(ops.take(n) =~= ops);
    }
}

fn build_refs(names: &Vec<String>) -> (r: Vec<MessageRef>)
    ensures
        refs_built(strs(names@), r@),
{
    let mut r: Vec<MessageRef> = Vec::new();
    let mut i: usize = 0;
    while i < names.len()
        invariant
            i <= names@.len(),
            r@.len() == i,
            forall|j: int| 0 <= j < i ==> is_ref_to(#[trigger] r@[j], message_ref(names@[j]@)),
        decreases names@.len() - i,
    {
        let reference = message_ref_to(&names[i]);
        r.push(MessageRef::Reference { reference });
        i = i + 1;
    }
    r
}

fn build_operations(
    reg: &TypeRegistry,
    ms: &Vec<OperationMeta>,
    op_names: &Vec<Vec<String>>,
) -> (r: Option<NamedMap<Operation>>)
    requires
        op_names_built(*reg, ms@, op_names@),
        first_bad_action(ms@) < 0,
    ensures
        operations_built(*reg, ms@, r),
{
    proof {
        lemma_no_bad_action(ms@);
    }
    let mut map: NamedMap<Operation> = NamedMap::new();
    let mut any = false;
    let mut i: usize = 0;
    while i < ms.len()
        invariant
            i <= ms@.len(),
            op_names_built(*reg, ms@, op_names@),
            forall|j: int| 0 <= j < ms@.len() ==> !bad_action(#[trigger] ms@[j]),
            any == (usable_operations(ms@.take(i as int)).len() > 0),
            map.wf(),
            map.keys() == dedup(operation_names(usable_operations(ms@.take(i as int)))),
            forall|k: Seq<char>|
                map.contains_key(k) ==> operation_built(
                    *reg,
                    usable_operations(ms@.take(i as int))[last_index(
                        operation_names(usable_operations(ms@.take(i as int))),
                        k,
                    )],
                    #[trigger] map.value_of(k),
                ),
        decreases ms@.len() - i,
    {
        let ghost us = usable_operations(ms@.take(i as int));
        assert(ms@.take(i + 1).drop_last() =~= ms@.take(i as int));
        let m = &ms[i];
        assert(!bad_action(ms@[i as int]));
        match (&m.name, &m.action, &m.channel) {
            (Some(name), Some(action), Some(channel)) => {
                proof {
                    lemma_names_push(operation_names(us), name@);
                    assert(operation_names(us.push(*m)) =~= operation_names(us).push(name@));
                }
                let action = if str_eq(action, "send") {
                    OperationAction::Send
                } else {
                    OperationAction::Receive
                };
                let messages = if m.messages.len() == 0 {
                    None
                } else {
                    Some(build_refs(&op_names[i]))
                };
                let o = Operation {
                    action,
                    channel: ChannelRef { reference: channel_ref_to(channel) },
                    messages,
                };
                map.insert(name.clone(), o);
                any = true;
            },
            _ => {},
        }
        i = i + 1;
    }
    assert(ms@.take(ms@.len() as int) =~= ms@);
    if !any {
        None
    } else {
        Some(map)
    }
}

proof fn lemma_no_bad_action(ops: Seq<OperationMeta>)
    requires
        first_bad_action(ops) < 0,
    ensures
        forall|j: int| 0 <= j < ops.len() ==> !bad_action(#[trigger] ops[j]),
    decreases ops.len(),
{
    if ops.len() > 0 {
        lemma_no_bad_action(ops.drop_last());
        assert forall|j: int| 0 <= j < ops.len() implies !bad_action(#[trigger] ops[j]) by {
            if j < ops.len() - 1 {
                assert(ops.drop_last()[j] == ops[j]);
            }
        }
    }
}

// -------------------------------------------------------------- components

/// Every message of the types at `paths`, type by type, each with the path
/// of its type.
pub open spec fn component_entries(reg: TypeRegistry, paths: Seq<Seq<char>>) -> Seq<
    (Seq<char>, MessageMeta),
>
    decreases paths.len(),
{
    if paths.len() == 0 {
        Seq::empty()
    } else {
        component_entries(reg, paths.drop_last()) + reg.entry(
            paths.last(),
        ).message_type.messages@.map_values(|m: MessageMeta| (paths.last(), m))
    }
}

pub open spec fn entry_names(es: Seq<(Seq<char>, MessageMeta)>) -> Seq<Seq<char>> {
    es.map_values(|e: (Seq<char>, MessageMeta)| e.1.name@)
}

/// `msg` is the message, with its payload, that the entry `e` becomes.
pub open spec fn component_built(reg: TypeRegistry, e: (Seq<char>, MessageMeta), msg: Message) -> bool {
    message_out(&reg.entry(e.0).message_type, reg.entry(e.0).schema@, e.1, msg)
}

/// The components: `None` where no message types are listed; else the
/// messages of all listed types keyed by name, in order of first appearance,
/// the last message of each name giving the value.
pub open spec fn components_built(
    reg: TypeRegistry,
    paths: Seq<Seq<char>>,
    r: Option<Components>,
) -> bool {
    if paths.len() == 0 {
        r is None
    } else {
        r matches Some(c) && c.schemas is None && {
            let es = component_entries(reg, paths);
            if es.len() == 0 {
                c.messages is None
            } else {
                c.messages matches Some(m) && m.wf() && m.keys() == dedup(entry_names(es))
                    && forall|k: Seq<char>|
                    m.contains_key(k) ==> component_built(
                        reg,
                        es[last_index(entry_names(es), k)],
                        #[trigger] m.value_of(k),
                    )
            }
        }
    }
}

fn component_messages(reg: &TypeRegistry, paths: &Vec<String>) -> (r: Vec<Message>)
    requires
        reg.wf(),
        paths_known(*reg, paths@),
    ensures
        ({
            let es = component_entries(*reg, strs(paths@));
            &&& r@.len() == es.len()
            &&& forall|j: int| 0 <= j < r@.len() ==> component_built(*reg, es[j], #[trigger] r@[j])
        }),
{
    let mut all: Vec<Message> = Vec::new();
    let mut i: usize = 0;
    assert(strs(paths@.take(0)) =~= Seq::<Seq<char>>::empty());
    while i < paths.len()
        invariant
            i <= paths@.len(),
            reg.wf(),
            paths_known(*reg, paths@),
            ({
                let es = component_entries(*reg, strs(paths@.take(i as int)));
                &&& all@.len() == es.len()
                &&& forall|j: int|
                    0 <= j < all@.len() ==> component_built(*reg, es[j], #[trigger] all@[j])
            }),
        decreases paths@.len() - i,
    {
        let ghost pre = strs(paths@.take(i as int));
        let ghost p = paths@[i as int]@;
        assert(strs(paths@.take(i + 1)) =~= pre.push(p));
        assert(pre.push(p).drop_last() =~= pre);
        let t = reg.lookup(&paths[i]);
        let mut msgs = t.message_type.asyncapi_messages(&t.schema);
        let ghost before = all@;
        let ghost added = msgs@;
        all.append(&mut msgs);
        proof {
            let es = component_entries(*reg, pre);
            let tail = reg.entry(p).message_type.messages@.map_values(|m: MessageMeta| (p, m));
            assert(component_entries(*reg, pre.push(p)) == es + tail);
            assert forall|j: int| 0 <= j < all@.len() implies component_built(
                *reg,
                (es + tail)[j],
                #[trigger] all@[j],
            ) by {
                if j >= before.len() {
                    assert(all@[j] == added[j - before.len()]);
                }
            }
        }
        i = i + 1;
    }
    assert(paths@.take(paths@.len() as int) =~= paths@);
    all
}

#[verifier::spinoff_prover]
fn build_components(reg: &TypeRegistry, paths: &Vec<String>) -> (r: Option<Components>)
    requires
        reg.wf(),
        paths_known(*reg, paths@),
    ensures
        components_built(*reg, strs(paths@), r),
{
    if paths.len() == 0 {
        return None;
    }
    let mut all = component_messages(reg, paths);
    let ghost es = component_entries(*reg, strs(paths@));
    let ghost names = entry_names(es);
    let ghost orig = all@;
    let n = all.len();
    let mut map: NamedMap<Message> = NamedMap::new();
    let mut i: usize = 0;
    while i < n
        invariant
            i <= n,
            n == orig.len(),
            n == es.len(),
            names == entry_names(es),
            all@ == orig.skip(i as int),
            forall|j: int| 0 <= j < n ==> component_built(*reg, es[j], #[trigger] orig[j]),
            map.wf(),
            map.keys() == dedup(names.take(i as int)),
            forall|k: Seq<char>|
                map.contains_key(k) ==> component_built(
                    *reg,
                    es[last_index(names.take(i as int), k)],
                    #[trigger] map.value_of(k),
                ),
        decreases n - i,
    {
        proof {
            lemma_names_step(names, i as int);
            assert(orig.skip(i as int)[0] == orig[i as int]);
            assert(orig.skip(i as int).remove(0) =~= orig.skip(i + 1));
        }
        let msg = all.remove(0);
        let key = match &msg.name {
            Some(k) => k.clone(),
            None => String::new(),
        };
        map.insert(key, msg);
        i = i + 1;
    }
    proof {
        lemma_names_all(names);
    }
    let messages = if n == 0 {
        None
    } else {
        Some(map)
    };
    Some(Components { messages, schemas: None })
}

// ------------------------------------------------------------------ compile

/// Every type that the specification refers to is registered.
pub open spec fn types_known(meta: AsyncApiSpecMeta, reg: TypeRegistry) -> bool {
    &&& paths_known(reg, meta.message_types@)
    &&& forall|i: int|
        0 <= i < meta.operations@.len() ==> paths_known(reg, #[trigger] meta.operations@[i].messages@)
}

/// `d` is the document that `meta` describes; its title and version are
/// given.
pub open spec fn document_of(meta: AsyncApiSpecMeta, reg: TypeRegistry, d: AsyncApiSpec) -> bool {
    &&& d.asyncapi@ == "3.0.0"@
    &&& opt_view(meta.title) == Some(d.info.title@)
    &&& opt_view(meta.version) == Some(d.info.version@)
    &&& opt_view(d.info.description) == opt_view(meta.description)
    &&& servers_built(meta.servers@, d.servers)
    &&& channels_built(reg, meta.operations@, meta.channels@, d.channels)
    &&& operations_built(reg, meta.operations@, d.operations)
    &&& components_built(reg, strs(meta.message_types@), d.components)
}

/// What compiling `meta`, declared as `declaration`, yields: a missing title,
/// then a missing version, then the first operation with a bad action fail;
/// otherwise the document.
pub open spec fn compiled(
    meta: AsyncApiSpecMeta,
    declaration: Seq<char>,
    reg: TypeRegistry,
    r: Result<AsyncApiSpec, CompileError>,
) -> bool {
    if meta.title is None {
        r matches Err(e) && e.is_missing(declaration, "title"@)
    } else if meta.version is None {
        r matches Err(e) && e.is_missing(declaration, "version"@)
    } else if first_bad_action(meta.operations@) >= 0 {
        let op = meta.operations@[first_bad_action(meta.operations@)];
        r matches Err(e) && e.is_invalid_action(op.name->0@, op.action->0@)
    } else {
        r matches Ok(d) && document_of(meta, reg, d)
    }
}

/// Assembles the document that `meta` describes. The specification was
/// declared as `declaration`, which failures name.
pub fn compile(meta: &AsyncApiSpecMeta, declaration: &String, registry: &TypeRegistry) -> (r: Result<
    AsyncApiSpec,
    CompileError,
>)
    requires
        registry.wf(),
        types_known(*meta, *registry),
    ensures
        compiled(*meta, declaration@, *registry, r),
{
    let title = match &meta.title {
        Some(t) => t.clone(),
        None => {
            return Err(
                CompileError::MissingRequiredField {
                    declaration: declaration.clone(),
                    field: String::from_str("title"),
                },
            );
        },
    };
    let version = match &meta.version {
        Some(v) => v.clone(),
        None => {
            return Err(
                CompileError::MissingRequiredField {
                    declaration: declaration.clone(),
                    field: String::from_str("version"),
                },
            );
        },
    };
    if let Some(k) = find_bad_action(&meta.operations) {
        let op = &meta.operations[k];
        return Err(
            CompileError::InvalidEnumValue {
                operation: op.name.as_ref().unwrap().clone(),
                value: op.action.as_ref().unwrap().clone(),
            },
        );
    }
    proof {
        lemma_no_bad_action(meta.operations@);
    }
    let mut op_names: Vec<Vec<String>> = Vec::new();
    let mut i: usize = 0;
    while i < meta.operations.len()
        invariant
            i <= meta.operations@.len(),
            registry.wf(),
            types_known(*meta, *registry),
            op_names@.len() == i,
            forall|j: int|
                0 <= j < i ==> strs(#[trigger] op_names@[j]@) == op_message_names(
                    *registry,
                    meta.operations@[j],
                ),
        decreases meta.operations@.len() - i,
    {
        let names = message_names_of(registry, &meta.operations[i].messages);
        op_names.push(names);
        i = i + 1;
    }
    let servers = build_servers(&meta.servers);
    let channels = build_channels(registry, &meta.channels, &meta.operations, &op_names);
    let operations = build_operations(registry, &meta.operations, &op_names);
    let components = build_components(registry, &meta.message_types);
    Ok(
        AsyncApiSpec {
            asyncapi: String::from_str("3.0.0"),
            info: Info { title, version, description: clone_opt(&meta.description) },
            servers,
            channels,
            operations,
            components,
        },
    )
}

/// Compiles the specification that the attributes of `decl` describe.
pub fn derive_asyncapi(decl: &TypeDecl, registry: &TypeRegistry) -> (r: Result<
    AsyncApiSpec,
    CompileError,
>)
    requires
        registry.wf(),
        forall|m: AsyncApiSpecMeta| #[trigger]
            spec_meta_of(decl.attrs@, m) ==> types_known(m, *registry),
    ensures
        exists|m: AsyncApiSpecMeta| #[trigger]
            spec_meta_of(decl.attrs@, m) && compiled(m, decl.ident@, *registry, r),
{
    let meta = extract_asyncapi_spec_meta(decl.attrs.as_slice());
    let r = compile(&meta, &decl.ident, registry);
    assert(spec_meta_of(decl.attrs@, meta));
    r
}

} // verus!
