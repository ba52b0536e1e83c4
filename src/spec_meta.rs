//! Records of a whole specification: its info, servers, channels,
//! operations and the message types it lists as components.

use crate::annotation::{
    append_strings, attrs_str, nested_blocks, opt_view, path_list_value, read_path_list, read_str,
    read_str_list, str_eq, str_list_value, str_value, strs, Attribute, MetaItem, MetaValue,
};
use vstd::prelude::*;

verus! {

/// What the attributes of a specification declaration say.
#[derive(Debug)]
pub struct AsyncApiSpecMeta {
    pub title: Option<String>,
    pub version: Option<String>,
    pub description: Option<String>,
    pub servers: Vec<ServerMeta>,
    pub channels: Vec<ChannelMeta>,
    pub operations: Vec<OperationMeta>,
    /// The type paths listed by `#[asyncapi_messages(...)]`, in order.
    pub message_types: Vec<String>,
}

/// One `#[asyncapi_server(...)]` block.
#[derive(Debug)]
pub struct ServerMeta {
    pub name: Option<String>,
    pub host: Option<String>,
    pub protocol: Option<String>,
    pub pathname: Option<String>,
    pub description: Option<String>,
    pub variables: Vec<ServerVariableMeta>,
}

/// One `variable(...)` block inside a server block.
#[derive(Debug)]
pub struct ServerVariableMeta {
    pub name: String,
    pub description: Option<String>,
    pub default: Option<String>,
    pub enum_values: Vec<String>,
    pub examples: Vec<String>,
}

/// One `#[asyncapi_channel(...)]` block.
#[derive(Debug)]
pub struct ChannelMeta {
    pub name: Option<String>,
    pub address: Option<String>,
    pub description: Option<String>,
    pub parameters: Vec<ParameterMeta>,
}

/// One `parameter(...)` block inside a channel block.
#[derive(Debug)]
pub struct ParameterMeta {
    pub name: String,
    pub description: Option<String>,
    pub schema_type: Option<String>,
    pub format: Option<String>,
}

/// One `#[asyncapi_operation(...)]` block.
#[derive(Debug)]
pub struct OperationMeta {
    pub name: Option<String>,
    /// As written; the assembler accepts only `send` and `receive`.
    pub action: Option<String>,
    /// The bare name of the channel.
    pub channel: Option<String>,
    pub description: Option<String>,
    /// The message type paths given by `messages = [...]`, in order.
    pub messages: Vec<String>,
}

/// The entries of every attribute under `path`, in order.
pub open spec fn blocks(attrs: Seq<Attribute>, path: Seq<char>) -> Seq<Seq<MetaItem>>
    decreases attrs.len(),
{
    if attrs.len() == 0 {
        Seq::empty()
    } else if attrs.last().path@ == path {
        blocks(attrs.drop_last(), path).push(attrs.last().items@)
    } else {
        blocks(attrs.drop_last(), path)
    }
}

pub open spec fn named(b: Seq<MetaItem>) -> bool {
    str_value(b, "name"@) is Some
}

/// The blocks that have a name.
pub open spec fn named_only(bs: Seq<Seq<MetaItem>>) -> Seq<Seq<MetaItem>>
    decreases bs.len(),
{
    if bs.len() == 0 {
        bs
    } else if named(bs.last()) {
        named_only(bs.drop_last()).push(bs.last())
    } else {
        named_only(bs.drop_last())
    }
}

pub open spec fn variable_from(b: Seq<MetaItem>, v: ServerVariableMeta) -> bool {
    &&& str_value(b, "name"@) == Some(v.name@)
    &&& opt_view(v.description) == str_value(b, "description"@)
    &&& opt_view(v.default) == str_value(b, "default"@)
    &&& strs(v.enum_values@) == str_list_value(b, "enum_values"@)
    &&& strs(v.examples@) == str_list_value(b, "examples"@)
}

pub open spec fn variables_from(bs: Seq<Seq<MetaItem>>, vs: Seq<ServerVariableMeta>) -> bool {
    &&& bs.len() == vs.len()
    &&& forall|i: int| 0 <= i < bs.len() ==> variable_from(bs[i], #[trigger] vs[i])
}

pub open spec fn server_from(b: Seq<MetaItem>, s: ServerMeta) -> bool {
    &&& opt_view(s.name) == str_value(b, "name"@)
    &&& opt_view(s.host) == str_value(b, "host"@)
    &&& opt_view(s.protocol) == str_value(b, "protocol"@)
    &&& opt_view(s.pathname) == str_value(b, "pathname"@)
    &&& opt_view(s.description) == str_value(b, "description"@)
    &&& variables_from(named_only(nested_blocks(b, "variable"@)), s.variables@)
}

pub open spec fn parameter_from(b: Seq<MetaItem>, p: ParameterMeta) -> bool {
    &&& str_value(b, "name"@) == Some(p.name@)
    &&& opt_view(p.description) == str_value(b, "description"@)
    &&& opt_view(p.schema_type) == str_value(b, "schema_type"@)
    &&& opt_view(p.format) == str_value(b, "format"@)
}

pub open spec fn parameters_from(bs: Seq<Seq<MetaItem>>, ps: Seq<ParameterMeta>) -> bool {
    &&& bs.len() == ps.len()
    &&& forall|i: int| 0 <= i < bs.len() ==> parameter_from(bs[i], #[trigger] ps[i])
}

pub open spec fn channel_from(b: Seq<MetaItem>, c: ChannelMeta) -> bool {
    &&& opt_view(c.name) == str_value(b, "name"@)
    &&& opt_view(c.address) == str_value(b, "address"@)
    &&& opt_view(c.description) == str_value(b, "description"@)
    &&& parameters_from(named_only(nested_blocks(b, "parameter"@)), c.parameters@)
}

pub open spec fn operation_from(b: Seq<MetaItem>, o: OperationMeta) -> bool {
    &&& opt_view(o.name) == str_value(b, "name"@)
    &&& opt_view(o.action) == str_value(b, "action"@)
    &&& opt_view(o.channel) == str_value(b, "channel"@)
    &&& opt_view(o.description) == str_value(b, "description"@)
    &&& strs(o.messages@) == path_list_value(b, "messages"@)
}

/// The keys of the entries that are bare paths, in order.
pub open spec fn flag_keys(items: Seq<MetaItem>) -> Seq<Seq<char>>
    decreases items.len(),
{
    if items.len() == 0 {
        Seq::empty()
    } else if items.last().value is Flag {
        flag_keys(items.drop_last()).push(items.last().key@)
    } else {
        flag_keys(items.drop_last())
    }
}

/// The type paths of every `#[asyncapi_messages(...)]` attribute, in order;
/// an entry that is not a bare path is passed over.
pub open spec fn message_type_list(attrs: Seq<Attribute>) -> Seq<Seq<char>>
    decreases attrs.len(),
{
    if attrs.len() == 0 {
        Seq::empty()
    } else if attrs.last().path@ == "asyncapi_messages"@ {
        message_type_list(attrs.drop_last()) + flag_keys(attrs.last().items@)
    } else {
        message_type_list(attrs.drop_last())
    }
}

/// `m` is what the attributes `attrs` of a specification declaration say.
pub open spec fn spec_meta_of(attrs: Seq<Attribute>, m: AsyncApiSpecMeta) -> bool {
    &&& opt_view(m.title) == attrs_str(attrs, "asyncapi"@, "title"@)
    &&& opt_view(m.version) == attrs_str(attrs, "asyncapi"@, "version"@)
    &&& opt_view(m.description) == attrs_str(attrs, "asyncapi"@, "description"@)
    &&& m.servers@.len() == blocks(attrs, "asyncapi_server"@).len()
    &&& forall|i: int|
        0 <= i < m.servers@.len() ==> server_from(
            blocks(attrs, "asyncapi_server"@)[i],
            #[trigger] m.servers@[i],
        )
    &&& m.channels@.len() == blocks(attrs, "asyncapi_channel"@).len()
    &&& forall|i: int|
        0 <= i < m.channels@.len() ==> channel_from(
            blocks(attrs, "asyncapi_channel"@)[i],
            #[trigger] m.channels@[i],
        )
    &&& m.operations@.len() == blocks(attrs, "asyncapi_operation"@).len()
    &&& forall|i: int|
        0 <= i < m.operations@.len() ==> operation_from(
            blocks(attrs, "asyncapi_operation"@)[i],
            #[trigger] m.operations@[i],
        )
    &&& strs(m.message_types@) == message_type_list(attrs)
}

/// Reads a specification's metadata from its attributes: the info fields
/// from `#[asyncapi(...)]` (the later one counts), one record per server,
/// channel and operation block in order, complete or not, and the listed
/// message types.
pub fn extract_asyncapi_spec_meta(attrs: &[Attribute]) -> (r: AsyncApiSpecMeta)
    ensures
        spec_meta_of(attrs@, r),
{
    let mut meta = AsyncApiSpecMeta {
        title: None,
        version: None,
        description: None,
        servers: Vec::new(),
        channels: Vec::new(),
        operations: Vec::new(),
        message_types: Vec::new(),
    };
    assert(strs(meta.message_types@) =~= Seq::<Seq<char>>::empty());
    let mut i: usize = 0;
    while i < attrs.len()
        invariant
            i <= attrs@.len(),
            spec_meta_of(attrs@.take(i as int), meta),
        decreases attrs@.len() - i,
    {
        let attr = &attrs[i];
        let ghost pre = attrs@.take(i as int);
        let ghost next = attrs@.take(i + 1);
        assert(next.drop_last() =~= pre);
        assert(next.last() == *attr);
        proof {
            reveal_strlit("asyncapi");
            reveal_strlit("asyncapi_server");
            reveal_strlit("asyncapi_channel");
            reveal_strlit("asyncapi_operation");
            reveal_strlit("asyncapi_messages");
            let paths = seq![
                "asyncapi_server"@,
                "asyncapi_channel"@,
                "asyncapi_operation"@,
                "asyncapi_messages"@,
            ];
            assert("asyncapi"@.len() == 8);
            assert(forall|j: int| 0 <= j < 4 ==> paths[j].len() > 9);
            assert(forall|j: int, k: int| 0 <= j < k < 4 ==> paths[j][9] != paths[k][9]);
            assert(forall|j: int| 0 <= j < 4 ==> paths[j] != "asyncapi"@);
            assert(forall|j: int, k: int| 0 <= j < k < 4 ==> paths[j] != paths[k]);
        }
        if str_eq(&attr.path, "asyncapi") {
            let title = read_str(&attr.items, "title");
            if title.is_some() {
                meta.title = title;
            }
            let version = read_str(&attr.items, "version");
            if version.is_some() {
                meta.version = version;
            }
            let description = read_str(&attr.items, "description");
            if description.is_some() {
                meta.description = description;
            }
        } else if str_eq(&attr.path, "asyncapi_server") {
            let ghost bs = blocks(pre, "asyncapi_server"@);
            assert(bs.push(attr.items@).drop_last() =~= bs);
            let server = extract_server(&attr.items);
            meta.servers.push(server);
        } else if str_eq(&attr.path, "asyncapi_channel") {
            let ghost bs = blocks(pre, "asyncapi_channel"@);
            assert(bs.push(attr.items@).drop_last() =~= bs);
            let channel = extract_channel(&attr.items);
            meta.channels.push(channel);
        } else if str_eq(&attr.path, "asyncapi_operation") {
            let ghost bs = blocks(pre, "asyncapi_operation"@);
            assert(bs.push(attr.items@).drop_last() =~= bs);
            let operation = extract_operation(&attr.items);
            meta.operations.push(operation);
        } else if str_eq(&attr.path, "asyncapi_messages") {
            let types = extract_message_types(&attr.items);
            append_strings(&mut meta.message_types, &types);
        }
        i = i + 1;
    }
    assert(attrs@.take(attrs@.len() as int) =~= attrs@);
    meta
}

/// Reads the entries of `#[asyncapi_messages(...)]` that are bare type
/// paths, in order.
fn extract_message_types(items: &Vec<MetaItem>) -> (r: Vec<String>)
    ensures
        strs(r@) == flag_keys(items@),
{
    let mut r: Vec<String> = Vec::new();
    let mut i: usize = 0;
    assert(strs(r@) =~= Seq::<Seq<char>>::empty());
    while i < items.len()
        invariant
            i <= items@.len(),
            strs(r@) == flag_keys(items@.take(i as int)),
        decreases items@.len() - i,
    {
        assert(items@.take(i + 1).drop_last() =~= items@.take(i as int));
        if let MetaValue::Flag = &items[i].value {
            let ghost before = r@;
            r.push(items[i].key.clone());
            assert(strs(r@) =~= strs(before).push(items@[i as int].key@));
        }
        i = i + 1;
    }
    assert(items@.take(items@.len() as int) =~= items@);
    r
}

/// Reads one server block; a field it does not give is left unset.
/// Unnamed variable blocks are dropped.
fn extract_server(items: &Vec<MetaItem>) -> (r: ServerMeta)
    ensures
        server_from(items@, r),
{
    let mut variables: Vec<ServerVariableMeta> = Vec::new();
    let mut i: usize = 0;
    while i < items.len()
        invariant
            i <= items@.len(),
            variables_from(named_only(nested_blocks(items@.take(i as int), "variable"@)), variables@),
        decreases items@.len() - i,
    {
        let ghost pre = items@.take(i as int);
        assert(items@.take(i + 1).drop_last() =~= pre);
        if str_eq(&items[i].key, "variable") {
            if let MetaValue::Nested(inner) = &items[i].value {
                let ghost bs = nested_blocks(pre, "variable"@);
                assert(bs.push(inner@).drop_last() =~= bs);
                if let Some(v) = extract_server_variable(inner) {
                    variables.push(v);
                }
            }
        }
        i = i + 1;
    }
    assert(items@.take(items@.len() as int) =~= items@);
    ServerMeta {
        name: read_str(items, "name"),
        host: read_str(items, "host"),
        protocol: read_str(items, "protocol"),
        pathname: read_str(items, "pathname"),
        description: read_str(items, "description"),
        variables,
    }
}

/// Reads one variable block; `None` unless it gives a name.
fn extract_server_variable(items: &Vec<MetaItem>) -> (r: Option<ServerVariableMeta>)
    ensures
        r is Some <==> named(items@),
        r matches Some(v) ==> variable_from(items@, v),
{
    match read_str(items, "name") {
        Some(name) => Some(
            ServerVariableMeta {
                name,
                description: read_str(items, "description"),
                default: read_str(items, "default"),
                enum_values: read_str_list(items, "enum_values"),
                examples: read_str_list(items, "examples"),
            },
        ),
        None => None,
    }
}

/// Reads one channel block; a field it does not give is left unset.
/// Unnamed parameter blocks are dropped.
fn extract_channel(items: &Vec<MetaItem>) -> (r: ChannelMeta)
    ensures
        channel_from(items@, r),
{
    let mut parameters: Vec<ParameterMeta> = Vec::new();
    let mut i: usize = 0;
    while i < items.len()
        invariant
            i <= items@.len(),
            parameters_from(
                named_only(nested_blocks(items@.take(i as int), "parameter"@)),
                parameters@,
            ),
        decreases items@.len() - i,
    {
        let ghost pre = items@.take(i as int);
        assert(items@.take(i + 1).drop_last() =~= pre);
        if str_eq(&items[i].key, "parameter") {
            if let MetaValue::Nested(inner) = &items[i].value {
                let ghost bs = nested_blocks(pre, "parameter"@);
                assert(bs.push(inner@).drop_last() =~= bs);
                if let Some(p) = extract_channel_parameter(inner) {
                    parameters.push(p);
                }
            }
        }
        i = i + 1;
    }
    assert(items@.take(items@.len() as int) =~= items@);
    ChannelMeta {
        name: read_str(items, "name"),
        address: read_str(items, "address"),
        description: read_str(items, "description"),
        parameters,
    }
}

/// Reads one parameter block; `None` unless it gives a name.
fn extract_channel_parameter(items: &Vec<MetaItem>) -> (r: Option<ParameterMeta>)
    ensures
        r is Some <==> named(items@),
        r matches Some(p) ==> parameter_from(items@, p),
{
    match read_str(items, "name") {
        Some(name) => Some(
            ParameterMeta {
                name,
                description: read_str(items, "description"),
                schema_type: read_str(items, "schema_type"),
                format: read_str(items, "format"),
            },
        ),
        None => None,
    }
}

/// Reads one operation block; a field it does not give is left unset.
fn extract_operation(items: &Vec<MetaItem>) -> (r: OperationMeta)
    ensures
        operation_from(items@, r),
{
    OperationMeta {
        name: read_str(items, "name"),
        action: read_str(items, "action"),
        channel: read_str(items, "channel"),
        description: read_str(items, "description"),
        messages: read_path_list(items, "messages"),
    }
}

} // verus!
