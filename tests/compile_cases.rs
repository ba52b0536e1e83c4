use asyncapi_rust::{
    compile, derive_asyncapi, derive_to_asyncapi_message, extract_asyncapi_meta,
    extract_asyncapi_spec_meta, schema_from_json, AsyncApiSpec, Attribute, CompileError, DeclKind,
    JsonValue, MessageRef, MessageType, MetaItem, MetaValue, NamedMap, Schema, ToJson, TypeDecl,
    TypeRegistry, VariantDecl,
};

fn s(key: &str, value: &str) -> MetaItem {
    MetaItem { key: key.to_string(), value: MetaValue::Str(value.to_string()) }
}

fn flag(key: &str) -> MetaItem {
    MetaItem { key: key.to_string(), value: MetaValue::Flag }
}

fn paths(key: &str, values: &[&str]) -> MetaItem {
    MetaItem {
        key: key.to_string(),
        value: MetaValue::PathList(values.iter().map(|v| v.to_string()).collect()),
    }
}

fn nested(key: &str, items: Vec<MetaItem>) -> MetaItem {
    MetaItem { key: key.to_string(), value: MetaValue::Nested(items) }
}

fn other(key: &str) -> MetaItem {
    MetaItem { key: key.to_string(), value: MetaValue::Other }
}

fn attr(path: &str, items: Vec<MetaItem>) -> Attribute {
    Attribute { path: path.to_string(), items }
}

fn variant(ident: &str, attrs: Vec<Attribute>) -> VariantDecl {
    VariantDecl { ident: ident.to_string(), attrs }
}

fn js(v: &str) -> JsonValue {
    JsonValue::Str(v.to_string())
}

fn obj(members: Vec<(&str, JsonValue)>) -> JsonValue {
    JsonValue::Object(members.into_iter().map(|(k, v)| (k.to_string(), v)).collect())
}

fn arr(items: Vec<JsonValue>) -> JsonValue {
    JsonValue::Array(items)
}

fn branch(tag: &str, name: &str, field: &str) -> JsonValue {
    obj(vec![
        ("type", js("object")),
        (
            "properties",
            obj(vec![
                (field, obj(vec![("type", js("string"))])),
                (tag, obj(vec![("type", js("string")), ("const", js(name))])),
            ]),
        ),
        ("required", arr(vec![js(tag), js(field)])),
    ])
}

/// `ChatMessage`: a union tagged by `type` whose variants are named `join`
/// and `leave`.
fn chat_message() -> (MessageType, JsonValue) {
    let decl = TypeDecl {
        ident: "ChatMessage".to_string(),
        attrs: vec![attr("serde", vec![s("tag", "type")])],
        kind: DeclKind::Enum(vec![
            variant("Join", vec![attr("serde", vec![s("rename", "join")])]),
            variant("Leave", vec![attr("serde", vec![s("rename", "leave")])]),
        ]),
    };
    let schema = obj(vec![
        ("title", js("ChatMessage")),
        ("oneOf", arr(vec![branch("type", "join", "room"), branch("type", "leave", "reason")])),
    ]);
    (derive_to_asyncapi_message(&decl).unwrap(), schema)
}

fn status_message() -> (MessageType, JsonValue) {
    let decl = TypeDecl {
        ident: "Status".to_string(),
        attrs: vec![attr("asyncapi", vec![s("summary", "Status report")])],
        kind: DeclKind::Struct,
    };
    let schema = obj(vec![("type", js("object")), ("title", js("Status"))]);
    (derive_to_asyncapi_message(&decl).unwrap(), schema)
}

fn registry() -> TypeRegistry {
    let mut r = TypeRegistry::new();
    let (t, schema) = chat_message();
    r.register("ChatMessage".to_string(), t, schema);
    let (t, schema) = status_message();
    r.register("Status".to_string(), t, schema);
    r
}

fn spec_decl(attrs: Vec<Attribute>) -> TypeDecl {
    TypeDecl { ident: "ChatApi".to_string(), attrs, kind: DeclKind::Struct }
}

fn reference(r: &MessageRef) -> &str {
    match r {
        MessageRef::Reference { reference } => reference.as_str(),
        MessageRef::Inline(_) => panic!("expected a reference"),
    }
}

fn keys<V>(m: &NamedMap<V>) -> Vec<&str> {
    m.entries.iter().map(|(k, _)| k.as_str()).collect()
}

fn property_names(schema: &Schema) -> Vec<&str> {
    match schema {
        Schema::Object(o) => o.properties.as_ref().unwrap().iter().map(|(k, _)| k.as_str()).collect(),
        Schema::Reference { .. } => panic!("expected an object"),
    }
}

fn chat_spec(extra: Vec<Attribute>) -> Vec<Attribute> {
    let mut attrs = vec![
        attr("asyncapi", vec![s("title", "Chat API"), s("version", "1.0.0")]),
        attr("asyncapi_channel", vec![s("name", "chat")]),
        attr(
            "asyncapi_operation",
            vec![s("name", "send"), s("action", "send"), s("channel", "chat"), paths("messages", &["ChatMessage"])],
        ),
        attr(
            "asyncapi_operation",
            vec![
                s("name", "receive"),
                s("action", "receive"),
                s("channel", "chat"),
                paths("messages", &["ChatMessage"]),
            ],
        ),
        attr("asyncapi_messages", vec![flag("ChatMessage")]),
    ];
    attrs.extend(extra);
    attrs
}

#[test]
fn chat_api_end_to_end() {
    let spec = derive_asyncapi(&spec_decl(chat_spec(vec![])), &registry()).unwrap();
    assert_eq!(spec.info.title, "Chat API");
    assert_eq!(spec.info.version, "1.0.0");

    let channels = spec.channels.unwrap();
    let chat = channels.get("chat").unwrap();
    let messages = chat.messages.as_ref().unwrap();
    assert_eq!(keys(messages), vec!["join", "leave"]);
    assert_eq!(reference(messages.get("join").unwrap()), "#/components/messages/join");
    assert_eq!(reference(messages.get("leave").unwrap()), "#/components/messages/leave");

    let components = spec.components.unwrap().messages.unwrap();
    assert_eq!(keys(&components), vec!["join", "leave"]);
    let join = components.get("join").unwrap().payload.as_ref().unwrap();
    let leave = components.get("leave").unwrap().payload.as_ref().unwrap();
    assert_eq!(property_names(join), vec!["room", "type"]);
    assert_eq!(property_names(leave), vec!["reason", "type"]);
}

#[test]
fn operation_lists_references_in_order() {
    let attrs = vec![
        attr("asyncapi", vec![s("title", "T"), s("version", "1")]),
        attr(
            "asyncapi_operation",
            vec![
                s("name", "push"),
                s("action", "send"),
                s("channel", "events"),
                paths("messages", &["Status", "ChatMessage"]),
            ],
        ),
    ];
    let spec = derive_asyncapi(&spec_decl(attrs), &registry()).unwrap();
    let ops = spec.operations.unwrap();
    let push = ops.get("push").unwrap();
    assert_eq!(push.channel.reference, "#/channels/events");
    let refs: Vec<&str> = push.messages.as_ref().unwrap().iter().map(reference).collect();
    assert_eq!(
        refs,
        vec!["#/components/messages/Status", "#/components/messages/join", "#/components/messages/leave"]
    );
}

#[test]
fn channel_messages_are_deduplicated_in_first_order() {
    let attrs = vec![
        attr("asyncapi", vec![s("title", "T"), s("version", "1")]),
        attr("asyncapi_channel", vec![s("name", "events")]),
        attr("asyncapi_channel", vec![s("name", "quiet")]),
        attr(
            "asyncapi_operation",
            vec![s("name", "a"), s("action", "send"), s("channel", "events"), paths("messages", &["ChatMessage"])],
        ),
        attr(
            "asyncapi_operation",
            vec![
                s("name", "b"),
                s("action", "receive"),
                s("channel", "events"),
                paths("messages", &["Status", "ChatMessage"]),
            ],
        ),
        attr("asyncapi_operation", vec![s("name", "c"), s("action", "send"), s("channel", "quiet")]),
    ];
    let spec = derive_asyncapi(&spec_decl(attrs), &registry()).unwrap();
    let channels = spec.channels.unwrap();
    let events = channels.get("events").unwrap().messages.as_ref().unwrap();
    assert_eq!(keys(events), vec!["join", "leave", "Status"]);
    assert_eq!(reference(events.get("Status").unwrap()), "#/components/messages/Status");
    assert!(channels.get("quiet").unwrap().messages.is_none());
    let ops = spec.operations.unwrap();
    assert!(ops.get("c").unwrap().messages.is_none());
}

#[test]
fn missing_title_fails() {
    let attrs = vec![attr("asyncapi", vec![s("version", "1.0.0")])];
    match derive_asyncapi(&spec_decl(attrs), &TypeRegistry::new()) {
        Err(CompileError::MissingRequiredField { declaration, field }) => {
            assert_eq!(declaration, "ChatApi");
            assert_eq!(field, "title");
        },
        other => panic!("unexpected {:?}", other),
    }
}

#[test]
fn missing_version_fails() {
    let attrs = vec![attr("asyncapi", vec![s("title", "Chat API")])];
    match derive_asyncapi(&spec_decl(attrs), &TypeRegistry::new()) {
        Err(CompileError::MissingRequiredField { declaration, field }) => {
            assert_eq!(declaration, "ChatApi");
            assert_eq!(field, "version");
        },
        other => panic!("unexpected {:?}", other),
    }
}

#[test]
fn broadcast_action_fails() {
    let attrs = vec![
        attr("asyncapi", vec![s("title", "Chat API"), s("version", "1.0.0")]),
        attr("asyncapi_operation", vec![s("name", "fanout"), s("action", "broadcast"), s("channel", "chat")]),
    ];
    let err = derive_asyncapi(&spec_decl(attrs), &TypeRegistry::new()).unwrap_err();
    assert_eq!(err.message(), "fanout: Invalid action 'broadcast', must be 'send' or 'receive'");
    match err {
        CompileError::InvalidEnumValue { operation, value } => {
            assert_eq!(operation, "fanout");
            assert_eq!(value, "broadcast");
        },
        other => panic!("unexpected {:?}", other),
    }
}

#[test]
fn union_is_refused() {
    let decl = TypeDecl { ident: "Raw".to_string(), attrs: vec![], kind: DeclKind::Union };
    match derive_to_asyncapi_message(&decl) {
        Err(CompileError::UnionNotSupported { declaration }) => assert_eq!(declaration, "Raw"),
        other => panic!("unexpected {:?}", other),
    }
}

#[test]
fn union_payload_is_exactly_its_branch() {
    let (t, schema) = chat_message();
    let messages = t.asyncapi_messages(&schema);
    assert_eq!(messages.len(), 2);
    let expected = schema_from_json(&branch("type", "leave", "reason")).unwrap();
    let got = messages[1].payload.as_ref().unwrap();
    assert_eq!(format!("{:?}", got), format!("{:?}", expected));
    match got {
        Schema::Object(o) => {
            assert_eq!(o.required, Some(vec!["type".to_string(), "reason".to_string()]));
            assert!(o.additional.is_empty());
        },
        Schema::Reference { .. } => panic!("expected an object"),
    }
}

#[test]
fn union_without_matching_branch_has_no_payload() {
    let (t, _) = chat_message();
    let schema = obj(vec![("oneOf", arr(vec![branch("type", "join", "room")]))]);
    let messages = t.asyncapi_messages(&schema);
    assert!(messages[0].payload.is_some());
    assert!(messages[1].payload.is_none());
    let flat = obj(vec![("type", js("object"))]);
    let messages = t.asyncapi_messages(&flat);
    assert!(messages[0].payload.is_none());
}

#[test]
fn enum_without_tag_has_no_payloads() {
    let decl = TypeDecl {
        ident: "Plain".to_string(),
        attrs: vec![],
        kind: DeclKind::Enum(vec![variant("Ping", vec![]), variant("Pong", vec![])]),
    };
    let t = derive_to_asyncapi_message(&decl).unwrap();
    let schema = obj(vec![("type", js("string")), ("enum", arr(vec![js("Ping"), js("Pong")]))]);
    let messages = t.asyncapi_messages(&schema);
    assert_eq!(messages.len(), 2);
    assert!(messages[0].payload.is_none());
    assert!(messages[1].payload.is_none());

    let single = TypeDecl {
        ident: "Only".to_string(),
        attrs: vec![attr("serde", vec![s("tag", "type")])],
        kind: DeclKind::Enum(vec![variant("One", vec![])]),
    };
    let t = derive_to_asyncapi_message(&single).unwrap();
    let messages = t.asyncapi_messages(&schema);
    assert!(messages[0].payload.is_some());
}

#[test]
fn struct_payload_is_whole_schema_and_title_defaults_to_name() {
    let (t, schema) = status_message();
    let messages = t.asyncapi_messages(&schema);
    assert_eq!(messages.len(), 1);
    assert_eq!(messages[0].title, Some("Status".to_string()));
    assert_eq!(messages[0].summary, Some("Status report".to_string()));
    match messages[0].payload.as_ref().unwrap() {
        Schema::Object(o) => {
            assert_eq!(o.title, Some("Status".to_string()));
            assert!(matches!(&o.schema_type, Some(JsonValue::Str(t)) if t == "object"));
        },
        Schema::Reference { .. } => panic!("expected an object"),
    }
}

#[test]
fn content_type_explicit_wins_over_binary_flag() {
    let attrs = vec![attr("asyncapi", vec![s("content_type", "text/plain"), flag("triggers_binary")])];
    let decl = TypeDecl { ident: "Note".to_string(), attrs, kind: DeclKind::Struct };
    let t = derive_to_asyncapi_message(&decl).unwrap();
    let messages = t.asyncapi_messages(&obj(vec![]));
    assert_eq!(messages[0].content_type, Some("text/plain".to_string()));

    let plain = TypeDecl { ident: "Plain".to_string(), attrs: vec![], kind: DeclKind::Struct };
    let messages = derive_to_asyncapi_message(&plain).unwrap().asyncapi_messages(&obj(vec![]));
    assert_eq!(messages[0].content_type, Some("application/json".to_string()));
}

#[test]
fn struct_rename_names_the_message() {
    let decl = TypeDecl {
        ident: "Ping".to_string(),
        attrs: vec![attr("serde", vec![s("rename", "ping.v1")])],
        kind: DeclKind::Struct,
    };
    let t = derive_to_asyncapi_message(&decl).unwrap();
    assert_eq!(t.asyncapi_message_names(), vec!["ping.v1"]);
}

#[test]
fn later_duplicate_names_overwrite_in_place() {
    let attrs = vec![
        attr("asyncapi", vec![s("title", "T"), s("version", "1")]),
        attr("asyncapi_server", vec![s("name", "a"), s("host", "one"), s("protocol", "ws")]),
        attr("asyncapi_server", vec![s("name", "b"), s("host", "two"), s("protocol", "ws")]),
        attr("asyncapi_server", vec![s("name", "a"), s("host", "three"), s("protocol", "wss")]),
        attr("asyncapi_messages", vec![flag("ChatMessage"), flag("ChatMessage")]),
    ];
    let spec = derive_asyncapi(&spec_decl(attrs), &registry()).unwrap();
    let servers = spec.servers.unwrap();
    assert_eq!(keys(&servers), vec!["a", "b"]);
    assert_eq!(servers.get("a").unwrap().host, "three");
    assert_eq!(servers.get("a").unwrap().protocol, "wss");
    let components = spec.components.unwrap().messages.unwrap();
    assert_eq!(components.len(), 2);
}

#[test]
fn incomplete_blocks_are_kept_then_left_out() {
    let attrs = vec![
        attr("asyncapi", vec![s("title", "T"), s("version", "1")]),
        attr("asyncapi_server", vec![s("name", "dev"), s("protocol", "ws")]),
        attr(
            "asyncapi_server",
            vec![
                s("name", "ok"),
                s("host", "h"),
                s("protocol", "ws"),
                nested("variable", vec![s("description", "unnamed")]),
                nested("variable", vec![s("name", "v")]),
            ],
        ),
        attr("asyncapi_channel", vec![s("address", "/nameless")]),
        attr("asyncapi_operation", vec![s("name", "x"), s("channel", "c")]),
        attr("asyncapi_operation", vec![s("action", "broadcast"), s("channel", "c")]),
    ];
    let meta = extract_asyncapi_spec_meta(&attrs);
    assert_eq!(meta.servers.len(), 2);
    assert_eq!(meta.servers[0].name, Some("dev".to_string()));
    assert_eq!(meta.servers[0].host, None);
    assert_eq!(meta.servers[0].protocol, Some("ws".to_string()));
    assert_eq!(meta.servers[1].variables.len(), 1);
    assert_eq!(meta.servers[1].variables[0].name, "v");
    assert_eq!(meta.channels.len(), 1);
    assert_eq!(meta.channels[0].name, None);
    assert_eq!(meta.operations.len(), 2);
    assert_eq!(meta.operations[0].action, None);

    let spec = derive_asyncapi(&spec_decl(attrs), &TypeRegistry::new()).unwrap();
    let servers = spec.servers.unwrap();
    assert_eq!(keys(&servers), vec!["ok"]);
    assert!(spec.channels.is_none());
    assert!(spec.operations.is_none());
}

#[test]
fn malformed_field_is_skipped_alone() {
    let attrs = vec![attr(
        "asyncapi",
        vec![s("summary", "kept"), other("summary"), other("description"), s("title", "T")],
    )];
    let meta = extract_asyncapi_meta(&attrs);
    assert_eq!(meta.summary, Some("kept".to_string()));
    assert_eq!(meta.description, None);
    assert_eq!(meta.title, Some("T".to_string()));

    let attrs = vec![attr("asyncapi_messages", vec![flag("A"), s("b", "c")]), attr("asyncapi_messages", vec![flag("D")])];
    let meta = extract_asyncapi_spec_meta(&attrs);
    assert_eq!(meta.message_types, vec!["A".to_string(), "D".to_string()]);
}

#[test]
fn parameter_schema_and_variables() {
    let attrs = vec![
        attr("asyncapi", vec![s("title", "T"), s("version", "1")]),
        attr(
            "asyncapi_server",
            vec![
                s("name", "prod"),
                s("host", "h"),
                s("protocol", "wss"),
                nested("variable", vec![s("name", "userId")]),
            ],
        ),
        attr(
            "asyncapi_channel",
            vec![
                s("name", "user"),
                nested("parameter", vec![s("name", "id"), s("schema_type", "integer"), s("format", "int64")]),
                nested("parameter", vec![s("name", "free"), s("description", "anything")]),
            ],
        ),
    ];
    let spec = derive_asyncapi(&spec_decl(attrs), &TypeRegistry::new()).unwrap();
    let servers = spec.servers.unwrap();
    let vars = servers.get("prod").unwrap().variables.as_ref().unwrap();
    let user_id = vars.get("userId").unwrap();
    assert!(user_id.enum_values.is_none());
    assert!(user_id.examples.is_none());

    let channels = spec.channels.unwrap();
    let params = channels.get("user").unwrap().parameters.as_ref().unwrap();
    match params.get("id").unwrap().schema.as_ref().unwrap() {
        Schema::Object(o) => {
            assert!(matches!(&o.schema_type, Some(JsonValue::Str(t)) if t == "integer"));
            assert_eq!(o.additional.len(), 1);
            assert_eq!(o.additional[0].0, "format");
            assert!(matches!(&o.additional[0].1, JsonValue::Str(f) if f == "int64"));
        },
        Schema::Reference { .. } => panic!("expected an object"),
    }
    let free = params.get("free").unwrap();
    assert!(free.schema.is_none());
    assert_eq!(free.description, Some("anything".to_string()));
    assert!(channels.get("user").unwrap().messages.is_none());
}

#[test]
fn schema_reading() {
    let reference = schema_from_json(&obj(vec![("$ref", js("#/components/schemas/X"))])).unwrap();
    assert!(matches!(reference, Schema::Reference { reference } if reference == "#/components/schemas/X"));
    assert!(schema_from_json(&JsonValue::Bool(true)).is_none());

    let odd = obj(vec![
        ("title", JsonValue::Number("3".to_string())),
        ("description", js("d")),
        ("items", obj(vec![("type", js("string"))])),
        ("oneOf", arr(vec![js("not a schema")])),
        ("x-extra", JsonValue::Null),
    ]);
    match schema_from_json(&odd).unwrap() {
        Schema::Object(o) => {
            assert_eq!(o.title, None);
            assert_eq!(o.description, Some("d".to_string()));
            assert!(o.items.is_some());
            assert!(o.one_of.is_none());
            let extra: Vec<&str> = o.additional.iter().map(|(k, _)| k.as_str()).collect();
            assert_eq!(extra, vec!["title", "oneOf", "x-extra"]);
        },
        Schema::Reference { .. } => panic!("expected an object"),
    }
}

#[test]
fn named_map_keeps_first_position() {
    let mut m: NamedMap<u32> = NamedMap::new();
    assert!(m.is_empty());
    m.insert("x".to_string(), 1);
    m.insert("y".to_string(), 2);
    m.insert("x".to_string(), 3);
    assert_eq!(m.len(), 2);
    assert_eq!(keys(&m), vec!["x", "y"]);
    assert_eq!(m.get("x"), Some(&3));
    assert_eq!(m.get("z"), None);
}

#[test]
fn compile_records_directly() {
    let attrs = chat_spec(vec![]);
    let meta = extract_asyncapi_spec_meta(&attrs);
    let spec = compile(&meta, &"ChatApi".to_string(), &registry()).unwrap();
    assert_eq!(spec.operations.unwrap().len(), 2);
}

#[test]
fn default_document() {
    let spec = AsyncApiSpec::default();
    assert_eq!(spec.asyncapi, "3.0.0");
    assert_eq!(spec.info.title, "API");
    assert_eq!(spec.info.version, "1.0.0");
    assert!(spec.servers.is_none() && spec.components.is_none());
}

fn member<'a>(v: &'a JsonValue, key: &str) -> Option<&'a JsonValue> {
    match v {
        JsonValue::Object(m) => m.iter().find(|(k, _)| k == key).map(|(_, v)| v),
        _ => None,
    }
}

fn member_keys(v: &JsonValue) -> Vec<&str> {
    match v {
        JsonValue::Object(m) => m.iter().map(|(k, _)| k.as_str()).collect(),
        _ => panic!("expected an object"),
    }
}

fn text_of(v: Option<&JsonValue>) -> &str {
    match v {
        Some(JsonValue::Str(s)) => s.as_str(),
        other => panic!("expected a string, got {:?}", other),
    }
}

#[test]
fn document_json_omits_absent_fields() {
    let spec = derive_asyncapi(&spec_decl(chat_spec(vec![])), &registry()).unwrap();
    let doc = spec.to_json();
    assert_eq!(member_keys(&doc), vec!["asyncapi", "info", "channels", "operations", "components"]);
    assert_eq!(text_of(member(&doc, "asyncapi")), "3.0.0");
    let info = member(&doc, "info").unwrap();
    assert_eq!(member_keys(info), vec!["title", "version"]);

    let send = member(member(&doc, "operations").unwrap(), "send").unwrap();
    assert_eq!(text_of(member(send, "action")), "send");
    assert_eq!(text_of(member(member(send, "channel").unwrap(), "$ref")), "#/channels/chat");

    let chat = member(member(&doc, "channels").unwrap(), "chat").unwrap();
    assert_eq!(member_keys(chat), vec!["messages"]);
    let join_ref = member(member(chat, "messages").unwrap(), "join").unwrap();
    assert_eq!(text_of(member(join_ref, "$ref")), "#/components/messages/join");

    let messages = member(member(&doc, "components").unwrap(), "messages").unwrap();
    let join = member(messages, "join").unwrap();
    assert_eq!(member_keys(join), vec!["name", "title", "contentType", "payload"]);
    assert_eq!(text_of(member(join, "contentType")), "application/json");
}

#[test]
fn schema_json_reads_back_the_same() {
    let source = obj(vec![
        ("type", js("object")),
        ("properties", obj(vec![("id", obj(vec![("type", js("integer")), ("minimum", JsonValue::Number("0".to_string()))]))])),
        ("required", arr(vec![js("id")])),
        ("x-note", JsonValue::Bool(true)),
    ]);
    let schema = schema_from_json(&source).unwrap();
    let written = asyncapi_rust::schema_to_json(&schema);
    assert_eq!(format!("{:?}", written), format!("{:?}", source));
    let again = schema_from_json(&written).unwrap();
    assert_eq!(format!("{:?}", again), format!("{:?}", schema));
}
