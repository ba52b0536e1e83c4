use asyncapi_rust::{
    derive_asyncapi, derive_to_asyncapi_message, AsyncApiSpec, Attribute, DeclKind, JsonValue,
    MessageType, MetaItem, MetaValue, OperationAction, Schema, TypeDecl, TypeRegistry,
    VariantDecl,
};

fn s(key: &str, value: &str) -> MetaItem {
    MetaItem { key: key.to_string(), value: MetaValue::Str(value.to_string()) }
}

fn flag(key: &str) -> MetaItem {
    MetaItem { key: key.to_string(), value: MetaValue::Flag }
}

fn attr(path: &str, items: Vec<MetaItem>) -> Attribute {
    Attribute { path: path.to_string(), items }
}

fn variant(ident: &str, attrs: Vec<Attribute>) -> VariantDecl {
    VariantDecl { ident: ident.to_string(), attrs }
}

fn enum_decl(ident: &str, attrs: Vec<Attribute>, variants: Vec<VariantDecl>) -> TypeDecl {
    TypeDecl { ident: ident.to_string(), attrs, kind: DeclKind::Enum(variants) }
}

fn struct_decl(ident: &str, attrs: Vec<Attribute>) -> TypeDecl {
    TypeDecl { ident: ident.to_string(), attrs, kind: DeclKind::Struct }
}

fn js(v: &str) -> JsonValue {
    JsonValue::Str(v.to_string())
}

fn obj(members: Vec<(&str, JsonValue)>) -> JsonValue {
    JsonValue::Object(members.into_iter().map(|(k, v)| (k.to_string(), v)).collect())
}

fn arr(items: Vec<JsonValue>) -> JsonValue {
    JsonValue::Array(items)
}

fn strings(items: &[&str]) -> JsonValue {
    arr(items.iter().map(|i| js(i)).collect())
}

/// A branch of an internally tagged enum's schema, as reflection writes it.
fn branch(tag: &str, name: &str, fields: &[&str]) -> JsonValue {
    let mut props: Vec<(&str, JsonValue)> =
        fields.iter().map(|f| (*f, obj(vec![("type", js("string"))]))).collect();
    props.push((tag, obj(vec![("type", js("string")), ("const", js(name))])));
    let mut required: Vec<&str> = vec![tag];
    required.extend_from_slice(fields);
    obj(vec![("type", js("object")), ("properties", obj(props)), ("required", strings(&required))])
}

fn union_schema(title: &str, branches: Vec<JsonValue>) -> JsonValue {
    obj(vec![
        ("$schema", js("https://json-schema.org/draft/2020-12/schema")),
        ("title", js(title)),
        ("oneOf", arr(branches)),
    ])
}

fn basic_message() -> MessageType {
    let decl = enum_decl(
        "BasicMessage",
        vec![],
        vec![variant("Ping", vec![]), variant("Pong", vec![])],
    );
    derive_to_asyncapi_message(&decl).unwrap()
}

fn tagged_message() -> MessageType {
    let decl = enum_decl(
        "TaggedMessage",
        vec![attr("serde", vec![s("tag", "type")])],
        vec![variant("Echo", vec![]), variant("Broadcast", vec![])],
    );
    derive_to_asyncapi_message(&decl).unwrap()
}

fn tagged_schema() -> JsonValue {
    union_schema(
        "TaggedMessage",
        vec![branch("type", "Echo", &["text"]), branch("type", "Broadcast", &["room", "text"])],
    )
}

fn renamed_message() -> MessageType {
    let decl = enum_decl(
        "RenamedMessage",
        vec![attr("serde", vec![s("tag", "message")])],
        vec![
            variant("UserJoin", vec![attr("serde", vec![s("rename", "user.join")])]),
            variant("UserLeave", vec![attr("serde", vec![s("rename", "user.leave")])]),
            variant("ChatMessage", vec![attr("serde", vec![s("rename", "chat.message")])]),
        ],
    );
    derive_to_asyncapi_message(&decl).unwrap()
}

fn simple_message() -> MessageType {
    derive_to_asyncapi_message(&struct_decl("SimpleMessage", vec![])).unwrap()
}

fn simple_schema() -> JsonValue {
    obj(vec![
        ("$schema", js("https://json-schema.org/draft/2020-12/schema")),
        ("title", js("SimpleMessage")),
        ("type", js("object")),
        (
            "properties",
            obj(vec![
                (
                    "id",
                    obj(vec![
                        ("type", js("integer")),
                        ("format", js("uint64")),
                        ("minimum", JsonValue::Number("0".to_string())),
                    ]),
                ),
                ("text", obj(vec![("type", js("string"))])),
            ]),
        ),
        ("required", strings(&["id", "text"])),
    ])
}

fn documented_message() -> MessageType {
    let decl = enum_decl(
        "DocumentedMessage",
        vec![attr("serde", vec![s("tag", "type")])],
        vec![
            variant(
                "Join",
                vec![attr(
                    "asyncapi",
                    vec![
                        s("summary", "User joins a chat room"),
                        s("description", "Sent when a user enters a room"),
                    ],
                )],
            ),
            variant(
                "Leave",
                vec![attr(
                    "asyncapi",
                    vec![
                        s("summary", "User leaves a chat room"),
                        s("description", "Sent when a user exits a room"),
                        s("title", "Leave Room"),
                    ],
                )],
            ),
            variant("File", vec![attr("asyncapi", vec![s("content_type", "application/octet-stream")])]),
            variant("Binary", vec![attr("asyncapi", vec![flag("triggers_binary")])]),
        ],
    );
    derive_to_asyncapi_message(&decl).unwrap()
}

fn documented_schema() -> JsonValue {
    union_schema(
        "DocumentedMessage",
        vec![
            branch("type", "Join", &["username", "room"]),
            branch("type", "Leave", &["username", "room"]),
            branch("type", "File", &["filename", "data"]),
            branch("type", "Binary", &["data"]),
        ],
    )
}

#[test]
fn test_placeholder() {}

#[test]
fn test_basic_import() {
    let spec = AsyncApiSpec::default();
    assert_eq!(spec.asyncapi, "3.0.0");
}

#[test]
fn test_basic_enum_messages() {
    let t = basic_message();
    let names = t.asyncapi_message_names();
    assert_eq!(names, vec!["Ping", "Pong"]);
    assert_eq!(t.asyncapi_message_count(), 2);
    assert_eq!(t.asyncapi_tag_field(), None);
}

#[test]
fn test_tagged_enum() {
    let t = tagged_message();
    let names = t.asyncapi_message_names();
    assert_eq!(names, vec!["Echo", "Broadcast"]);
    assert_eq!(t.asyncapi_message_count(), 2);
    assert_eq!(t.asyncapi_tag_field(), Some("type"));
}

#[test]
fn test_renamed_enum() {
    let t = renamed_message();
    let names = t.asyncapi_message_names();
    assert_eq!(names, vec!["user.join", "user.leave", "chat.message"]);
    assert_eq!(t.asyncapi_message_count(), 3);
    assert_eq!(t.asyncapi_tag_field(), Some("message"));
}

#[test]
fn test_struct_message() {
    let t = simple_message();
    let names = t.asyncapi_message_names();
    assert_eq!(names, vec!["SimpleMessage"]);
    assert_eq!(t.asyncapi_message_count(), 1);
    assert_eq!(t.asyncapi_tag_field(), None);
}

#[test]
fn test_schema_generation() {
    let messages = simple_message().asyncapi_messages(&simple_schema());
    assert_eq!(messages.len(), 1);

    let message = &messages[0];
    assert_eq!(message.name, Some("SimpleMessage".to_string()));
    assert_eq!(message.content_type, Some("application/json".to_string()));
    assert!(message.payload.is_some());

    if let Some(schema) = &message.payload {
        assert!(matches!(schema, Schema::Object(_)));
    }
}

#[test]
fn test_enum_schema_generation() {
    let messages = tagged_message().asyncapi_messages(&tagged_schema());
    assert_eq!(messages.len(), 2);

    assert_eq!(messages[0].name, Some("Echo".to_string()));
    assert_eq!(messages[1].name, Some("Broadcast".to_string()));

    assert!(messages[0].payload.is_some());
    assert!(messages[1].payload.is_some());
}

#[test]
fn test_asyncapi_attributes() {
    let messages = documented_message().asyncapi_messages(&documented_schema());
    assert_eq!(messages.len(), 4);

    let join = &messages[0];
    assert_eq!(join.name, Some("Join".to_string()));
    assert_eq!(join.summary, Some("User joins a chat room".to_string()));
    assert_eq!(join.description, Some("Sent when a user enters a room".to_string()));
    assert_eq!(join.content_type, Some("application/json".to_string()));

    let leave = &messages[1];
    assert_eq!(leave.name, Some("Leave".to_string()));
    assert_eq!(leave.title, Some("Leave Room".to_string()));
    assert_eq!(leave.summary, Some("User leaves a chat room".to_string()));
    assert_eq!(leave.description, Some("Sent when a user exits a room".to_string()));

    let file = &messages[2];
    assert_eq!(file.name, Some("File".to_string()));
    assert_eq!(file.content_type, Some("application/octet-stream".to_string()));

    let binary = &messages[3];
    assert_eq!(binary.name, Some("Binary".to_string()));
    assert_eq!(binary.content_type, Some("application/octet-stream".to_string()));
}

#[test]
fn test_asyncapi_derive() {
    let decl = struct_decl(
        "TestApi",
        vec![attr(
            "asyncapi",
            vec![
                s("title", "Test API"),
                s("version", "1.0.0"),
                s("description", "A test API specification"),
            ],
        )],
    );
    let spec = derive_asyncapi(&decl, &TypeRegistry::new()).unwrap();

    assert_eq!(spec.asyncapi, "3.0.0");
    assert_eq!(spec.info.title, "Test API");
    assert_eq!(spec.info.version, "1.0.0");
    assert_eq!(spec.info.description, Some("A test API specification".to_string()));

    assert!(spec.servers.is_none());
    assert!(spec.channels.is_none());
    assert!(spec.operations.is_none());
    assert!(spec.components.is_none());
}

#[test]
fn test_asyncapi_minimal() {
    let decl = struct_decl(
        "MinimalApi",
        vec![attr("asyncapi", vec![s("title", "Minimal API"), s("version", "0.1.0")])],
    );
    let spec = derive_asyncapi(&decl, &TypeRegistry::new()).unwrap();

    assert_eq!(spec.asyncapi, "3.0.0");
    assert_eq!(spec.info.title, "Minimal API");
    assert_eq!(spec.info.version, "0.1.0");
    assert_eq!(spec.info.description, None);
}

#[test]
fn test_asyncapi_full() {
    let decl = struct_decl(
        "FullApi",
        vec![
            attr(
                "asyncapi",
                vec![s("title", "Full API"), s("version", "1.0.0"), s("description", "Complete API spec")],
            ),
            attr(
                "asyncapi_server",
                vec![
                    s("name", "production"),
                    s("host", "api.example.com"),
                    s("protocol", "wss"),
                    s("description", "Production server"),
                ],
            ),
            attr(
                "asyncapi_server",
                vec![s("name", "development"), s("host", "localhost:8080"), s("protocol", "ws")],
            ),
            attr("asyncapi_channel", vec![s("name", "chat"), s("address", "/ws/chat")]),
            attr(
                "asyncapi_operation",
                vec![s("name", "sendMessage"), s("action", "send"), s("channel", "chat")],
            ),
            attr(
                "asyncapi_operation",
                vec![s("name", "receiveMessage"), s("action", "receive"), s("channel", "chat")],
            ),
        ],
    );
    let spec = derive_asyncapi(&decl, &TypeRegistry::new()).unwrap();

    assert_eq!(spec.info.title, "Full API");
    assert_eq!(spec.info.version, "1.0.0");
    assert_eq!(spec.info.description, Some("Complete API spec".to_string()));

    let servers = spec.servers.expect("Should have servers");
    assert_eq!(servers.len(), 2);

    let prod_server = servers.get("production").expect("Should have production server");
    assert_eq!(prod_server.host, "api.example.com");
    assert_eq!(prod_server.protocol, "wss");
    assert_eq!(prod_server.description, Some("Production server".to_string()));

    let dev_server = servers.get("development").expect("Should have development server");
    assert_eq!(dev_server.host, "localhost:8080");
    assert_eq!(dev_server.protocol, "ws");
    assert_eq!(dev_server.description, None);

    let channels = spec.channels.expect("Should have channels");
    assert_eq!(channels.len(), 1);

    let chat_channel = channels.get("chat").expect("Should have chat channel");
    assert_eq!(chat_channel.address, Some("/ws/chat".to_string()));

    let operations = spec.operations.expect("Should have operations");
    assert_eq!(operations.len(), 2);

    let send_op = operations.get("sendMessage").expect("Should have sendMessage operation");
    assert!(matches!(send_op.action, OperationAction::Send));
    assert_eq!(send_op.channel.reference, "#/channels/chat");

    let receive_op = operations.get("receiveMessage").expect("Should have receiveMessage operation");
    assert!(matches!(receive_op.action, OperationAction::Receive));
    assert_eq!(receive_op.channel.reference, "#/channels/chat");
}

#[test]
fn test_asyncapi_with_messages() {
    let api_message = enum_decl(
        "ApiMessage",
        vec![attr("serde", vec![s("tag", "type")])],
        vec![
            variant(
                "UserJoin",
                vec![
                    attr("serde", vec![s("rename", "user.join")]),
                    attr("asyncapi", vec![s("summary", "User joins"), s("description", "User enters a room")]),
                ],
            ),
            variant(
                "UserLeave",
                vec![
                    attr("serde", vec![s("rename", "user.leave")]),
                    attr("asyncapi", vec![s("summary", "User leaves")]),
                ],
            ),
        ],
    );
    let system_message = enum_decl(
        "SystemMessage",
        vec![attr("serde", vec![s("tag", "type")])],
        vec![variant(
            "SystemStatus",
            vec![
                attr("serde", vec![s("rename", "system.status")]),
                attr("asyncapi", vec![s("summary", "System status")]),
            ],
        )],
    );
    let mut registry = TypeRegistry::new();
    registry.register(
        "ApiMessage".to_string(),
        derive_to_asyncapi_message(&api_message).unwrap(),
        union_schema(
            "ApiMessage",
            vec![
                branch("type", "user.join", &["username", "room"]),
                branch("type", "user.leave", &["username", "room"]),
            ],
        ),
    );
    registry.register(
        "SystemMessage".to_string(),
        derive_to_asyncapi_message(&system_message).unwrap(),
        union_schema("SystemMessage", vec![branch("type", "system.status", &["status"])]),
    );
    let decl = struct_decl(
        "MessageIntegrationApi",
        vec![
            attr("asyncapi", vec![s("title", "Message Integration API"), s("version", "1.0.0")]),
            attr("asyncapi_messages", vec![flag("ApiMessage"), flag("SystemMessage")]),
        ],
    );
    let spec = derive_asyncapi(&decl, &registry).unwrap();

    assert_eq!(spec.info.title, "Message Integration API");
    assert_eq!(spec.info.version, "1.0.0");

    let components = spec.components.expect("Should have components");
    let messages = components.messages.expect("Should have messages in components");

    assert_eq!(messages.len(), 3);

    let user_join = messages.get("user.join").expect("Should have user.join message");
    assert_eq!(user_join.name, Some("user.join".to_string()));
    assert_eq!(user_join.summary, Some("User joins".to_string()));
    assert_eq!(user_join.description, Some("User enters a room".to_string()));
    assert!(user_join.payload.is_some());

    let user_leave = messages.get("user.leave").expect("Should have user.leave message");
    assert_eq!(user_leave.name, Some("user.leave".to_string()));
    assert_eq!(user_leave.summary, Some("User leaves".to_string()));

    let system_status = messages.get("system.status").expect("Should have system.status message");
    assert_eq!(system_status.name, Some("system.status".to_string()));
    assert_eq!(system_status.summary, Some("System status".to_string()));
}
