use asyncapi_rust::{
    extract_asyncapi_meta, extract_asyncapi_spec_meta, extract_serde_rename, extract_serde_tag,
    Attribute, MetaItem, MetaValue,
};

fn s(key: &str, value: &str) -> MetaItem {
    MetaItem { key: key.to_string(), value: MetaValue::Str(value.to_string()) }
}

fn flag(key: &str) -> MetaItem {
    MetaItem { key: key.to_string(), value: MetaValue::Flag }
}

fn list(key: &str, values: &[&str]) -> MetaItem {
    MetaItem {
        key: key.to_string(),
        value: MetaValue::StrList(values.iter().map(|v| v.to_string()).collect()),
    }
}

fn nested(key: &str, items: Vec<MetaItem>) -> MetaItem {
    MetaItem { key: key.to_string(), value: MetaValue::Nested(items) }
}

fn attr(path: &str, items: Vec<MetaItem>) -> Attribute {
    Attribute { path: path.to_string(), items }
}

#[test]
fn test_extract_summary() {
    let attrs = vec![attr("asyncapi", vec![s("summary", "Send a message")])];

    let meta = extract_asyncapi_meta(&attrs);
    assert_eq!(meta.summary, Some("Send a message".to_string()));
    assert_eq!(meta.description, None);
}

#[test]
fn test_extract_multiple() {
    let attrs = vec![attr(
        "asyncapi",
        vec![s("summary", "Send message"), s("description", "Sends a chat message to a room")],
    )];

    let meta = extract_asyncapi_meta(&attrs);
    assert_eq!(meta.summary, Some("Send message".to_string()));
    assert_eq!(meta.description, Some("Sends a chat message to a room".to_string()));
}

#[test]
fn test_extract_content_type() {
    let attrs = vec![attr("asyncapi", vec![s("content_type", "application/octet-stream")])];

    let meta = extract_asyncapi_meta(&attrs);
    assert_eq!(meta.content_type, Some("application/octet-stream".to_string()));
}

#[test]
fn asyncapi_attrs_test_extract_none() {
    let attrs = vec![attr("derive", vec![flag("Debug")])];

    let meta = extract_asyncapi_meta(&attrs);
    assert_eq!(meta.summary, None);
    assert_eq!(meta.description, None);
}

#[test]
fn test_extract_triggers_binary() {
    let attrs = vec![attr("asyncapi", vec![flag("triggers_binary")])];

    let meta = extract_asyncapi_meta(&attrs);
    assert!(meta.triggers_binary);
    assert_eq!(meta.content_type, None);
}

#[test]
fn test_extract_title_and_version() {
    let attrs = vec![attr("asyncapi", vec![s("title", "Chat API"), s("version", "1.0.0")])];

    let meta = extract_asyncapi_spec_meta(&attrs);
    assert_eq!(meta.title, Some("Chat API".to_string()));
    assert_eq!(meta.version, Some("1.0.0".to_string()));
    assert_eq!(meta.description, None);
}

#[test]
fn test_extract_with_description() {
    let attrs = vec![attr(
        "asyncapi",
        vec![s("title", "My API"), s("version", "2.0.0"), s("description", "A great API")],
    )];

    let meta = extract_asyncapi_spec_meta(&attrs);
    assert_eq!(meta.title, Some("My API".to_string()));
    assert_eq!(meta.version, Some("2.0.0".to_string()));
    assert_eq!(meta.description, Some("A great API".to_string()));
}

#[test]
fn asyncapi_spec_attrs_test_extract_none() {
    let attrs = vec![attr("derive", vec![flag("Debug")])];

    let meta = extract_asyncapi_spec_meta(&attrs);
    assert_eq!(meta.title, None);
    assert_eq!(meta.version, None);
    assert_eq!(meta.description, None);
}

#[test]
fn test_extract_server() {
    let attrs = vec![
        attr("asyncapi", vec![s("title", "API"), s("version", "1.0.0")]),
        attr(
            "asyncapi_server",
            vec![s("name", "production"), s("host", "api.example.com"), s("protocol", "wss")],
        ),
    ];

    let meta = extract_asyncapi_spec_meta(&attrs);
    assert_eq!(meta.servers.len(), 1);
    assert_eq!(meta.servers[0].name, Some("production".to_string()));
    assert_eq!(meta.servers[0].host, Some("api.example.com".to_string()));
    assert_eq!(meta.servers[0].protocol, Some("wss".to_string()));
    assert_eq!(meta.servers[0].description, None);
}

#[test]
fn test_extract_server_with_description() {
    let attrs = vec![attr(
        "asyncapi_server",
        vec![
            s("name", "dev"),
            s("host", "localhost:8080"),
            s("protocol", "ws"),
            s("description", "Development server"),
        ],
    )];

    let meta = extract_asyncapi_spec_meta(&attrs);
    assert_eq!(meta.servers.len(), 1);
    assert_eq!(meta.servers[0].description, Some("Development server".to_string()));
}

#[test]
fn test_extract_channel() {
    let attrs = vec![attr("asyncapi_channel", vec![s("name", "chat"), s("address", "/ws/chat")])];

    let meta = extract_asyncapi_spec_meta(&attrs);
    assert_eq!(meta.channels.len(), 1);
    assert_eq!(meta.channels[0].name, Some("chat".to_string()));
    assert_eq!(meta.channels[0].address, Some("/ws/chat".to_string()));
}

#[test]
fn test_extract_operation() {
    let attrs = vec![attr(
        "asyncapi_operation",
        vec![s("name", "sendMessage"), s("action", "send"), s("channel", "chat")],
    )];

    let meta = extract_asyncapi_spec_meta(&attrs);
    assert_eq!(meta.operations.len(), 1);
    assert_eq!(meta.operations[0].name, Some("sendMessage".to_string()));
    assert_eq!(meta.operations[0].action, Some("send".to_string()));
    assert_eq!(meta.operations[0].channel, Some("chat".to_string()));
}

#[test]
fn test_extract_multiple_components() {
    let attrs = vec![
        attr("asyncapi", vec![s("title", "Chat API"), s("version", "1.0.0")]),
        attr(
            "asyncapi_server",
            vec![s("name", "prod"), s("host", "api.example.com"), s("protocol", "wss")],
        ),
        attr("asyncapi_channel", vec![s("name", "chat"), s("address", "/ws/chat")]),
        attr(
            "asyncapi_operation",
            vec![s("name", "send"), s("action", "send"), s("channel", "chat")],
        ),
        attr(
            "asyncapi_operation",
            vec![s("name", "receive"), s("action", "receive"), s("channel", "chat")],
        ),
    ];

    let meta = extract_asyncapi_spec_meta(&attrs);
    assert_eq!(meta.title, Some("Chat API".to_string()));
    assert_eq!(meta.servers.len(), 1);
    assert_eq!(meta.channels.len(), 1);
    assert_eq!(meta.operations.len(), 2);
}

#[test]
fn test_extract_message_types() {
    let attrs = vec![attr(
        "asyncapi_messages",
        vec![flag("ChatMessage"), flag("UserMessage"), flag("SystemMessage")],
    )];

    let meta = extract_asyncapi_spec_meta(&attrs);
    assert_eq!(meta.message_types.len(), 3);
    assert_eq!(meta.message_types[0], "ChatMessage");
    assert_eq!(meta.message_types[1], "UserMessage");
    assert_eq!(meta.message_types[2], "SystemMessage");
}

#[test]
fn test_extract_single_message_type() {
    let attrs = vec![attr("asyncapi_messages", vec![flag("ChatMessage")])];

    let meta = extract_asyncapi_spec_meta(&attrs);
    assert_eq!(meta.message_types.len(), 1);
    assert_eq!(meta.message_types[0], "ChatMessage");
}

#[test]
fn test_extract_message_types_with_module_paths() {
    let attrs = vec![attr(
        "asyncapi_messages",
        vec![flag("super :: messages :: Operation"), flag("crate :: OperationResponse")],
    )];

    let meta = extract_asyncapi_spec_meta(&attrs);
    assert_eq!(meta.message_types.len(), 2);
    assert_eq!(meta.message_types[0], "super :: messages :: Operation");
    assert_eq!(meta.message_types[1], "crate :: OperationResponse");
}

#[test]
fn test_extract_server_with_variables() {
    let attrs = vec![attr(
        "asyncapi_server",
        vec![
            s("name", "production"),
            s("host", "api.enlightenhq.com"),
            s("protocol", "wss"),
            s("pathname", "/api/ws/{userId}"),
            nested(
                "variable",
                vec![
                    s("name", "userId"),
                    s("description", "Authenticated user ID"),
                    list("examples", &["12", "13"]),
                ],
            ),
        ],
    )];

    let meta = extract_asyncapi_spec_meta(&attrs);
    assert_eq!(meta.servers.len(), 1);
    let server = &meta.servers[0];
    assert_eq!(server.name, Some("production".to_string()));
    assert_eq!(server.host, Some("api.enlightenhq.com".to_string()));
    assert_eq!(server.protocol, Some("wss".to_string()));
    assert_eq!(server.pathname, Some("/api/ws/{userId}".to_string()));

    assert_eq!(server.variables.len(), 1);
    let var = &server.variables[0];
    assert_eq!(var.name, "userId");
    assert_eq!(var.description, Some("Authenticated user ID".to_string()));
    assert_eq!(var.examples, vec!["12".to_string(), "13".to_string()]);
}

#[test]
fn test_extract_server_with_multiple_variables() {
    let attrs = vec![attr(
        "asyncapi_server",
        vec![
            s("name", "staging"),
            s("host", "staging.example.com"),
            s("protocol", "wss"),
            s("pathname", "/api/{version}/ws/{userId}"),
            nested(
                "variable",
                vec![
                    s("name", "version"),
                    s("description", "API version"),
                    list("enum_values", &["v1", "v2"]),
                    s("default", "v2"),
                ],
            ),
            nested(
                "variable",
                vec![s("name", "userId"), s("description", "User ID"), list("examples", &["12", "13"])],
            ),
        ],
    )];

    let meta = extract_asyncapi_spec_meta(&attrs);
    assert_eq!(meta.servers.len(), 1);
    let server = &meta.servers[0];
    assert_eq!(server.variables.len(), 2);

    let var0 = &server.variables[0];
    assert_eq!(var0.name, "version");
    assert_eq!(var0.enum_values, vec!["v1".to_string(), "v2".to_string()]);
    assert_eq!(var0.default, Some("v2".to_string()));

    let var1 = &server.variables[1];
    assert_eq!(var1.name, "userId");
    assert_eq!(var1.examples, vec!["12".to_string(), "13".to_string()]);
}

#[test]
fn test_extract_channel_with_parameters() {
    let attrs = vec![attr(
        "asyncapi_channel",
        vec![
            s("name", "rtMessaging"),
            s("address", "/api/ws/{userId}"),
            nested(
                "parameter",
                vec![
                    s("name", "userId"),
                    s("description", "User ID for this WebSocket connection"),
                    s("schema_type", "integer"),
                    s("format", "int64"),
                ],
            ),
        ],
    )];

    let meta = extract_asyncapi_spec_meta(&attrs);
    assert_eq!(meta.channels.len(), 1);
    let channel = &meta.channels[0];
    assert_eq!(channel.name, Some("rtMessaging".to_string()));
    assert_eq!(channel.address, Some("/api/ws/{userId}".to_string()));

    assert_eq!(channel.parameters.len(), 1);
    let param = &channel.parameters[0];
    assert_eq!(param.name, "userId");
    assert_eq!(param.description, Some("User ID for this WebSocket connection".to_string()));
    assert_eq!(param.schema_type, Some("integer".to_string()));
    assert_eq!(param.format, Some("int64".to_string()));
}

#[test]
fn test_extract_channel_with_multiple_parameters() {
    let attrs = vec![attr(
        "asyncapi_channel",
        vec![
            s("name", "userChannel"),
            s("address", "/api/{version}/ws/{userId}"),
            nested(
                "parameter",
                vec![s("name", "version"), s("description", "API version"), s("schema_type", "string")],
            ),
            nested(
                "parameter",
                vec![
                    s("name", "userId"),
                    s("description", "User ID"),
                    s("schema_type", "integer"),
                    s("format", "int64"),
                ],
            ),
        ],
    )];

    let meta = extract_asyncapi_spec_meta(&attrs);
    assert_eq!(meta.channels.len(), 1);
    let channel = &meta.channels[0];
    assert_eq!(channel.parameters.len(), 2);

    let param0 = &channel.parameters[0];
    assert_eq!(param0.name, "version");
    assert_eq!(param0.schema_type, Some("string".to_string()));
    assert_eq!(param0.format, None);

    let param1 = &channel.parameters[1];
    assert_eq!(param1.name, "userId");
    assert_eq!(param1.schema_type, Some("integer".to_string()));
    assert_eq!(param1.format, Some("int64".to_string()));
}

#[test]
fn test_extract_serde_rename() {
    let attrs = vec![attr("serde", vec![s("rename", "custom_name")])];

    assert_eq!(extract_serde_rename(&attrs), Some("custom_name".to_string()));
}

#[test]
fn test_extract_serde_rename_none() {
    let attrs = vec![attr("derive", vec![flag("Debug")])];

    assert_eq!(extract_serde_rename(&attrs), None);
}

#[test]
fn test_extract_serde_tag() {
    let attrs = vec![attr("serde", vec![s("tag", "type")])];

    assert_eq!(extract_serde_tag(&attrs), Some("type".to_string()));
}

#[test]
fn test_extract_serde_tag_none() {
    let attrs = vec![attr("serde", vec![s("rename", "foo")])];

    assert_eq!(extract_serde_tag(&attrs), None);
}
