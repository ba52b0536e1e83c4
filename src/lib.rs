//! Compiles declarative, attribute-style metadata into an AsyncAPI 3.0
//! document: servers, channels, operations and reusable message components,
//! all cross-referenced by path.
//!
//! The pipeline runs in three verified stages: [`meta`] and [`spec_meta`]
//! extract typed records from an annotation tree, [`message`] resolves the
//! messages of a type and cuts its structural schema into per-message
//! payloads, and [`compile`] assembles the records into an [`AsyncApiSpec`],
//! which [`export`] writes as a JSON value.

pub mod annotation;
pub mod compile;
pub mod error;
pub mod export;
pub mod json;
pub mod laws;
pub mod message;
pub mod meta;
pub mod model;
pub mod named_map;
pub mod round_trip;
pub mod schema;
pub mod spec_meta;

pub use annotation::{Attribute, MetaItem, MetaValue};
pub use compile::{compile, derive_asyncapi, RegisteredType, TypeRegistry};
pub use error::CompileError;
pub use export::{schema_to_json, ToJson};
pub use json::JsonValue;
pub use message::{
    derive_to_asyncapi_message, DeclKind, MessageMeta, MessageType, TypeDecl, VariantDecl,
};
pub use meta::{extract_asyncapi_meta, extract_serde_rename, extract_serde_tag, AsyncApiMeta};
pub use model::{
    AsyncApiSpec, Channel, ChannelRef, Components, Info, Message, MessageRef, Operation,
    OperationAction, Parameter, Server, ServerVariable,
};
pub use named_map::NamedMap;
pub use schema::{schema_from_json, Schema, SchemaObject};
pub use spec_meta::{
    extract_asyncapi_spec_meta, AsyncApiSpecMeta, ChannelMeta, OperationMeta, ParameterMeta,
    ServerMeta, ServerVariableMeta,
};
