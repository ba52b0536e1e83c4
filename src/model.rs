//! The compiled document: an AsyncAPI 3.0 specification with its servers,
//! channels, operations and components.

use crate::named_map::NamedMap;
use crate::schema::Schema;
use vstd::prelude::*;

verus! {

/// A complete specification document.
#[derive(Debug)]
pub struct AsyncApiSpec {
    /// The version of the AsyncAPI format, `3.0.0`.
    pub asyncapi: String,
    pub info: Info,
    pub servers: Option<NamedMap<Server>>,
    pub channels: Option<NamedMap<Channel>>,
    pub operations: Option<NamedMap<Operation>>,
    pub components: Option<Components>,
}

/// The title, version and description of the API.
#[derive(Debug)]
pub struct Info {
    pub title: String,
    pub version: String,
    pub description: Option<String>,
}

/// A server that clients connect to.
#[derive(Debug)]
pub struct Server {
    pub host: String,
    pub protocol: String,
    pub pathname: Option<String>,
    pub description: Option<String>,
    pub variables: Option<NamedMap<ServerVariable>>,
}

/// A variable in a server's host or pathname.
#[derive(Debug)]
pub struct ServerVariable {
    pub description: Option<String>,
    pub default: Option<String>,
    pub enum_values: Option<Vec<String>>,
    pub examples: Option<Vec<String>>,
}

/// A communication path through which messages flow.
#[derive(Debug)]
pub struct Channel {
    pub address: Option<String>,
    /// Message references keyed by message name.
    pub messages: Option<NamedMap<MessageRef>>,
    pub parameters: Option<NamedMap<Parameter>>,
}

/// A parameter of a channel address.
#[derive(Debug)]
pub struct Parameter {
    pub description: Option<String>,
    pub schema: Option<Schema>,
}

/// A message given by reference or written out in place.
#[derive(Debug)]
pub enum MessageRef {
    Reference { reference: String },
    Inline(Box<Message>),
}

/// A named payload definition with its documentation.
#[derive(Debug)]
pub struct Message {
    pub name: Option<String>,
    pub title: Option<String>,
    pub summary: Option<String>,
    pub description: Option<String>,
    pub content_type: Option<String>,
    pub payload: Option<Schema>,
}

/// A send or receive action bound to one channel.
#[derive(Debug)]
pub struct Operation {
    pub action: OperationAction,
    pub channel: ChannelRef,
    pub messages: Option<Vec<MessageRef>>,
}

/// Which way an operation's messages travel.
#[derive(Clone, Copy, Debug, PartialEq, Eq, Structural)]
pub enum OperationAction {
    Send,
    Receive,
}

/// A reference to a channel: `#/channels/{name}`.
#[derive(Debug)]
pub struct ChannelRef {
    pub reference: String,
}

/// Reusable definitions, addressed by name.
#[derive(Debug)]
pub struct Components {
    pub messages: Option<NamedMap<Message>>,
    pub schemas: Option<NamedMap<Schema>>,
}

impl Default for AsyncApiSpec {
    /// A document for format `3.0.0` titled `API`, version `1.0.0`, with
    /// nothing else in it.
    fn default() -> (r: Self)
        ensures
            r.asyncapi@ == "3.0.0"@,
            r.info.title@ == "API"@,
            r.info.version@ == "1.0.0"@,
            r.info.description is None,
            r.servers is None,
            r.channels is None,
            r.operations is None,
            r.components is None,
    {
        AsyncApiSpec {
            asyncapi: String::from_str("3.0.0"),
            info: Info {
                title: String::from_str("API"),
                version: String::from_str("1.0.0"),
                description: None,
            },
            servers: None,
            channels: None,
            operations: None,
            components: None,
        }
    }
}

} // verus!
