//! The document root, its statements and protocol rules, with their
//! mathematical models.

use crate::action::{ActionView, RapidRecastAction};
use crate::version::Version;
use vstd::prelude::*;

verus! {

/// A model definition; it has no attributes yet.
#[derive(PartialEq, Eq, Structural, Debug, Clone, Copy)]
pub struct RapidModelDefinition {}

/// A topic definition; it has no attributes yet.
#[derive(PartialEq, Eq, Structural, Debug, Clone, Copy)]
pub struct RapidTopicDefinition {}

/// A cron definition; it has no attributes yet.
#[derive(PartialEq, Eq, Structural, Debug, Clone, Copy)]
pub struct RapidCronDefinition {}

/// HTTP methods.
#[derive(PartialEq, Eq, Structural, Debug, Clone, Copy)]
pub enum RapidRecastHttpMethod {
    GET,
    POST,
    DELETE,
    UPDATE,
    PATCH,
    PUT,
    OPTIONS,
    HEAD,
    CONNECT,
    TRACE,
}

/// The protocols that the server speaks.
#[derive(PartialEq, Eq, Structural, Debug, Clone, Copy)]
pub enum RapidRecastProtocolType {
    /// HTTP 1, 2 and 3.
    HTTP,
    /// WebSockets over HTTP.
    WebSocket,
    /// Kafka.
    Kafka,
    /// RabbitMQ.
    RabbitMQ,
    /// gRPC.
    Grpc,
}

/// A rule of an HTTP protocol binding.
#[derive(PartialEq, Debug)]
pub struct HttpStatement {
    /// The position of the bound listener among those given at startup.
    pub sequence: u8,
    /// The paths to match, in order.
    pub paths: Vec<String>,
    /// The methods to match, in order.
    pub methods: Vec<RapidRecastHttpMethod>,
    /// The actions taken on a match, in order.
    pub actions: Vec<RapidRecastAction>,
}

/// A protocol definition, by protocol.
#[derive(PartialEq, Debug)]
pub enum RapidProtocolDefinition {
    /// A rule of an HTTP protocol binding.
    HttpProtocolDefinition(HttpStatement),
}

/// A top-level statement of a definition.
#[derive(PartialEq, Debug)]
pub enum RapidAstStatement {
    /// A model definition.
    ModelDefinition(RapidModelDefinition),
    /// A protocol definition.
    ProtocolDefinition(RapidProtocolDefinition),
    /// A topic definition.
    TopicDefinition(RapidTopicDefinition),
    /// A cron definition.
    CronDefinition(RapidCronDefinition),
}

/// A versioned configuration document.
#[derive(PartialEq, Debug)]
pub struct RapidRecastDefinition {
    /// The identifier that the author chose.
    pub id: String,
    /// The version of the language the document is written in.
    pub language_version: Version,
    /// The version of the document itself.
    pub file_version: Version,
    /// A display name, if any.
    pub name: Option<String>,
    /// A description, if any.
    pub description: Option<String>,
    /// The statements, in order.
    pub ast: Vec<RapidAstStatement>,
}

/// The model of an `HttpStatement`.
pub struct HttpView {
    pub sequence: u8,
    pub paths: Seq<Seq<char>>,
    pub methods: Seq<RapidRecastHttpMethod>,
    pub actions: Seq<ActionView>,
}

/// The model of a `RapidProtocolDefinition`.
pub enum ProtocolView {
    HttpProtocolDefinition(HttpView),
}

/// The model of a `RapidAstStatement`.
pub enum StatementView {
    ModelDefinition(RapidModelDefinition),
    ProtocolDefinition(ProtocolView),
    TopicDefinition(RapidTopicDefinition),
    CronDefinition(RapidCronDefinition),
}

/// The model of a `RapidRecastDefinition`.
pub struct DefinitionView {
    pub id: Seq<char>,
    pub language_version: Version,
    pub file_version: Version,
    pub name: Option<Seq<char>>,
    pub description: Option<Seq<char>>,
    pub ast: Seq<StatementView>,
}

/// The model of an optional string.
pub open spec fn opt_view(s: &Option<String>) -> Option<Seq<char>> {
    match s {
        Some(x) => Some(x@),
        None => None,
    }
}

impl View for HttpStatement {
    type V = HttpView;

    open spec fn view(&self) -> HttpView {
        HttpView {
            sequence: self.sequence,
            paths: self.paths@.map_values(|p: String| p@),
            methods: self.methods@,
            actions: self.actions@.map_values(|a: RapidRecastAction| a@),
        }
    }
}

impl View for RapidProtocolDefinition {
    type V = ProtocolView;

    open spec fn view(&self) -> ProtocolView {
        match self {
            RapidProtocolDefinition::HttpProtocolDefinition(h) => ProtocolView::HttpProtocolDefinition(
                h@,
            ),
        }
    }
}

impl View for RapidAstStatement {
    type V = StatementView;

    open spec fn view(&self) -> StatementView {
        match self {
            RapidAstStatement::ModelDefinition(m) => StatementView::ModelDefinition(*m),
            RapidAstStatement::ProtocolDefinition(p) => StatementView::ProtocolDefinition(p@),
            RapidAstStatement::TopicDefinition(t) => StatementView::TopicDefinition(*t),
            RapidAstStatement::CronDefinition(c) => StatementView::CronDefinition(*c),
        }
    }
}

impl View for RapidRecastDefinition {
    type V = DefinitionView;

    open spec fn view(&self) -> DefinitionView {
        DefinitionView {
            id: self.id@,
            language_version: self.language_version,
            file_version: self.file_version,
            name: opt_view(&self.name),
            description: opt_view(&self.description),
            ast: self.ast@.map_values(|s: RapidAstStatement| s@),
        }
    }
}

} // verus!
