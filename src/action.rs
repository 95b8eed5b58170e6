//! Actions, conditions and RBAC policies of the syntax tree, with their
//! mathematical models.

use crate::ast::RapidRecastProtocolType;
use vstd::prelude::*;

verus! {

/// A value that can be used in conditions.
#[derive(PartialEq, Debug)]
pub enum RecastValue {
    /// A reference to a variable bound when the condition is evaluated.
    Param(String),
    /// A string literal.
    String(String),
    /// A number literal, as its JSON text.
    Number(String),
}

/// A condition over values.
#[derive(PartialEq, Debug)]
pub enum ConditionStatement {
    /// Left == Right
    Equals(RecastValue, RecastValue),
    /// Left != Right
    NotEquals(RecastValue, RecastValue),
    /// Left > Right
    GreaterThan(RecastValue, RecastValue),
    /// Left < Right
    LessThan(RecastValue, RecastValue),
    /// Left >= Right
    GreaterThanOrEqual(RecastValue, RecastValue),
    /// Left <= Right
    LessThanOrEqual(RecastValue, RecastValue),
    /// Left && Right
    And(RecastValue, RecastValue),
    /// Left || Right
    Or(RecastValue, RecastValue),
    /// !Value
    Not(RecastValue),
}

/// The user that an authentication action applies to.
#[derive(PartialEq, Debug)]
pub struct UserIdentifier {
    /// The namespace the user belongs to.
    pub namespace: String,
    /// The username within that namespace.
    pub username: String,
}

/// The subjects of RBAC.
#[derive(PartialEq, Debug)]
pub enum RapidRecastRbacSubject {
    /// The system administrator.
    Admin,
    /// An anonymous user.
    Anon,
    /// A user or role: (namespace, name).
    UserOrRole(String, String),
}

/// A namespace, existing or to be created.
#[derive(PartialEq, Debug)]
pub enum NamespaceObject {
    /// A namespace that exists.
    ExistingNamespace(String),
    /// A namespace that does not exist yet.
    NonExistingNamespace(String),
}

/// A topic, existing or to be created.
#[derive(PartialEq, Debug)]
pub enum TopicObject {
    /// A topic that does not exist yet.
    NonExistingTopic(String),
    /// A topic that exists: (namespace, topic).
    NamespaceTopic(String, String),
}

/// The kinds of downstream clients, cached or to be created.
#[derive(PartialEq, Eq, Structural, Debug, Clone, Copy)]
pub enum ClientObject {
    /// An HTTP/1 client.
    Http1,
    /// An HTTP/2 client.
    Http2,
    /// An HTTP/3 client.
    Http3,
    /// A Kafka client.
    Kafka,
    /// An MQTT client.
    Mqtt,
}

/// A reference to an object of the definition language; it names no kind of
/// object yet, and has no attributes.
#[derive(PartialEq, Eq, Structural, Debug, Clone, Copy)]
pub struct ModelObject {}

/// The objects of RBAC.
#[derive(PartialEq, Debug)]
pub enum RapidRecastRbacObject {
    /// A namespace.
    Namespace(NamespaceObject),
    /// A protocol.
    Protocol(RapidRecastProtocolType),
    /// A topic.
    Topic(TopicObject),
    /// A client.
    Client(ClientObject),
    /// An object of the definition language.
    Model(ModelObject),
}

/// The operations that RBAC can permit.
#[derive(PartialEq, Eq, Structural, Debug, Clone, Copy)]
pub enum RapidRecastRbacAction {
    /// Creating a resource.
    Create,
    /// Reading from a resource.
    Read,
    /// Updating a resource's metadata.
    Update,
    /// Deleting a resource.
    Delete,
    /// Writing to a resource.
    Write,
    /// Listing a resource (reading metadata).
    List,
    /// Renaming a resource.
    Rename,
}

/// A permission grant: a subject may perform an action on an object.
#[derive(PartialEq, Debug)]
pub struct RapidRecastRbacPolicy {
    /// Who is permitted.
    pub subject: RapidRecastRbacSubject,
    /// On what.
    pub object: RapidRecastRbacObject,
    /// To do what.
    pub action: RapidRecastRbacAction,
}

/// Actions that change authentication state.
#[derive(PartialEq, Debug)]
pub enum AuthBasedAction {
    /// Creates a user, with a password or none.
    CreateUser { subject: UserIdentifier, password: Option<String> },
    /// Adds metadata to a user: a mapping, as its entries with keys in
    /// strictly increasing order.
    AddMetadataToUser { subject: UserIdentifier, metadata: Vec<(String, String)> },
    /// Grants policies to a user.
    GrantPermissions { subject: UserIdentifier, policy: Vec<RapidRecastRbacPolicy> },
}

/// Actions that branch on a condition.
#[derive(PartialEq, Debug)]
pub enum LogicBasedAction {
    /// If the condition holds, `if_true`; otherwise `if_false`, if any.
    ConditionBlock {
        condition: ConditionStatement,
        if_true: Box<RapidRecastAction>,
        if_false: Option<Box<RapidRecastAction>>,
    },
}

/// An action taken when a protocol rule matches.
#[derive(PartialEq, Debug)]
pub enum RapidRecastAction {
    /// An authentication action.
    AuthBasedAction(AuthBasedAction),
    /// A conditional action.
    LogicBasedAction(LogicBasedAction),
}

// Models.
/// The model of a `RecastValue`.
pub enum ValueView {
    Param(Seq<char>),
    Str(Seq<char>),
    Number(Seq<char>),
}

/// The model of a `ConditionStatement`.
pub enum ConditionView {
    Equals(ValueView, ValueView),
    NotEquals(ValueView, ValueView),
    GreaterThan(ValueView, ValueView),
    LessThan(ValueView, ValueView),
    GreaterThanOrEqual(ValueView, ValueView),
    LessThanOrEqual(ValueView, ValueView),
    And(ValueView, ValueView),
    Or(ValueView, ValueView),
    Not(ValueView),
}

/// The model of a `UserIdentifier`.
pub struct UserView {
    pub namespace: Seq<char>,
    pub username: Seq<char>,
}

/// The model of a `RapidRecastRbacSubject`.
pub enum SubjectView {
    Admin,
    Anon,
    UserOrRole(Seq<char>, Seq<char>),
}

/// The model of a `NamespaceObject`.
pub enum NamespaceView {
    ExistingNamespace(Seq<char>),
    NonExistingNamespace(Seq<char>),
}

/// The model of a `TopicObject`.
pub enum TopicView {
    NonExistingTopic(Seq<char>),
    NamespaceTopic(Seq<char>, Seq<char>),
}

/// The model of a `RapidRecastRbacObject`.
pub enum ObjectView {
    Namespace(NamespaceView),
    Protocol(RapidRecastProtocolType),
    Topic(TopicView),
    Client(ClientObject),
    Model(ModelObject),
}

/// The model of a `RapidRecastRbacPolicy`.
pub struct PolicyView {
    pub subject: SubjectView,
    pub object: ObjectView,
    pub action: RapidRecastRbacAction,
}

/// The model of an `AuthBasedAction`.
pub enum AuthView {
    CreateUser { subject: UserView, password: Option<Seq<char>> },
    AddMetadataToUser { subject: UserView, metadata: Seq<(Seq<char>, Seq<char>)> },
    GrantPermissions { subject: UserView, policy: Seq<PolicyView> },
}

/// The model of a `LogicBasedAction`.
pub enum LogicView {
    ConditionBlock {
        condition: ConditionView,
        if_true: Box<ActionView>,
        if_false: Option<Box<ActionView>>,
    },
}

/// The model of a `RapidRecastAction`.
pub enum ActionView {
    AuthBasedAction(AuthView),
    LogicBasedAction(LogicView),
}

impl View for RecastValue {
    type V = ValueView;

    open spec fn view(&self) -> ValueView {
        match self {
            RecastValue::Param(s) => ValueView::Param(s@),
            RecastValue::String(s) => ValueView::Str(s@),
            RecastValue::Number(s) => ValueView::Number(s@),
        }
    }
}

impl View for ConditionStatement {
    type V = ConditionView;

    open spec fn view(&self) -> ConditionView {
        match self {
            ConditionStatement::Equals(a, b) => ConditionView::Equals(a@, b@),
            ConditionStatement::NotEquals(a, b) => ConditionView::NotEquals(a@, b@),
            ConditionStatement::GreaterThan(a, b) => ConditionView::GreaterThan(a@, b@),
            ConditionStatement::LessThan(a, b) => ConditionView::LessThan(a@, b@),
            ConditionStatement::GreaterThanOrEqual(a, b) => ConditionView::GreaterThanOrEqual(
                a@,
                b@,
            ),
            ConditionStatement::LessThanOrEqual(a, b) => ConditionView::LessThanOrEqual(a@, b@),
            ConditionStatement::And(a, b) => ConditionView::And(a@, b@),
            ConditionStatement::Or(a, b) => ConditionView::Or(a@, b@),
            ConditionStatement::Not(a) => ConditionView::Not(a@),
        }
    }
}

impl View for UserIdentifier {
    type V = UserView;

    open spec fn view(&self) -> UserView {
        UserView { namespace: self.namespace@, username: self.username@ }
    }
}

impl View for RapidRecastRbacSubject {
    type V = SubjectView;

    open spec fn view(&self) -> SubjectView {
        match self {
            RapidRecastRbacSubject::Admin => SubjectView::Admin,
            RapidRecastRbacSubject::Anon => SubjectView::Anon,
            RapidRecastRbacSubject::UserOrRole(n, u) => SubjectView::UserOrRole(n@, u@),
        }
    }
}

impl View for NamespaceObject {
    type V = NamespaceView;

    open spec fn view(&self) -> NamespaceView {
        match self {
            NamespaceObject::ExistingNamespace(n) => NamespaceView::ExistingNamespace(n@),
            NamespaceObject::NonExistingNamespace(n) => NamespaceView::NonExistingNamespace(n@),
        }
    }
}

impl View for TopicObject {
    type V = TopicView;

    open spec fn view(&self) -> TopicView {
        match self {
            TopicObject::NonExistingTopic(t) => TopicView::NonExistingTopic(t@),
            TopicObject::NamespaceTopic(n, t) => TopicView::NamespaceTopic(n@, t@),
        }
    }
}

impl View for RapidRecastRbacObject {
    type V = ObjectView;

    open spec fn view(&self) -> ObjectView {
        match self {
            RapidRecastRbacObject::Namespace(n) => ObjectView::Namespace(n@),
            RapidRecastRbacObject::Protocol(p) => ObjectView::Protocol(*p),
            RapidRecastRbacObject::Topic(t) => ObjectView::Topic(t@),
            RapidRecastRbacObject::Client(c) => ObjectView::Client(*c),
            RapidRecastRbacObject::Model(m) => ObjectView::Model(*m),
        }
    }
}

impl View for RapidRecastRbacPolicy {
    type V = PolicyView;

    open spec fn view(&self) -> PolicyView {
        PolicyView { subject: self.subject@, object: self.object@, action: self.action }
    }
}

/// The model of the entries of a metadata mapping.
pub open spec fn pairs_view(m: Seq<(String, String)>) -> Seq<(Seq<char>, Seq<char>)> {
    m.map_values(|p: (String, String)| (p.0@, p.1@))
}

impl View for AuthBasedAction {
    type V = AuthView;

    open spec fn view(&self) -> AuthView {
        match self {
            AuthBasedAction::CreateUser { subject, password } => AuthView::CreateUser {
                subject: subject@,
                password: match password {
                    Some(p) => Some(p@),
                    None => None,
                },
            },
            AuthBasedAction::AddMetadataToUser { subject, metadata } => AuthView::AddMetadataToUser {
                subject: subject@,
                metadata: pairs_view(metadata@),
            },
            AuthBasedAction::GrantPermissions { subject, policy } => AuthView::GrantPermissions {
                subject: subject@,
                policy: policy@.map_values(|p: RapidRecastRbacPolicy| p@),
            },
        }
    }
}

/// The model of an action.
pub open spec fn action_view(a: &RapidRecastAction) -> ActionView
    decreases a,
{
    match a {
        RapidRecastAction::AuthBasedAction(x) => ActionView::AuthBasedAction(x@),
        RapidRecastAction::LogicBasedAction(x) => ActionView::LogicBasedAction(logic_view(x)),
    }
}

/// The model of a conditional action.
pub open spec fn logic_view(l: &LogicBasedAction) -> LogicView
    decreases l,
{
    match l {
        LogicBasedAction::ConditionBlock { condition, if_true, if_false } => {
            LogicView::ConditionBlock {
                condition: condition@,
                if_true: Box::new(action_view(&**if_true)),
                if_false: match if_false {
                    Some(b) => Some(Box::new(action_view(&**b))),
                    None => None,
                },
            }
        },
    }
}

impl View for RapidRecastAction {
    type V = ActionView;

    open spec fn view(&self) -> ActionView {
        action_view(self)
    }
}

impl View for LogicBasedAction {
    type V = LogicView;

    open spec fn view(&self) -> LogicView {
        logic_view(self)
    }
}

} // verus!
