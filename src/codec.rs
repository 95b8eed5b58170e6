//! The JSON encoding of definitions, stated over the models: each variant is
//! an object with one entry, whose key is the variant's name; a variant
//! without a payload is its name as a string.

use crate::action::{
    ActionView, AuthView, ClientObject, ModelObject, ConditionView, LogicView, NamespaceView, ObjectView,
    PolicyView, RapidRecastRbacAction, SubjectView, TopicView, UserView, ValueView,
};
use crate::ast::{
    DefinitionView, RapidCronDefinition, RapidModelDefinition, RapidTopicDefinition, HttpView, ProtocolView, RapidRecastHttpMethod, RapidRecastProtocolType,
    StatementView,
};
use crate::error::DecodeError;
use crate::json::{field, plain_number, Json};
use crate::version::{segment_value, version_of, version_text, Version};
use vstd::prelude::*;

verus! {

/// An object with one entry, `tag` to `payload`.
pub open spec fn tagged(tag: Seq<char>, payload: Json) -> Json {
    Json::Object(seq![(tag, payload)])
}

/// An optional string: the string, or `null`.
pub open spec fn opt_json(s: Option<Seq<char>>) -> Json {
    match s {
        Some(x) => Json::Str(x),
        None => Json::Null,
    }
}

/// An array of strings.
pub open spec fn strings_json(s: Seq<Seq<char>>) -> Json {
    Json::Array(s.map_values(|x: Seq<char>| Json::Str(x)))
}

/// A pair of strings, as an array of two.
pub open spec fn pair_json(a: Seq<char>, b: Seq<char>) -> Json {
    Json::Array(seq![Json::Str(a), Json::Str(b)])
}

/// A version, as its `major.minor.patch` string.
pub open spec fn version_json(v: Version) -> Json {
    Json::Str(version_text(v))
}

/// The name of an HTTP method.
pub open spec fn method_tag(m: RapidRecastHttpMethod) -> Seq<char> {
    match m {
        RapidRecastHttpMethod::GET => "GET"@,
        RapidRecastHttpMethod::POST => "POST"@,
        RapidRecastHttpMethod::DELETE => "DELETE"@,
        RapidRecastHttpMethod::UPDATE => "UPDATE"@,
        RapidRecastHttpMethod::PATCH => "PATCH"@,
        RapidRecastHttpMethod::PUT => "PUT"@,
        RapidRecastHttpMethod::OPTIONS => "OPTIONS"@,
        RapidRecastHttpMethod::HEAD => "HEAD"@,
        RapidRecastHttpMethod::CONNECT => "CONNECT"@,
        RapidRecastHttpMethod::TRACE => "TRACE"@,
    }
}

/// The name of a protocol.
pub open spec fn protocol_tag(p: RapidRecastProtocolType) -> Seq<char> {
    match p {
        RapidRecastProtocolType::HTTP => "HTTP"@,
        RapidRecastProtocolType::WebSocket => "WebSocket"@,
        RapidRecastProtocolType::Kafka => "Kafka"@,
        RapidRecastProtocolType::RabbitMQ => "RabbitMQ"@,
        RapidRecastProtocolType::Grpc => "Grpc"@,
    }
}

/// The name of a client kind.
pub open spec fn client_tag(c: ClientObject) -> Seq<char> {
    match c {
        ClientObject::Http1 => "Http1"@,
        ClientObject::Http2 => "Http2"@,
        ClientObject::Http3 => "Http3"@,
        ClientObject::Kafka => "Kafka"@,
        ClientObject::Mqtt => "Mqtt"@,
    }
}

/// The name of an RBAC operation.
pub open spec fn rbac_action_tag(a: RapidRecastRbacAction) -> Seq<char> {
    match a {
        RapidRecastRbacAction::Create => "Create"@,
        RapidRecastRbacAction::Read => "Read"@,
        RapidRecastRbacAction::Update => "Update"@,
        RapidRecastRbacAction::Delete => "Delete"@,
        RapidRecastRbacAction::Write => "Write"@,
        RapidRecastRbacAction::List => "List"@,
        RapidRecastRbacAction::Rename => "Rename"@,
    }
}

/// A value, tagged with its kind.
pub open spec fn value_json(v: ValueView) -> Json {
    match v {
        ValueView::Param(s) => tagged("Param"@, Json::Str(s)),
        ValueView::Str(s) => tagged("String"@, Json::Str(s)),
        ValueView::Number(t) => tagged("Number"@, Json::Number(t)),
    }
}

/// The name of a condition's variant.
pub open spec fn condition_tag(c: ConditionView) -> Seq<char> {
    match c {
        ConditionView::Equals(..) => "Equals"@,
        ConditionView::NotEquals(..) => "NotEquals"@,
        ConditionView::GreaterThan(..) => "GreaterThan"@,
        ConditionView::LessThan(..) => "LessThan"@,
        ConditionView::GreaterThanOrEqual(..) => "GreaterThanOrEqual"@,
        ConditionView::LessThanOrEqual(..) => "LessThanOrEqual"@,
        ConditionView::And(..) => "And"@,
        ConditionView::Or(..) => "Or"@,
        ConditionView::Not(..) => "Not"@,
    }
}

/// A binary condition's payload is the array of its two values; `Not`'s is
/// its value.
pub open spec fn condition_json(c: ConditionView) -> Json {
    tagged(
        condition_tag(c),
        match c {
            ConditionView::Equals(a, b) | ConditionView::NotEquals(a, b)
            | ConditionView::GreaterThan(a, b) | ConditionView::LessThan(a, b)
            | ConditionView::GreaterThanOrEqual(a, b) | ConditionView::LessThanOrEqual(a, b)
            | ConditionView::And(a, b) | ConditionView::Or(a, b) => Json::Array(
                seq![value_json(a), value_json(b)],
            ),
            ConditionView::Not(a) => value_json(a),
        },
    )
}

/// A user, as an object with its two fields.
pub open spec fn user_json(u: UserView) -> Json {
    Json::Object(seq![("namespace"@, Json::Str(u.namespace)), ("username"@, Json::Str(u.username))])
}

/// An RBAC subject: `Admin` and `Anon` as strings, a user or role tagged.
pub open spec fn subject_json(s: SubjectView) -> Json {
    match s {
        SubjectView::Admin => Json::Str("Admin"@),
        SubjectView::Anon => Json::Str("Anon"@),
        SubjectView::UserOrRole(n, u) => tagged("UserOrRole"@, pair_json(n, u)),
    }
}

/// An RBAC object, tagged with its kind and then with its variant.
pub open spec fn object_json(o: ObjectView) -> Json {
    match o {
        ObjectView::Namespace(n) => tagged(
            "Namespace"@,
            match n {
                NamespaceView::ExistingNamespace(x) => tagged("ExistingNamespace"@, Json::Str(x)),
                NamespaceView::NonExistingNamespace(x) => tagged(
                    "NonExistingNamespace"@,
                    Json::Str(x),
                ),
            },
        ),
        ObjectView::Protocol(p) => tagged("Protocol"@, Json::Str(protocol_tag(p))),
        ObjectView::Topic(t) => tagged(
            "Topic"@,
            match t {
                TopicView::NonExistingTopic(x) => tagged("NonExistingTopic"@, Json::Str(x)),
                TopicView::NamespaceTopic(n, x) => tagged("NamespaceTopic"@, pair_json(n, x)),
            },
        ),
        ObjectView::Client(c) => tagged("Client"@, Json::Str(client_tag(c))),
        ObjectView::Model(_) => tagged("Model"@, Json::Object(Seq::empty())),
    }
}

/// A policy, as an object with its three fields.
pub open spec fn policy_json(p: PolicyView) -> Json {
    Json::Object(
        seq![
            ("subject"@, subject_json(p.subject)),
            ("object"@, object_json(p.object)),
            ("action"@, Json::Str(rbac_action_tag(p.action))),
        ],
    )
}

/// A metadata mapping, as an object with its entries in order.
pub open spec fn metadata_json(m: Seq<(Seq<char>, Seq<char>)>) -> Json {
    Json::Object(m.map_values(|p: (Seq<char>, Seq<char>)| (p.0, Json::Str(p.1))))
}

/// An authentication action, tagged; its payload is an object of its fields.
pub open spec fn auth_json(a: AuthView) -> Json {
    match a {
        AuthView::CreateUser { subject, password } => tagged(
            "CreateUser"@,
            Json::Object(seq![("subject"@, user_json(subject)), ("password"@, opt_json(password))]),
        ),
        AuthView::AddMetadataToUser { subject, metadata } => tagged(
            "AddMetadataToUser"@,
            Json::Object(
                seq![("subject"@, user_json(subject)), ("metadata"@, metadata_json(metadata))],
            ),
        ),
        AuthView::GrantPermissions { subject, policy } => tagged(
            "GrantPermissions"@,
            Json::Object(
                seq![
                    ("subject"@, user_json(subject)),
                    ("policy"@, Json::Array(policy.map_values(|p: PolicyView| policy_json(p)))),
                ],
            ),
        ),
    }
}

/// An action; a conditional action's branches are actions in turn.
pub open spec fn action_json(a: ActionView) -> Json
    decreases a,
{
    match a {
        ActionView::AuthBasedAction(x) => tagged("AuthBasedAction"@, auth_json(x)),
        ActionView::LogicBasedAction(
            LogicView::ConditionBlock { condition, if_true, if_false },
        ) => tagged(
            "LogicBasedAction"@,
            tagged(
                "ConditionBlock"@,
                Json::Object(
                    seq![
                        ("condition"@, condition_json(condition)),
                        ("if_true"@, action_json(*if_true)),
                        (
                            "if_false"@,
                            match if_false {
                                Some(b) => action_json(*b),
                                None => Json::Null,
                            },
                        ),
                    ],
                ),
            ),
        ),
    }
}

/// An HTTP rule, as an object of its fields; the sequence number in decimal.
pub open spec fn http_json(h: HttpView) -> Json {
    Json::Object(
        seq![
            ("sequence"@, Json::Number(crate::version::decimal(h.sequence as nat))),
            ("paths"@, strings_json(h.paths)),
            (
                "methods"@,
                Json::Array(h.methods.map_values(|m: RapidRecastHttpMethod| Json::Str(method_tag(m)))),
            ),
            ("actions"@, Json::Array(h.actions.map_values(|a: ActionView| action_json(a)))),
        ],
    )
}

/// A statement, tagged; a statement without attributes has an empty object.
pub open spec fn statement_json(s: StatementView) -> Json {
    match s {
        StatementView::ModelDefinition(_) => tagged("ModelDefinition"@, Json::Object(Seq::empty())),
        StatementView::ProtocolDefinition(ProtocolView::HttpProtocolDefinition(h)) => tagged(
            "ProtocolDefinition"@,
            tagged("HttpProtocolDefinition"@, http_json(h)),
        ),
        StatementView::TopicDefinition(_) => tagged("TopicDefinition"@, Json::Object(Seq::empty())),
        StatementView::CronDefinition(_) => tagged("CronDefinition"@, Json::Object(Seq::empty())),
    }
}

/// The JSON encoding of a definition.
pub open spec fn definition_json(d: DefinitionView) -> Json {
    Json::Object(
        seq![
            ("id"@, Json::Str(d.id)),
            ("language_version"@, version_json(d.language_version)),
            ("file_version"@, version_json(d.file_version)),
            ("name"@, opt_json(d.name)),
            ("description"@, opt_json(d.description)),
            ("ast"@, Json::Array(d.ast.map_values(|s: StatementView| statement_json(s)))),
        ],
    )
}

/// How deeply conditional actions may nest inside one another in a decoded
/// document; the text of such a document stays within the nesting that the
/// JSON reader accepts.
pub const MAX_NESTING: u64 = 32;

/// Decodes each item in order; the first failure is the result.
pub open spec fn decode_all<A>(
    items: Seq<Json>,
    f: spec_fn(Json) -> Result<A, DecodeError>,
) -> Result<Seq<A>, DecodeError>
    decreases items.len(),
{
    if items.len() == 0 {
        Ok(Seq::empty())
    } else {
        match decode_all(items.drop_last(), f) {
            Err(e) => Err(e),
            Ok(done) => match f(items.last()) {
                Err(e) => Err(e),
                Ok(x) => Ok(done.push(x)),
            },
        }
    }
}

/// The entries of an object.
pub open spec fn entries_of(j: Json) -> Result<Seq<(Seq<char>, Json)>, DecodeError> {
    match j {
        Json::Object(e) => Ok(e),
        _ => Err(DecodeError::TypeMismatch),
    }
}

/// The items of an array.
pub open spec fn items_of(j: Json) -> Result<Seq<Json>, DecodeError> {
    match j {
        Json::Array(a) => Ok(a),
        _ => Err(DecodeError::TypeMismatch),
    }
}

/// The characters of a string.
pub open spec fn str_of(j: Json) -> Result<Seq<char>, DecodeError> {
    match j {
        Json::Str(s) => Ok(s),
        _ => Err(DecodeError::TypeMismatch),
    }
}

/// A field that must be present.
pub open spec fn required(e: Seq<(Seq<char>, Json)>, key: Seq<char>) -> Result<
    Json,
    DecodeError,
> {
    match field(e, key) {
        Some(j) => Ok(j),
        None => Err(DecodeError::MissingField),
    }
}

/// A string field that must be present.
pub open spec fn str_field(e: Seq<(Seq<char>, Json)>, key: Seq<char>) -> Result<
    Seq<char>,
    DecodeError,
> {
    match required(e, key) {
        Ok(j) => str_of(j),
        Err(err) => Err(err),
    }
}

/// An optional string field: absent and `null` both mean none.
pub open spec fn opt_field(e: Seq<(Seq<char>, Json)>, key: Seq<char>) -> Result<
    Option<Seq<char>>,
    DecodeError,
> {
    match field(e, key) {
        None => Ok(None),
        Some(Json::Null) => Ok(None),
        Some(Json::Str(s)) => Ok(Some(s)),
        Some(_) => Err(DecodeError::TypeMismatch),
    }
}

/// The one entry of a tagged value.
pub open spec fn single(j: Json) -> Result<(Seq<char>, Json), DecodeError> {
    match j {
        Json::Object(e) => if e.len() == 1 {
            Ok(e[0])
        } else {
            Err(DecodeError::TypeMismatch)
        },
        _ => Err(DecodeError::TypeMismatch),
    }
}

/// Two strings, as an array of two.
pub open spec fn pair_of(j: Json) -> Result<(Seq<char>, Seq<char>), DecodeError> {
    match j {
        Json::Array(a) => if a.len() == 2 {
            match (a[0], a[1]) {
                (Json::Str(x), Json::Str(y)) => Ok((x, y)),
                _ => Err(DecodeError::TypeMismatch),
            }
        } else {
            Err(DecodeError::TypeMismatch)
        },
        _ => Err(DecodeError::TypeMismatch),
    }
}

/// The variant of a payload-less enum named by a string value.
pub open spec fn unit_of<A>(j: Json, named: spec_fn(Seq<char>) -> Option<A>) -> Result<
    A,
    DecodeError,
> {
    match j {
        Json::Str(s) => match named(s) {
            Some(x) => Ok(x),
            None => Err(DecodeError::UnknownVariant),
        },
        _ => Err(DecodeError::TypeMismatch),
    }
}

/// The HTTP method that `s` names, if any.
pub open spec fn method_named(s: Seq<char>) -> Option<RapidRecastHttpMethod> {
    if s == "GET"@ {
        Some(RapidRecastHttpMethod::GET)
    } else if s == "POST"@ {
        Some(RapidRecastHttpMethod::POST)
    } else if s == "DELETE"@ {
        Some(RapidRecastHttpMethod::DELETE)
    } else if s == "UPDATE"@ {
        Some(RapidRecastHttpMethod::UPDATE)
    } else if s == "PATCH"@ {
        Some(RapidRecastHttpMethod::PATCH)
    } else if s == "PUT"@ {
        Some(RapidRecastHttpMethod::PUT)
    } else if s == "OPTIONS"@ {
        Some(RapidRecastHttpMethod::OPTIONS)
    } else if s == "HEAD"@ {
        Some(RapidRecastHttpMethod::HEAD)
    } else if s == "CONNECT"@ {
        Some(RapidRecastHttpMethod::CONNECT)
    } else if s == "TRACE"@ {
        Some(RapidRecastHttpMethod::TRACE)
    } else {
        None
    }
}

/// The protocol that `s` names, if any.
pub open spec fn protocol_named(s: Seq<char>) -> Option<RapidRecastProtocolType> {
    if s == "HTTP"@ {
        Some(RapidRecastProtocolType::HTTP)
    } else if s == "WebSocket"@ {
        Some(RapidRecastProtocolType::WebSocket)
    } else if s == "Kafka"@ {
        Some(RapidRecastProtocolType::Kafka)
    } else if s == "RabbitMQ"@ {
        Some(RapidRecastProtocolType::RabbitMQ)
    } else if s == "Grpc"@ {
        Some(RapidRecastProtocolType::Grpc)
    } else {
        None
    }
}

/// The client kind that `s` names, if any.
pub open spec fn client_named(s: Seq<char>) -> Option<ClientObject> {
    if s == "Http1"@ {
        Some(ClientObject::Http1)
    } else if s == "Http2"@ {
        Some(ClientObject::Http2)
    } else if s == "Http3"@ {
        Some(ClientObject::Http3)
    } else if s == "Kafka"@ {
        Some(ClientObject::Kafka)
    } else if s == "Mqtt"@ {
        Some(ClientObject::Mqtt)
    } else {
        None
    }
}

/// The RBAC operation that `s` names, if any.
pub open spec fn rbac_action_named(s: Seq<char>) -> Option<RapidRecastRbacAction> {
    if s == "Create"@ {
        Some(RapidRecastRbacAction::Create)
    } else if s == "Read"@ {
        Some(RapidRecastRbacAction::Read)
    } else if s == "Update"@ {
        Some(RapidRecastRbacAction::Update)
    } else if s == "Delete"@ {
        Some(RapidRecastRbacAction::Delete)
    } else if s == "Write"@ {
        Some(RapidRecastRbacAction::Write)
    } else if s == "List"@ {
        Some(RapidRecastRbacAction::List)
    } else if s == "Rename"@ {
        Some(RapidRecastRbacAction::Rename)
    } else {
        None
    }
}

/// What decoding a value gives.
pub open spec fn value_of(j: Json) -> Result<ValueView, DecodeError> {
    match single(j) {
        Err(e) => Err(e),
        Ok((tag, p)) => if tag == "Param"@ {
            match str_of(p) {
                Ok(s) => Ok(ValueView::Param(s)),
                Err(e) => Err(e),
            }
        } else if tag == "String"@ {
            match str_of(p) {
                Ok(s) => Ok(ValueView::Str(s)),
                Err(e) => Err(e),
            }
        } else if tag == "Number"@ {
            match p {
                Json::Number(t) => Ok(ValueView::Number(t)),
                _ => Err(DecodeError::TypeMismatch),
            }
        } else {
            Err(DecodeError::UnknownVariant)
        },
    }
}

/// The binary condition named `tag`, over `a` and `b`.
pub open spec fn binary_named(tag: Seq<char>, a: ValueView, b: ValueView) -> Option<ConditionView> {
    if tag == "Equals"@ {
        Some(ConditionView::Equals(a, b))
    } else if tag == "NotEquals"@ {
        Some(ConditionView::NotEquals(a, b))
    } else if tag == "GreaterThan"@ {
        Some(ConditionView::GreaterThan(a, b))
    } else if tag == "LessThan"@ {
        Some(ConditionView::LessThan(a, b))
    } else if tag == "GreaterThanOrEqual"@ {
        Some(ConditionView::GreaterThanOrEqual(a, b))
    } else if tag == "LessThanOrEqual"@ {
        Some(ConditionView::LessThanOrEqual(a, b))
    } else if tag == "And"@ {
        Some(ConditionView::And(a, b))
    } else if tag == "Or"@ {
        Some(ConditionView::Or(a, b))
    } else {
        None
    }
}

/// Whether `tag` names a binary condition.
pub open spec fn is_binary_tag(tag: Seq<char>) -> bool {
    tag == "Equals"@ || tag == "NotEquals"@ || tag == "GreaterThan"@ || tag == "LessThan"@
        || tag == "GreaterThanOrEqual"@ || tag == "LessThanOrEqual"@ || tag == "And"@ || tag
        == "Or"@
}

/// What decoding a condition gives.
pub open spec fn condition_of(j: Json) -> Result<ConditionView, DecodeError> {
    match single(j) {
        Err(e) => Err(e),
        Ok((tag, p)) => if tag == "Not"@ {
            match value_of(p) {
                Ok(v) => Ok(ConditionView::Not(v)),
                Err(e) => Err(e),
            }
        } else if is_binary_tag(tag) {
            match p {
                Json::Array(a) => if a.len() == 2 {
                    match (value_of(a[0]), value_of(a[1])) {
                        (Err(e), _) => Err(e),
                        (Ok(_), Err(e)) => Err(e),
                        (Ok(x), Ok(y)) => Ok(binary_named(tag, x, y).unwrap()),
                    }
                } else {
                    Err(DecodeError::TypeMismatch)
                },
                _ => Err(DecodeError::TypeMismatch),
            }
        } else {
            Err(DecodeError::UnknownVariant)
        },
    }
}

/// What decoding a user gives.
pub open spec fn user_of(j: Json) -> Result<UserView, DecodeError> {
    match entries_of(j) {
        Err(e) => Err(e),
        Ok(e) => match (str_field(e, "namespace"@), str_field(e, "username"@)) {
            (Err(x), _) => Err(x),
            (Ok(_), Err(x)) => Err(x),
            (Ok(namespace), Ok(username)) => Ok(UserView { namespace, username }),
        },
    }
}

/// What decoding an RBAC subject gives.
pub open spec fn subject_of(j: Json) -> Result<SubjectView, DecodeError> {
    match j {
        Json::Str(s) => if s == "Admin"@ {
            Ok(SubjectView::Admin)
        } else if s == "Anon"@ {
            Ok(SubjectView::Anon)
        } else {
            Err(DecodeError::UnknownVariant)
        },
        _ => match single(j) {
            Err(e) => Err(e),
            Ok((tag, p)) => if tag == "UserOrRole"@ {
                match pair_of(p) {
                    Ok((n, u)) => Ok(SubjectView::UserOrRole(n, u)),
                    Err(e) => Err(e),
                }
            } else {
                Err(DecodeError::UnknownVariant)
            },
        },
    }
}

/// What decoding a namespace object gives.
pub open spec fn namespace_of(j: Json) -> Result<NamespaceView, DecodeError> {
    match single(j) {
        Err(e) => Err(e),
        Ok((tag, p)) => if tag == "ExistingNamespace"@ {
            match str_of(p) {
                Ok(s) => Ok(NamespaceView::ExistingNamespace(s)),
                Err(e) => Err(e),
            }
        } else if tag == "NonExistingNamespace"@ {
            match str_of(p) {
                Ok(s) => Ok(NamespaceView::NonExistingNamespace(s)),
                Err(e) => Err(e),
            }
        } else {
            Err(DecodeError::UnknownVariant)
        },
    }
}

/// What decoding a topic object gives.
pub open spec fn topic_of(j: Json) -> Result<TopicView, DecodeError> {
    match single(j) {
        Err(e) => Err(e),
        Ok((tag, p)) => if tag == "NonExistingTopic"@ {
            match str_of(p) {
                Ok(s) => Ok(TopicView::NonExistingTopic(s)),
                Err(e) => Err(e),
            }
        } else if tag == "NamespaceTopic"@ {
            match pair_of(p) {
                Ok((n, t)) => Ok(TopicView::NamespaceTopic(n, t)),
                Err(e) => Err(e),
            }
        } else {
            Err(DecodeError::UnknownVariant)
        },
    }
}

/// What decoding an RBAC object gives.
pub open spec fn rbac_object_of(j: Json) -> Result<ObjectView, DecodeError> {
    match single(j) {
        Err(e) => Err(e),
        Ok((tag, p)) => if tag == "Namespace"@ {
            match namespace_of(p) {
                Ok(n) => Ok(ObjectView::Namespace(n)),
                Err(e) => Err(e),
            }
        } else if tag == "Protocol"@ {
            match unit_of(p, |s| protocol_named(s)) {
                Ok(x) => Ok(ObjectView::Protocol(x)),
                Err(e) => Err(e),
            }
        } else if tag == "Topic"@ {
            match topic_of(p) {
                Ok(t) => Ok(ObjectView::Topic(t)),
                Err(e) => Err(e),
            }
        } else if tag == "Client"@ {
            match unit_of(p, |s| client_named(s)) {
                Ok(x) => Ok(ObjectView::Client(x)),
                Err(e) => Err(e),
            }
        } else if tag == "Model"@ {
            match p {
                Json::Object(_) => Ok(ObjectView::Model(ModelObject {  })),
                _ => Err(DecodeError::TypeMismatch),
            }
        } else {
            Err(DecodeError::UnknownVariant)
        },
    }
}

/// What decoding a policy gives.
pub open spec fn policy_of(j: Json) -> Result<PolicyView, DecodeError> {
    match entries_of(j) {
        Err(e) => Err(e),
        Ok(e) => match required(e, "subject"@) {
            Err(x) => Err(x),
            Ok(sj) => match subject_of(sj) {
                Err(x) => Err(x),
                Ok(subject) => match required(e, "object"@) {
                    Err(x) => Err(x),
                    Ok(oj) => match rbac_object_of(oj) {
                        Err(x) => Err(x),
                        Ok(object) => match required(e, "action"@) {
                            Err(x) => Err(x),
                            Ok(aj) => match unit_of(aj, |s| rbac_action_named(s)) {
                                Err(x) => Err(x),
                                Ok(action) => Ok(PolicyView { subject, object, action }),
                            },
                        },
                    },
                },
            },
        },
    }
}

/// Adds `k` to `v` to a mapping kept as entries in key order: an existing
/// entry for `k` takes the new value in place; otherwise the entry goes in
/// front of the first greater key, or last.
pub open spec fn put(m: Seq<(Seq<char>, Seq<char>)>, k: Seq<char>, v: Seq<char>) -> Seq<
    (Seq<char>, Seq<char>),
>
    decreases m.len(),
{
    if m.len() == 0 {
        seq![(k, v)]
    } else if m[0].0 == k {
        m.update(0, (k, v))
    } else if key_less(k, m[0].0) {
        seq![(k, v)] + m
    } else {
        seq![m[0]] + put(m.drop_first(), k, v)
    }
}

/// Past a prefix of entries whose keys are neither `k` nor greater than it,
/// `put` leaves the prefix alone.
pub proof fn lemma_put_prefix(
    m: Seq<(Seq<char>, Seq<char>)>,
    k: Seq<char>,
    v: Seq<char>,
    j: int,
)
    requires
        0 <= j <= m.len(),
        forall|x: int| 0 <= x < j ==> (#[trigger] m[x]).0 != k && !key_less(k, m[x].0),
    ensures
        put(m, k, v) == m.take(j) + put(m.skip(j), k, v),
    decreases j,
{
    if j > 0 {
        let r = m.drop_first();
        assert forall|x: int| 0 <= x < j - 1 implies (#[trigger] r[x]).0 != k && !key_less(
            k,
            r[x].0,
        ) by {
            assert(r[x] == m[x + 1]);
        }
        lemma_put_prefix(r, k, v, j - 1);
        assert(r.skip(j - 1) =~= m.skip(j));
        assert(seq![m[0]] + r.take(j - 1) =~= m.take(j));
    } else {
        assert(m.skip(0) =~= m);
        assert(m.take(0) + put(m, k, v) =~= put(m, k, v));
    }
}

/// A metadata mapping from the entries of an object, whose values must be
/// strings; of entries with equal keys, the last one's value wins.
pub open spec fn metadata_of(e: Seq<(Seq<char>, Json)>) -> Result<
    Seq<(Seq<char>, Seq<char>)>,
    DecodeError,
>
    decreases e.len(),
{
    if e.len() == 0 {
        Ok(Seq::empty())
    } else {
        match metadata_of(e.drop_last()) {
            Err(x) => Err(x),
            Ok(m) => match e.last().1 {
                Json::Str(v) => Ok(put(m, e.last().0, v)),
                _ => Err(DecodeError::TypeMismatch),
            },
        }
    }
}

/// What decoding an authentication action gives.
pub open spec fn auth_of(j: Json) -> Result<AuthView, DecodeError> {
    match single(j) {
        Err(e) => Err(e),
        Ok((tag, p)) => match entries_of(p) {
            Err(e) => Err(e),
            Ok(e) => match required(e, "subject"@) {
                Err(x) => Err(x),
                Ok(sj) => match user_of(sj) {
                    Err(x) => Err(x),
                    Ok(subject) => if tag == "CreateUser"@ {
                        match opt_field(e, "password"@) {
                            Err(x) => Err(x),
                            Ok(password) => Ok(AuthView::CreateUser { subject, password }),
                        }
                    } else if tag == "AddMetadataToUser"@ {
                        match required(e, "metadata"@) {
                            Err(x) => Err(x),
                            Ok(mj) => match entries_of(mj) {
                                Err(x) => Err(x),
                                Ok(me) => match metadata_of(me) {
                                    Err(x) => Err(x),
                                    Ok(metadata) => Ok(AuthView::AddMetadataToUser { subject, metadata }),
                                },
                            },
                        }
                    } else if tag == "GrantPermissions"@ {
                        match required(e, "policy"@) {
                            Err(x) => Err(x),
                            Ok(pj) => match items_of(pj) {
                                Err(x) => Err(x),
                                Ok(items) => match decode_all(items, |i: Json| policy_of(i)) {
                                    Err(x) => Err(x),
                                    Ok(policy) => Ok(AuthView::GrantPermissions { subject, policy }),
                                },
                            },
                        }
                    } else {
                        Err(DecodeError::UnknownVariant)
                    },
                },
            },
        },
    }
}

/// An action whose conditional blocks nest at most `depth` deep.
pub open spec fn action_of(j: Json, depth: nat) -> Result<ActionView, DecodeError>
    decreases depth,
{
    match single(j) {
        Err(e) => Err(e),
        Ok((tag, p)) => if tag == "AuthBasedAction"@ {
            match auth_of(p) {
                Ok(a) => Ok(ActionView::AuthBasedAction(a)),
                Err(e) => Err(e),
            }
        } else if tag == "LogicBasedAction"@ {
            match single(p) {
                Err(e) => Err(e),
                Ok((ltag, lp)) => if ltag != "ConditionBlock"@ {
                    Err(DecodeError::UnknownVariant)
                } else {
                    match entries_of(lp) {
                        Err(e) => Err(e),
                        Ok(e) => match required(e, "condition"@) {
                            Err(x) => Err(x),
                            Ok(cj) => match condition_of(cj) {
                                Err(x) => Err(x),
                                Ok(condition) => match required(e, "if_true"@) {
                                    Err(x) => Err(x),
                                    Ok(tj) => if depth == 0 {
                                        Err(DecodeError::NestingTooDeep)
                                    } else {
                                        match action_of(tj, (depth - 1) as nat) {
                                            Err(x) => Err(x),
                                            Ok(t) => match field(e, "if_false"@) {
                                                None | Some(Json::Null) => Ok(
                                                    ActionView::LogicBasedAction(
                                                        LogicView::ConditionBlock {
                                                            condition,
                                                            if_true: Box::new(t),
                                                            if_false: None,
                                                        },
                                                    ),
                                                ),
                                                Some(fj) => match action_of(fj, (depth - 1) as nat) {
                                                    Err(x) => Err(x),
                                                    Ok(f) => Ok(
                                                        ActionView::LogicBasedAction(
                                                            LogicView::ConditionBlock {
                                                                condition,
                                                                if_true: Box::new(t),
                                                                if_false: Some(Box::new(f)),
                                                            },
                                                        ),
                                                    ),
                                                },
                                            },
                                        }
                                    },
                                },
                            },
                        },
                    }
                },
            }
        } else {
            Err(DecodeError::UnknownVariant)
        },
    }
}

/// A sequence number: a non-negative integer below 256.
pub open spec fn sequence_of(j: Json) -> Result<u8, DecodeError> {
    match j {
        Json::Number(t) => match segment_value(t) {
            Some(n) => if n <= 255 {
                Ok(n as u8)
            } else {
                Err(DecodeError::TypeMismatch)
            },
            None => Err(DecodeError::TypeMismatch),
        },
        _ => Err(DecodeError::TypeMismatch),
    }
}

/// A list field: present, and an array whose items all decode.
pub open spec fn list_field<A>(
    e: Seq<(Seq<char>, Json)>,
    key: Seq<char>,
    f: spec_fn(Json) -> Result<A, DecodeError>,
) -> Result<Seq<A>, DecodeError> {
    match required(e, key) {
        Err(x) => Err(x),
        Ok(j) => match items_of(j) {
            Err(x) => Err(x),
            Ok(items) => decode_all(items, f),
        },
    }
}

/// What decoding an HTTP rule gives.
pub open spec fn http_of(j: Json) -> Result<HttpView, DecodeError> {
    match entries_of(j) {
        Err(e) => Err(e),
        Ok(e) => match required(e, "sequence"@) {
            Err(x) => Err(x),
            Ok(sj) => match sequence_of(sj) {
                Err(x) => Err(x),
                Ok(sequence) => match list_field(e, "paths"@, |i: Json| str_of(i)) {
                    Err(x) => Err(x),
                    Ok(paths) => match list_field(
                        e,
                        "methods"@,
                        |i: Json| unit_of(i, |s| method_named(s)),
                    ) {
                        Err(x) => Err(x),
                        Ok(methods) => match list_field(
                            e,
                            "actions"@,
                            |i: Json| action_of(i, MAX_NESTING as nat),
                        ) {
                            Err(x) => Err(x),
                            Ok(actions) => Ok(HttpView { sequence, paths, methods, actions }),
                        },
                    },
                },
            },
        },
    }
}

/// What decoding a statement gives.
pub open spec fn statement_of(j: Json) -> Result<StatementView, DecodeError> {
    match single(j) {
        Err(e) => Err(e),
        Ok((tag, p)) => if tag == "ProtocolDefinition"@ {
            match single(p) {
                Err(e) => Err(e),
                Ok((ptag, pp)) => if ptag == "HttpProtocolDefinition"@ {
                    match http_of(pp) {
                        Err(e) => Err(e),
                        Ok(h) => Ok(
                            StatementView::ProtocolDefinition(ProtocolView::HttpProtocolDefinition(h)),
                        ),
                    }
                } else {
                    Err(DecodeError::UnknownVariant)
                },
            }
        } else if tag == "ModelDefinition"@ || tag == "TopicDefinition"@ || tag
            == "CronDefinition"@ {
            match p {
                Json::Object(_) => Ok(
                    if tag == "ModelDefinition"@ {
                        StatementView::ModelDefinition(RapidModelDefinition {  })
                    } else if tag == "TopicDefinition"@ {
                        StatementView::TopicDefinition(RapidTopicDefinition {  })
                    } else {
                        StatementView::CronDefinition(RapidCronDefinition {  })
                    },
                ),
                _ => Err(DecodeError::TypeMismatch),
            }
        } else {
            Err(DecodeError::UnknownVariant)
        },
    }
}

/// A version field: a string in `major.minor.patch` form.
pub open spec fn version_field(e: Seq<(Seq<char>, Json)>, key: Seq<char>) -> Result<
    Version,
    DecodeError,
> {
    match str_field(e, key) {
        Err(x) => Err(x),
        Ok(s) => version_of(s),
    }
}

/// What decoding a JSON value as a definition gives. Unknown fields are
/// ignored.
pub open spec fn definition_of(j: Json) -> Result<DefinitionView, DecodeError> {
    match entries_of(j) {
        Err(e) => Err(e),
        Ok(e) => match str_field(e, "id"@) {
            Err(x) => Err(x),
            Ok(id) => match version_field(e, "language_version"@) {
                Err(x) => Err(x),
                Ok(language_version) => match version_field(e, "file_version"@) {
                    Err(x) => Err(x),
                    Ok(file_version) => match opt_field(e, "name"@) {
                        Err(x) => Err(x),
                        Ok(name) => match opt_field(e, "description"@) {
                            Err(x) => Err(x),
                            Ok(description) => match list_field(
                                e,
                                "ast"@,
                                |i: Json| statement_of(i),
                            ) {
                                Err(x) => Err(x),
                                Ok(ast) => Ok(
                                    DefinitionView {
                                        id,
                                        language_version,
                                        file_version,
                                        name,
                                        description,
                                        ast,
                                    },
                                ),
                            },
                        },
                    },
                },
            },
        },
    }
}

/// Decoding one more item of a list.
pub proof fn lemma_decode_all_step<A>(
    items: Seq<Json>,
    f: spec_fn(Json) -> Result<A, DecodeError>,
    i: int,
)
    requires
        0 <= i < items.len(),
    ensures
        decode_all(items.take(i + 1), f) == match decode_all(items.take(i), f) {
            Err(e) => Err(e),
            Ok(done) => match f(items[i]) {
                Err(e) => Err(e),
                Ok(x) => Ok(done.push(x)),
            },
        },
{
    assert(items.take(i + 1).drop_last() =~= items.take(i));
    assert(items.take(i + 1).last() == items[i]);
}

/// A failure in a prefix of a list is the failure of the whole list.
pub proof fn lemma_decode_all_err<A>(
    items: Seq<Json>,
    f: spec_fn(Json) -> Result<A, DecodeError>,
    k: int,
)
    requires
        0 <= k <= items.len(),
        decode_all(items.take(k), f) is Err,
    ensures
        decode_all(items, f) == decode_all(items.take(k), f),
    decreases items.len() - k,
{
    if k < items.len() {
        lemma_decode_all_step(items, f, k);
        lemma_decode_all_err(items, f, k + 1);
    } else {
        assert(items.take(k) =~= items);
    }
}

/// A failure in a prefix of an object's entries is the failure of the whole
/// metadata mapping.
pub proof fn lemma_metadata_err(e: Seq<(Seq<char>, Json)>, k: int)
    requires
        0 <= k <= e.len(),
        metadata_of(e.take(k)) is Err,
    ensures
        metadata_of(e) == metadata_of(e.take(k)),
    decreases e.len() - k,
{
    if k < e.len() {
        assert(e.take(k + 1).drop_last() =~= e.take(k));
        lemma_metadata_err(e, k + 1);
    } else {
        assert(e.take(k) =~= e);
    }
}

/// Whether `a` comes before `b` in the order of strings: by characters from
/// the first, a proper prefix first. This is the order of `String`'s `Ord`,
/// which compares UTF-8 bytes, and so the order in which a JSON object's keys
/// are read and written.
pub open spec fn key_less(a: Seq<char>, b: Seq<char>) -> bool
    decreases a.len(),
{
    if a.len() == 0 {
        b.len() > 0
    } else if b.len() == 0 {
        false
    } else if a[0] != b[0] {
        a[0] < b[0]
    } else {
        key_less(a.drop_first(), b.drop_first())
    }
}

/// Whether the keys of a metadata mapping are in strictly increasing order.
pub open spec fn sorted_keys(m: Seq<(Seq<char>, Seq<char>)>) -> bool {
    forall|a: int, b: int| 0 <= a < b < m.len() ==> key_less((#[trigger] m[a]).0, (#[trigger] m[b]).0)
}

/// No string comes before itself.
pub proof fn lemma_key_less_irreflexive(a: Seq<char>)
    ensures
        !key_less(a, a),
    decreases a.len(),
{
    if a.len() > 0 {
        lemma_key_less_irreflexive(a.drop_first());
    }
}

/// No two strings come before each other.
pub proof fn lemma_key_less_asymmetric(a: Seq<char>, b: Seq<char>)
    ensures
        !(key_less(a, b) && key_less(b, a)),
    decreases a.len(),
{
    if a.len() > 0 && b.len() > 0 && a[0] == b[0] {
        lemma_key_less_asymmetric(a.drop_first(), b.drop_first());
    }
}

/// The order of strings is transitive.
pub proof fn lemma_key_less_transitive(a: Seq<char>, b: Seq<char>, c: Seq<char>)
    requires
        key_less(a, b),
        key_less(b, c),
    ensures
        key_less(a, c),
    decreases a.len(),
{
    if a.len() > 0 && b.len() > 0 && c.len() > 0 && a[0] == b[0] && b[0] == c[0] {
        lemma_key_less_transitive(a.drop_first(), b.drop_first(), c.drop_first());
    }
}

/// Of two different strings, one comes before the other.
pub proof fn lemma_key_less_total(a: Seq<char>, b: Seq<char>)
    requires
        a != b,
    ensures
        key_less(a, b) || key_less(b, a),
    decreases a.len(),
{
    if a.len() > 0 && b.len() > 0 && a[0] == b[0] {
        if a.drop_first() == b.drop_first() {
            assert(a =~= seq![a[0]] + a.drop_first());
            assert(b =~= seq![b[0]] + b.drop_first());
        }
        lemma_key_less_total(a.drop_first(), b.drop_first());
    } else if a.len() == 0 && b.len() == 0 {
        assert(a =~= b);
    }
}

/// Whether a value's number literal, if it has one, is plain.
pub open spec fn value_plain(v: ValueView) -> bool {
    match v {
        ValueView::Number(t) => plain_number(t),
        _ => true,
    }
}

/// Whether the number literals of a condition are plain.
pub open spec fn condition_plain(c: ConditionView) -> bool {
    match c {
        ConditionView::Equals(a, b) | ConditionView::NotEquals(a, b)
        | ConditionView::GreaterThan(a, b) | ConditionView::LessThan(a, b)
        | ConditionView::GreaterThanOrEqual(a, b) | ConditionView::LessThanOrEqual(a, b)
        | ConditionView::And(a, b) | ConditionView::Or(a, b) => value_plain(a) && value_plain(b),
        ConditionView::Not(a) => value_plain(a),
    }
}

/// Whether the number literals of an action's conditions are plain.
pub open spec fn action_plain(a: ActionView) -> bool
    decreases a,
{
    match a {
        ActionView::AuthBasedAction(_) => true,
        ActionView::LogicBasedAction(
            LogicView::ConditionBlock { condition, if_true, if_false },
        ) => condition_plain(condition) && action_plain(*if_true) && match if_false {
            Some(b) => action_plain(*b),
            None => true,
        },
    }
}

/// Whether every number literal in a definition is plain.
pub open spec fn definition_plain(d: DefinitionView) -> bool {
    forall|i: int|
        0 <= i < d.ast.len() ==> match #[trigger] d.ast[i] {
            StatementView::ProtocolDefinition(ProtocolView::HttpProtocolDefinition(h)) => forall|
                k: int,
            |
                0 <= k < h.actions.len() ==> action_plain(#[trigger] h.actions[k]),
            _ => true,
        }
}

/// How deeply conditional blocks nest in an action.
pub open spec fn nesting(a: ActionView) -> nat
    decreases a,
{
    match a {
        ActionView::AuthBasedAction(_) => 0,
        ActionView::LogicBasedAction(LogicView::ConditionBlock { if_true, if_false, .. }) => {
            let t = nesting(*if_true);
            let f = match if_false {
                Some(b) => nesting(*b),
                None => 0,
            };
            1 + if t >= f {
                t
            } else {
                f
            }
        },
    }
}

/// Whether every metadata mapping in an action has its keys in strictly
/// increasing order, as a JSON object's keys are read back.
pub open spec fn action_wf(a: ActionView) -> bool
    decreases a,
{
    match a {
        ActionView::AuthBasedAction(AuthView::AddMetadataToUser { metadata, .. }) => sorted_keys(
            metadata,
        ),
        ActionView::AuthBasedAction(_) => true,
        ActionView::LogicBasedAction(LogicView::ConditionBlock { if_true, if_false, .. }) => {
            action_wf(*if_true) && match if_false {
                Some(b) => action_wf(*b),
                None => true,
            }
        },
    }
}

/// Whether a definition can be told apart from every other by its
/// encoding: metadata keys are in strictly increasing order, and conditional blocks nest at most
/// `MAX_NESTING` deep.
pub open spec fn definition_wf(d: DefinitionView) -> bool {
    forall|i: int|
        0 <= i < d.ast.len() ==> match #[trigger] d.ast[i] {
            StatementView::ProtocolDefinition(ProtocolView::HttpProtocolDefinition(h)) => forall|
                k: int,
            |
                0 <= k < h.actions.len() ==> action_wf(#[trigger] h.actions[k]) && nesting(
                    h.actions[k],
                ) <= MAX_NESTING,
            _ => true,
        }
}

} // verus!
